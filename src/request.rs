use vstd::prelude::*;
use crate::headers::HeaderMap;
use crate::util::HttpMethod;

verus! {

/// What a completed request consists of.
pub struct RequestModel {
    pub target: Seq<char>,
    pub headers: Map<Seq<char>, Seq<char>>,
    pub method: HttpMethod,
}

/// A parsed request: its target, its header fields and its method.
pub struct HttpRequest {
    target: String,
    headers: HeaderMap,
    method: HttpMethod,
}

impl View for HttpRequest {
    type V = RequestModel;

    closed spec fn view(&self) -> RequestModel {
        RequestModel { target: self.target@, headers: self.headers@, method: self.method }
    }
}

impl HttpRequest {
    pub closed spec fn wf(&self) -> bool {
        self.headers.wf()
    }

    pub fn new(target: String, headers: HeaderMap, method: HttpMethod) -> (r: HttpRequest)
        requires
            headers.wf(),
        ensures
            r.wf(),
            r@ == (RequestModel { target: target@, headers: headers@, method }),
    {
        HttpRequest { target, headers, method }
    }

    pub fn target(&self) -> (r: &str)
        ensures
            r@ == self@.target,
    {
        self.target.as_str()
    }

    /// The value of the header field `key`; names are stored in lower case.
    pub fn header(&self, key: &str) -> (r: Option<&String>)
        requires
            self.wf(),
        ensures
            r is Some <==> self@.headers.contains_key(key@),
            r is Some ==> r.unwrap()@ == self@.headers[key@],
    {
        self.headers.get(key)
    }

    pub fn method(&self) -> (r: &HttpMethod)
        ensures
            *r == self@.method,
    {
        &self.method
    }
}

} // verus!
