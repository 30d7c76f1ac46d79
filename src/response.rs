use vstd::prelude::*;
use crate::headers::HeaderMap;
use crate::util::{push_char, HttpMethod};

verus! {

/// The reply sent for a request that could not be parsed.
pub const BAD_REQUEST_RESPONSE: &'static str = "HTTP/1.1 400\r\nConnection: close\r\n\r\n";

/// The value of the `Server` header field.
pub const SERVER_NAME: &'static str = "http_server";

/// The body sent with a 404 response.
pub const NOT_FOUND_BODY: &'static str = "File not found";

/// The body sent with a 405 response.
pub const METHOD_NOT_ALLOWED_BODY: &'static str = "Method not allowed";

#[derive(Clone, Copy, Debug, PartialEq, Eq, Structural)]
#[non_exhaustive]
pub enum HttpStatusCode {
    Continue,
    SwitchingProtocols,
    OK,
    Accepted,
    NonAuthoritativeInformation,
    NoContent,
    NotModified,
    BadRequest,
    NotFound,
    MethodNotAllowed,
    InternalServerError,
}

pub open spec fn status_code(s: HttpStatusCode) -> u16 {
    match s {
        HttpStatusCode::Continue => 100,
        HttpStatusCode::SwitchingProtocols => 101,
        HttpStatusCode::OK => 200,
        HttpStatusCode::Accepted => 202,
        HttpStatusCode::NonAuthoritativeInformation => 203,
        HttpStatusCode::NoContent => 204,
        HttpStatusCode::NotModified => 304,
        HttpStatusCode::BadRequest => 400,
        HttpStatusCode::NotFound => 404,
        HttpStatusCode::MethodNotAllowed => 405,
        HttpStatusCode::InternalServerError => 500,
    }
}

impl HttpStatusCode {
    /// The three-digit status code.
    pub fn code(&self) -> (r: u16)
        ensures
            r == status_code(*self),
    {
        match self {
            HttpStatusCode::Continue => 100,
            HttpStatusCode::SwitchingProtocols => 101,
            HttpStatusCode::OK => 200,
            HttpStatusCode::Accepted => 202,
            HttpStatusCode::NonAuthoritativeInformation => 203,
            HttpStatusCode::NoContent => 204,
            HttpStatusCode::NotModified => 304,
            HttpStatusCode::BadRequest => 400,
            HttpStatusCode::NotFound => 404,
            HttpStatusCode::MethodNotAllowed => 405,
            HttpStatusCode::InternalServerError => 500,
        }
    }
}

pub open spec fn digit_char(d: nat) -> char {
    ((d + 48) as u8) as char
}

/// The decimal numeral of `n`, without leading zeros.
pub open spec fn decimal(n: nat) -> Seq<char>
    decreases n,
{
    if n < 10 {
        seq![digit_char(n)]
    } else {
        decimal(n / 10).push(digit_char(n % 10))
    }
}

pub fn decimal_string(n: u64) -> (r: String)
    ensures
        r@ == decimal(n as nat),
    decreases n,
{
    let d = ((n % 10) as u8 + 48) as char;
    if n < 10 {
        let mut s = String::new();
        push_char(&mut s, d);
        assert(s@ =~= decimal(n as nat));
        s
    } else {
        let mut s = decimal_string(n / 10);
        push_char(&mut s, d);
        s
    }
}

/// The header lines of a response, each `name: value` and CRLF.
pub open spec fn header_lines(p: Seq<(Seq<char>, Seq<char>)>) -> Seq<char>
    decreases p.len(),
{
    if p.len() == 0 {
        Seq::empty()
    } else {
        header_lines(p.drop_last()) + p.last().0 + seq![':', ' '] + p.last().1 + seq!['\r', '\n']
    }
}

/// Status line, header lines and the blank line that ends them.
pub open spec fn render_head(status: HttpStatusCode, p: Seq<(Seq<char>, Seq<char>)>) -> Seq<char> {
    seq!['H', 'T', 'T', 'P', '/', '1', '.', '1', ' '] + decimal(status_code(status) as nat)
        + seq![' ', '\r', '\n'] + header_lines(p) + seq!['\r', '\n']
}

pub open spec fn has_suffix(s: Seq<char>, suffix: Seq<char>) -> bool {
    suffix.len() <= s.len() && s.subrange(s.len() - suffix.len(), s.len() as int) == suffix
}

/// The media type of a file, chosen by the extension of its path.
pub open spec fn content_type_of(path: Seq<char>) -> Seq<char> {
    if has_suffix(path, ".html"@) {
        "text/html"@
    } else if has_suffix(path, ".js"@) {
        "text/javascript"@
    } else if has_suffix(path, ".css"@) {
        "text/css"@
    } else if has_suffix(path, ".jpg"@) || has_suffix(path, ".jpeg"@) {
        "image/jpeg"@
    } else if has_suffix(path, ".png"@) {
        "image/png"@
    } else {
        "application/octet-stream"@
    }
}

fn ends_with(s: &str, suffix: &str) -> (r: bool)
    ensures
        r == has_suffix(s@, suffix@),
{
    let n = s.unicode_len();
    let k = suffix.unicode_len();
    if k > n {
        return false;
    }
    let mut i: usize = 0;
    while i < k
        invariant
            n == s@.len(),
            k == suffix@.len(),
            k <= n,
            0 <= i <= k,
            forall|j: int| 0 <= j < i ==> s@[n - k + j] == suffix@[j],
        decreases k - i,
    {
        if s.get_char(n - k + i) != suffix.get_char(i) {
            assert(s@.subrange(n - k, n as int)[i as int] != suffix@[i as int]);
            return false;
        }
        i = i + 1;
    }
    assert(s@.subrange(n - k, n as int) =~= suffix@);
    true
}

pub fn content_type(path: &str) -> (r: &'static str)
    ensures
        r@ == content_type_of(path@),
{
    if ends_with(path, ".html") {
        "text/html"
    } else if ends_with(path, ".js") {
        "text/javascript"
    } else if ends_with(path, ".css") {
        "text/css"
    } else if ends_with(path, ".jpg") || ends_with(path, ".jpeg") {
        "image/jpeg"
    } else if ends_with(path, ".png") {
        "image/png"
    } else {
        "application/octet-stream"
    }
}

/// A response's status and header fields, in the order they were set.
pub struct ResponseModel {
    pub status: HttpStatusCode,
    pub headers: Seq<(Seq<char>, Seq<char>)>,
}

/// A response head under construction.
pub struct HttpResponse {
    status: HttpStatusCode,
    headers: HeaderMap,
}

impl View for HttpResponse {
    type V = ResponseModel;

    closed spec fn view(&self) -> ResponseModel {
        ResponseModel { status: self.status, headers: self.headers.pairs() }
    }
}

impl HttpResponse {
    pub closed spec fn wf(&self) -> bool {
        self.headers.wf()
    }

    /// The header fields as a map from name to value.
    pub closed spec fn header_map(&self) -> Map<Seq<char>, Seq<char>> {
        self.headers@
    }

    pub fn new(status: HttpStatusCode) -> (r: HttpResponse)
        ensures
            r.wf(),
            r@.status == status,
            r@.headers.len() == 0,
            r.header_map() == Map::<Seq<char>, Seq<char>>::empty(),
    {
        HttpResponse { status, headers: HeaderMap::new() }
    }

    pub fn ok() -> (r: HttpResponse)
        ensures
            r.wf(),
            r@.status == HttpStatusCode::OK,
            r@.headers.len() == 0,
            r.header_map() == Map::<Seq<char>, Seq<char>>::empty(),
    {
        HttpResponse::new(HttpStatusCode::OK)
    }

    pub fn not_found() -> (r: HttpResponse)
        ensures
            r.wf(),
            r@.status == HttpStatusCode::NotFound,
            r@.headers.len() == 0,
            r.header_map() == Map::<Seq<char>, Seq<char>>::empty(),
    {
        HttpResponse::new(HttpStatusCode::NotFound)
    }

    pub fn status(&self) -> (r: HttpStatusCode)
        ensures
            r == self@.status,
    {
        self.status
    }

    /// Sets a header field; a field not set before goes after the others.
    pub fn set_header(&mut self, name: &str, value: &str)
        requires
            old(self).wf(),
        ensures
            final(self).wf(),
            final(self)@.status == old(self)@.status,
            final(self).header_map() == old(self).header_map().insert(name@, value@),
            !old(self).header_map().contains_key(name@) ==> final(self)@.headers == old(
                self,
            )@.headers.push((name@, value@)),
    {
        self.headers.insert(name.to_owned(), value.to_owned());
    }

    /// The response head as it goes on the wire: status line, header lines
    /// and the blank line.
    pub fn send(self) -> (r: String)
        ensures
            r@ == render_head(self@.status, self@.headers),
    {
        proof {
            reveal_strlit("HTTP/1.1 ");
            reveal_strlit(" \r\n");
            reveal_strlit(": ");
            reveal_strlit("\r\n");
            assert(": "@ =~= seq![':', ' ']);
            assert("\r\n"@ =~= seq!['\r', '\n']);
        }
        let mut out = String::new();
        out.append("HTTP/1.1 ");
        let code = decimal_string(self.status.code() as u64);
        out.append(code.as_str());
        out.append(" \r\n");
        let prefix = Ghost(out@);
        let pairs = self.headers.to_vec();
        let ghost p = self.headers.pairs();
        let n = pairs.len();
        let mut i: usize = 0;
        while i < n
            invariant
                n == pairs@.len(),
                0 <= i <= n,
                p == self.headers.pairs(),
                pairs@.map_values(|e: (String, String)| (e.0@, e.1@)) == p,
                out@ == prefix@ + header_lines(p.take(i as int)),
                ": "@ == seq![':', ' '],
                "\r\n"@ == seq!['\r', '\n'],
            decreases n - i,
        {
            let ghost before = out@;
            out.append(pairs[i].0.as_str());
            out.append(": ");
            out.append(pairs[i].1.as_str());
            out.append("\r\n");
            proof {
                assert(p.take(i + 1).drop_last() =~= p.take(i as int));
                assert(p[i as int] == (pairs@[i as int].0@, pairs@[i as int].1@));
                assert(header_lines(p.take(i + 1)) == header_lines(p.take(i as int)) + p[i as int].0
                    + seq![':', ' '] + p[i as int].1 + seq!['\r', '\n']);
                assert(out@ =~= before + p[i as int].0 + seq![':', ' '] + p[i as int].1 + seq![
                    '\r',
                    '\n',
                ]);
                assert(out@ =~= prefix@ + header_lines(p.take(i + 1)));
            }
            i = i + 1;
        }
        out.append("\r\n");
        assert(p.take(n as int) =~= p);
        assert(out@ =~= render_head(self@.status, self@.headers));
        out
    }
}

/// What follows the head: text held in memory, or a file of the given length
/// to be copied to the socket.
pub enum Body {
    Text(String),
    File(u64),
}

pub open spec fn is_text_body(b: Body, text: Seq<char>) -> bool {
    match b {
        Body::Text(t) => t@ == text,
        Body::File(_) => false,
    }
}

/// The header fields set on every response, in this order.
pub open spec fn standard_headers(length: nat, media_type: Seq<char>) -> Seq<
    (Seq<char>, Seq<char>),
> {
    seq![
        ("Content-Length"@, decimal(length)),
        ("Content-Type"@, media_type),
        ("Server"@, SERVER_NAME@),
        ("Connection"@, "close"@),
    ]
}

fn with_standard_headers(status: HttpStatusCode, length: u64, media_type: &str) -> (r:
    HttpResponse)
    ensures
        r.wf(),
        r@.status == status,
        r@.headers == standard_headers(length as nat, media_type@),
{
    proof {
        reveal_strlit("Content-Length");
        reveal_strlit("Content-Type");
        reveal_strlit("Server");
        reveal_strlit("Connection");
        assert("Content-Length"@.len() == 14);
        assert("Content-Type"@.len() == 12);
        assert("Server"@.len() == 6);
        assert("Connection"@.len() == 10);
    }
    let mut r = HttpResponse::new(status);
    let len = decimal_string(length);
    r.set_header("Content-Length", len.as_str());
    assert(!r.header_map().contains_key("Content-Type"@));
    r.set_header("Content-Type", media_type);
    assert(!r.header_map().contains_key("Server"@));
    r.set_header("Server", SERVER_NAME);
    assert(!r.header_map().contains_key("Connection"@));
    r.set_header("Connection", "close");
    assert(r@.headers =~= standard_headers(length as nat, media_type@));
    r
}

/// The response to a request with the given method and target. Only GET is
/// served; any other method gets 405 before the file is considered.
/// `file_size` is the size of the file the target names under the served
/// root, or `None` where there is no such file.
pub fn respond(method: HttpMethod, target: &str, file_size: Option<u64>) -> (r: (
    HttpResponse,
    Body,
))
    ensures
        r.0.wf(),
        method != HttpMethod::Get ==> {
            &&& r.0@.status == HttpStatusCode::MethodNotAllowed
            &&& r.0@.headers == standard_headers(METHOD_NOT_ALLOWED_BODY@.len(), "text/plain"@)
            &&& is_text_body(r.1, METHOD_NOT_ALLOWED_BODY@)
        },
        method == HttpMethod::Get && file_size is None ==> {
            &&& r.0@.status == HttpStatusCode::NotFound
            &&& r.0@.headers == standard_headers(NOT_FOUND_BODY@.len(), "text/plain"@)
            &&& is_text_body(r.1, NOT_FOUND_BODY@)
        },
        method == HttpMethod::Get && file_size is Some ==> {
            &&& r.0@.status == HttpStatusCode::OK
            &&& r.0@.headers == standard_headers(
                file_size->Some_0 as nat,
                content_type_of(target@),
            )
            &&& r.1 == Body::File(file_size->Some_0)
        },
{
    if method != HttpMethod::Get {
        let body = METHOD_NOT_ALLOWED_BODY.to_owned();
        let n = METHOD_NOT_ALLOWED_BODY.unicode_len() as u64;
        let head = with_standard_headers(HttpStatusCode::MethodNotAllowed, n, "text/plain");
        return (head, Body::Text(body));
    }
    match file_size {
        None => {
            let body = NOT_FOUND_BODY.to_owned();
            let n = NOT_FOUND_BODY.unicode_len() as u64;
            let head = with_standard_headers(HttpStatusCode::NotFound, n, "text/plain");
            (head, Body::Text(body))
        },
        Some(size) => {
            let head = with_standard_headers(HttpStatusCode::OK, size, content_type(target));
            (head, Body::File(size))
        },
    }
}

} // verus!
