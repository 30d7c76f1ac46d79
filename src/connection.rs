use vstd::prelude::*;
use crate::parser::{feed_byte, initial_model, request_of, Parser, ParserError, ParserModel, State};
use crate::request::{HttpRequest, RequestModel};

verus! {

/// What one read from the socket produced.
pub enum ReadEvent {
    /// Bytes arrived.
    Data(Vec<u8>),
    /// The peer closed its side: the read returned no bytes.
    Closed,
    /// The read failed.
    Failed,
}

/// What the connection does after a read: answer each completed request in
/// order, then either read again or shut the socket down.
pub struct Reaction {
    pub requests: Vec<HttpRequest>,
    pub error: Option<ParserError>,
    pub keep_open: bool,
}

/// Progress through the bytes of one connection: the parser for the request
/// being read, the requests completed, and the error that ended parsing.
pub struct ConnModel {
    pub parser: ParserModel,
    pub completed: Seq<RequestModel>,
    pub error: Option<ParserError>,
}

/// One byte: a completed request is handed on and a fresh parser takes the
/// bytes that follow it; after an error nothing changes.
pub open spec fn conn_step(c: ConnModel, b: u8) -> ConnModel {
    if c.error is Some {
        c
    } else {
        match feed_byte(c.parser, b) {
            Err(e) => ConnModel { error: Some(e), ..c },
            Ok(p) => if p.state == State::Done {
                ConnModel { parser: initial_model(), completed: c.completed.push(request_of(p)), ..c }
            } else {
                ConnModel { parser: p, ..c }
            },
        }
    }
}

pub open spec fn conn_run(c: ConnModel, bs: Seq<u8>) -> ConnModel
    decreases bs.len(),
{
    if bs.len() == 0 {
        c
    } else {
        conn_step(conn_run(c, bs.drop_last()), bs.last())
    }
}

pub open spec fn requests_view(v: Seq<HttpRequest>) -> Seq<RequestModel> {
    v.map_values(|q: HttpRequest| q@)
}

/// One accepted connection: the parser for the request being read. Requests
/// on a connection are handled one after another; bytes that follow a
/// complete request in the same read start the next one.
pub struct Connection {
    parser: Parser,
}

impl View for Connection {
    type V = ParserModel;

    closed spec fn view(&self) -> ParserModel {
        self.parser@
    }
}

impl Connection {
    pub closed spec fn wf(&self) -> bool {
        self.parser.wf()
    }

    pub fn new() -> (c: Connection)
        ensures
            c.wf(),
            c@ == initial_model(),
    {
        Connection { parser: Parser::new() }
    }

    /// Reacts to one read. On bytes, the requests they complete are returned
    /// in order and the connection stays open unless the bytes were not a
    /// valid request. A closed peer or a failed read ends the connection.
    pub fn on_read(&mut self, event: ReadEvent) -> (r: Reaction)
        requires
            old(self).wf(),
        ensures
            final(self).wf(),
            match event {
                ReadEvent::Data(bytes) => {
                    let run = conn_run(
                        ConnModel { parser: old(self)@, completed: Seq::empty(), error: None },
                        bytes@,
                    );
                    &&& requests_view(r.requests@) == run.completed
                    &&& forall|i: int| 0 <= i < r.requests@.len() ==> r.requests@[i].wf()
                    &&& r.error == run.error
                    &&& r.keep_open == run.error is None
                    &&& run.error is None ==> final(self)@ == run.parser
                },
                _ => r.requests@.len() == 0 && r.error is None && !r.keep_open && final(self)@
                    == old(self)@,
            },
    {
        match event {
            ReadEvent::Data(bytes) => self.on_bytes(&bytes),
            _ => Reaction { requests: Vec::new(), error: None, keep_open: false },
        }
    }

    fn on_bytes(&mut self, bytes: &Vec<u8>) -> (r: Reaction)
        requires
            old(self).wf(),
        ensures
            final(self).wf(),
            ({
                let run = conn_run(
                    ConnModel { parser: old(self)@, completed: Seq::empty(), error: None },
                    bytes@,
                );
                &&& requests_view(r.requests@) == run.completed
                &&& forall|i: int| 0 <= i < r.requests@.len() ==> r.requests@[i].wf()
                &&& r.error == run.error
                &&& r.keep_open == run.error is None
                &&& run.error is None ==> final(self)@ == run.parser
            }),
    {
        let ghost start = ConnModel { parser: self@, completed: Seq::empty(), error: None };
        let mut requests: Vec<HttpRequest> = Vec::new();
        let n = bytes.len();
        assert(bytes@.take(0) =~= Seq::<u8>::empty());
        assert(requests_view(requests@) =~= Seq::<RequestModel>::empty());
        let mut i: usize = 0;
        while i < n
            invariant
                n == bytes@.len(),
                0 <= i <= n,
                self.wf(),
                start == (ConnModel {
                    parser: old(self)@,
                    completed: Seq::<RequestModel>::empty(),
                    error: None,
                }),
                conn_run(start, bytes@.take(i as int)) == (ConnModel {
                    parser: self@,
                    completed: requests_view(requests@),
                    error: None,
                }),
                forall|j: int| 0 <= j < requests@.len() ==> requests@[j].wf(),
            decreases n - i,
        {
            proof {
                assert(bytes@.take(i + 1).drop_last() =~= bytes@.take(i as int));
            }
            let ghost pre = self@;
            let ghost done_before = requests_view(requests@);
            match self.parser.feed_one(bytes[i]) {
                Ok(done) => {
                    if done {
                        let mut finished = Parser::new();
                        std::mem::swap(&mut finished, &mut self.parser);
                        match finished.finish() {
                            Ok(req) => {
                                let ghost before = requests@;
                                requests.push(req);
                                assert(requests_view(requests@) =~= requests_view(before).push(
                                    req@,
                                ));
                            },
                            Err(_) => {},
                        }
                    }
                },
                Err(e) => {
                    proof {
                        assert(feed_byte(pre, bytes@[i as int]) == Err::<ParserModel, ParserError>(e));
                        assert(conn_run(start, bytes@.take(i + 1)) == (ConnModel {
                            parser: pre,
                            completed: done_before,
                            error: Some(e),
                        }));
                        lemma_error_sticks(start, bytes@, i as int + 1);
                    }
                    return Reaction { requests, error: Some(e), keep_open: false };
                },
            }
            i = i + 1;
        }
        assert(bytes@.take(n as int) =~= bytes@);
        Reaction { requests, error: None, keep_open: true }
    }
}

proof fn lemma_error_sticks(c: ConnModel, bs: Seq<u8>, k: int)
    requires
        0 <= k <= bs.len(),
        conn_run(c, bs.take(k)).error is Some,
    ensures
        conn_run(c, bs) == conn_run(c, bs.take(k)),
    decreases bs.len() - k,
{
    if k < bs.len() {
        assert(bs.take(k + 1).drop_last() =~= bs.take(k));
        lemma_error_sticks(c, bs, k + 1);
    } else {
        assert(bs.take(k) =~= bs);
    }
}

} // verus!
