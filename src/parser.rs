use vstd::prelude::*;
use crate::headers::HeaderMap;
use crate::request::{HttpRequest, RequestModel};
use crate::util::{
    chars_to_string, classify, classify_method, digit_value, is_ascii, is_ascii_char, is_control,
    is_control_char, is_digit, is_digit_char, is_field_content_byte, is_token_char,
    lower_char, lower_seq, lowercase_string, HttpMethod, CR, HTAB, LF, SP,
};

verus! {

/// Why a request could not be parsed; every one of them ends the parser's use.
#[derive(Debug)]
pub enum ParserError {
    InvalidMethod,
    InvalidVersion,
    InvalidEncoding,
    ExpectedSpace(&'static str),
    UnexpectedChar(&'static str),
    NotReady,
}

/// Position inside the request line.
#[derive(Clone, Copy, Debug, PartialEq, Eq, Structural)]
pub enum ReqLineState {
    Method,
    FirstSpaceBeforeUrl,
    InUrl,
    H,
    HT,
    HTT,
    HTTP,
    Slash,
    VersionFirstMajor,
    VersionMajor,
    VersionFirstMinor,
    VersionMinor,
    AlmostDone,
}

/// Position inside the header block.
#[derive(Clone, Copy, Debug, PartialEq, Eq, Structural)]
pub enum HeaderState {
    Name,
    OWSBeforeValue,
    FirstValue,
    Value,
    AlmostDone,
    HeadersAlmostDone,
}

/// Top-level phase; it only moves forward.
#[derive(Clone, Copy, Debug, PartialEq, Eq, Structural)]
pub enum State {
    RequestLine,
    Header,
    Done,
}

/// The parser's state as plain values.
pub struct ParserModel {
    pub state: State,
    pub req_line_state: ReqLineState,
    pub header_state: HeaderState,
    pub method: Seq<char>,
    pub method_parsed: HttpMethod,
    pub target: Seq<char>,
    pub major: u8,
    pub minor: u8,
    pub headers: Map<Seq<char>, Seq<char>>,
    pub name: Seq<char>,
    pub value: Seq<char>,
}

pub open spec fn initial_model() -> ParserModel {
    ParserModel {
        state: State::RequestLine,
        req_line_state: ReqLineState::Method,
        header_state: HeaderState::Name,
        method: Seq::empty(),
        method_parsed: HttpMethod::Invalid,
        target: Seq::empty(),
        major: 0,
        minor: 0,
        headers: Map::empty(),
        name: Seq::empty(),
        value: Seq::empty(),
    }
}

/// One character of the request line: the next model, and whether the line
/// ended with it.
pub open spec fn request_line_step(m: ParserModel, ch: char) -> Result<
    (ParserModel, bool),
    ParserError,
> {
    if !is_ascii_char(ch) {
        Err(ParserError::InvalidEncoding)
    } else {
        match m.req_line_state {
            ReqLineState::Method => {
                let mm = m.method.push(ch);
                let mp = classify(mm);
                if mp != HttpMethod::Invalid {
                    Ok(
                        (
                            ParserModel {
                                method: mm,
                                method_parsed: mp,
                                req_line_state: ReqLineState::FirstSpaceBeforeUrl,
                                ..m
                            },
                            false,
                        ),
                    )
                } else if mm.len() >= 7 {
                    Err(ParserError::InvalidMethod)
                } else {
                    Ok((ParserModel { method: mm, ..m }, false))
                }
            },
            ReqLineState::FirstSpaceBeforeUrl => {
                if ch != ' ' {
                    Err(ParserError::ExpectedSpace("no space between METHOD and TARGET"))
                } else {
                    Ok((ParserModel { req_line_state: ReqLineState::InUrl, ..m }, false))
                }
            },
            ReqLineState::InUrl => {
                if ch == ' ' {
                    Ok((ParserModel { req_line_state: ReqLineState::H, ..m }, false))
                } else if !is_control_char(ch) {
                    Ok((ParserModel { target: m.target.push(ch), ..m }, false))
                } else {
                    Ok((m, false))
                }
            },
            ReqLineState::H => {
                if ch != 'H' {
                    Err(ParserError::UnexpectedChar("H after TARGET"))
                } else {
                    Ok((ParserModel { req_line_state: ReqLineState::HT, ..m }, false))
                }
            },
            ReqLineState::HT => {
                if ch != 'T' {
                    Err(ParserError::UnexpectedChar("T after H"))
                } else {
                    Ok((ParserModel { req_line_state: ReqLineState::HTT, ..m }, false))
                }
            },
            ReqLineState::HTT => {
                if ch != 'T' {
                    Err(ParserError::UnexpectedChar("T after T"))
                } else {
                    Ok((ParserModel { req_line_state: ReqLineState::HTTP, ..m }, false))
                }
            },
            ReqLineState::HTTP => {
                if ch != 'P' {
                    Err(ParserError::UnexpectedChar("P after T"))
                } else {
                    Ok((ParserModel { req_line_state: ReqLineState::Slash, ..m }, false))
                }
            },
            ReqLineState::Slash => {
                if ch != '/' {
                    Err(ParserError::UnexpectedChar("/ after P"))
                } else {
                    Ok(
                        (
                            ParserModel { req_line_state: ReqLineState::VersionFirstMajor, ..m },
                            false,
                        ),
                    )
                }
            },
            ReqLineState::VersionFirstMajor => {
                if !is_digit_char(ch) {
                    Err(ParserError::UnexpectedChar("DIGIT after P"))
                } else if digit_value(ch) != 1 {
                    Err(ParserError::InvalidVersion)
                } else {
                    Ok(
                        (
                            ParserModel {
                                major: 1,
                                req_line_state: ReqLineState::VersionMajor,
                                ..m
                            },
                            false,
                        ),
                    )
                }
            },
            ReqLineState::VersionMajor => {
                if ch == '.' {
                    Ok(
                        (
                            ParserModel { req_line_state: ReqLineState::VersionFirstMinor, ..m },
                            false,
                        ),
                    )
                } else if is_digit_char(ch) {
                    let v = m.major * 10 + digit_value(ch);
                    if v > 255 {
                        Err(ParserError::InvalidVersion)
                    } else {
                        Ok((ParserModel { major: v as u8, ..m }, false))
                    }
                } else {
                    Err(ParserError::UnexpectedChar("DIGIT after DIGIT"))
                }
            },
            ReqLineState::VersionFirstMinor => {
                if !is_digit_char(ch) {
                    Err(ParserError::UnexpectedChar("VERSION MINOR after ."))
                } else {
                    Ok(
                        (
                            ParserModel {
                                minor: digit_value(ch) as u8,
                                req_line_state: ReqLineState::VersionMinor,
                                ..m
                            },
                            false,
                        ),
                    )
                }
            },
            ReqLineState::VersionMinor => {
                if ch == '\r' {
                    Ok((ParserModel { req_line_state: ReqLineState::AlmostDone, ..m }, false))
                } else if is_digit_char(ch) {
                    let v = m.minor * 10 + digit_value(ch);
                    if v > 255 {
                        Err(ParserError::InvalidVersion)
                    } else {
                        Ok((ParserModel { minor: v as u8, ..m }, false))
                    }
                } else {
                    Err(ParserError::UnexpectedChar("DIGIT after DIGIT"))
                }
            },
            ReqLineState::AlmostDone => {
                if ch != '\n' {
                    Err(ParserError::UnexpectedChar("LF after CR"))
                } else {
                    Ok((m, true))
                }
            },
        }
    }
}

/// One character of the header block: the next model, and whether the block
/// ended with it. Bytes that are neither value content nor a line end are
/// dropped from a value without error.
pub open spec fn header_step(m: ParserModel, ch: char) -> Result<(ParserModel, bool), ParserError> {
    if !is_ascii_char(ch) {
        Err(ParserError::InvalidEncoding)
    } else {
        let b = (ch as u32) as u8;
        match m.header_state {
            HeaderState::Name => {
                if ch == '\r' && m.name.len() == 0 {
                    Ok(
                        (ParserModel { header_state: HeaderState::HeadersAlmostDone, ..m }, false),
                    )
                } else if is_token_char(ch) {
                    Ok((ParserModel { name: m.name.push(ch), ..m }, false))
                } else if ch == ':' {
                    Ok((ParserModel { header_state: HeaderState::OWSBeforeValue, ..m }, false))
                } else {
                    Err(ParserError::UnexpectedChar("token expected for header field name"))
                }
            },
            HeaderState::OWSBeforeValue => {
                if ch == ' ' {
                    Ok((ParserModel { header_state: HeaderState::FirstValue, ..m }, false))
                } else if is_field_content_byte(b) {
                    Ok(
                        (
                            ParserModel {
                                value: m.value.push(ch),
                                header_state: HeaderState::Value,
                                ..m
                            },
                            false,
                        ),
                    )
                } else {
                    Err(ParserError::UnexpectedChar("in OWSBeforeValue"))
                }
            },
            HeaderState::FirstValue => {
                if is_field_content_byte(b) {
                    Ok(
                        (
                            ParserModel {
                                value: m.value.push(ch),
                                header_state: HeaderState::Value,
                                ..m
                            },
                            false,
                        ),
                    )
                } else {
                    Ok((m, false))
                }
            },
            HeaderState::Value => {
                if ch == ' ' || ch == '\t' || is_field_content_byte(b) {
                    Ok((ParserModel { value: m.value.push(ch), ..m }, false))
                } else if ch == '\r' {
                    Ok((ParserModel { header_state: HeaderState::AlmostDone, ..m }, false))
                } else {
                    Ok((m, false))
                }
            },
            HeaderState::AlmostDone => {
                if ch == '\n' {
                    Ok(
                        (
                            ParserModel {
                                headers: m.headers.insert(lower_seq(m.name), m.value),
                                name: Seq::empty(),
                                value: Seq::empty(),
                                header_state: HeaderState::Name,
                                ..m
                            },
                            false,
                        ),
                    )
                } else {
                    Err(ParserError::UnexpectedChar("expected LF after CR"))
                }
            },
            HeaderState::HeadersAlmostDone => {
                if ch == '\n' {
                    Ok((m, true))
                } else {
                    Err(ParserError::UnexpectedChar("expected LF after CR"))
                }
            },
        }
    }
}

/// One input byte; once the request is complete, bytes change nothing.
pub open spec fn feed_byte(m: ParserModel, b: u8) -> Result<ParserModel, ParserError> {
    match m.state {
        State::RequestLine => match request_line_step(m, b as char) {
            Ok((m2, ended)) => Ok(
                if ended {
                    ParserModel { state: State::Header, ..m2 }
                } else {
                    m2
                },
            ),
            Err(e) => Err(e),
        },
        State::Header => match header_step(m, b as char) {
            Ok((m2, ended)) => Ok(
                if ended {
                    ParserModel { state: State::Done, ..m2 }
                } else {
                    m2
                },
            ),
            Err(e) => Err(e),
        },
        State::Done => Ok(m),
    }
}

/// The bytes fed in order; the first error ends the run.
pub open spec fn feed_model(m: ParserModel, bs: Seq<u8>) -> Result<ParserModel, ParserError>
    decreases bs.len(),
{
    if bs.len() == 0 {
        Ok(m)
    } else {
        match feed_model(m, bs.drop_last()) {
            Ok(m1) => feed_byte(m1, bs.last()),
            Err(e) => Err(e),
        }
    }
}

/// Once a run has failed, further bytes leave it failed.
proof fn lemma_feed_error_sticks(m: ParserModel, bs: Seq<u8>, k: int)
    requires
        0 <= k <= bs.len(),
        feed_model(m, bs.take(k)) is Err,
    ensures
        feed_model(m, bs) == feed_model(m, bs.take(k)),
    decreases bs.len() - k,
{
    if k < bs.len() {
        assert(bs.take(k + 1).drop_last() =~= bs.take(k));
        lemma_feed_error_sticks(m, bs, k + 1);
    } else {
        assert(bs.take(k) =~= bs);
    }
}

/// The chunks fed one after another, each by its own call.
pub open spec fn feed_chunks(m: ParserModel, chunks: Seq<Seq<u8>>) -> Result<
    ParserModel,
    ParserError,
>
    decreases chunks.len(),
{
    if chunks.len() == 0 {
        Ok(m)
    } else {
        match feed_chunks(m, chunks.drop_last()) {
            Ok(m1) => feed_model(m1, chunks.last()),
            Err(e) => Err(e),
        }
    }
}

/// Feeding `a` and then `b` is feeding `a + b`.
pub proof fn lemma_feed_concat(m: ParserModel, a: Seq<u8>, b: Seq<u8>)
    ensures
        feed_model(m, a + b) == match feed_model(m, a) {
            Ok(m1) => feed_model(m1, b),
            Err(e) => Err(e),
        },
    decreases b.len(),
{
    if b.len() == 0 {
        assert(a + b =~= a);
    } else {
        assert((a + b).drop_last() =~= a + b.drop_last());
        assert((a + b).last() == b.last());
        lemma_feed_concat(m, a, b.drop_last());
    }
}

/// However a request is split into chunks, feeding the chunks in order ends
/// in the same parser state, or the same error, as feeding it whole.
pub proof fn lemma_chunking_invariant(m: ParserModel, chunks: Seq<Seq<u8>>)
    ensures
        feed_chunks(m, chunks) == feed_model(m, chunks.flatten()),
    decreases chunks.len(),
{
    chunks.lemma_flatten_and_flatten_alt_are_equivalent();
    if chunks.len() > 0 {
        lemma_chunking_invariant(m, chunks.drop_last());
        chunks.drop_last().lemma_flatten_and_flatten_alt_are_equivalent();
        lemma_feed_concat(m, chunks.drop_last().flatten(), chunks.last());
    } else {
        assert(chunks.flatten() =~= Seq::<u8>::empty());
    }
}

/// A parser that has read a whole request is left as it is by any further
/// bytes, and reports completion.
pub proof fn lemma_done_absorbs(m: ParserModel, bs: Seq<u8>)
    requires
        m.state == State::Done,
    ensures
        feed_model(m, bs) == Ok::<ParserModel, ParserError>(m),
    decreases bs.len(),
{
    if bs.len() > 0 {
        lemma_done_absorbs(m, bs.drop_last());
    }
}

/// Two parser states that differ at most in the letter case of the header
/// name being read.
pub open spec fn same_up_to_name_case(x: ParserModel, y: ParserModel) -> bool {
    &&& x.state == y.state
    &&& x.req_line_state == y.req_line_state
    &&& x.header_state == y.header_state
    &&& x.method == y.method
    &&& x.method_parsed == y.method_parsed
    &&& x.target == y.target
    &&& x.major == y.major
    &&& x.minor == y.minor
    &&& x.headers == y.headers
    &&& x.value == y.value
    &&& x.name.len() == y.name.len()
    &&& lower_seq(x.name) == lower_seq(y.name)
}

pub open spec fn results_up_to_name_case(
    r1: Result<ParserModel, ParserError>,
    r2: Result<ParserModel, ParserError>,
) -> bool {
    match r1 {
        Ok(x) => match r2 {
            Ok(y) => same_up_to_name_case(x, y),
            Err(_) => false,
        },
        Err(e1) => match r2 {
            Ok(_) => false,
            Err(e2) => e1 == e2,
        },
    }
}

proof fn lemma_step_up_to_name_case(x: ParserModel, y: ParserModel, b: u8)
    requires
        same_up_to_name_case(x, y),
    ensures
        results_up_to_name_case(feed_byte(x, b), feed_byte(y, b)),
{
    let ch = b as char;
    assert(lower_seq(x.name.push(ch)) =~= lower_seq(x.name).push(lower_char(ch)));
    assert(lower_seq(y.name.push(ch)) =~= lower_seq(y.name).push(lower_char(ch)));
}

proof fn lemma_run_up_to_name_case(x: ParserModel, y: ParserModel, bs: Seq<u8>)
    requires
        same_up_to_name_case(x, y),
    ensures
        results_up_to_name_case(feed_model(x, bs), feed_model(y, bs)),
    decreases bs.len(),
{
    if bs.len() > 0 {
        lemma_run_up_to_name_case(x, y, bs.drop_last());
        match feed_model(x, bs.drop_last()) {
            Ok(x1) => {
                let y1 = feed_model(y, bs.drop_last())->Ok_0;
                lemma_step_up_to_name_case(x1, y1, bs.last());
            },
            Err(_) => {},
        }
    }
}

proof fn lemma_names_up_to_case(m: ParserModel, a: Seq<u8>, b: Seq<u8>)
    requires
        m.state == State::Header,
        m.header_state == HeaderState::Name,
        a.len() == b.len(),
        forall|i: int|
            0 <= i < a.len() ==> is_token_char(a[i] as char) && is_token_char(b[i] as char)
                && lower_char(a[i] as char) == lower_char(b[i] as char),
    ensures
        feed_model(m, a) is Ok,
        feed_model(m, b) is Ok,
        same_up_to_name_case(feed_model(m, a)->Ok_0, feed_model(m, b)->Ok_0),
        feed_model(m, a)->Ok_0.state == State::Header,
        feed_model(m, a)->Ok_0.header_state == HeaderState::Name,
    decreases a.len(),
{
    if a.len() > 0 {
        let a1 = a.drop_last();
        let b1 = b.drop_last();
        lemma_names_up_to_case(m, a1, b1);
        let x = feed_model(m, a1)->Ok_0;
        let y = feed_model(m, b1)->Ok_0;
        let ca = a.last() as char;
        let cb = b.last() as char;
        assert(is_token_char(ca) && is_token_char(cb));
        assert(lower_char(ca) == lower_char(cb));
        assert(lower_seq(x.name.push(ca)) =~= lower_seq(x.name).push(lower_char(ca)));
        assert(lower_seq(y.name.push(cb)) =~= lower_seq(y.name).push(lower_char(cb)));
    }
}

/// Header names are case-insensitive: in the header block, two names that
/// differ only in the case of their letters, followed by the same bytes,
/// lead to the same header map (or the same error).
pub proof fn lemma_header_names_case_insensitive(
    m: ParserModel,
    a: Seq<u8>,
    b: Seq<u8>,
    rest: Seq<u8>,
)
    requires
        m.state == State::Header,
        m.header_state == HeaderState::Name,
        a.len() == b.len(),
        forall|i: int|
            0 <= i < a.len() ==> is_token_char(a[i] as char) && is_token_char(b[i] as char)
                && lower_char(a[i] as char) == lower_char(b[i] as char),
    ensures
        feed_model(m, a + rest) is Ok <==> feed_model(m, b + rest) is Ok,
        feed_model(m, a + rest) is Ok ==> feed_model(m, a + rest)->Ok_0.headers
            == feed_model(m, b + rest)->Ok_0.headers && feed_model(m, a + rest)->Ok_0.state
            == feed_model(m, b + rest)->Ok_0.state,
        feed_model(m, a + rest) is Err ==> feed_model(m, a + rest) == feed_model(m, b + rest),
{
    lemma_names_up_to_case(m, a, b);
    lemma_feed_concat(m, a, rest);
    lemma_feed_concat(m, b, rest);
    lemma_run_up_to_name_case(feed_model(m, a)->Ok_0, feed_model(m, b)->Ok_0, rest);
}

/// The request that a completed parse yields.
pub open spec fn request_of(m: ParserModel) -> RequestModel {
    RequestModel { target: m.target, headers: m.headers, method: m.method_parsed }
}

/// An incremental HTTP/1.1 request-line and header parser, fed bytes as they
/// arrive in chunks of any size.
pub struct Parser {
    method: Vec<char>,
    header_map: HeaderMap,
    current_header_name: Vec<char>,
    current_header_value: Vec<char>,
    state: State,
    req_line_state: ReqLineState,
    header_state: HeaderState,
    method_parsed: HttpMethod,
    request_target: Vec<char>,
    http_version_major: u8,
    http_version_minor: u8,
}

impl View for Parser {
    type V = ParserModel;

    closed spec fn view(&self) -> ParserModel {
        ParserModel {
            state: self.state,
            req_line_state: self.req_line_state,
            header_state: self.header_state,
            method: self.method@,
            method_parsed: self.method_parsed,
            target: self.request_target@,
            major: self.http_version_major,
            minor: self.http_version_minor,
            headers: self.header_map@,
            name: self.current_header_name@,
            value: self.current_header_value@,
        }
    }
}

impl Parser {
    pub closed spec fn wf(&self) -> bool {
        self.header_map.wf()
    }

    pub fn new() -> (p: Parser)
        ensures
            p.wf(),
            p@ == initial_model(),
    {
        let p = Parser {
            method: Vec::new(),
            method_parsed: HttpMethod::Invalid,
            request_target: Vec::new(),
            http_version_major: 0,
            http_version_minor: 0,
            header_map: HeaderMap::new(),
            req_line_state: ReqLineState::Method,
            state: State::RequestLine,
            header_state: HeaderState::Name,
            current_header_name: Vec::new(),
            current_header_value: Vec::new(),
        };
        assert(p@.method =~= Seq::<char>::empty());
        assert(p@.target =~= Seq::<char>::empty());
        assert(p@.name =~= Seq::<char>::empty());
        assert(p@.value =~= Seq::<char>::empty());
        p
    }

    /// The header fields committed so far.
    pub fn headers(&self) -> (h: &HeaderMap)
        requires
            self.wf(),
        ensures
            h.wf(),
            h@ == self@.headers,
    {
        &self.header_map
    }

    /// The HTTP version read from the request line, as (major, minor).
    pub fn version(&self) -> (r: (u8, u8))
        ensures
            r == (self@.major, self@.minor),
    {
        (self.http_version_major, self.http_version_minor)
    }

    pub fn is_token(ch: &char) -> (r: bool)
        ensures
            r == is_token_char(*ch),
    {
        let c = *ch;
        is_ascii(c) && !is_control(c) && !(c == '(' || c == ')' || c == '<' || c == '>' || c
            == '@' || c == ',' || c == ';' || c == ':' || c == '\\' || c == '"' || c == '/' || c
            == '[' || c == ']' || c == '?' || c == '=' || c == '{' || c == '}' || c == ' ')
    }

    fn parse_request_line(&mut self, ch: char) -> (r: Result<bool, ParserError>)
        requires
            old(self).wf(),
        ensures
            final(self).wf(),
            match request_line_step(old(self)@, ch) {
                Ok((m, ended)) => r == Ok::<bool, ParserError>(ended) && final(self)@ == m,
                Err(e) => r == Err::<bool, ParserError>(e),
            },
    {
        if !is_ascii(ch) {
            return Err(ParserError::InvalidEncoding);
        }
        match self.req_line_state {
            ReqLineState::Method => {
                self.method.push(ch);
                let mp = classify_method(&self.method);
                if mp != HttpMethod::Invalid {
                    self.method_parsed = mp;
                    self.req_line_state = ReqLineState::FirstSpaceBeforeUrl;
                } else if self.method.len() >= 7 {
                    return Err(ParserError::InvalidMethod);
                }
            },
            ReqLineState::FirstSpaceBeforeUrl => {
                if ch != SP {
                    return Err(ParserError::ExpectedSpace("no space between METHOD and TARGET"));
                }
                self.req_line_state = ReqLineState::InUrl;
            },
            ReqLineState::InUrl => {
                if ch == SP {
                    self.req_line_state = ReqLineState::H;
                } else if !is_control(ch) {
                    self.request_target.push(ch);
                }
            },
            ReqLineState::H => {
                if ch != 'H' {
                    return Err(ParserError::UnexpectedChar("H after TARGET"));
                }
                self.req_line_state = ReqLineState::HT;
            },
            ReqLineState::HT => {
                if ch != 'T' {
                    return Err(ParserError::UnexpectedChar("T after H"));
                }
                self.req_line_state = ReqLineState::HTT;
            },
            ReqLineState::HTT => {
                if ch != 'T' {
                    return Err(ParserError::UnexpectedChar("T after T"));
                }
                self.req_line_state = ReqLineState::HTTP;
            },
            ReqLineState::HTTP => {
                if ch != 'P' {
                    return Err(ParserError::UnexpectedChar("P after T"));
                }
                self.req_line_state = ReqLineState::Slash;
            },
            ReqLineState::Slash => {
                if ch != '/' {
                    return Err(ParserError::UnexpectedChar("/ after P"));
                }
                self.req_line_state = ReqLineState::VersionFirstMajor;
            },
            ReqLineState::VersionFirstMajor => {
                if !is_digit(ch) {
                    return Err(ParserError::UnexpectedChar("DIGIT after P"));
                }
                if ch != '1' {
                    return Err(ParserError::InvalidVersion);
                }
                self.http_version_major = 1;
                self.req_line_state = ReqLineState::VersionMajor;
            },
            ReqLineState::VersionMajor => {
                if ch == '.' {
                    self.req_line_state = ReqLineState::VersionFirstMinor;
                } else if is_digit(ch) {
                    let v: u32 = self.http_version_major as u32 * 10 + (ch as u32 - '0' as u32);
                    if v > 255 {
                        return Err(ParserError::InvalidVersion);
                    }
                    self.http_version_major = v as u8;
                } else {
                    return Err(ParserError::UnexpectedChar("DIGIT after DIGIT"));
                }
            },
            ReqLineState::VersionFirstMinor => {
                if !is_digit(ch) {
                    return Err(ParserError::UnexpectedChar("VERSION MINOR after ."));
                }
                self.http_version_minor = (ch as u32 - '0' as u32) as u8;
                self.req_line_state = ReqLineState::VersionMinor;
            },
            ReqLineState::VersionMinor => {
                if ch == CR {
                    self.req_line_state = ReqLineState::AlmostDone;
                } else if is_digit(ch) {
                    let v: u32 = self.http_version_minor as u32 * 10 + (ch as u32 - '0' as u32);
                    if v > 255 {
                        return Err(ParserError::InvalidVersion);
                    }
                    self.http_version_minor = v as u8;
                } else {
                    return Err(ParserError::UnexpectedChar("DIGIT after DIGIT"));
                }
            },
            ReqLineState::AlmostDone => {
                if ch != LF {
                    return Err(ParserError::UnexpectedChar("LF after CR"));
                }
                return Ok(true);
            },
        }
        Ok(false)
    }

    /// Consumes one character of the header block; `Ok(true)` when the blank
    /// line that ends the block is complete. Names are stored in lower case.
    pub fn parse_headers(&mut self, ch: char) -> (r: Result<bool, ParserError>)
        requires
            old(self).wf(),
        ensures
            final(self).wf(),
            match header_step(old(self)@, ch) {
                Ok((m, ended)) => r == Ok::<bool, ParserError>(ended) && final(self)@ == m,
                Err(e) => r == Err::<bool, ParserError>(e),
            },
    {
        if !is_ascii(ch) {
            return Err(ParserError::InvalidEncoding);
        }
        let b = (ch as u32) as u8;
        match self.header_state {
            HeaderState::Name => {
                if ch == CR && self.current_header_name.len() == 0 {
                    self.header_state = HeaderState::HeadersAlmostDone;
                } else if Parser::is_token(&ch) {
                    self.current_header_name.push(ch);
                } else if ch == ':' {
                    self.header_state = HeaderState::OWSBeforeValue;
                } else {
                    return Err(ParserError::UnexpectedChar("token expected for header field name"));
                }
            },
            HeaderState::OWSBeforeValue => {
                if ch == SP {
                    self.header_state = HeaderState::FirstValue;
                } else if Parser::is_valid_field_content_char(b) {
                    self.current_header_value.push(ch);
                    self.header_state = HeaderState::Value;
                } else {
                    return Err(ParserError::UnexpectedChar("in OWSBeforeValue"));
                }
            },
            HeaderState::FirstValue => {
                if Parser::is_valid_field_content_char(b) {
                    self.current_header_value.push(ch);
                    self.header_state = HeaderState::Value;
                }
            },
            HeaderState::Value => {
                if ch == SP || ch == HTAB || Parser::is_valid_field_content_char(b) {
                    self.current_header_value.push(ch);
                } else if ch == CR {
                    self.header_state = HeaderState::AlmostDone;
                }
            },
            HeaderState::AlmostDone => {
                if ch != LF {
                    return Err(ParserError::UnexpectedChar("expected LF after CR"));
                }
                let name = lowercase_string(&self.current_header_name);
                let value = chars_to_string(&self.current_header_value);
                self.header_map.insert(name, value);
                self.current_header_name = Vec::new();
                self.current_header_value = Vec::new();
                self.header_state = HeaderState::Name;
                assert(self.current_header_name@ =~= Seq::<char>::empty());
                assert(self.current_header_value@ =~= Seq::<char>::empty());
            },
            HeaderState::HeadersAlmostDone => {
                if ch != LF {
                    return Err(ParserError::UnexpectedChar("expected LF after CR"));
                }
                return Ok(true);
            },
        }
        Ok(false)
    }

    /// Consumes one input byte.
    pub fn feed_one(&mut self, b: u8) -> (r: Result<bool, ParserError>)
        requires
            old(self).wf(),
        ensures
            final(self).wf(),
            match feed_byte(old(self)@, b) {
                Ok(m) => r == Ok::<bool, ParserError>(m.state == State::Done) && final(self)@ == m,
                Err(e) => r == Err::<bool, ParserError>(e),
            },
    {
        let ch = b as char;
        match self.state {
            State::RequestLine => {
                if self.parse_request_line(ch)? {
                    self.state = State::Header;
                }
                Ok(false)
            },
            State::Header => {
                if self.parse_headers(ch)? {
                    self.state = State::Done;
                    return Ok(true);
                }
                Ok(false)
            },
            State::Done => Ok(true),
        }
    }

    /// Consumes a chunk of input of any length. `Ok(true)` exactly when the
    /// request line and the whole header block have been read; bytes after
    /// that point are not looked at. After an error the parser must be dropped.
    pub fn feed(&mut self, buffer: &[u8]) -> (r: Result<bool, ParserError>)
        requires
            old(self).wf(),
        ensures
            match feed_model(old(self)@, buffer@) {
                Ok(m) => r == Ok::<bool, ParserError>(m.state == State::Done) && final(self)@ == m
                    && final(self).wf(),
                Err(e) => r == Err::<bool, ParserError>(e),
            },
    {
        let n = buffer.len();
        let mut i: usize = 0;
        while i < n
            invariant
                n == buffer@.len(),
                0 <= i <= n,
                self.wf(),
                feed_model(old(self)@, buffer@.take(i as int)) == Ok::<ParserModel, ParserError>(
                    self@,
                ),
            decreases n - i,
        {
            proof {
                assert(buffer@.take(i + 1).drop_last() =~= buffer@.take(i as int));
            }
            match self.feed_one(buffer[i]) {
                Ok(_) => {},
                Err(e) => {
                    proof {
                        lemma_feed_error_sticks(old(self)@, buffer@, i as int + 1);
                    }
                    return Err(e);
                },
            }
            i = i + 1;
        }
        assert(buffer@.take(n as int) =~= buffer@);
        Ok(self.state == State::Done)
    }

    /// Hands over the parsed request, provided it is complete.
    pub fn finish(self) -> (r: Result<HttpRequest, ParserError>)
        requires
            self.wf(),
        ensures
            self@.state != State::Done <==> r is Err,
            r matches Err(e) ==> e is NotReady,
            r matches Ok(req) ==> req.wf() && req@ == request_of(self@),
    {
        if self.state != State::Done {
            return Err(ParserError::NotReady);
        }
        let target = chars_to_string(&self.request_target);
        Ok(HttpRequest::new(target, self.header_map, self.method_parsed))
    }

    pub fn is_valid_field_content_char(ch: u8) -> (r: bool)
        ensures
            r == is_field_content_byte(ch),
    {
        (0x21 <= ch && ch <= 0x7e) || ch >= 0x80
    }
}

} // verus!
