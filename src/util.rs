use vstd::prelude::*;

verus! {

pub const CR: char = '\r';

pub const LF: char = '\n';

pub const SP: char = ' ';

pub const HTAB: char = '\t';

/// The request methods the parser recognises; `Invalid` until one is matched.
#[derive(Clone, Copy, Debug, PartialEq, Eq, Structural)]
pub enum HttpMethod {
    Get,
    Put,
    Head,
    Post,
    Trace,
    Delete,
    Options,
    Invalid,
}

pub open spec fn method_name(m: HttpMethod) -> Seq<char> {
    match m {
        HttpMethod::Get => seq!['G', 'E', 'T'],
        HttpMethod::Put => seq!['P', 'U', 'T'],
        HttpMethod::Head => seq!['H', 'E', 'A', 'D'],
        HttpMethod::Post => seq!['P', 'O', 'S', 'T'],
        HttpMethod::Trace => seq!['T', 'R', 'A', 'C', 'E'],
        HttpMethod::Delete => seq!['D', 'E', 'L', 'E', 'T', 'E'],
        HttpMethod::Options => seq!['O', 'P', 'T', 'I', 'O', 'N', 'S'],
        HttpMethod::Invalid => seq!['I', 'N', 'V', 'A', 'L', 'I', 'D'],
    }
}

/// The method whose name is exactly `m`, or `Invalid`.
pub open spec fn classify(m: Seq<char>) -> HttpMethod {
    if m == method_name(HttpMethod::Get) {
        HttpMethod::Get
    } else if m == method_name(HttpMethod::Put) {
        HttpMethod::Put
    } else if m == method_name(HttpMethod::Head) {
        HttpMethod::Head
    } else if m == method_name(HttpMethod::Post) {
        HttpMethod::Post
    } else if m == method_name(HttpMethod::Trace) {
        HttpMethod::Trace
    } else if m == method_name(HttpMethod::Delete) {
        HttpMethod::Delete
    } else if m == method_name(HttpMethod::Options) {
        HttpMethod::Options
    } else {
        HttpMethod::Invalid
    }
}

fn is_word(m: &Vec<char>, w: &str) -> (r: bool)
    requires
        w.is_ascii(),
    ensures
        r == (m@ == w@),
{
    let n = w.unicode_len();
    if m.len() != n {
        return false;
    }
    let mut i: usize = 0;
    while i < n
        invariant
            n == w@.len(),
            m@.len() == n,
            0 <= i <= n,
            forall|j: int| 0 <= j < i ==> m@[j] == w@[j],
        decreases n - i,
    {
        if m[i] != w.get_char(i) {
            return false;
        }
        i = i + 1;
    }
    assert(m@ =~= w@);
    true
}

/// Looks up the method named by the characters accumulated so far.
pub fn classify_method(m: &Vec<char>) -> (r: HttpMethod)
    ensures
        r == classify(m@),
{
    proof {
        reveal_strlit("GET");
        reveal_strlit("PUT");
        reveal_strlit("HEAD");
        reveal_strlit("POST");
        reveal_strlit("TRACE");
        reveal_strlit("DELETE");
        reveal_strlit("OPTIONS");
        assert("GET"@ =~= method_name(HttpMethod::Get));
        assert("PUT"@ =~= method_name(HttpMethod::Put));
        assert("HEAD"@ =~= method_name(HttpMethod::Head));
        assert("POST"@ =~= method_name(HttpMethod::Post));
        assert("TRACE"@ =~= method_name(HttpMethod::Trace));
        assert("DELETE"@ =~= method_name(HttpMethod::Delete));
        assert("OPTIONS"@ =~= method_name(HttpMethod::Options));
    }
    if is_word(m, "GET") {
        HttpMethod::Get
    } else if is_word(m, "PUT") {
        HttpMethod::Put
    } else if is_word(m, "HEAD") {
        HttpMethod::Head
    } else if is_word(m, "POST") {
        HttpMethod::Post
    } else if is_word(m, "TRACE") {
        HttpMethod::Trace
    } else if is_word(m, "DELETE") {
        HttpMethod::Delete
    } else if is_word(m, "OPTIONS") {
        HttpMethod::Options
    } else {
        HttpMethod::Invalid
    }
}

impl HttpMethod {
    /// The method's name as it appears on the request line.
    pub fn as_str(&self) -> (r: &'static str)
        ensures
            r@ == method_name(*self),
    {
        proof {
            reveal_strlit("GET");
            reveal_strlit("PUT");
            reveal_strlit("HEAD");
            reveal_strlit("POST");
            reveal_strlit("TRACE");
            reveal_strlit("DELETE");
            reveal_strlit("OPTIONS");
            reveal_strlit("INVALID");
        }
        let r = match self {
            HttpMethod::Get => "GET",
            HttpMethod::Put => "PUT",
            HttpMethod::Head => "HEAD",
            HttpMethod::Post => "POST",
            HttpMethod::Trace => "TRACE",
            HttpMethod::Delete => "DELETE",
            HttpMethod::Options => "OPTIONS",
            HttpMethod::Invalid => "INVALID",
        };
        assert(r@ =~= method_name(*self));
        r
    }
}

pub open spec fn is_ascii_char(c: char) -> bool {
    (c as u32) < 0x80
}

pub open spec fn is_control_char(c: char) -> bool {
    (c as u32) < 0x20 || (c as u32) == 0x7f
}

pub open spec fn is_digit_char(c: char) -> bool {
    '0' <= c && c <= '9'
}

pub open spec fn digit_value(c: char) -> int {
    (c as u32) - ('0' as u32)
}

/// The delimiters that may not appear in a header field name.
pub open spec fn is_delimiter(c: char) -> bool {
    c == '(' || c == ')' || c == '<' || c == '>' || c == '@' || c == ',' || c == ';' || c == ':'
        || c == '\\' || c == '"' || c == '/' || c == '[' || c == ']' || c == '?' || c == '='
        || c == '{' || c == '}' || c == ' '
}

/// A character allowed in a header field name.
pub open spec fn is_token_char(c: char) -> bool {
    is_ascii_char(c) && !is_control_char(c) && !is_delimiter(c)
}

/// A byte allowed in a header field value: visible ASCII or obs-text.
pub open spec fn is_field_content_byte(b: u8) -> bool {
    (0x21 <= b && b <= 0x7e) || b >= 0x80
}

/// The character with ASCII upper case letters mapped to lower case.
pub open spec fn lower_char(c: char) -> char {
    if 'A' <= c && c <= 'Z' {
        (((c as u32) + 32) as u8) as char
    } else {
        c
    }
}

pub open spec fn lower_seq(s: Seq<char>) -> Seq<char> {
    s.map_values(|c: char| lower_char(c))
}

pub fn is_ascii(c: char) -> (r: bool)
    ensures
        r == is_ascii_char(c),
{
    (c as u32) < 0x80
}

pub fn is_control(c: char) -> (r: bool)
    ensures
        r == is_control_char(c),
{
    let v = c as u32;
    v < 0x20 || v == 0x7f
}

pub fn is_digit(c: char) -> (r: bool)
    ensures
        r == is_digit_char(c),
{
    '0' <= c && c <= '9'
}

pub fn to_ascii_lower(c: char) -> (r: char)
    ensures
        r == lower_char(c),
{
    if 'A' <= c && c <= 'Z' {
        (((c as u32) + 32) as u8) as char
    } else {
        c
    }
}

/// Relies on String::push: the character is appended at the end.
#[verifier::external_body]
pub(crate) fn push_char(s: &mut String, c: char)
    ensures
        final(s)@ == old(s)@.push(c),
{
    s.push(c)
}

/// The characters of `v` as a string.
pub fn chars_to_string(v: &Vec<char>) -> (r: String)
    ensures
        r@ == v@,
{
    let mut r = String::new();
    let n = v.len();
    let mut i: usize = 0;
    while i < n
        invariant
            n == v@.len(),
            0 <= i <= n,
            r@ == v@.take(i as int),
        decreases n - i,
    {
        push_char(&mut r, v[i]);
        i = i + 1;
        assert(r@ =~= v@.take(i as int));
    }
    assert(v@.take(n as int) =~= v@);
    r
}

/// The characters of `v` with ASCII letters in lower case, as a string.
pub fn lowercase_string(v: &Vec<char>) -> (r: String)
    ensures
        r@ == lower_seq(v@),
{
    let mut r = String::new();
    let n = v.len();
    let mut i: usize = 0;
    while i < n
        invariant
            n == v@.len(),
            0 <= i <= n,
            r@ == lower_seq(v@.take(i as int)),
        decreases n - i,
    {
        push_char(&mut r, to_ascii_lower(v[i]));
        i = i + 1;
        assert(r@ =~= lower_seq(v@.take(i as int)));
    }
    assert(v@.take(n as int) =~= v@);
    r
}

} // verus!
