//! A minimal HTTP/1.1 layer: the path of a request, and a fixed-form response.
use vstd::prelude::*;
use crate::text::{char_vec, first_match, lemma_first_match, find_first, matches_at, push_range};

verus! {

/// A parsed request: its resource path, and whatever follows the blank line
/// that ends its headers.
pub struct Request {
    pub path: String,
    pub body: String,
}

/// A response: always `200 OK`, closing the connection after the body.
pub struct Response {
    pub body: String,
}

/// ASCII whitespace, which separates the words of a request line.
pub open spec fn is_space(c: char) -> bool {
    c == ' ' || c == '\t' || c == '\n' || c == '\x0C' || c == '\r'
}

/// The position of the first `c` at or after `i` in `s`, or the length of `s`.
pub open spec fn next_char(s: Seq<char>, c: char, i: int) -> int
    decreases s.len() - i,
{
    if i < 0 || i >= s.len() || s[i] == c {
        if i < 0 { 0 } else { i }
    } else {
        next_char(s, c, i + 1)
    }
}

/// The end of the run of whitespace (`space`) or of other characters
/// (`!space`) that starts at `i` in `s`.
pub open spec fn run_end(s: Seq<char>, i: int, space: bool) -> int
    decreases s.len() - i,
{
    if 0 <= i < s.len() && is_space(s[i]) == space {
        run_end(s, i + 1, space)
    } else {
        i
    }
}

/// The second whitespace-delimited word of `line`, or empty if there is none.
pub open spec fn second_word(line: Seq<char>) -> Seq<char> {
    let a = run_end(line, 0, true);
    let b = run_end(line, a, false);
    let c = run_end(line, b, true);
    let d = run_end(line, c, false);
    line.subrange(c, d)
}

/// The resource path of a request: the second word of its first line.
pub open spec fn request_path(s: Seq<char>) -> Seq<char> {
    second_word(s.subrange(0, next_char(s, '\n', 0)))
}

/// The blank line that ends the headers.
pub open spec fn header_end() -> Seq<char> {
    seq!['\r', '\n', '\r', '\n']
}

/// What follows the first blank line of a request, or empty if there is none.
pub open spec fn request_body(s: Seq<char>) -> Seq<char> {
    match first_match(s, header_end()) {
        Some(i) => s.subrange(i + 4, s.len() as int),
        None => Seq::empty(),
    }
}

/// The status line and header that start every response, and the blank line
/// after them.
pub open spec fn response_head() -> Seq<char> {
    "HTTP/1.1 200 OK\r\nConnection: close\r\n\r\n"@
}

fn next_char_exec(v: &Vec<char>, c: char, from: usize) -> (r: usize)
    requires
        from <= v.len(),
    ensures
        r == next_char(v@, c, from as int),
        from <= r <= v.len(),
{
    let mut i: usize = from;
    while i < v.len() && v[i] != c
        invariant
            from <= i <= v.len(),
            next_char(v@, c, i as int) == next_char(v@, c, from as int),
        decreases v.len() - i,
    {
        i = i + 1;
    }
    i
}

fn run_end_exec(v: &Vec<char>, from: usize, end: usize, space: bool) -> (r: usize)
    requires
        from <= end <= v.len(),
    ensures
        r == run_end(v@.subrange(0, end as int), from as int, space),
        from <= r <= end,
{
    let ghost line = v@.subrange(0, end as int);
    let mut i: usize = from;
    while i < end && (v[i] == ' ' || v[i] == '\t' || v[i] == '\n' || v[i] == '\x0C' || v[i] == '\r') == space
        invariant
            from <= i <= end <= v.len(),
            line == v@.subrange(0, end as int),
            run_end(line, i as int, space) == run_end(line, from as int, space),
        decreases end - i,
    {
        assert(line[i as int] == v@[i as int]);
        i = i + 1;
    }
    if i < end {
        assert(line[i as int] == v@[i as int]);
    }
    i
}

/// Parses a request: its path is the second word of its first line, and its
/// body whatever follows the first blank line. A request with no such word
/// has an empty path; one with no blank line, an empty body.
pub fn parse_request(request: &str) -> (r: Request)
    ensures
        r.path@ == request_path(request@),
        r.body@ == request_body(request@),
{
    let v = char_vec(request);
    let end = next_char_exec(&v, '\n', 0);
    let a = run_end_exec(&v, 0, end, true);
    let b = run_end_exec(&v, a, end, false);
    let c = run_end_exec(&v, b, end, true);
    let d = run_end_exec(&v, c, end, false);
    let mut path = String::new();
    push_range(&mut path, &v, c, d);
    proof {
        assert(v@.subrange(0, end as int).subrange(c as int, d as int) =~= v@.subrange(c as int, d as int));
    }
    let mut sep: Vec<char> = Vec::new();
    sep.push('\r');
    sep.push('\n');
    sep.push('\r');
    sep.push('\n');
    assert(sep@ =~= header_end());
    let mut body = String::new();
    match find_first(&v, &sep) {
        Some(i) => {
            proof {
                lemma_first_match(v@, sep@);
                assert(matches_at(v@, sep@, i as int));
            }
            push_range(&mut body, &v, i + 4, v.len());
        },
        None => {},
    }
    assert(body@ =~= request_body(request@));
    Request { path, body }
}

impl Response {
    /// A response that carries `body`.
    pub fn new(body: &str) -> (r: Self)
        ensures
            r.body@ == body@,
    {
        Response { body: String::from_str(body) }
    }

    /// The bytes of the response as text: the status line, the
    /// `Connection: close` header, a blank line, then the body as it is.
    pub fn to_string(&self) -> (r: String)
        ensures
            r@ == response_head() + self.body@,
    {
        let mut r = String::from_str("HTTP/1.1 200 OK\r\nConnection: close\r\n\r\n");
        r.append(self.body.as_str());
        r
    }
}

} // verus!
