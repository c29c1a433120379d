use vstd::prelude::*;
use vstd::string::StrSliceExecFns;
use vstd::utf8::{decode_utf8, encode_utf8, valid_utf8};
use crate::control::interpolation_total;
use crate::node_manager::{all_refreshed, bridges_synced, dispatched, NodeManager};
use crate::protocol::{Command, CommandResult, ControllerMessage, ServerMessage};
use crate::text::{char_text, chars_of, concat2, concat3, owned};
use crate::value::{JsonValue, Number};

verus! {

broadcast use vstd::string::group_string_axioms;

/// The largest request, head or body, that the command endpoint reads.
pub const COMMAND_MAX_REQUEST_SIZE: usize = 1048576;

/// Whether a character has the Unicode `White_Space` property: tab, line
/// feed, vertical tab, form feed, carriage return, space, next line,
/// no-break space, ogham space mark, the spaces from en quad to hair space,
/// line and paragraph separators, narrow no-break space, medium mathematical
/// space and ideographic space.
pub open spec fn white_space(c: char) -> bool {
    let u = c as u32;
    ||| 0x09 <= u <= 0x0D
    ||| u == 0x20
    ||| u == 0x85
    ||| u == 0xA0
    ||| u == 0x1680
    ||| 0x2000 <= u <= 0x200A
    ||| u == 0x2028
    ||| u == 0x2029
    ||| u == 0x202F
    ||| u == 0x205F
    ||| u == 0x3000
}

/// Whether a character has the Unicode `White_Space` property.
///
/// Calls `char::is_whitespace`, which its documentation defines as that
/// property of the Unicode Character Database (`PropList.txt`); the contract
/// lists the characters that hold it.
#[verifier::external_body]
fn is_white_space(c: char) -> (b: bool)
    ensures
        b == white_space(c),
{
    c.is_whitespace()
}

/// The number of leading characters of `s` that are white space.
pub open spec fn leading_space(s: Seq<char>) -> nat
    decreases s.len(),
{
    if s.len() > 0 && white_space(s[0]) {
        1 + leading_space(s.drop_first())
    } else {
        0
    }
}

/// The number of trailing characters of `s` that are white space.
pub open spec fn trailing_space(s: Seq<char>) -> nat
    decreases s.len(),
{
    if s.len() > 0 && white_space(s.last()) {
        1 + trailing_space(s.drop_last())
    } else {
        0
    }
}

/// `s` without leading and trailing white space, as `str::trim` gives it.
pub open spec fn trimmed(s: Seq<char>) -> Seq<char> {
    let front = s.skip(leading_space(s) as int);
    front.take(front.len() - trailing_space(front))
}

proof fn lemma_leading_space(s: Seq<char>, i: int)
    requires
        0 <= i <= s.len(),
        forall|j: int| 0 <= j < i ==> white_space(#[trigger] s[j]),
        i == s.len() || !white_space(s[i]),
    ensures
        leading_space(s) == i,
    decreases i,
{
    if i > 0 {
        assert forall|j: int| 0 <= j < i - 1 implies white_space(#[trigger] s.drop_first()[j]) by {
            assert(s.drop_first()[j] == s[j + 1]);
        }
        if i - 1 < s.drop_first().len() {
            assert(s.drop_first()[i - 1] == s[i]);
        }
        lemma_leading_space(s.drop_first(), i - 1);
    }
}

proof fn lemma_trailing_space(s: Seq<char>, k: int)
    requires
        0 <= k <= s.len(),
        forall|j: int| s.len() - k <= j < s.len() ==> white_space(#[trigger] s[j]),
        k == s.len() || !white_space(s[s.len() - k - 1]),
    ensures
        trailing_space(s) == k,
    decreases k,
{
    if k > 0 {
        let t = s.drop_last();
        assert forall|j: int| t.len() - (k - 1) <= j < t.len() implies white_space(#[trigger] t[j]) by {
            assert(t[j] == s[j]);
        }
        if k - 1 < t.len() {
            assert(t[t.len() - (k - 1) - 1] == s[s.len() - k - 1]);
        }
        lemma_trailing_space(t, k - 1);
    }
}

/// The characters of `c` from `from` up to `to`, as a string.
fn text_between(c: &Vec<char>, from: usize, to: usize) -> (s: String)
    requires
        from <= to <= c@.len(),
    ensures
        s@ == c@.subrange(from as int, to as int),
{
    let mut s = String::new();
    let mut k = from;
    while k < to
        invariant
            from <= k <= to,
            to <= c@.len(),
            s@ == c@.subrange(from as int, k as int),
        decreases to - k,
    {
        s.append(char_text(c[k]).as_str());
        assert(c@.subrange(from as int, k + 1) =~= c@.subrange(from as int, k as int).push(c@[k as int]));
        k = k + 1;
    }
    s
}

/// A string of one character.
///
/// `s` without leading and trailing white space.
pub fn trim_text(s: &str) -> (r: String)
    ensures
        r@ == trimmed(s@),
{
    let c = chars_of(s);
    let mut i: usize = 0;
    while i < c.len() && is_white_space(c[i])
        invariant
            c@ == s@,
            i <= c@.len(),
            forall|j: int| 0 <= j < i ==> white_space(#[trigger] c@[j]),
        decreases c@.len() - i,
    {
        i = i + 1;
    }
    proof {
        lemma_leading_space(s@, i as int);
    }
    let mut e: usize = c.len();
    while e > i && is_white_space(c[e - 1])
        invariant
            c@ == s@,
            i <= e <= c@.len(),
            forall|j: int| e <= j < c@.len() ==> white_space(#[trigger] c@[j]),
        decreases e,
    {
        e = e - 1;
    }
    proof {
        let front = s@.skip(i as int);
        assert forall|j: int| front.len() - (c@.len() - e) <= j < front.len() implies white_space(#[trigger] front[j]) by {
            assert(front[j] == s@[j + i]);
        }
        if c@.len() - e < front.len() {
            assert(front[front.len() - (c@.len() - e) - 1] == s@[e - 1]);
        }
        lemma_trailing_space(front, c@.len() - e);
        assert(front.take(front.len() - (c@.len() - e)) =~= s@.subrange(i as int, e as int));
    }
    text_between(&c, i, e)
}

/// The address the command endpoint binds to: the configured value without
/// surrounding white space, or none when that leaves nothing.
pub fn command_endpoint_bind_from_value(value: Option<String>) -> (r: Option<String>)
    ensures
        match value {
            None => r is None,
            Some(v) => if trimmed(v@).len() == 0 {
                r is None
            } else {
                r matches Some(b) && b@ == trimmed(v@)
            },
        },
{
    match value {
        None => None,
        Some(v) => {
            let t = trim_text(v.as_str());
            if t.as_str().is_empty() {
                None
            } else {
                Some(t)
            }
        },
    }
}

/// The decimal digits of `n`.
pub open spec fn decimal(n: nat) -> Seq<char>
    decreases n,
{
    if n < 10 {
        seq![digit_char(n)]
    } else {
        decimal(n / 10).push(digit_char(n % 10))
    }
}

/// The character of a digit.
pub open spec fn digit_char(d: nat) -> char {
    if d == 0 { '0' } else if d == 1 { '1' } else if d == 2 { '2' } else if d == 3 { '3' } else if d == 4 { '4' }
    else if d == 5 { '5' } else if d == 6 { '6' } else if d == 7 { '7' } else if d == 8 { '8' } else { '9' }
}

fn digit_text(d: usize) -> (s: String)
    requires
        d < 10,
    ensures
        s@ == seq![digit_char(d as nat)],
{
    let c = if d == 0 { '0' } else if d == 1 { '1' } else if d == 2 { '2' } else if d == 3 { '3' } else if d == 4 { '4' }
        else if d == 5 { '5' } else if d == 6 { '6' } else if d == 7 { '7' } else if d == 8 { '8' } else { '9' };
    char_text(c)
}

/// The decimal text of `n`.
pub fn decimal_text(n: usize) -> (s: String)
    ensures
        s@ == decimal(n as nat),
    decreases n,
{
    if n < 10 {
        digit_text(n)
    } else {
        let mut s = decimal_text(n / 10);
        s.append(digit_text(n % 10).as_str());
        s
    }
}

/// The head of an HTTP response with the given status and content type and a
/// body of `len` bytes, ending with the blank line.
pub open spec fn response_head(status: Seq<char>, content_type: Seq<char>, len: nat) -> Seq<char> {
    "HTTP/1.1 "@ + status + "\r\nContent-Type: "@ + content_type + "\r\nContent-Length: "@ + decimal(len)
        + "\r\nConnection: close\r\n\r\n"@
}

/// An HTTP response: its head in UTF-8, then the body.
pub fn build_http_response(status: &str, content_type: &str, body: &[u8]) -> (r: Vec<u8>)
    ensures
        r@ == encode_utf8(response_head(status@, content_type@, body@.len())) + body@,
{
    let first = concat3("HTTP/1.1 ", status, "\r\nContent-Type: ");
    let second = concat3(first.as_str(), content_type, "\r\nContent-Length: ");
    let len = decimal_text(body.len());
    let head = concat3(second.as_str(), len.as_str(), "\r\nConnection: close\r\n\r\n");
    assert(head@ == response_head(status@, content_type@, body@.len()));
    let mut r = head.as_str().as_bytes_vec();
    r.extend_from_slice(body);
    r
}

/// The status, content type and body that answer an HTTP request to the
/// command endpoint.
pub struct HttpAnswer {
    pub status: String,
    pub content_type: String,
    pub body: Vec<u8>,
}

pub open spec fn json_type() -> Seq<char> {
    "application/json"@
}

/// The answer to a request that the command endpoint does not route to the
/// command handler: the health check, an unknown path, or another method.
pub open spec fn fixed_answer(method: Seq<char>, path: Seq<char>) -> (Seq<char>, Seq<char>) {
    if method == "GET"@ && path == "/health"@ {
        ("200 OK"@, "{\"status\":\"ok\"}"@)
    } else if method == "POST"@ || method == "GET"@ {
        ("404 Not Found"@, "{\"error\":\"not found\"}"@)
    } else {
        ("405 Method Not Allowed"@, "{\"error\":\"method not allowed\"}"@)
    }
}

/// Answers an HTTP request to the command endpoint: `POST /command` gives
/// the body to `handle` and answers with what it gives back; `GET /health`
/// answers that all is well; another path with either method is not found;
/// another method is not allowed. Every answer is JSON.
pub fn handle_command_http_request<H: Fn(Vec<u8>) -> Vec<u8>>(method: &str, path: &str, body: &[u8], handle: &H) -> (r: (String, String, Vec<u8>))
    requires
        forall|b: Vec<u8>| call_requires(*handle, (b,)),
    ensures
        r.1@ == json_type(),
        method@ == "POST"@ && path@ == "/command"@ ==> r.0@ == "200 OK"@ && exists|b: Vec<u8>|
            b@ == body@ && #[trigger] call_ensures(*handle, (b,), r.2),
        !(method@ == "POST"@ && path@ == "/command"@) ==> r.0@ == fixed_answer(method@, path@).0 && r.2@ == encode_utf8(fixed_answer(method@, path@).1),
{
    let m = owned(method);
    let p = owned(path);
    if m == owned("POST") && p == owned("/command") {
        let payload = vstd::slice::slice_to_vec(body);
        let ghost sent = payload;
        let out = handle(payload);
        let answer = (owned("200 OK"), owned("application/json"), out);
        assert(call_ensures(*handle, (sent,), answer.2));
        assert(sent@ == body@);
        return answer;
    }
    if m == owned("GET") && p == owned("/health") {
        (owned("200 OK"), owned("application/json"), "{\"status\":\"ok\"}".as_bytes_vec())
    } else if m == owned("POST") || m == owned("GET") {
        (owned("404 Not Found"), owned("application/json"), "{\"error\":\"not found\"}".as_bytes_vec())
    } else {
        (owned("405 Method Not Allowed"), owned("application/json"), "{\"error\":\"method not allowed\"}".as_bytes_vec())
    }
}

/// The index of the first `\r\n\r\n` of `b` at or after `i`, or -1.
pub open spec fn find_terminator(b: Seq<u8>, i: int) -> int
    decreases b.len() - i,
{
    if i < 0 || i + 4 > b.len() {
        -1
    } else if b[i] == 13 && b[i + 1] == 10 && b[i + 2] == 13 && b[i + 3] == 10 {
        i
    } else {
        find_terminator(b, i + 1)
    }
}

/// Where the head of a request ends: the index of its first `\r\n\r\n`.
pub fn find_header_end(buf: &[u8]) -> (r: Option<usize>)
    ensures
        match r {
            Some(i) => i == find_terminator(buf@, 0),
            None => find_terminator(buf@, 0) < 0,
        },
{
    let mut i: usize = 0;
    while buf.len() >= 4 && i <= buf.len() - 4
        invariant
            find_terminator(buf@, 0) == find_terminator(buf@, i as int),
        decreases buf@.len() - i,
    {
        if buf[i] == 13 && buf[i + 1] == 10 && buf[i + 2] == 13 && buf[i + 3] == 10 {
            return Some(i);
        }
        i = i + 1;
    }
    None
}

/// The index of the first `c` in `s` at or after `i`, or -1.
pub open spec fn find_char(s: Seq<char>, c: char, i: int) -> int
    decreases s.len() - i,
{
    if i < 0 || i >= s.len() {
        -1
    } else if s[i] == c {
        i
    } else {
        find_char(s, c, i + 1)
    }
}

pub proof fn lemma_find_char(s: Seq<char>, c: char, i: int)
    requires
        0 <= i,
    ensures
        find_char(s, c, i) == -1 || (i <= find_char(s, c, i) < s.len() && s[find_char(s, c, i)] == c && forall|
            j: int,
        | i <= j < find_char(s, c, i) ==> s[j] != c),
        find_char(s, c, i) == -1 ==> forall|j: int| i <= j < s.len() ==> s[j] != c,
    decreases s.len() - i,
{
    if i < s.len() && s[i] != c {
        lemma_find_char(s, c, i + 1);
    }
}

/// A line without the `\r` that ends it, if any.
pub open spec fn without_cr(line: Seq<char>) -> Seq<char> {
    if line.len() > 0 && line.last() == '\r' {
        line.drop_last()
    } else {
        line
    }
}

/// The lines of `s` as `str::lines` gives them: split after each `\n`, with
/// the `\n` (and a `\r` just before it) dropped; a last line without `\n`
/// counts, nothing after a last `\n` does.
pub open spec fn text_lines(s: Seq<char>) -> Seq<Seq<char>>
    decreases s.len(),
{
    if s.len() == 0 {
        Seq::empty()
    } else {
        let i = find_char(s, '\n', 0);
        if i < 0 {
            seq![s]
        } else {
            proof {
                lemma_find_char(s, '\n', 0);
            }
            seq![without_cr(s.take(i))] + text_lines(s.skip(i + 1))
        }
    }
}

/// The number of leading characters of `s` that are not white space.
pub open spec fn token_len(s: Seq<char>) -> nat
    decreases s.len(),
{
    if s.len() > 0 && !white_space(s[0]) {
        1 + token_len(s.drop_first())
    } else {
        0
    }
}

/// The first white-space separated word of `s` and what follows it, as
/// `str::split_whitespace` finds it.
pub open spec fn first_token(s: Seq<char>) -> Option<(Seq<char>, Seq<char>)> {
    let t = s.skip(leading_space(s) as int);
    if t.len() == 0 {
        None
    } else {
        Some((t.take(token_len(t) as int), t.skip(token_len(t) as int)))
    }
}

/// A character in lower case, for ASCII letters.
pub open spec fn ascii_lower(c: char) -> char {
    if 'A' <= c && c <= 'Z' {
        ((c as u32) + 32) as char
    } else {
        c
    }
}

/// `a` and `b` are equal but for the case of ASCII letters.
pub open spec fn same_ignoring_ascii_case(a: Seq<char>, b: Seq<char>) -> bool {
    a.len() == b.len() && forall|i: int| 0 <= i < a.len() ==> ascii_lower(#[trigger] a[i]) == ascii_lower(b[i])
}

/// The value of a digit character.
pub open spec fn digit_value(c: char) -> nat {
    ((c as u32) - ('0' as u32)) as nat
}

/// The number the decimal digits of `s` write.
pub open spec fn digits_value(s: Seq<char>) -> nat
    decreases s.len(),
{
    if s.len() == 0 {
        0
    } else {
        digits_value(s.drop_last()) * 10 + digit_value(s.last())
    }
}

/// The digits of a number as `usize::from_str` reads it: without a leading `+`.
pub open spec fn usize_digits(s: Seq<char>) -> Seq<char> {
    if s.len() > 0 && s[0] == '+' {
        s.drop_first()
    } else {
        s
    }
}

/// Every character of `d` is an ASCII digit.
pub open spec fn all_digits(d: Seq<char>) -> bool {
    forall|i: int| 0 <= i < d.len() ==> '0' <= #[trigger] d[i] && d[i] <= '9'
}

/// `s` is a number as `usize::from_str` reads one: an optional `+`, then one
/// or more ASCII digits, of a value that fits.
pub open spec fn parse_usize(s: Seq<char>) -> Option<nat> {
    let digits = usize_digits(s);
    if digits.len() == 0 || !all_digits(digits) {
        None
    } else if digits_value(digits) > usize::MAX {
        None
    } else {
        Some(digits_value(digits))
    }
}

/// The length a header line declares, when it is a `Content-Length` header
/// (in any case, with white space around name and value) with a number.
pub open spec fn header_length(line: Seq<char>) -> Option<nat> {
    let i = find_char(line, ':', 0);
    if i < 0 {
        None
    } else if same_ignoring_ascii_case(trimmed(line.take(i)), "content-length"@) {
        parse_usize(trimmed(line.skip(i + 1)))
    } else {
        None
    }
}

/// The length the first `Content-Length` header line with a number declares, or 0.
pub open spec fn content_length(lines: Seq<Seq<char>>) -> nat
    decreases lines.len(),
{
    if lines.len() == 0 {
        0
    } else {
        match header_length(lines[0]) {
            Some(n) => n,
            None => content_length(lines.drop_first()),
        }
    }
}

/// What the head of a request gives: its method, its path and the length
/// of its body; or why it is malformed.
pub open spec fn request_head(b: Seq<u8>) -> Result<(Seq<char>, Seq<char>, nat), Seq<char>> {
    if !valid_utf8(b) {
        Err("Malformed HTTP request: invalid UTF-8 headers"@)
    } else {
        let lines = text_lines(decode_utf8(b));
        if lines.len() == 0 {
            Err("Malformed HTTP request: missing request line"@)
        } else {
            match first_token(lines[0]) {
                None => Err("Malformed HTTP request: missing method"@),
                Some((method, rest)) => match first_token(rest) {
                    None => Err("Malformed HTTP request: missing path"@),
                    Some((path, _)) => Ok((method, path, content_length(lines.drop_first()))),
                },
            }
        }
    }
}

/// The text that UTF-8 bytes hold, or none when they are not UTF-8.
///
/// Calls `std::str::from_utf8`, which succeeds exactly on valid UTF-8 and
/// then gives the decoded characters.
#[verifier::external_body]
fn utf8_text(bytes: &[u8]) -> (r: Option<String>)
    ensures
        r is Some <==> valid_utf8(bytes@),
        r matches Some(s) ==> s@ == decode_utf8(bytes@),
{
    std::str::from_utf8(bytes).ok().map(|s| s.to_owned())
}

/// A character in lower case, for ASCII letters.
///
/// Calls `char::to_ascii_lowercase`, which maps `A` to `Z` onto `a` to `z`
/// and leaves every other character as it is.
#[verifier::external_body]
fn to_ascii_lower(c: char) -> (r: char)
    ensures
        r == ascii_lower(c),
{
    c.to_ascii_lowercase()
}

/// The character sequences of a list of character vectors.
pub open spec fn char_vecs(v: Seq<Vec<char>>) -> Seq<Seq<char>> {
    v.map_values(|l: Vec<char>| l@)
}

/// The characters of `c` from `from` up to `to`.
fn chars_between(c: &Vec<char>, from: usize, to: usize) -> (r: Vec<char>)
    requires
        from <= to <= c@.len(),
    ensures
        r@ == c@.subrange(from as int, to as int),
{
    let mut r: Vec<char> = Vec::new();
    let mut k = from;
    while k < to
        invariant
            from <= k <= to,
            to <= c@.len(),
            r@ == c@.subrange(from as int, k as int),
        decreases to - k,
    {
        r.push(c[k]);
        assert(c@.subrange(from as int, k + 1) =~= c@.subrange(from as int, k as int).push(c@[k as int]));
        k = k + 1;
    }
    r
}

/// The lines of the text `c`, as `str::lines` splits them.
pub fn split_lines(c: &Vec<char>) -> (r: Vec<Vec<char>>)
    ensures
        char_vecs(r@) == text_lines(c@),
{
    let mut lines: Vec<Vec<char>> = Vec::new();
    let mut start: usize = 0;
    proof {
        assert(c@.skip(0) =~= c@);
        assert(char_vecs(lines@) + text_lines(c@) =~= text_lines(c@));
    }
    while start < c.len()
        invariant
            start <= c@.len(),
            char_vecs(lines@) + text_lines(c@.skip(start as int)) == text_lines(c@),
        decreases c@.len() - start,
    {
        let ghost rest = c@.skip(start as int);
        let mut i = start;
        while i < c.len() && c[i] != '\n'
            invariant
                start <= i <= c@.len(),
                rest == c@.skip(start as int),
                find_char(rest, '\n', 0) == find_char(rest, '\n', i - start),
            decreases c@.len() - i,
        {
            assert(rest[i - start] == c@[i as int]);
            i = i + 1;
        }
        let mut end = i;
        if end > start && c[end - 1] == '\r' && i < c.len() {
            end = end - 1;
        }
        let line = chars_between(c, start, end);
        let ghost prev = lines@;
        lines.push(line);
        proof {
            assert(rest.len() > 0);
            if i < c@.len() {
                assert(rest[i - start] == c@[i as int]);
                assert(find_char(rest, '\n', i - start) == i - start);
                assert(rest.take(i - start) =~= c@.subrange(start as int, i as int));
                assert(without_cr(rest.take(i - start)) =~= c@.subrange(start as int, end as int));
                assert(rest.skip(i - start + 1) =~= c@.skip(i + 1));
                assert(text_lines(rest) == seq![c@.subrange(start as int, end as int)] + text_lines(c@.skip(i + 1)));
            } else {
                assert(find_char(rest, '\n', i - start) == -1);
                assert(rest =~= c@.subrange(start as int, end as int));
                assert(text_lines(rest) == seq![rest]);
                assert(c@.skip(c@.len() as int) =~= Seq::<char>::empty());
            }
            assert(char_vecs(lines@) =~= char_vecs(prev).push(line@));
        }
        if i < c.len() {
            start = i + 1;
        } else {
            start = c.len();
        }
        proof {
            if i < c@.len() {
                assert(char_vecs(lines@) + text_lines(c@.skip(start as int)) =~= char_vecs(prev) + text_lines(rest));
            } else {
                assert(text_lines(c@.skip(start as int)) =~= Seq::<Seq<char>>::empty());
                assert(char_vecs(lines@) + text_lines(c@.skip(start as int)) =~= char_vecs(prev) + text_lines(rest));
            }
        }
    }
    proof {
        assert(c@.skip(start as int).len() == 0);
        assert(text_lines(c@.skip(start as int)) =~= Seq::<Seq<char>>::empty());
        assert(char_vecs(lines@) =~= char_vecs(lines@) + text_lines(c@.skip(start as int)));
    }
    lines
}

proof fn lemma_token_len(s: Seq<char>, k: int)
    requires
        0 <= k <= s.len(),
        forall|j: int| 0 <= j < k ==> !white_space(#[trigger] s[j]),
        k == s.len() || white_space(s[k]),
    ensures
        token_len(s) == k,
    decreases k,
{
    if k > 0 {
        assert forall|j: int| 0 <= j < k - 1 implies !white_space(#[trigger] s.drop_first()[j]) by {
            assert(s.drop_first()[j] == s[j + 1]);
        }
        if k - 1 < s.drop_first().len() {
            assert(s.drop_first()[k - 1] == s[k]);
        }
        lemma_token_len(s.drop_first(), k - 1);
    }
}

/// The first white-space separated word of the characters of `c` from
/// `from` on: where it starts and ends.
pub fn next_token(c: &Vec<char>, from: usize) -> (r: Option<(usize, usize)>)
    requires
        from <= c@.len(),
    ensures
        match first_token(c@.skip(from as int)) {
            None => r is None,
            Some((word, rest)) => r matches Some((a, b)) && from <= a <= b <= c@.len() && word == c@.subrange(
                a as int,
                b as int,
            ) && rest == c@.skip(b as int),
        },
{
    let ghost s = c@.skip(from as int);
    let mut a = from;
    while a < c.len() && is_white_space(c[a])
        invariant
            from <= a <= c@.len(),
            s == c@.skip(from as int),
            forall|j: int| 0 <= j < a - from ==> white_space(#[trigger] s[j]),
        decreases c@.len() - a,
    {
        assert(s[a - from] == c@[a as int]);
        a = a + 1;
    }
    proof {
        if a < c@.len() {
            assert(s[a - from] == c@[a as int]);
        }
        lemma_leading_space(s, a - from);
    }
    if a == c.len() {
        assert(s.skip(a - from).len() == 0);
        return None;
    }
    let mut b = a;
    while b < c.len() && !is_white_space(c[b])
        invariant
            a <= b <= c@.len(),
            forall|j: int| a <= j < b ==> !white_space(#[trigger] c@[j]),
        decreases c@.len() - b,
    {
        b = b + 1;
    }
    proof {
        let t = s.skip(a - from);
        assert(t =~= c@.skip(a as int));
        assert forall|j: int| 0 <= j < b - a implies !white_space(#[trigger] t[j]) by {
            assert(t[j] == c@[a + j]);
        }
        if b < c@.len() {
            assert(t[b - a] == c@[b as int]);
        }
        lemma_token_len(t, b - a);
        assert(t.take(b - a) =~= c@.subrange(a as int, b as int));
        assert(t.skip(b - a) =~= c@.skip(b as int));
    }
    Some((a, b))
}

proof fn lemma_digits_prefix(s: Seq<char>, k: int)
    requires
        0 <= k <= s.len(),
    ensures
        digits_value(s.take(k)) <= digits_value(s),
    decreases s.len() - k,
{
    if k < s.len() {
        lemma_digits_prefix(s.drop_last(), k);
        assert(s.drop_last().take(k) =~= s.take(k));
    } else {
        assert(s.take(k) =~= s);
    }
}

/// The number that `s` writes, as `usize::from_str` reads it.
pub fn parse_usize_chars(s: &Vec<char>) -> (r: Option<usize>)
    ensures
        match parse_usize(s@) {
            None => r is None,
            Some(n) => r matches Some(v) && v == n,
        },
{
    let mut i: usize = 0;
    if s.len() > 0 && s[0] == '+' {
        i = 1;
    }
    let ghost digits = usize_digits(s@);
    assert(digits =~= s@.skip(i as int));
    if i == s.len() {
        assert(digits.len() == 0);
        return None;
    }
    let start = i;
    let mut v: usize = 0;
    while i < s.len()
        invariant
            start <= i <= s@.len(),
            digits =~= s@.skip(start as int),
            digits == usize_digits(s@),
            forall|j: int| 0 <= j < i - start ==> '0' <= #[trigger] digits[j] && digits[j] <= '9',
            v == digits_value(digits.take(i - start)),
        decreases s@.len() - i,
    {
        let c = s[i];
        assert(c == digits[i - start]);
        if !('0' <= c && c <= '9') {
            assert(!('0' <= digits[i - start] && digits[i - start] <= '9'));
            return None;
        }
        let d = (c as u32 - '0' as u32) as usize;
        assert(digits.take(i - start + 1).drop_last() =~= digits.take(i - start));
        assert(digits.take(i - start + 1).last() == c);
        assert(d == digit_value(c));
        assert(digits_value(digits.take(i - start + 1)) == v * 10 + d);
        match v.checked_mul(10) {
            None => {
                proof {
                    lemma_digits_prefix(digits, i - start + 1);
                    assert(digits_value(digits) > usize::MAX);
                    assert(parse_usize(s@) is None);
                }
                return None;
            },
            Some(t) => match t.checked_add(d) {
                None => {
                    proof {
                        lemma_digits_prefix(digits, i - start + 1);
                        assert(digits_value(digits) > usize::MAX);
                    }
                    return None;
                },
                Some(u) => {
                    v = u;
                },
            },
        }
        i = i + 1;
    }
    assert(digits.take(i - start) =~= digits);
    Some(v)
}

/// Whether `a` equals `b` but for the case of ASCII letters.
fn equal_ignoring_ascii_case(a: &Vec<char>, b: &Vec<char>) -> (r: bool)
    ensures
        r == same_ignoring_ascii_case(a@, b@),
{
    if a.len() != b.len() {
        return false;
    }
    let mut i: usize = 0;
    while i < a.len()
        invariant
            a@.len() == b@.len(),
            i <= a@.len(),
            forall|j: int| 0 <= j < i ==> ascii_lower(#[trigger] a@[j]) == ascii_lower(b@[j]),
        decreases a@.len() - i,
    {
        if to_ascii_lower(a[i]) != to_ascii_lower(b[i]) {
            return false;
        }
        i = i + 1;
    }
    true
}

/// The length a header line declares, when it is a `Content-Length` header
/// with a number.
pub fn header_length_of(line: &Vec<char>) -> (r: Option<usize>)
    ensures
        match header_length(line@) {
            None => r is None,
            Some(n) => r matches Some(v) && v == n,
        },
{
    let mut i: usize = 0;
    while i < line.len() && line[i] != ':'
        invariant
            i <= line@.len(),
            find_char(line@, ':', 0) == find_char(line@, ':', i as int),
        decreases line@.len() - i,
    {
        i = i + 1;
    }
    if i == line.len() {
        return None;
    }
    assert(find_char(line@, ':', 0) == i);
    let name = text_between(line, 0, i);
    let name_trimmed = trim_text(name.as_str());
    let target = chars_of("content-length");
    let name_chars = chars_of(name_trimmed.as_str());
    assert(line@.subrange(0, i as int) =~= line@.take(i as int));
    if !equal_ignoring_ascii_case(&name_chars, &target) {
        return None;
    }
    let value = text_between(line, i + 1, line.len());
    assert(line@.subrange(i + 1, line@.len() as int) =~= line@.skip(i + 1));
    let value_trimmed = trim_text(value.as_str());
    let value_chars = chars_of(value_trimmed.as_str());
    parse_usize_chars(&value_chars)
}

/// `r` is what `request_head` gives, with strings in place of their characters.
pub open spec fn head_parsed(r: Result<(String, String, usize), String>, expected: Result<(Seq<char>, Seq<char>, nat), Seq<char>>) -> bool {
    match expected {
        Ok((m, p, n)) => r matches Ok((rm, rp, rn)) && rm@ == m && rp@ == p && rn == n,
        Err(e) => r matches Err(re) && re@ == e,
    }
}

/// Reads the head of a request (the bytes before its first `\r\n\r\n`):
/// its method and path, the first two words of its first line, and the
/// length its first `Content-Length` header with a number declares (0
/// without one).
pub fn parse_request_head(head: &[u8]) -> (r: Result<(String, String, usize), String>)
    ensures
        head_parsed(r, request_head(head@)),
{
    let text = match utf8_text(head) {
        None => {
            return Err(owned("Malformed HTTP request: invalid UTF-8 headers"));
        },
        Some(t) => t,
    };
    let c = chars_of(text.as_str());
    let lines = split_lines(&c);
    assert(c@ == decode_utf8(head@));
    let ghost ls = char_vecs(lines@);
    if lines.len() == 0 {
        return Err(owned("Malformed HTTP request: missing request line"));
    }
    let first = &lines[0];
    assert(first@ == ls[0]);
    let (a, b) = match next_token(first, 0) {
        None => {
            assert(first@.skip(0) =~= first@);
            return Err(owned("Malformed HTTP request: missing method"));
        },
        Some(t) => t,
    };
    assert(first@.skip(0) =~= first@);
    let method = text_between(first, a, b);
    let (a2, b2) = match next_token(first, b) {
        None => {
            return Err(owned("Malformed HTTP request: missing path"));
        },
        Some(t) => t,
    };
    let path = text_between(first, a2, b2);
    assert(first_token(ls[0]) == Some((first@.subrange(a as int, b as int), first@.skip(b as int))));
    let mut k: usize = 1;
    proof {
        assert(ls.skip(1) =~= ls.drop_first());
    }
    while k < lines.len()
        invariant
            ls == char_vecs(lines@),
            valid_utf8(head@),
            ls == text_lines(decode_utf8(head@)),
            1 <= k <= lines@.len(),
            first_token(ls[0]) matches Some((m, rest)) && m == method@ && (first_token(rest) matches Some((p, _))
                && p == path@),
            content_length(ls.drop_first()) == content_length(ls.skip(k as int)),
        decreases lines@.len() - k,
    {
        assert(lines@[k as int]@ == ls[k as int]);
        assert(ls.skip(k as int)[0] == ls[k as int]);
        assert(ls.skip(k as int).drop_first() =~= ls.skip(k + 1));
        match header_length_of(&lines[k]) {
            Some(n) => {
                return Ok((method, path, n));
            },
            None => {},
        }
        k = k + 1;
    }
    assert(ls.skip(k as int) =~= Seq::<Seq<char>>::empty());
    assert(content_length(ls.drop_first()) == 0);
    Ok((method, path, 0))
}

/// Which part of a request a reader is taking in.
#[derive(Clone, Copy, Debug, PartialEq, Eq, Structural)]
pub enum ReaderStage {
    Head,
    Body,
}

/// A request read from a connection piece by piece: the head until its
/// blank line, then the body until its declared length.
#[derive(Debug)]
pub struct HttpRequestReader {
    pub stage: ReaderStage,
    /// The bytes read so far: of the request while reading its head, of the
    /// body after that.
    pub buffer: Vec<u8>,
    pub method: String,
    pub path: String,
    pub content_length: usize,
}

/// What a reader asks for after some bytes: more of them, or nothing more,
/// with the request (method, path and body) or why it was refused.
#[derive(Debug)]
pub enum ReadStep {
    NeedMore,
    Finished(Result<(String, String, Vec<u8>), String>),
}

pub proof fn lemma_find_terminator(b: Seq<u8>, i: int)
    requires
        0 <= i,
    ensures
        find_terminator(b, i) == -1 || (i <= find_terminator(b, i) && find_terminator(b, i) + 4 <= b.len()),
    decreases b.len() - i,
{
    if i + 4 <= b.len() && !(b[i] == 13 && b[i + 1] == 10 && b[i + 2] == 13 && b[i + 3] == 10) {
        lemma_find_terminator(b, i + 1);
    }
}

/// `r` finished with the request or the error that `expected` gives.
pub open spec fn finished_with(r: ReadStep, expected: Result<(Seq<char>, Seq<char>, Seq<u8>), Seq<char>>) -> bool {
    match expected {
        Ok((m, p, b)) => r matches ReadStep::Finished(Ok((rm, rp, rb))) && rm@ == m && rp@ == p && rb@ == b,
        Err(e) => r matches ReadStep::Finished(Err(re)) && re@ == e,
    }
}

pub open spec fn msg_no_terminator() -> Seq<char> {
    "Malformed HTTP request: missing header terminator"@
}

pub open spec fn msg_too_large() -> Seq<char> {
    "HTTP request body is too large"@
}

/// What a reader taking in the head does with the bytes `bytes` read so far
/// once they hold its blank line at `t`.
pub open spec fn head_found(bytes: Seq<u8>, t: int, after: HttpRequestReader, r: ReadStep) -> bool {
    match request_head(bytes.take(t)) {
        Err(e) => finished_with(r, Err(e)),
        Ok((m, p, n)) => {
            let body = bytes.skip(t + 4);
            if n > COMMAND_MAX_REQUEST_SIZE {
                finished_with(r, Err(msg_too_large()))
            } else if body.len() >= n {
                finished_with(r, Ok((m, p, body.take(n as int))))
            } else {
                &&& r is NeedMore
                &&& after.stage == ReaderStage::Body
                &&& after.buffer@ == body
                &&& after.method@ == m
                &&& after.path@ == p
                &&& after.content_length == n
            }
        },
    }
}

/// What a reader taking in the body does with the next chunk `chunk`: the
/// end of the stream ends the body where it is (cut to its declared length);
/// a body grown over the size limit is refused; one that reaches its declared
/// length is cut to it and ends the request; a shorter one waits for more.
pub open spec fn body_received(before: HttpRequestReader, chunk: Seq<u8>, after: HttpRequestReader, r: ReadStep) -> bool {
    let bytes = before.buffer@ + chunk;
    let n = before.content_length;
    if chunk.len() == 0 {
        finished_with(
            r,
            Ok((before.method@, before.path@, if before.buffer@.len() > n {
                before.buffer@.take(n as int)
            } else {
                before.buffer@
            })),
        )
    } else if bytes.len() > COMMAND_MAX_REQUEST_SIZE {
        finished_with(r, Err(msg_too_large()))
    } else if bytes.len() >= n {
        finished_with(r, Ok((before.method@, before.path@, bytes.take(n as int))))
    } else {
        &&& r is NeedMore
        &&& after.stage == ReaderStage::Body
        &&& after.buffer@ == bytes
        &&& after.method == before.method
        &&& after.path == before.path
        &&& after.content_length == n
    }
}

/// Once the head's blank line is found at `t`, a reader asks for more bytes
/// only while fewer have arrived after it than the declared `Content-Length`;
/// as soon as they reach that length (at once when it is 0 or absent) the
/// request ends, with exactly that many bytes as its body.
pub proof fn law_head_reader_waits_only_for_missing_bytes(bytes: Seq<u8>, t: int, after: HttpRequestReader, r: ReadStep)
    requires
        head_found(bytes, t, after, r),
    ensures
        r is NeedMore ==> (request_head(bytes.take(t)) matches Ok((m, p, n)) && bytes.skip(t + 4).len() < n),
        match request_head(bytes.take(t)) {
            Ok((m, p, n)) => n <= COMMAND_MAX_REQUEST_SIZE && bytes.skip(t + 4).len() >= n ==> (r matches ReadStep::Finished(
                Ok((rm, rp, rb)),
            ) && rm@ == m && rp@ == p && rb@ == bytes.skip(t + 4).take(n as int)),
            Err(_) => !(r is NeedMore),
        },
{
}

/// While taking in the body, a reader asks for more bytes only while the body
/// is still shorter than its declared length; a chunk that brings it to that
/// length (within the size limit) ends the request, with the body cut to it.
pub proof fn law_body_reader_waits_only_for_missing_bytes(
    before: HttpRequestReader,
    chunk: Seq<u8>,
    after: HttpRequestReader,
    r: ReadStep,
)
    requires
        body_received(before, chunk, after, r),
    ensures
        r is NeedMore ==> (chunk.len() > 0 && (before.buffer@ + chunk).len() < before.content_length),
        chunk.len() > 0 && (before.buffer@ + chunk).len() <= COMMAND_MAX_REQUEST_SIZE && (before.buffer@ + chunk).len()
            >= before.content_length ==> (r matches ReadStep::Finished(Ok((rm, rp, rb))) && rm@ == before.method@
            && rp@ == before.path@ && rb@ == (before.buffer@ + chunk).take(before.content_length as int)),
{
}

impl HttpRequestReader {
    /// A reader that has read nothing yet.
    pub fn new() -> (r: Self)
        ensures
            r.stage == ReaderStage::Head,
            r.buffer@.len() == 0,
    {
        HttpRequestReader { stage: ReaderStage::Head, buffer: Vec::new(), method: String::new(), path: String::new(), content_length: 0 }
    }

    /// Takes the next bytes read from the connection; no bytes means that
    /// the peer closed its side. The head is read until its blank line
    /// (failing at the end of the stream, or once the bytes read reach the
    /// size limit, without one); the body is read until its declared length
    /// (failing when it is declared, or grows, over the limit) or the end of
    /// the stream, and cut to that length.
    pub fn receive(&mut self, chunk: &[u8]) -> (r: ReadStep)
        ensures
            old(self).stage == ReaderStage::Head ==> ({
                let bytes = old(self).buffer@ + chunk@;
                let t = find_terminator(bytes, 0);
                if chunk@.len() == 0 {
                    finished_with(r, Err(msg_no_terminator()))
                } else if t < 0 {
                    if bytes.len() >= COMMAND_MAX_REQUEST_SIZE {
                        finished_with(r, Err(msg_no_terminator()))
                    } else {
                        r is NeedMore && final(self).stage == ReaderStage::Head && final(self).buffer@ == bytes
                    }
                } else {
                    head_found(bytes, t, *final(self), r)
                }
            }),
            old(self).stage == ReaderStage::Body ==> body_received(*old(self), chunk@, *final(self), r),
    {
        match self.stage {
            ReaderStage::Head => {
                if chunk.len() == 0 {
                    return ReadStep::Finished(Err(owned("Malformed HTTP request: missing header terminator")));
                }
                self.buffer.extend_from_slice(chunk);
                assert(self.buffer@ =~= old(self).buffer@ + chunk@);
                let bytes = self.buffer.as_slice();
                match find_header_end(bytes) {
                    None => {
                        if self.buffer.len() >= COMMAND_MAX_REQUEST_SIZE {
                            ReadStep::Finished(Err(owned("Malformed HTTP request: missing header terminator")))
                        } else {
                            ReadStep::NeedMore
                        }
                    },
                    Some(t) => {
                        proof {
                            lemma_find_terminator(self.buffer@, 0);
                        }
                        let blen = bytes.len();
                        assert(t + 4 <= blen);
                        let head = vstd::slice::slice_subrange(bytes, 0, t);
                        assert(head@ =~= self.buffer@.take(t as int));
                        match parse_request_head(head) {
                            Err(e) => ReadStep::Finished(Err(e)),
                            Ok((method, path, n)) => {
                                if n > COMMAND_MAX_REQUEST_SIZE {
                                    return ReadStep::Finished(Err(owned("HTTP request body is too large")));
                                }
                                let rest = vstd::slice::slice_subrange(bytes, t + 4, blen);
                                let mut body = vstd::slice::slice_to_vec(rest);
                                assert(body@ =~= self.buffer@.skip(t + 4));
                                if body.len() >= n {
                                    body.truncate(n);
                                    assert(body@ =~= self.buffer@.skip(t + 4).take(n as int));
                                    ReadStep::Finished(Ok((method, path, body)))
                                } else {
                                    self.stage = ReaderStage::Body;
                                    self.buffer = body;
                                    self.method = method;
                                    self.path = path;
                                    self.content_length = n;
                                    ReadStep::NeedMore
                                }
                            },
                        }
                    },
                }
            },
            ReaderStage::Body => {
                if chunk.len() == 0 {
                    let mut body = Vec::new();
                    std::mem::swap(&mut body, &mut self.buffer);
                    if body.len() > self.content_length {
                        body.truncate(self.content_length);
                    }
                    let method = self.method.clone();
                    let path = self.path.clone();
                    return ReadStep::Finished(Ok((method, path, body)));
                }
                self.buffer.extend_from_slice(chunk);
                assert(self.buffer@ =~= old(self).buffer@ + chunk@);
                if self.buffer.len() > COMMAND_MAX_REQUEST_SIZE {
                    return ReadStep::Finished(Err(owned("HTTP request body is too large")));
                }
                if self.buffer.len() >= self.content_length {
                    let mut body = Vec::new();
                    std::mem::swap(&mut body, &mut self.buffer);
                    body.truncate(self.content_length);
                    let method = self.method.clone();
                    let path = self.path.clone();
                    ReadStep::Finished(Ok((method, path, body)))
                } else {
                    ReadStep::NeedMore
                }
            },
        }
    }
}

/// What the runtime asks its host to do with its threads.
#[derive(Debug)]
pub enum RuntimeAction {
    /// Start the thread that ticks the graph.
    SpawnRefreshThread,
    /// Start the thread that serves the command endpoint at this address.
    SpawnCommandServer(String),
    /// Wait for the command endpoint thread, told to stop, to end.
    JoinCommandServer,
    /// Wait for the refresh thread, told to stop, to end.
    JoinRefreshThread,
}

/// The node graph and the threads that serve it.
#[derive(Debug)]
pub struct GraphRuntime {
    pub manager: NodeManager,
    /// A refresh thread has been started and not yet joined.
    pub refresh_thread: bool,
    /// The refresh thread is asked to keep running.
    pub refresh_running: bool,
    /// A command endpoint thread has been started and not yet joined.
    pub server_thread: bool,
    /// The command endpoint thread is asked to keep running.
    pub server_running: bool,
}

impl GraphRuntime {
    /// A runtime with an empty graph and no threads.
    pub fn new() -> (r: Self)
        ensures
            r.manager.wf(),
            !r.manager.started,
            r.manager.nodes@ == Map::<Seq<char>, crate::node_manager::NodeRecord>::empty(),
            r.manager.links@ == Map::<Seq<char>, crate::node_manager::LinkRecord>::empty(),
            r.manager.media_bridges@ == Map::<Seq<char>, Set<Seq<char>>>::empty(),
            !r.refresh_thread,
            !r.refresh_running,
            !r.server_thread,
            !r.server_running,
    {
        GraphRuntime {
            manager: NodeManager::new(),
            refresh_thread: false,
            refresh_running: false,
            server_thread: false,
            server_running: false,
        }
    }
}

/// Starts the runtime: the graph starts, the refresh thread runs (started
/// when there is none), and, when an endpoint address is configured, the
/// command endpoint thread runs (started when there is none). Gives the
/// threads to start, in that order.
pub fn start_graph_runtime<F: Fn(Number, Number, i64, i64) -> JsonValue>(
    rt: &mut GraphRuntime,
    bind: Option<String>,
    media_ready: bool,
    interpolate: &F,
) -> (actions: Vec<RuntimeAction>)
    requires
        old(rt).manager.wf(),
        interpolation_total(*interpolate),
    ensures
        final(rt).manager.wf(),
        final(rt).manager.started,
        exists|now: i128| #[trigger] all_refreshed(old(rt).manager.nodes@, final(rt).manager.nodes@, now, *interpolate),
        final(rt).manager.links@ == old(rt).manager.links@,
        media_ready ==> bridges_synced(
            old(rt).manager.media_bridges@,
            final(rt).manager.nodes@,
            old(rt).manager.links@,
            final(rt).manager.media_bridges@,
        ),
        !media_ready ==> final(rt).manager.media_bridges@ == old(rt).manager.media_bridges@,
        final(rt).refresh_thread,
        final(rt).refresh_running,
        final(rt).server_thread == (old(rt).server_thread || bind is Some),
        final(rt).server_running == (old(rt).server_running || bind is Some),
        actions@.len() == (if old(rt).refresh_thread { 0int } else { 1int }) + (if bind is Some && !old(rt).server_thread {
            1int
        } else {
            0int
        }),
        !old(rt).refresh_thread ==> actions@[0] is SpawnRefreshThread,
        bind is Some && !old(rt).server_thread ==> (actions@.last() matches RuntimeAction::SpawnCommandServer(a)
            && a@ == bind->0@),
{
    rt.manager.start(media_ready, interpolate);
    let mut actions: Vec<RuntimeAction> = Vec::new();
    rt.refresh_running = true;
    if !rt.refresh_thread {
        actions.push(RuntimeAction::SpawnRefreshThread);
        rt.refresh_thread = true;
    }
    match bind {
        None => {},
        Some(addr) => {
            rt.server_running = true;
            if !rt.server_thread {
                actions.push(RuntimeAction::SpawnCommandServer(addr));
                rt.server_thread = true;
            }
        },
    }
    actions
}

/// Tells the command endpoint thread to stop; when there is one, the host
/// is to wait for it to end.
pub fn stop_command_server_thread(rt: &mut GraphRuntime) -> (action: Option<RuntimeAction>)
    ensures
        !final(rt).server_running,
        !final(rt).server_thread,
        action is Some <==> old(rt).server_thread,
        action matches Some(a) ==> a is JoinCommandServer,
        final(rt).refresh_thread == old(rt).refresh_thread,
        final(rt).refresh_running == old(rt).refresh_running,
        final(rt).manager == old(rt).manager,
{
    rt.server_running = false;
    if rt.server_thread {
        rt.server_thread = false;
        Some(RuntimeAction::JoinCommandServer)
    } else {
        None
    }
}

/// Tells the refresh thread to stop; when there is one, the host is to wait
/// for it to end.
pub fn stop_refresh_thread(rt: &mut GraphRuntime) -> (action: Option<RuntimeAction>)
    ensures
        !final(rt).refresh_running,
        !final(rt).refresh_thread,
        action is Some <==> old(rt).refresh_thread,
        action matches Some(a) ==> a is JoinRefreshThread,
        final(rt).server_thread == old(rt).server_thread,
        final(rt).server_running == old(rt).server_running,
        final(rt).manager == old(rt).manager,
{
    rt.refresh_running = false;
    if rt.refresh_thread {
        rt.refresh_thread = false;
        Some(RuntimeAction::JoinRefreshThread)
    } else {
        None
    }
}

/// Shuts the runtime down: the command endpoint thread and then the refresh
/// thread are told to stop and, when there is one, waited for; the graph
/// stops every node and clears.
pub fn shutdown_graph_runtime(rt: &mut GraphRuntime) -> (actions: Vec<RuntimeAction>)
    ensures
        final(rt).manager.wf(),
        !final(rt).manager.started,
        final(rt).manager.nodes@ == Map::<Seq<char>, crate::node_manager::NodeRecord>::empty(),
        final(rt).manager.links@ == Map::<Seq<char>, crate::node_manager::LinkRecord>::empty(),
        final(rt).manager.media_bridges@ == Map::<Seq<char>, Set<Seq<char>>>::empty(),
        !final(rt).refresh_thread,
        !final(rt).refresh_running,
        !final(rt).server_thread,
        !final(rt).server_running,
        actions@.len() == (if old(rt).server_thread { 1int } else { 0int }) + (if old(rt).refresh_thread { 1int } else { 0int }),
        old(rt).server_thread ==> actions@[0] is JoinCommandServer,
        old(rt).refresh_thread ==> actions@.last() is JoinRefreshThread,
{
    let mut actions: Vec<RuntimeAction> = Vec::new();
    match stop_command_server_thread(rt) {
        Some(a) => actions.push(a),
        None => {},
    }
    match stop_refresh_thread(rt) {
        Some(a) => actions.push(a),
        None => {},
    }
    rt.manager.shutdown();
    actions
}

/// Hands a command to the graph at the current time.
pub fn handle_command<F: Fn(Number, Number, i64, i64) -> JsonValue>(
    manager: &mut NodeManager,
    command: Command,
    media_ready: bool,
    interpolate: &F,
) -> (r: CommandResult)
    requires
        old(manager).wf(),
        interpolation_total(*interpolate),
    ensures
        final(manager).wf(),
        exists|now: i128| #[trigger] dispatched(*old(manager), command, now, media_ready, *interpolate, *final(manager), r),
{
    manager.dispatch(command, media_ready, interpolate)
}

/// Hands the command of a controller message to the graph, and answers
/// with the message's id and the result.
pub fn handle_controller_message<F: Fn(Number, Number, i64, i64) -> JsonValue>(
    manager: &mut NodeManager,
    message: ControllerMessage,
    media_ready: bool,
    interpolate: &F,
) -> (r: ServerMessage)
    requires
        old(manager).wf(),
        interpolation_total(*interpolate),
    ensures
        final(manager).wf(),
        r.id == Some(message.id),
        exists|now: i128| #[trigger] dispatched(*old(manager), message.command, now, media_ready, *interpolate, *final(manager), r.result),
{
    let result = handle_command(manager, message.command, media_ready, interpolate);
    ServerMessage { id: Some(message.id), result }
}

/// Hands a bare command to the graph, and answers without an id.
pub fn handle_bare_command<F: Fn(Number, Number, i64, i64) -> JsonValue>(
    manager: &mut NodeManager,
    command: Command,
    media_ready: bool,
    interpolate: &F,
) -> (r: ServerMessage)
    requires
        old(manager).wf(),
        interpolation_total(*interpolate),
    ensures
        final(manager).wf(),
        r.id is None,
        exists|now: i128| #[trigger] dispatched(*old(manager), command, now, media_ready, *interpolate, *final(manager), r.result),
{
    let result = handle_command(manager, command, media_ready, interpolate);
    ServerMessage { id: None, result }
}

/// The answer to a payload that could not be read as a command: an error
/// without an id, naming why.
pub fn invalid_payload_answer(reason: &str) -> (r: ServerMessage)
    ensures
        r.id is None,
        r.result matches CommandResult::Error(e) && e@ == "Invalid command payload: "@ + reason@,
{
    ServerMessage { id: None, result: CommandResult::Error(concat2("Invalid command payload: ", reason)) }
}

} // verus!
