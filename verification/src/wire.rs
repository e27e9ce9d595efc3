//! The wire codec: from the bytes of a request to its method, path and body,
//! and from a status and a payload to the bytes of a response.

use vstd::prelude::*;
use vstd::slice::slice_subrange;
use vstd::string::{StrSliceExecFns, StringExecFns};
use vstd::utf8::{decode_utf8, encode_utf8, valid_utf8};
use crate::scan::{
    after_first_token, chars_of, find, first_of, first_token, token_bounds, Class,
};

verus! {

/// What the service reads of a request.
#[derive(Debug, PartialEq, Eq)]
pub struct ParsedRequest {
    /// The first token of the first line.
    pub method: String,
    /// The second token of the first line.
    pub path: String,
    /// What follows the first blank line.
    pub body: String,
}

/// A request as contracts see it.
pub ghost struct RequestView {
    pub method: Seq<char>,
    pub path: Seq<char>,
    pub body: Seq<char>,
}

impl View for ParsedRequest {
    type V = RequestView;

    open spec fn view(&self) -> RequestView {
        RequestView { method: self.method@, path: self.path@, body: self.body@ }
    }
}

/// The text that a run of bytes stands for, with U+FFFD in place of what is
/// no UTF-8.
pub uninterp spec fn utf8_lossy(bytes: Seq<u8>) -> Seq<char>;

/// `String::from_utf8_lossy`. Not proved: that it is a function of the
/// bytes alone, and that bytes which are UTF-8 give the text they encode.
#[verifier::external_body]
fn lossy_text(bytes: &[u8]) -> (text: String)
    ensures
        text@ == utf8_lossy(bytes@),
        valid_utf8(bytes@) ==> text@ == decode_utf8(bytes@),
{
    String::from_utf8_lossy(bytes).into_owned()
}

/// Whether a blank line, that is CR LF CR LF, begins at position `at`.
pub open spec fn blank_line_at(s: Seq<char>, at: int) -> bool {
    &&& 0 <= at
    &&& at + 4 <= s.len()
    &&& s[at] == '\r'
    &&& s[at + 1] == '\n'
    &&& s[at + 2] == '\r'
    &&& s[at + 3] == '\n'
}

/// Where the first blank line at or after `from` begins; the length of `s`
/// where there is none.
pub open spec fn first_blank_line(s: Seq<char>, from: int) -> int
    decreases s.len() - from,
{
    if from + 4 > s.len() {
        s.len() as int
    } else if blank_line_at(s, from) {
        from
    } else {
        first_blank_line(s, from + 1)
    }
}

/// `first_blank_line` is the least position of a blank line: none begins
/// before it, and one begins at it unless it is the end of `s`.
pub proof fn lemma_first_blank_line(s: Seq<char>, from: int)
    requires
        0 <= from <= s.len(),
    ensures
        from <= first_blank_line(s, from) <= s.len(),
        forall|k: int| from <= k < first_blank_line(s, from) ==> !blank_line_at(s, k),
        first_blank_line(s, from) < s.len() ==> blank_line_at(s, first_blank_line(s, from)),
    decreases s.len() - from,
{
    if from + 4 <= s.len() && !blank_line_at(s, from) {
        lemma_first_blank_line(s, from + 1);
    }
}

/// A position is `first_blank_line` when a blank line begins at it and none
/// begins between `from` and it.
pub proof fn lemma_first_blank_line_is(s: Seq<char>, from: int, at: int)
    requires
        0 <= from <= at,
        blank_line_at(s, at),
        forall|k: int| from <= k < at ==> !blank_line_at(s, k),
    ensures
        first_blank_line(s, from) == at,
    decreases at - from,
{
    if from < at {
        lemma_first_blank_line_is(s, from + 1, at);
    }
}

/// The header region: what stands before the first blank line, or all of
/// `s` where it has none.
pub open spec fn head_of(s: Seq<char>) -> Seq<char> {
    s.take(first_blank_line(s, 0))
}

/// The body: what stands after the first blank line; empty where `s` has none.
pub open spec fn body_of(s: Seq<char>) -> Seq<char> {
    if first_blank_line(s, 0) < s.len() {
        s.skip(first_blank_line(s, 0) + 4)
    } else {
        Seq::empty()
    }
}

/// The first line of the header region, up to its line feed.
pub open spec fn first_line(s: Seq<char>) -> Seq<char> {
    head_of(s).take(first_of(head_of(s), Class::Is('\n'), 0))
}

/// The request that a text holds. Nothing is refused: a token that is
/// missing is empty.
pub open spec fn request_of(s: Seq<char>) -> RequestView {
    RequestView {
        method: first_token(first_line(s)),
        path: first_token(after_first_token(first_line(s))),
        body: body_of(s),
    }
}

/// Computes `first_blank_line` from the start.
pub fn find_blank_line(s: &[char]) -> (at: usize)
    ensures
        at == first_blank_line(s@, 0),
        at == s.len() || at + 4 <= s.len(),
{
    let len = s.len();
    let mut at: usize = 0;
    while at < len && len - at >= 4
        invariant
            at <= len,
            len == s.len(),
            first_blank_line(s@, 0) == first_blank_line(s@, at as int),
        decreases len - at,
    {
        if s[at] == '\r' && s[at + 1] == '\n' && s[at + 2] == '\r' && s[at + 3] == '\n' {
            return at;
        }
        at = at + 1;
    }
    len
}

/// Decodes the text of a request.
pub fn decode_text(text: &str) -> (request: ParsedRequest)
    ensures
        request@ == request_of(text@),
{
    let chars = chars_of(text);
    let all = chars.as_slice();
    let split = find_blank_line(all);
    let head = slice_subrange(all, 0, split);
    let line_end = find(head, Class::Is('\n'), 0);
    let line = slice_subrange(head, 0, line_end);
    let (method_start, method_end) = token_bounds(line);
    let rest = slice_subrange(line, method_end, line.len());
    let (path_start, path_end) = token_bounds(rest);
    proof {
        assert(head@ =~= head_of(text@));
        assert(line@ =~= first_line(text@));
        assert(rest@ =~= after_first_token(line@));
        assert(text@.subrange(method_start as int, method_end as int) =~= first_token(line@));
        assert(text@.subrange(method_end + path_start, method_end + path_end) =~= first_token(
            rest@,
        ));
    }
    let method = text.substring_char(method_start, method_end);
    let path = text.substring_char(method_end + path_start, method_end + path_end);
    let body = if split < all.len() {
        proof {
            assert(text@.subrange(split + 4, text@.len() as int) =~= body_of(text@));
        }
        text.substring_char(split + 4, all.len())
    } else {
        proof {
            assert(text@.subrange(0, 0) =~= body_of(text@));
        }
        text.substring_char(0, 0)
    };
    ParsedRequest {
        method: String::from_str(method),
        path: String::from_str(path),
        body: String::from_str(body),
    }
}

/// Decodes the bytes of a request: they are read as UTF-8, with U+FFFD in
/// place of what is none, and the text is decoded.
pub fn decode(buffer: &[u8]) -> (request: ParsedRequest)
    ensures
        request@ == request_of(utf8_lossy(buffer@)),
        valid_utf8(buffer@) ==> request@ == request_of(decode_utf8(buffer@)),
{
    let text = lossy_text(buffer);
    decode_text(text.as_str())
}

/// The three statuses that the service answers with.
#[derive(Clone, Copy, Debug, PartialEq, Eq, Structural)]
pub enum Status {
    Okay,
    NotFound,
    InternalServerError,
}

/// What stands before the payload of a response: the status line, for
/// `Okay` the content type, and a blank line.
pub open spec fn head_text(status: Status) -> Seq<char> {
    match status {
        Status::Okay => "HTTP/1.1 200 OK\r\nContent-Type: application/json\r\n\r\n"@,
        Status::NotFound => "HTTP/1.1 404 NOT FOUND\r\n\r\n"@,
        Status::InternalServerError => "HTTP/1.1 500 INTERNAL SERVER ERROR\r\n\r\n"@,
    }
}

/// A response as text: the head of its status, then the payload as it is.
pub open spec fn response_text(status: Status, payload: Seq<char>) -> Seq<char> {
    head_text(status) + payload
}

/// The head of a response with the given status.
pub fn status_head(status: Status) -> (head: &'static str)
    ensures
        head@ == head_text(status),
{
    match status {
        Status::Okay => "HTTP/1.1 200 OK\r\nContent-Type: application/json\r\n\r\n",
        Status::NotFound => "HTTP/1.1 404 NOT FOUND\r\n\r\n",
        Status::InternalServerError => "HTTP/1.1 500 INTERNAL SERVER ERROR\r\n\r\n",
    }
}

/// Encodes a response: its text in UTF-8.
pub fn encode(status: Status, payload: &str) -> (bytes: Vec<u8>)
    ensures
        bytes@ == encode_utf8(response_text(status, payload@)),
{
    let mut text = String::from_str(status_head(status));
    text.append(payload);
    text.as_str().as_bytes_vec()
}

} // verus!
