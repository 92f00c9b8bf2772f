//! The request parser: from the bytes of one read to method, path, header
//! mapping and body.
//!
//! The header block ends at the first blank line, `\r\n\r\n`. Its first line
//! holds exactly three tokens: method, path and protocol version. Each later
//! line that holds a colon gives a header: the key before the first colon,
//! the value after it, both trimmed. Everything after the blank line is the
//! body; no declared length bounds it.

use crate::headers::Headers;
use crate::text::{
    find_first, first_in, lines, pieces, split_lines, split_tokens, to_chars, tokens, trim,
    trim_span, CharClass, Span,
};
use vstd::prelude::*;
use vstd::utf8::{decode_utf8, valid_utf8};

verus! {

/// Why a buffer is no request.
#[derive(Clone, Copy, Debug, PartialEq, Eq, Structural)]
pub enum ParseError {
    /// No blank line ends the header block.
    MissingBlankLine,
    /// The first line does not hold exactly three tokens.
    BadRequestLine,
}

/// The message for a buffer that is no request.
pub open spec fn malformed_message() -> Seq<char> {
    "Non-Standard HTTP Structure!"@
}

impl ParseError {
    /// The message that is sent back for this error. It is the same for
    /// both.
    pub fn message(&self) -> (text: &'static str)
        ensures
            text@ == malformed_message(),
    {
        "Non-Standard HTTP Structure!"
    }
}

/// A request as mathematical values.
pub struct RequestModel {
    /// The first token of the first line.
    pub method: Seq<char>,
    /// The second token of the first line.
    pub path: Seq<char>,
    /// The headers, by key.
    pub headers: Map<Seq<char>, Seq<char>>,
    /// What follows the blank line.
    pub body: Seq<char>,
}

/// A parsed request.
#[derive(Debug)]
pub struct Request {
    /// The first token of the first line.
    pub method: String,
    /// The second token of the first line.
    pub path: String,
    /// The headers, by key.
    pub headers: Headers,
    /// What follows the blank line.
    pub body: String,
}

impl View for Request {
    type V = RequestModel;

    open spec fn view(&self) -> RequestModel {
        RequestModel {
            method: self.method@,
            path: self.path@,
            headers: self.headers@,
            body: self.body@,
        }
    }
}

/// The text that a lossy decoding of `bytes` as UTF-8 gives: each invalid
/// sequence becomes U+FFFD, the rest is decoded.
pub uninterp spec fn lossy_text(bytes: Seq<u8>) -> Seq<char>;

/// A blank line, `\r\n\r\n`, starts at position `at`.
pub open spec fn blank_line_at(s: Seq<char>, at: int) -> bool {
    &&& 0 <= at
    &&& at + 4 <= s.len()
    &&& s[at] == '\r'
    &&& s[at + 1] == '\n'
    &&& s[at + 2] == '\r'
    &&& s[at + 3] == '\n'
}

/// The first blank line starts at position `at`.
pub open spec fn first_blank_line_at(s: Seq<char>, at: int) -> bool {
    &&& blank_line_at(s, at)
    &&& forall|j: int| 0 <= j < at ==> !blank_line_at(s, j)
}

/// The header block and the body: what stands before the first blank line
/// and what stands after it. `None` where there is no blank line.
pub open spec fn split_head(s: Seq<char>) -> Option<(Seq<char>, Seq<char>)> {
    if exists|at: int| blank_line_at(s, at) {
        let at = choose|at: int| first_blank_line_at(s, at);
        Some((s.take(at), s.skip(at + 4)))
    } else {
        None
    }
}

/// The header that a line gives: key and value around its first colon,
/// trimmed. `None` for a line without a colon.
pub open spec fn header_entry(line: Seq<char>) -> Option<(Seq<char>, Seq<char>)> {
    let colon = first_in(line, CharClass::Colon);
    if colon < line.len() {
        Some((trim(line.take(colon)), trim(line.skip(colon + 1))))
    } else {
        None
    }
}

/// The header mapping that a sequence of lines gives. A later line
/// overwrites what an earlier one gave to the same key.
pub open spec fn header_map(rows: Seq<Seq<char>>) -> Map<Seq<char>, Seq<char>>
    decreases rows.len(),
{
    if rows.len() == 0 {
        Map::empty()
    } else {
        let earlier = header_map(rows.drop_last());
        match header_entry(rows.last()) {
            Some((key, value)) => earlier.insert(key, value),
            None => earlier,
        }
    }
}

/// The tokens of the first line of a header block; none where the block has
/// no line.
pub open spec fn request_line(head: Seq<char>) -> Seq<Seq<char>> {
    if lines(head).len() > 0 {
        tokens(lines(head)[0])
    } else {
        Seq::empty()
    }
}

/// What a text parses to.
pub open spec fn parse_request(s: Seq<char>) -> Result<RequestModel, ParseError> {
    match split_head(s) {
        None => Err(ParseError::MissingBlankLine),
        Some((head, body)) => if request_line(head).len() == 3 {
            Ok(
                RequestModel {
                    method: request_line(head)[0],
                    path: request_line(head)[1],
                    headers: header_map(lines(head).skip(1)),
                    body,
                },
            )
        } else {
            Err(ParseError::BadRequestLine)
        },
    }
}

/// The first blank line fixes the split.
pub proof fn lemma_split_head(s: Seq<char>, at: int)
    requires
        first_blank_line_at(s, at),
    ensures
        split_head(s) == Some((s.take(at), s.skip(at + 4))),
{
    let chosen = choose|at: int| first_blank_line_at(s, at);
    assert(first_blank_line_at(s, chosen));
    if chosen < at {
        assert(!blank_line_at(s, chosen));
    }
    if at < chosen {
        assert(!blank_line_at(s, at));
    }
}

/// A text without a blank line is no request, whatever else it holds.
pub proof fn lemma_no_blank_line_no_request(s: Seq<char>)
    requires
        forall|at: int| !blank_line_at(s, at),
    ensures
        parse_request(s) == Err::<RequestModel, ParseError>(ParseError::MissingBlankLine),
{
}

/// A header block whose first line does not hold exactly three tokens makes
/// no request, whatever the header lines and the body hold.
pub proof fn lemma_request_line_needs_three_tokens(s: Seq<char>, at: int)
    requires
        first_blank_line_at(s, at),
        request_line(s.take(at)).len() != 3,
    ensures
        parse_request(s) == Err::<RequestModel, ParseError>(ParseError::BadRequestLine),
{
    lemma_split_head(s, at);
}

/// The last line that gives a key its value decides: the mapping holds that
/// key with that value, whatever earlier lines gave it.
pub proof fn lemma_last_header_wins(
    rows: Seq<Seq<char>>,
    at: int,
    key: Seq<char>,
    value: Seq<char>,
)
    requires
        0 <= at < rows.len(),
        header_entry(rows[at]) == Some((key, value)),
        forall|j: int|
            at < j < rows.len() ==> !(header_entry(#[trigger] rows[j]) matches Some(entry)
                && entry.0 == key),
    ensures
        header_map(rows).contains_key(key),
        header_map(rows)[key] == value,
    decreases rows.len(),
{
    let last = rows.len() - 1;
    if at < last {
        let earlier = rows.drop_last();
        assert(earlier[at] == rows[at]);
        assert forall|j: int| at < j < earlier.len() implies !(header_entry(
            #[trigger] earlier[j],
        ) matches Some(entry) && entry.0 == key) by {
            assert(earlier[j] == rows[j]);
        }
        lemma_last_header_wins(earlier, at, key, value);
        assert(rows.last() == rows[last]);
    }
}

/// The mapping holds no key but those that some line gives.
pub proof fn lemma_header_key_has_line(rows: Seq<Seq<char>>, key: Seq<char>)
    requires
        header_map(rows).contains_key(key),
    ensures
        exists|i: int|
            0 <= i < rows.len() && (header_entry(#[trigger] rows[i]) matches Some(entry)
                && entry.0 == key),
    decreases rows.len(),
{
    if rows.len() > 0 {
        let last = rows.len() - 1;
        let earlier = rows.drop_last();
        if header_entry(rows[last]) matches Some(entry) && entry.0 == key {
        } else {
            assert(header_map(earlier).contains_key(key));
            lemma_header_key_has_line(earlier, key);
            let i = choose|i: int|
                0 <= i < earlier.len() && (header_entry(#[trigger] earlier[i]) matches Some(entry)
                    && entry.0 == key);
            assert(earlier[i] == rows[i]);
        }
    }
}

/// Decodes bytes as UTF-8 by `String::from_utf8_lossy`, which puts U+FFFD
/// in the place of each invalid sequence and never fails. The contract
/// names its result, and says that bytes that are valid UTF-8 decode to the
/// text that they encode.
#[verifier::external_body]
fn decode_lossy(bytes: &[u8]) -> (text: String)
    ensures
        text@ == lossy_text(bytes@),
        valid_utf8(bytes@) ==> text@ == decode_utf8(bytes@),
{
    String::from_utf8_lossy(bytes).into_owned()
}

/// Finds the first blank line.
fn find_blank_line(s: &[char]) -> (place: Option<usize>)
    ensures
        match place {
            Some(at) => first_blank_line_at(s@, at as int),
            None => forall|at: int| !blank_line_at(s@, at),
        },
{
    let n = s.len();
    if n < 4 {
        return None;
    }
    let mut at: usize = 0;
    while at <= n - 4
        invariant
            n == s@.len(),
            n >= 4,
            at <= n - 3,
            forall|j: int| 0 <= j < at ==> !blank_line_at(s@, j),
        decreases n - at,
    {
        if s[at] == '\r' && s[at + 1] == '\n' && s[at + 2] == '\r' && s[at + 3] == '\n' {
            return Some(at);
        }
        at = at + 1;
    }
    None
}

/// Copies the characters of a range out of a text.
fn cut(text: &str, span: Span) -> (piece: String)
    requires
        span.within(0, text@.len() as int),
    ensures
        piece@ == span.of(text@),
{
    text.substring_char(span.start, span.end).to_owned()
}

/// Reads the header lines: every line but the first.
fn read_headers(text: &str, s: &[char], rows: &Vec<Span>) -> (headers: Headers)
    requires
        text@ == s@,
        rows@.len() > 0,
        forall|i: int| 0 <= i < rows@.len() ==> (#[trigger] rows@[i]).within(0, s@.len() as int),
    ensures
        headers@ == header_map(pieces(rows@, s@).skip(1)),
{
    let mut headers = Headers::new();
    let ghost all = pieces(rows@, s@);
    let mut i: usize = 1;
    assert(all.subrange(1, 1) =~= Seq::<Seq<char>>::empty());
    while i < rows.len()
        invariant
            1 <= i <= rows@.len(),
            text@ == s@,
            all == pieces(rows@, s@),
            forall|i: int| 0 <= i < rows@.len() ==> (#[trigger] rows@[i]).within(0, s@.len() as int),
            headers@ == header_map(all.subrange(1, i as int)),
        decreases rows@.len() - i,
    {
        let row = rows[i];
        let ghost line = row.of(s@);
        let colon = find_first(s, row.start, row.end, CharClass::Colon);
        proof {
            assert(all.subrange(1, i + 1).drop_last() =~= all.subrange(1, i as int));
            assert(all.subrange(1, i + 1).last() == line);
        }
        if colon < row.end {
            let key = trim_span(s, row.start, colon);
            let value = trim_span(s, colon + 1, row.end);
            proof {
                assert(line.take(colon - row.start) =~= s@.subrange(
                    row.start as int,
                    colon as int,
                ));
                assert(line.skip(colon - row.start + 1) =~= s@.subrange(
                    colon + 1,
                    row.end as int,
                ));
            }
            headers.insert(cut(text, key), cut(text, value));
        }
        i = i + 1;
    }
    assert(all.subrange(1, i as int) =~= all.skip(1));
    headers
}

impl Request {
    /// Parses a text.
    pub fn parse_text(text: &str) -> (parsed: Result<Request, ParseError>)
        ensures
            match parsed {
                Ok(request) => parse_request(text@) == Ok::<RequestModel, ParseError>(request@),
                Err(error) => parse_request(text@) == Err::<RequestModel, ParseError>(error),
            },
    {
        let chars = to_chars(text);
        let s = chars.as_slice();
        let n = s.len();
        let split = match find_blank_line(s) {
            Some(at) => at,
            None => {
                return Err(ParseError::MissingBlankLine);
            },
        };
        proof {
            lemma_split_head(s@, split as int);
            assert(s@.take(split as int) =~= s@.subrange(0, split as int));
        }
        let ghost head = s@.take(split as int);
        let rows = split_lines(s, 0, split);
        if rows.len() == 0 {
            return Err(ParseError::BadRequestLine);
        }
        let first = rows[0];
        assert(pieces(rows@, s@)[0] == first.of(s@));
        let start = split_tokens(s, first.start, first.end);
        if start.len() != 3 {
            return Err(ParseError::BadRequestLine);
        }
        assert(pieces(start@, s@)[0] == start@[0].of(s@));
        assert(pieces(start@, s@)[1] == start@[1].of(s@));
        let method = cut(text, start[0]);
        let path = cut(text, start[1]);
        let headers = read_headers(text, s, &rows);
        let body = cut(text, Span { start: split + 4, end: n });
        assert(s@.skip(split + 4) =~= s@.subrange(split + 4, n as int));
        Ok(Request { method, path, headers, body })
    }

    /// Parses the bytes of one read: decodes them as UTF-8, with U+FFFD in
    /// the place of what is not, and parses the text.
    pub fn parse(buffer: &[u8]) -> (parsed: Result<Request, ParseError>)
        ensures
            match parsed {
                Ok(request) => parse_request(lossy_text(buffer@)) == Ok::<
                    RequestModel,
                    ParseError,
                >(request@),
                Err(error) => parse_request(lossy_text(buffer@)) == Err::<
                    RequestModel,
                    ParseError,
                >(error),
            },
            valid_utf8(buffer@) ==> lossy_text(buffer@) == decode_utf8(buffer@),
    {
        let text = decode_lossy(buffer);
        Request::parse_text(text.as_str())
    }
}

} // verus!
