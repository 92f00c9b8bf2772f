//! Scanning of character sequences: white space, lines, tokens, trimming.
//!
//! The spec functions work on whole sequences; the executable functions work
//! on a range of a slice and never copy.

use vstd::prelude::*;

verus! {

/// White space: the code points that carry Unicode's `White_Space` property.
pub open spec fn white_space(c: char) -> bool {
    let u = c as u32;
    ||| 0x09 <= u <= 0x0d
    ||| u == 0x20
    ||| u == 0x85
    ||| u == 0xa0
    ||| u == 0x1680
    ||| 0x2000 <= u <= 0x200a
    ||| u == 0x2028
    ||| u == 0x2029
    ||| u == 0x202f
    ||| u == 0x205f
    ||| u == 0x3000
}

/// Whether a character is white space.
pub fn is_whitespace(c: char) -> (b: bool)
    ensures
        b == white_space(c),
{
    let u: u32 = c as u32;
    (0x09 <= u && u <= 0x0d) || u == 0x20 || u == 0x85 || u == 0xa0 || u == 0x1680 || (0x2000 <= u
        && u <= 0x200a) || u == 0x2028 || u == 0x2029 || u == 0x202f || u == 0x205f || u == 0x3000
}

/// The kinds of character that a scan can look for.
#[derive(Clone, Copy, Debug, PartialEq, Eq, Structural)]
pub enum CharClass {
    /// The line feed.
    LineFeed,
    /// The colon.
    Colon,
    /// Any white space.
    Space,
    /// Anything but white space.
    Ink,
}

/// Whether a character belongs to a class.
pub open spec fn in_class(c: char, class: CharClass) -> bool {
    match class {
        CharClass::LineFeed => c == '\n',
        CharClass::Colon => c == ':',
        CharClass::Space => white_space(c),
        CharClass::Ink => !white_space(c),
    }
}

/// The number of characters that stand before the first one of the class;
/// the whole length where there is none.
pub open spec fn first_in(s: Seq<char>, class: CharClass) -> int
    decreases s.len(),
{
    if s.len() == 0 || in_class(s[0], class) {
        0
    } else {
        1 + first_in(s.drop_first(), class)
    }
}

/// `first_in` is the one index with nothing of the class before it and
/// something of the class, or the end, at it.
pub proof fn lemma_first_in(s: Seq<char>, class: CharClass, at: int)
    requires
        0 <= at <= s.len(),
        forall|j: int| 0 <= j < at ==> !in_class(#[trigger] s[j], class),
        at < s.len() ==> in_class(s[at], class),
    ensures
        first_in(s, class) == at,
    decreases s.len(),
{
    if at > 0 {
        let rest = s.drop_first();
        assert forall|j: int| 0 <= j < at - 1 implies !in_class(#[trigger] rest[j], class) by {
            assert(rest[j] == s[j + 1]);
        }
        lemma_first_in(rest, class, at - 1);
    }
}

/// What `first_in` finds: it lies within the sequence, nothing of the class
/// stands before it, and unless it is the end something of the class stands
/// at it.
pub proof fn lemma_first_in_found(s: Seq<char>, class: CharClass)
    ensures
        0 <= first_in(s, class) <= s.len(),
        forall|j: int| 0 <= j < first_in(s, class) ==> !in_class(#[trigger] s[j], class),
        first_in(s, class) < s.len() ==> in_class(s[first_in(s, class)], class),
    decreases s.len(),
{
    if !(s.len() == 0 || in_class(s[0], class)) {
        let rest = s.drop_first();
        lemma_first_in_found(rest, class);
        assert forall|j: int| 0 <= j < first_in(s, class) implies !in_class(
            #[trigger] s[j],
            class,
        ) by {
            if j > 0 {
                assert(s[j] == rest[j - 1]);
            }
        }
    }
}

/// Whether a character belongs to a class.
pub fn char_in_class(c: char, class: CharClass) -> (b: bool)
    ensures
        b == in_class(c, class),
{
    match class {
        CharClass::LineFeed => c == '\n',
        CharClass::Colon => c == ':',
        CharClass::Space => is_whitespace(c),
        CharClass::Ink => !is_whitespace(c),
    }
}

/// Finds the first character of a class in `s[from..to]`. The result is an
/// index into `s`; it is `to` where the range holds none.
pub fn find_first(s: &[char], from: usize, to: usize, class: CharClass) -> (at: usize)
    requires
        from <= to <= s@.len(),
    ensures
        at == from + first_in(s@.subrange(from as int, to as int), class),
        from <= at <= to,
{
    let mut at: usize = from;
    while at < to && !char_in_class(s[at], class)
        invariant
            from <= at <= to <= s@.len(),
            forall|j: int| from <= j < at ==> !in_class(#[trigger] s@[j], class),
        decreases to - at,
    {
        at = at + 1;
    }
    proof {
        lemma_first_in(s@.subrange(from as int, to as int), class, at - from);
    }
    at
}

/// A range of positions in a slice of characters.
#[derive(Clone, Copy, Debug)]
pub struct Span {
    /// The first position of the range.
    pub start: usize,
    /// The position after the last one.
    pub end: usize,
}

impl Span {
    /// The range lies between two positions.
    pub open spec fn within(self, from: int, to: int) -> bool {
        from <= self.start <= self.end <= to
    }

    /// The characters that the range picks from `s`.
    pub open spec fn of(self, s: Seq<char>) -> Seq<char> {
        s.subrange(self.start as int, self.end as int)
    }
}

/// The pieces that a sequence of ranges picks from `s`.
pub open spec fn pieces(spans: Seq<Span>, s: Seq<char>) -> Seq<Seq<char>> {
    Seq::new(spans.len(), |i: int| spans[i].of(s))
}

/// A line without the carriage return that ended it, if one did.
pub open spec fn strip_cr(line: Seq<char>) -> Seq<char> {
    if line.len() > 0 && line.last() == '\r' {
        line.drop_last()
    } else {
        line
    }
}

/// The lines of a text. A line ends with a line feed, or with a carriage
/// return and a line feed; neither belongs to the line. What follows the last
/// line feed is a line too, unless it is empty, and is kept whole.
pub open spec fn lines(s: Seq<char>) -> Seq<Seq<char>>
    decreases s.len(),
{
    let n = first_in(s, CharClass::LineFeed);
    if s.len() == 0 {
        Seq::empty()
    } else if n >= s.len() {
        seq![s]
    } else {
        proof {
            lemma_first_in_found(s, CharClass::LineFeed);
        }
        seq![strip_cr(s.take(n))] + lines(s.skip(n + 1))
    }
}

/// The tokens of a text: its longest runs of characters that are not white
/// space, in order.
pub open spec fn tokens(s: Seq<char>) -> Seq<Seq<char>>
    decreases s.len(),
{
    let a = first_in(s, CharClass::Ink);
    let b = a + first_in(s.skip(a), CharClass::Space);
    if a >= s.len() {
        Seq::empty()
    } else {
        proof {
            lemma_first_in_found(s, CharClass::Ink);
            lemma_first_in_found(s.skip(a), CharClass::Space);
        }
        seq![s.subrange(a, b)] + tokens(s.skip(b))
    }
}

/// A text without the white space at its end.
pub open spec fn trim_end(s: Seq<char>) -> Seq<char>
    decreases s.len(),
{
    if s.len() > 0 && white_space(s.last()) {
        trim_end(s.drop_last())
    } else {
        s
    }
}

/// A text without the white space at its start and at its end.
pub open spec fn trim(s: Seq<char>) -> Seq<char> {
    trim_end(s.skip(first_in(s, CharClass::Ink)))
}

/// No line holds a line feed.
pub proof fn lemma_lines_hold_no_feed(s: Seq<char>, i: int)
    requires
        0 <= i < lines(s).len(),
    ensures
        forall|j: int| 0 <= j < lines(s)[i].len() ==> #[trigger] lines(s)[i][j] != '\n',
    decreases s.len(),
{
    let n = first_in(s, CharClass::LineFeed);
    lemma_first_in_found(s, CharClass::LineFeed);
    if n < s.len() {
        if i == 0 {
            let line = strip_cr(s.take(n));
            assert forall|j: int| 0 <= j < line.len() implies #[trigger] line[j] != '\n' by {
                assert(line[j] == s[j]);
                assert(!in_class(s[j], CharClass::LineFeed));
            }
        } else {
            lemma_lines_hold_no_feed(s.skip(n + 1), i - 1);
            assert(lines(s)[i] == lines(s.skip(n + 1))[i - 1]);
        }
    } else {
        assert forall|j: int| 0 <= j < s.len() implies #[trigger] s[j] != '\n' by {
            assert(!in_class(s[j], CharClass::LineFeed));
        }
    }
}

/// Each token holds at least one character and no white space.
pub proof fn lemma_tokens_hold_ink(s: Seq<char>, i: int)
    requires
        0 <= i < tokens(s).len(),
    ensures
        tokens(s)[i].len() > 0,
        forall|j: int| 0 <= j < tokens(s)[i].len() ==> !white_space(#[trigger] tokens(s)[i][j]),
    decreases s.len(),
{
    let a = first_in(s, CharClass::Ink);
    let rest = s.skip(a);
    let b = a + first_in(rest, CharClass::Space);
    lemma_first_in_found(s, CharClass::Ink);
    lemma_first_in_found(rest, CharClass::Space);
    assert(rest[0] == s[a]);
    if i == 0 {
        let token = s.subrange(a, b);
        assert forall|j: int| 0 <= j < token.len() implies !white_space(#[trigger] token[j]) by {
            assert(token[j] == rest[j]);
            assert(!in_class(rest[j], CharClass::Space));
        }
    } else {
        lemma_tokens_hold_ink(s.skip(b), i - 1);
        assert(tokens(s)[i] == tokens(s.skip(b))[i - 1]);
    }
}

/// Trimming the end leaves a start of the text that does not end with white
/// space.
pub proof fn lemma_trim_end_is_prefix(s: Seq<char>)
    ensures
        trim_end(s).len() <= s.len(),
        trim_end(s) == s.take(trim_end(s).len() as int),
        trim_end(s).len() > 0 ==> !white_space(trim_end(s).last()),
    decreases s.len(),
{
    if s.len() > 0 && white_space(s.last()) {
        let shorter = s.drop_last();
        lemma_trim_end_is_prefix(shorter);
        assert(shorter.take(trim_end(s).len() as int) =~= s.take(trim_end(s).len() as int));
    } else {
        assert(s.take(s.len() as int) =~= s);
    }
}

/// A trimmed text is a stretch of the text that neither starts nor ends
/// with white space.
pub proof fn lemma_trim_is_bare(s: Seq<char>)
    ensures
        trim(s) == s.subrange(
            first_in(s, CharClass::Ink),
            first_in(s, CharClass::Ink) + trim(s).len(),
        ),
        first_in(s, CharClass::Ink) + trim(s).len() <= s.len(),
        trim(s).len() > 0 ==> !white_space(trim(s).first()) && !white_space(trim(s).last()),
{
    let a = first_in(s, CharClass::Ink);
    let rest = s.skip(a);
    lemma_first_in_found(s, CharClass::Ink);
    lemma_trim_end_is_prefix(rest);
    let n = trim(s).len() as int;
    assert(rest.take(n) =~= s.subrange(a, a + n));
    if n > 0 {
        assert(trim(s).first() == s[a]);
    }
}

/// Splits `s[from..to]` into its lines.
pub fn split_lines(s: &[char], from: usize, to: usize) -> (spans: Vec<Span>)
    requires
        from <= to <= s@.len(),
    ensures
        pieces(spans@, s@) == lines(s@.subrange(from as int, to as int)),
        forall|i: int| 0 <= i < spans@.len() ==> (#[trigger] spans@[i]).within(from as int, to as int),
{
    let mut spans: Vec<Span> = Vec::new();
    let mut pos: usize = from;
    assert(pieces(spans@, s@) =~= Seq::<Seq<char>>::empty());
    while pos < to
        invariant
            from <= pos <= to <= s@.len(),
            forall|i: int| 0 <= i < spans@.len() ==> (#[trigger] spans@[i]).within(from as int, to as int),
            lines(s@.subrange(from as int, to as int)) == pieces(spans@, s@) + lines(
                s@.subrange(pos as int, to as int),
            ),
        decreases to - pos,
    {
        let ghost rest = s@.subrange(pos as int, to as int);
        let ghost before = pieces(spans@, s@);
        let feed = find_first(s, pos, to, CharClass::LineFeed);
        if feed == to {
            spans.push(Span { start: pos, end: to });
            proof {
                assert(lines(rest) == seq![rest]);
                assert(pieces(spans@, s@) =~= before.push(rest));
                assert(lines(s@.subrange(to as int, to as int)) =~= Seq::<Seq<char>>::empty());
                assert(before + seq![rest] =~= before.push(rest) + Seq::<Seq<char>>::empty());
            }
            pos = to;
        } else {
            let end: usize = if feed > pos && s[feed - 1] == '\r' {
                feed - 1
            } else {
                feed
            };
            spans.push(Span { start: pos, end });
            proof {
                let n = feed - pos;
                let line = s@.subrange(pos as int, end as int);
                assert(rest.take(n) =~= s@.subrange(pos as int, feed as int));
                assert(strip_cr(rest.take(n)) =~= line);
                assert(rest.skip(n + 1) =~= s@.subrange(feed + 1, to as int));
                assert(lines(rest) == seq![line] + lines(s@.subrange(feed + 1, to as int)));
                assert(pieces(spans@, s@) =~= before.push(line));
                assert(before + (seq![line] + lines(s@.subrange(feed + 1, to as int)))
                    =~= before.push(line) + lines(s@.subrange(feed + 1, to as int)));
            }
            pos = feed + 1;
        }
    }
    proof {
        let rest = s@.subrange(pos as int, to as int);
        assert(lines(rest) =~= Seq::<Seq<char>>::empty());
        assert(pieces(spans@, s@) + Seq::<Seq<char>>::empty() =~= pieces(spans@, s@));
    }
    spans
}

/// Splits `s[from..to]` into its tokens.
pub fn split_tokens(s: &[char], from: usize, to: usize) -> (spans: Vec<Span>)
    requires
        from <= to <= s@.len(),
    ensures
        pieces(spans@, s@) == tokens(s@.subrange(from as int, to as int)),
        forall|i: int| 0 <= i < spans@.len() ==> (#[trigger] spans@[i]).within(from as int, to as int),
{
    let mut spans: Vec<Span> = Vec::new();
    let mut pos: usize = from;
    assert(pieces(spans@, s@) =~= Seq::<Seq<char>>::empty());
    loop
        invariant
            from <= pos <= to <= s@.len(),
            forall|i: int| 0 <= i < spans@.len() ==> (#[trigger] spans@[i]).within(from as int, to as int),
            tokens(s@.subrange(from as int, to as int)) == pieces(spans@, s@) + tokens(
                s@.subrange(pos as int, to as int),
            ),
        ensures
            pieces(spans@, s@) == tokens(s@.subrange(from as int, to as int)),
            forall|i: int| 0 <= i < spans@.len() ==> (#[trigger] spans@[i]).within(from as int, to as int),
        decreases to - pos,
    {
        let ghost rest = s@.subrange(pos as int, to as int);
        let ghost before = pieces(spans@, s@);
        let start = find_first(s, pos, to, CharClass::Ink);
        if start == to {
            proof {
                assert(tokens(rest) =~= Seq::<Seq<char>>::empty());
                assert(before + Seq::<Seq<char>>::empty() =~= before);
            }
            break;
        }
        proof {
            lemma_first_in_found(rest, CharClass::Ink);
            assert(rest[start - pos] == s@[start as int]);
            assert(rest.skip(start - pos) =~= s@.subrange(start as int, to as int));
        }
        let end = find_first(s, start, to, CharClass::Space);
        proof {
            lemma_first_in_found(s@.subrange(start as int, to as int), CharClass::Space);
            assert(s@.subrange(start as int, to as int)[0] == s@[start as int]);
            assert(end > start);
        }
        spans.push(Span { start, end });
        proof {
            let token = s@.subrange(start as int, end as int);
            let after = s@.subrange(end as int, to as int);
            assert(rest.subrange(start - pos, end - pos) =~= token);
            assert(rest.skip(end - pos) =~= after);
            assert(tokens(rest) == seq![token] + tokens(after));
            assert(pieces(spans@, s@) =~= before.push(token));
            assert(before + (seq![token] + tokens(after)) =~= before.push(token) + tokens(after));
        }
        pos = end;
    }
    spans
}

/// Trims `s[from..to]`: the range without the white space at its two ends.
pub fn trim_span(s: &[char], from: usize, to: usize) -> (span: Span)
    requires
        from <= to <= s@.len(),
    ensures
        span.of(s@) == trim(s@.subrange(from as int, to as int)),
        span.within(from as int, to as int),
{
    let start = find_first(s, from, to, CharClass::Ink);
    let mut end: usize = to;
    proof {
        assert(s@.subrange(from as int, to as int).skip(start - from) =~= s@.subrange(
            start as int,
            to as int,
        ));
    }
    while end > start && is_whitespace(s[end - 1])
        invariant
            start <= end <= to <= s@.len(),
            trim_end(s@.subrange(start as int, to as int)) == trim_end(
                s@.subrange(start as int, end as int),
            ),
        decreases end - start,
    {
        proof {
            assert(s@.subrange(start as int, end as int).drop_last() =~= s@.subrange(
                start as int,
                end - 1,
            ));
        }
        end = end - 1;
    }
    Span { start, end }
}

/// The characters of a string, one by one.
pub fn to_chars(text: &str) -> (chars: Vec<char>)
    ensures
        chars@ == text@,
{
    let mut chars: Vec<char> = Vec::new();
    for c in it: text.chars()
        invariant
            it.seq() == text@,
            chars@ == it.history(),
    {
        chars.push(c);
    }
    assert(chars@ =~= text@);
    chars
}

} // verus!
