//! The tokenizer: a line is split into a leading token, which says what kind
//! of line it is, and the text that remains.

use vstd::prelude::*;
use vstd::string::StrSliceExecFns;
use crate::chars::{is_digit, is_space, is_decimal_digit};
use crate::text::{
    first_space, trim, trim_range, find_space, to_chars, lemma_trim_is_trimmed,
    lemma_first_space_is_first, lemma_trim_fixed, lemma_trim_keeps_last,
};

verus! {

/// What a line of the document says, as its token tells.
#[derive(Clone, Copy, Debug, PartialEq, Eq, Structural)]
pub enum LineKind {
    /// `#`: a new record starts; the rest of the line is its name.
    Heading,
    /// `##`: the subtitle of the record.
    Subtitle,
    /// A backtick: the list of tags.
    Tags,
    /// `-`: the verdict.
    Verdict,
    /// Digits and a dot: one numbered source.
    Source,
    /// `>`: the review.
    Review,
    /// Anything else: a line of the description.
    Text,
}

/// A line that is wrapped in a pair of backticks.
pub open spec fn is_wrapped(l: Seq<char>) -> bool {
    l.len() >= 2 && l[0] == '`' && l.last() == '`'
}

/// Token and remainder of a line. The line is trimmed first. One that is
/// wrapped in backticks has the single backtick as its token and what stands
/// between the two as its remainder, untrimmed. Any other line is cut at its
/// first white space character: the token is what stands before it, the
/// remainder what follows, trimmed; without white space the token is empty
/// and the remainder is the whole line.
pub open spec fn token_split(line: Seq<char>) -> (Seq<char>, Seq<char>) {
    let l = trim(line);
    if is_wrapped(l) {
        (seq!['`'], l.subrange(1, l.len() - 1))
    } else {
        let i = first_space(l);
        if i < l.len() {
            (trim(l.take(i)), trim(l.skip(i + 1)))
        } else {
            (Seq::empty(), l)
        }
    }
}

/// The token of a numbered source: one or more decimal digits and then a dot.
pub open spec fn is_source_number(t: Seq<char>) -> bool {
    &&& t.len() >= 2
    &&& t.last() == '.'
    &&& forall|j: int| 0 <= j < t.len() - 1 ==> is_digit(#[trigger] t[j])
}

/// The kind of line that a token stands for.
pub open spec fn kind_of(token: Seq<char>) -> LineKind {
    if token == seq!['#'] {
        LineKind::Heading
    } else if token == seq!['#', '#'] {
        LineKind::Subtitle
    } else if token == seq!['`'] {
        LineKind::Tags
    } else if token == seq!['-'] {
        LineKind::Verdict
    } else if is_source_number(token) {
        LineKind::Source
    } else if token == seq!['>'] {
        LineKind::Review
    } else {
        LineKind::Text
    }
}

/// Token and remainder of the line `v[lo..hi]`, as two pairs of bounds
/// counted in `v`: first the token's, then the remainder's.
pub(crate) fn token_ranges(v: &[char], lo: usize, hi: usize) -> (r: ((usize, usize), (usize, usize)))
    requires
        lo <= hi <= v@.len(),
    ensures
        lo <= r.0.0 <= r.0.1 <= hi,
        lo <= r.1.0 <= r.1.1 <= hi,
        v@.subrange(r.0.0 as int, r.0.1 as int) == token_split(
            v@.subrange(lo as int, hi as int),
        ).0,
        v@.subrange(r.1.0 as int, r.1.1 as int) == token_split(
            v@.subrange(lo as int, hi as int),
        ).1,
{
    let (a, b) = trim_range(v, lo, hi);
    let ghost l = v@.subrange(a as int, b as int);
    if b - a >= 2 && v[a] == '`' && v[b - 1] == '`' {
        proof {
            assert(l[0] == v@[a as int] && l.last() == v@[b - 1]);
            assert(v@.subrange(a as int, a + 1) =~= seq!['`']);
            assert(v@.subrange(a + 1, b - 1) =~= l.subrange(1, l.len() - 1));
        }
        ((a, a + 1), (a + 1, b - 1))
    } else {
        proof {
            if b - a >= 2 {
                assert(l[0] == v@[a as int] && l.last() == v@[b - 1]);
            }
        }
        let i = find_space(v, a, b);
        if i < b {
            let token = trim_range(v, a, i);
            let rest = trim_range(v, i + 1, b);
            proof {
                assert(v@.subrange(a as int, i as int) =~= l.take(i - a));
                assert(v@.subrange(i + 1, b as int) =~= l.skip(i - a + 1));
            }
            (token, rest)
        } else {
            proof {
                assert(v@.subrange(a as int, a as int) =~= Seq::<char>::empty());
            }
            ((a, a), (a, b))
        }
    }
}

/// Splits a line into its token and the text that remains.
pub fn split_token<'a>(line: &'a str) -> (r: (&'a str, &'a str))
    ensures
        (r.0@, r.1@) == token_split(line@),
{
    let v = to_chars(line);
    let (token, rest) = token_ranges(v.as_slice(), 0, v.len());
    proof {
        assert(v@.subrange(0, v@.len() as int) =~= line@);
    }
    (line.substring_char(token.0, token.1), line.substring_char(rest.0, rest.1))
}

/// Whether `v[lo..hi]` is the token of a numbered source.
pub(crate) fn is_source_token(v: &[char], lo: usize, hi: usize) -> (r: bool)
    requires
        lo <= hi <= v@.len(),
    ensures
        r == is_source_number(v@.subrange(lo as int, hi as int)),
{
    let ghost t = v@.subrange(lo as int, hi as int);
    if hi - lo < 2 || v[hi - 1] != '.' {
        proof {
            if hi - lo >= 2 {
                assert(t.last() == v@[hi - 1]);
            }
        }
        return false;
    }
    let mut i: usize = lo;
    while i < hi - 1
        invariant
            lo <= i <= hi - 1,
            hi <= v@.len(),
            t == v@.subrange(lo as int, hi as int),
            forall|j: int| 0 <= j < i - lo ==> is_digit(#[trigger] t[j]),
        decreases hi - i,
    {
        if !is_decimal_digit(v[i]) {
            proof {
                assert(t[i - lo] == v@[i as int]);
            }
            return false;
        }
        proof {
            assert(t[i - lo] == v@[i as int]);
        }
        i += 1;
    }
    proof {
        assert(t.last() == v@[hi - 1]);
    }
    true
}

/// A text is one character `c` where it is one long and holds `c`; it is
/// `##` where it is two long and holds two of `#`.
proof fn lemma_short_tokens(t: Seq<char>, c: char)
    ensures
        t == seq![c] <==> t.len() == 1 && t[0] == c,
        t == seq!['#', '#'] <==> t.len() == 2 && t[0] == '#' && t[1] == '#',
{
    if t.len() == 1 && t[0] == c {
        assert(t =~= seq![c]);
    }
    if t.len() == 2 && t[0] == '#' && t[1] == '#' {
        assert(t =~= seq!['#', '#']);
    }
}

/// The kind of line that the token `v[lo..hi]` stands for.
pub(crate) fn classify(v: &[char], lo: usize, hi: usize) -> (k: LineKind)
    requires
        lo <= hi <= v@.len(),
    ensures
        k == kind_of(v@.subrange(lo as int, hi as int)),
{
    let n = hi - lo;
    proof {
        let t = v@.subrange(lo as int, hi as int);
        lemma_short_tokens(t, '#');
        lemma_short_tokens(t, '`');
        lemma_short_tokens(t, '-');
        lemma_short_tokens(t, '>');
    }
    if n == 1 && v[lo] == '#' {
        LineKind::Heading
    } else if n == 2 && v[lo] == '#' && v[lo + 1] == '#' {
        LineKind::Subtitle
    } else if n == 1 && v[lo] == '`' {
        LineKind::Tags
    } else if n == 1 && v[lo] == '-' {
        LineKind::Verdict
    } else if is_source_token(v, lo, hi) {
        LineKind::Source
    } else if n == 1 && v[lo] == '>' {
        LineKind::Review
    } else {
        LineKind::Text
    }
}

impl LineKind {
    /// The kind of line that a token stands for.
    pub fn of(token: &str) -> (k: LineKind)
        ensures
            k == kind_of(token@),
    {
        let v = to_chars(token);
        proof {
            assert(v@.subrange(0, v@.len() as int) =~= token@);
        }
        classify(v.as_slice(), 0, v.len())
    }
}

/// A line may be trimmed before it is split, or not: token and remainder are
/// the same.
pub proof fn lemma_token_split_trims(line: Seq<char>)
    ensures
        token_split(trim(line)) == token_split(line),
{
    lemma_trim_is_trimmed(line);
}

/// The shape of token and remainder. A token holds no white space. Unless
/// the line is wrapped in backticks, the remainder is trimmed; and where the
/// line holds white space once trimmed, neither token nor remainder is empty.
pub proof fn lemma_token_split_shape(line: Seq<char>)
    ensures
        forall|j: int|
            0 <= j < token_split(line).0.len() ==> !is_space(#[trigger] token_split(line).0[j]),
        !is_wrapped(trim(line)) ==> trim(token_split(line).1) == token_split(line).1,
        !is_wrapped(trim(line)) && first_space(trim(line)) < trim(line).len() ==> token_split(
            line,
        ).0.len() > 0 && token_split(line).1.len() > 0,
        !is_wrapped(trim(line)) && first_space(trim(line)) >= trim(line).len() ==> token_split(
            line,
        ).0.len() == 0,
{
    let l = trim(line);
    lemma_trim_is_trimmed(line);
    lemma_first_space_is_first(l);
    if !is_wrapped(l) {
        let i = first_space(l);
        if i < l.len() {
            let head = l.take(i);
            let tail = l.skip(i + 1);
            assert(head.len() > 0 && !is_space(head[0]) && !is_space(head.last())) by {
                assert(head[0] == l[0]);
                assert(head.last() == l[i - 1]);
            }
            lemma_trim_fixed(head);
            assert(tail.last() == l.last());
            lemma_trim_keeps_last(tail);
            lemma_trim_is_trimmed(tail);
        } else {
            lemma_trim_is_trimmed(l);
        }
    }
}

} // verus!
