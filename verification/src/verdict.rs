//! The verdict on a reviewed item.

use vstd::prelude::*;
use crate::chars::{lower, to_lower};
use crate::text::to_chars;

verus! {

/// The outcome of a review: one of three.
#[derive(Clone, Copy, Debug, PartialEq, Eq, Structural)]
pub enum Verdict {
    Good,
    Bad,
    Maybe,
}

/// `s` with every character in its lowercase form.
pub open spec fn lowered(s: Seq<char>) -> Seq<char> {
    s.map_values(|c: char| lower(c))
}

/// The verdict that a text names, whatever the case of its letters: `ok` is
/// good, `bad` is bad, `maybe` is maybe, and no other text names one.
pub open spec fn verdict_of(text: Seq<char>) -> Option<Verdict> {
    let l = lowered(text);
    if l == seq!['o', 'k'] {
        Some(Verdict::Good)
    } else if l == seq!['b', 'a', 'd'] {
        Some(Verdict::Bad)
    } else if l == seq!['m', 'a', 'y', 'b', 'e'] {
        Some(Verdict::Maybe)
    } else {
        None
    }
}

/// The label under which a verdict is shown to readers.
pub open spec fn label_of(v: Verdict) -> Seq<char> {
    match v {
        Verdict::Good => "Yes!"@,
        Verdict::Bad => "NO!"@,
        Verdict::Maybe => "Maybe..."@,
    }
}

/// The position of a verdict among the three.
pub open spec fn index_of(v: Verdict) -> int {
    match v {
        Verdict::Good => 0,
        Verdict::Bad => 1,
        Verdict::Maybe => 2,
    }
}

/// Texts that are equal but for the case of their letters name the same
/// verdict; in particular a text names the verdict that its lowercase form
/// names.
pub proof fn lemma_verdict_ignores_case(a: Seq<char>, b: Seq<char>)
    requires
        lowered(a) == lowered(b),
    ensures
        verdict_of(a) == verdict_of(b),
        verdict_of(lowered(a)) == verdict_of(a),
{
    assert(lowered(lowered(a)) =~= lowered(a));
}

/// Whether `v[lo..hi]` in lowercase is `word`.
pub(crate) fn lowered_equals(v: &[char], lo: usize, hi: usize, word: &[char]) -> (r: bool)
    requires
        lo <= hi <= v@.len(),
    ensures
        r == (lowered(v@.subrange(lo as int, hi as int)) == word@),
{
    let ghost l = lowered(v@.subrange(lo as int, hi as int));
    if hi - lo != word.len() {
        return false;
    }
    let mut i: usize = 0;
    while i < word.len()
        invariant
            lo <= hi <= v@.len(),
            hi - lo == word@.len(),
            i <= word@.len(),
            l == lowered(v@.subrange(lo as int, hi as int)),
            forall|j: int| 0 <= j < i ==> l[j] == #[trigger] word@[j],
        decreases word@.len() - i,
    {
        if to_lower(v[lo + i]) != word[i] {
            proof {
                assert(l[i as int] != word@[i as int]);
            }
            return false;
        }
        i += 1;
    }
    proof {
        assert(l =~= word@);
    }
    true
}

impl Verdict {
    /// The verdict that `v[lo..hi]` names, if it names one.
    pub(crate) fn from_range(v: &[char], lo: usize, hi: usize) -> (r: Option<Verdict>)
        requires
            lo <= hi <= v@.len(),
        ensures
            r == verdict_of(v@.subrange(lo as int, hi as int)),
    {
        let ok: [char; 2] = ['o', 'k'];
        let bad: [char; 3] = ['b', 'a', 'd'];
        let maybe: [char; 5] = ['m', 'a', 'y', 'b', 'e'];
        proof {
            assert(ok@ =~= seq!['o', 'k']);
            assert(bad@ =~= seq!['b', 'a', 'd']);
            assert(maybe@ =~= seq!['m', 'a', 'y', 'b', 'e']);
        }
        if lowered_equals(v, lo, hi, ok.as_slice()) {
            Some(Verdict::Good)
        } else if lowered_equals(v, lo, hi, bad.as_slice()) {
            Some(Verdict::Bad)
        } else if lowered_equals(v, lo, hi, maybe.as_slice()) {
            Some(Verdict::Maybe)
        } else {
            None
        }
    }

    /// The verdict that a text names, if it names one.
    pub fn from_text(text: &str) -> (r: Option<Verdict>)
        ensures
            r == verdict_of(text@),
    {
        let v = to_chars(text);
        proof {
            assert(v@.subrange(0, v@.len() as int) =~= text@);
        }
        Verdict::from_range(v.as_slice(), 0, v.len())
    }

    /// The label under which the verdict is shown to readers.
    pub fn label(&self) -> (r: &'static str)
        ensures
            r@ == label_of(*self),
    {
        match self {
            Verdict::Good => "Yes!",
            Verdict::Bad => "NO!",
            Verdict::Maybe => "Maybe...",
        }
    }

    /// The position of the verdict among the three.
    pub fn index(&self) -> (r: u32)
        ensures
            r == index_of(*self),
    {
        match self {
            Verdict::Good => 0,
            Verdict::Bad => 1,
            Verdict::Maybe => 2,
        }
    }
}

impl<'a> TryFrom<&'a str> for Verdict {
    type Error = ();

    fn try_from(value: &'a str) -> (r: Result<Verdict, ()>) {
        match Verdict::from_text(value) {
            Some(v) => Ok(v),
            None => Err(()),
        }
    }
}

impl<'a> vstd::std_specs::convert::TryFromSpecImpl<&'a str> for Verdict {
    open spec fn obeys_try_from_spec() -> bool {
        true
    }

    open spec fn try_from_spec(value: &'a str) -> Result<Verdict, ()> {
        match verdict_of(value@) {
            Some(v) => Ok(v),
            None => Err(()),
        }
    }
}

} // verus!
