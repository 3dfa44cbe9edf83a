//! Identifiers: a text is turned into one that holds only a small, safe
//! alphabet, character by character.

use vstd::prelude::*;
use crate::chars::{id_char, is_id_char, lower, to_id_char};

verus! {

/// The identifier of a text: each character becomes its lowercase form
/// where that is a small ASCII letter, a digit, `_`, `-` or `+`, and a hyphen
/// otherwise. Hyphens that follow each other all stay.
pub open spec fn id_text(text: Seq<char>) -> Seq<char> {
    text.map_values(|c: char| id_char(c))
}

/// Convert text into the format of an HTML `id` attribute, with a limited
/// character set.
///
/// The result has one character for each character of the text and holds
/// only characters of the identifier alphabet; an ASCII capital becomes its
/// small letter.
pub fn text_as_id(text: &str) -> (id: String)
    ensures
        id@ == id_text(text@),
        id@.len() == text@.len(),
        forall|i: int| 0 <= i < id@.len() ==> is_id_char(#[trigger] id@[i]),
        forall|i: int|
            0 <= i < text@.len() && 'A' <= text@[i] <= 'Z' ==> #[trigger] id@[i] == lower(text@[i]),
{
    let mut id = String::new();
    for c in it: text.chars()
        invariant
            it.seq() == text@,
            id@ == id_text(text@.take(it.index())),
    {
        id.push(to_id_char(c));
        proof {
            let k = it.index();
            assert(id_text(text@.take(k + 1)) =~= id_text(text@.take(k)).push(id_char(c)));
        }
    }
    proof {
        assert(text@.take(text@.len() as int) =~= text@);
    }
    id
}

} // verus!
