//! The intersection of two sequences, as markers: one for each item of the
//! first that the second holds too, and none at all where the two sequences
//! are equal.

use vstd::prelude::*;
use vstd::std_specs::cmp::PartialEqSpec;
use vstd::string::StringExecFns;

verus! {

/// Two sequences are equal as whole values: they are as long as each other,
/// and their items are equal place by place.
pub open spec fn same_items<T: PartialEq>(a: Seq<T>, b: Seq<T>) -> bool {
    &&& a.len() == b.len()
    &&& forall|i: int| 0 <= i < a.len() ==> #[trigger] a[i].eq_spec(&b[i])
}

/// Some item of `b` is equal to `x`.
pub open spec fn occurs_in<T: PartialEq>(x: T, b: Seq<T>) -> bool {
    exists|j: int| 0 <= j < b.len() && #[trigger] b[j].eq_spec(&x)
}

/// How many items of `a`, each place counted, occur in `b`.
pub open spec fn shared_count<T: PartialEq>(a: Seq<T>, b: Seq<T>) -> nat
    decreases a.len(),
{
    if a.len() == 0 {
        0
    } else {
        shared_count(a.drop_last(), b) + if occurs_in(a.last(), b) {
            1nat
        } else {
            0nat
        }
    }
}

/// The number of markers for `a` and `b`: none where the two are equal as
/// whole values; otherwise one for each place of `a` whose item occurs in `b`.
pub open spec fn marker_count<T: PartialEq>(a: Seq<T>, b: Seq<T>) -> nat {
    if same_items(a, b) {
        0
    } else {
        shared_count(a, b)
    }
}

/// The text of `n` markers: the word `true`, `n` times, with nothing between.
pub open spec fn marker_text(n: nat) -> Seq<char>
    decreases n,
{
    if n == 0 {
        Seq::empty()
    } else {
        marker_text((n - 1) as nat) + "true"@
    }
}

/// How the count of shared places behaves at its two ends: it is none where
/// no item of `a` occurs in `b`, it is the length of `a` where every item
/// does, and it lies between the two.
pub proof fn lemma_shared_count<T: PartialEq>(a: Seq<T>, b: Seq<T>)
    ensures
        shared_count(a, b) <= a.len(),
        (forall|i: int| 0 <= i < a.len() ==> !occurs_in(#[trigger] a[i], b)) ==> shared_count(a, b)
            == 0,
        (forall|i: int| 0 <= i < a.len() ==> occurs_in(#[trigger] a[i], b)) ==> shared_count(a, b)
            == a.len(),
    decreases a.len(),
{
    if a.len() > 0 {
        let front = a.drop_last();
        lemma_shared_count(front, b);
        assert(a.last() == a[a.len() - 1]);
        assert forall|i: int| 0 <= i < front.len() implies front[i] == a[i] by {}
    }
}

/// Sequences that are equal as whole values give no marker, and so do
/// sequences that share no item. Sequences that differ give one marker for
/// each place of the first whose item the second holds: as many as the first
/// is long where it holds them all, and never more.
pub proof fn lemma_marker_count<T: PartialEq>(a: Seq<T>, b: Seq<T>)
    ensures
        same_items(a, b) ==> marker_count(a, b) == 0,
        (forall|i: int| 0 <= i < a.len() ==> !occurs_in(#[trigger] a[i], b)) ==> marker_count(a, b)
            == 0,
        !same_items(a, b) && (forall|i: int| 0 <= i < a.len() ==> occurs_in(#[trigger] a[i], b))
            ==> marker_count(a, b) == a.len(),
        marker_count(a, b) <= a.len(),
{
    lemma_shared_count(a, b);
}

/// Whether the two slices are equal as whole values.
pub fn slices_equal<T: PartialEq>(a: &[T], b: &[T]) -> (r: bool)
    ensures
        T::obeys_eq_spec() ==> r == same_items(a@, b@),
{
    if a.len() != b.len() {
        return false;
    }
    let mut i: usize = 0;
    while i < a.len()
        invariant
            a@.len() == b@.len(),
            i <= a@.len(),
            T::obeys_eq_spec() ==> forall|j: int| 0 <= j < i ==> #[trigger] a@[j].eq_spec(&b@[j]),
        decreases a@.len() - i,
    {
        if !(a[i] == b[i]) {
            return false;
        }
        i += 1;
    }
    true
}

/// Whether some item of `b` is equal to `x`.
pub fn occurs<T: PartialEq>(x: &T, b: &[T]) -> (r: bool)
    ensures
        T::obeys_eq_spec() ==> r == occurs_in(*x, b@),
{
    let mut j: usize = 0;
    while j < b.len()
        invariant
            j <= b@.len(),
            T::obeys_eq_spec() ==> forall|k: int| 0 <= k < j ==> !(#[trigger] b@[k].eq_spec(x)),
        decreases b@.len() - j,
    {
        if b[j] == *x {
            return true;
        }
        j += 1;
    }
    false
}

/// Counts the markers for `a` and `b`: none where the two are equal as whole
/// values; otherwise one for each place of `a` whose item occurs in `b`, so
/// an item that stands twice in `a` is counted twice.
pub fn arrays_intersect<T: PartialEq>(a: &[T], b: &[T]) -> (count: usize)
    ensures
        count <= a@.len(),
        T::obeys_eq_spec() ==> count == marker_count(a@, b@),
{
    if slices_equal(a, b) {
        return 0;
    }
    let mut count: usize = 0;
    let mut i: usize = 0;
    while i < a.len()
        invariant
            i <= a@.len(),
            count <= i,
            T::obeys_eq_spec() ==> count == shared_count(a@.take(i as int), b@),
        decreases a@.len() - i,
    {
        proof {
            let now = a@.take(i + 1);
            assert(now.drop_last() =~= a@.take(i as int));
            assert(now.last() == a@[i as int]);
        }
        if occurs(&a[i], b) {
            count += 1;
        }
        i += 1;
    }
    proof {
        assert(a@.take(a@.len() as int) =~= a@);
    }
    count
}

/// Writes `count` markers out: the word `true`, `count` times.
pub fn markers(count: usize) -> (out: String)
    ensures
        out@ == marker_text(count as nat),
{
    let mut out = String::new();
    let mut i: usize = 0;
    while i < count
        invariant
            i <= count,
            out@ == marker_text(i as nat),
        decreases count - i,
    {
        out.append("true");
        i += 1;
    }
    out
}

} // verus!
