//! Sequences as the contracts of the in-place operations speak of them:
//! exchanging two elements, windows of a sequence, and what a rearrangement
//! keeps.

use vstd::prelude::*;
use vstd::multiset::group_multiset_axioms;
use vstd::seq_lib::lemma_multiset_commutative;
use vstd::seq_lib::to_multiset_contains;
use vstd::seq_lib::to_multiset_update;

verus! {

/// `s` with the elements at `i` and `j` exchanged.
pub open spec fn swapped<T>(s: Seq<T>, i: int, j: int) -> Seq<T> {
    s.update(i, s[j]).update(j, s[i])
}

/// `s` with `window` in place of the elements at the positions `lo` up to
/// `hi`.
pub open spec fn with_window<T>(s: Seq<T>, lo: int, hi: int, window: Seq<T>) -> Seq<T> {
    s.subrange(0, lo) + window + s.subrange(hi, s.len() as int)
}

/// `s` with the elements at the positions `lo` up to `hi` in reverse order.
pub open spec fn reversed_within<T>(s: Seq<T>, lo: int, hi: int) -> Seq<T> {
    with_window(s, lo, hi, s.subrange(lo, hi).reverse())
}

/// Whether `a` and `b` have the same length and hold the same elements at
/// every position outside `lo` up to `hi`.
pub open spec fn same_outside<T>(a: Seq<T>, b: Seq<T>, lo: int, hi: int) -> bool {
    &&& a.len() == b.len()
    &&& forall|k: int| 0 <= k < a.len() && !(lo <= k < hi) ==> a[k] == b[k]
}

/// What `s` becomes when `values` are pushed onto it one after another.
pub open spec fn pushed<T>(s: Seq<T>, values: Seq<T>) -> Seq<T>
    decreases values.len(),
{
    if values.len() == 0 {
        s
    } else {
        pushed(s.push(values.first()), values.drop_first())
    }
}

/// The elements that `n` pops take off `s`, in the order in which they come
/// off. Popping stops where `s` is used up.
pub open spec fn popped<T>(s: Seq<T>, n: nat) -> Seq<T>
    decreases n,
{
    if n == 0 || s.len() == 0 {
        Seq::empty()
    } else {
        seq![s.last()] + popped(s.drop_last(), (n - 1) as nat)
    }
}

/// What `n` pops leave of `s`.
pub open spec fn left_by_pops<T>(s: Seq<T>, n: nat) -> Seq<T>
    decreases n,
{
    if n == 0 || s.len() == 0 {
        s
    } else {
        left_by_pops(s.drop_last(), (n - 1) as nat)
    }
}

/// Pushing values one after another appends them in their order.
pub proof fn lemma_pushed_appends<T>(s: Seq<T>, values: Seq<T>)
    ensures
        pushed(s, values) == s + values,
    decreases values.len(),
{
    if values.len() == 0 {
        assert(s + values =~= s);
    } else {
        lemma_pushed_appends(s.push(values.first()), values.drop_first());
        assert(s.push(values.first()) + values.drop_first() =~= s + values);
    }
}

/// After values were pushed onto an empty array, the array holds just
/// them: as many, and each at the position of its turn.
pub proof fn lemma_pushed_onto_empty<T>(values: Seq<T>)
    ensures
        pushed(Seq::<T>::empty(), values) == values,
{
    lemma_pushed_appends(Seq::<T>::empty(), values);
    assert(Seq::<T>::empty() + values =~= values);
}

/// Last in, first out: as many pops as there were pushes give the pushed
/// values back in reverse order, and leave what was there before. Where
/// nothing was there before, nothing is left for a further pop.
pub proof fn lemma_last_in_first_out<T>(s: Seq<T>, values: Seq<T>)
    ensures
        popped(pushed(s, values), values.len()) == values.reverse(),
        left_by_pops(pushed(s, values), values.len()) == s,
        popped(left_by_pops(pushed(Seq::<T>::empty(), values), values.len()), 1)
            == Seq::<T>::empty(),
{
    lemma_pushed_appends(s, values);
    lemma_pushed_appends(Seq::<T>::empty(), values);
    lemma_pops_undo_append(s, values);
    lemma_pops_undo_append(Seq::<T>::empty(), values);
}

/// Popping as many elements as were appended gives them back in reverse
/// order and leaves what they were appended to.
proof fn lemma_pops_undo_append<T>(s: Seq<T>, values: Seq<T>)
    ensures
        popped(s + values, values.len()) == values.reverse(),
        left_by_pops(s + values, values.len()) == s,
    decreases values.len(),
{
    if values.len() == 0 {
        assert(s + values =~= s);
        assert(values.reverse() =~= Seq::<T>::empty());
    } else {
        let all = s + values;
        let fewer = values.drop_last();
        assert(all.drop_last() =~= s + fewer);
        assert(all.last() == values.last());
        lemma_pops_undo_append(s, fewer);
        assert(values.reverse() =~= seq![values.last()] + fewer.reverse());
    }
}

/// An element of a window is the element of the sequence that many
/// positions after the start of the window, and the window is as long as
/// its ends are apart.
pub proof fn lemma_window_element<T>(s: Seq<T>, lo: int, hi: int, k: int)
    requires
        0 <= lo <= hi <= s.len(),
        0 <= k < hi - lo,
    ensures
        s.subrange(lo, hi).len() == hi - lo,
        s.subrange(lo, hi)[k] == s[lo + k],
{
}

/// Exchanging the same two elements twice gives the sequence back.
pub proof fn lemma_swapped_twice<T>(s: Seq<T>, i: int, j: int)
    requires
        0 <= i < s.len(),
        0 <= j < s.len(),
    ensures
        swapped(swapped(s, i, j), i, j) == s,
{
    assert(swapped(swapped(s, i, j), i, j) =~= s);
}

/// Exchanging an element with itself changes nothing.
pub proof fn lemma_swapped_same<T>(s: Seq<T>, i: int)
    requires
        0 <= i < s.len(),
    ensures
        swapped(s, i, i) == s,
{
    assert(swapped(s, i, i) =~= s);
}

/// Exchanging two elements rearranges the sequence: it keeps each element as
/// often as it was there.
pub proof fn lemma_swapped_permutes<T>(s: Seq<T>, i: int, j: int)
    requires
        0 <= i < s.len(),
        0 <= j < s.len(),
    ensures
        swapped(s, i, j).to_multiset() == s.to_multiset(),
{
    broadcast use group_multiset_axioms;

    let first = s.update(i, s[j]);
    to_multiset_update(s, i, s[j]);
    to_multiset_update(first, j, s[i]);
    to_multiset_contains(s, s[i]);
    to_multiset_contains(s, s[j]);
    assert(s.contains(s[i]));
    assert(s.contains(s[j]));
    assert(first[j] == s[j]);
    assert(swapped(s, i, j).to_multiset() =~= s.to_multiset());
}

/// Exchanging two elements of a window rearranges the window and leaves the
/// rest of the sequence as it is.
pub proof fn lemma_swapped_window<T>(s: Seq<T>, lo: int, hi: int, i: int, j: int)
    requires
        0 <= lo <= i < hi <= s.len(),
        lo <= j < hi,
    ensures
        swapped(s, i, j).subrange(lo, hi) == swapped(s.subrange(lo, hi), i - lo, j - lo),
        swapped(s, i, j).subrange(lo, hi).to_multiset() == s.subrange(lo, hi).to_multiset(),
        same_outside(s, swapped(s, i, j), lo, hi),
{
    assert(swapped(s, i, j).subrange(lo, hi) =~= swapped(s.subrange(lo, hi), i - lo, j - lo));
    lemma_swapped_permutes(s.subrange(lo, hi), i - lo, j - lo);
}

/// Reversing twice gives the sequence back.
pub proof fn lemma_reverse_twice<T>(s: Seq<T>)
    ensures
        s.reverse().reverse() == s,
{
    assert(s.reverse().reverse() =~= s);
}

/// Reversing the same window twice gives the sequence back.
pub proof fn lemma_reversed_within_twice<T>(s: Seq<T>, lo: int, hi: int)
    requires
        0 <= lo <= hi <= s.len(),
    ensures
        reversed_within(reversed_within(s, lo, hi), lo, hi) == s,
{
    assert(reversed_within(reversed_within(s, lo, hi), lo, hi) =~= s);
}

/// Reversing all of a sequence as a window is reversing the sequence.
pub proof fn lemma_reversed_within_all<T>(s: Seq<T>)
    ensures
        reversed_within(s, 0, s.len() as int) == s.reverse(),
{
    assert(reversed_within(s, 0, s.len() as int) =~= s.reverse());
}

/// A window splits at any of its positions into what lies before it, the
/// element there, and what lies after it.
pub proof fn lemma_window_parts<T>(s: Seq<T>, lo: int, at: int, hi: int)
    requires
        0 <= lo <= at < hi <= s.len(),
    ensures
        s.subrange(lo, hi) == s.subrange(lo, at) + seq![s[at]] + s.subrange(at + 1, hi),
        s.subrange(lo, hi).to_multiset() == s.subrange(lo, at).to_multiset().add(
            seq![s[at]].to_multiset(),
        ).add(s.subrange(at + 1, hi).to_multiset()),
{
    let before = s.subrange(lo, at);
    let after = s.subrange(at + 1, hi);
    assert(s.subrange(lo, hi) =~= before + seq![s[at]] + after);
    lemma_multiset_commutative(before, seq![s[at]]);
    lemma_multiset_commutative(before + seq![s[at]], after);
}

/// What holds of every element of a sequence holds of every element of each
/// of its rearrangements.
pub proof fn lemma_rearranged_keeps<T>(a: Seq<T>, b: Seq<T>, holds: spec_fn(T) -> bool)
    requires
        a.to_multiset() == b.to_multiset(),
        forall|i: int| 0 <= i < a.len() ==> holds(#[trigger] a[i]),
    ensures
        forall|i: int| 0 <= i < b.len() ==> holds(#[trigger] b[i]),
{
    assert forall|i: int| 0 <= i < b.len() implies holds(#[trigger] b[i]) by {
        to_multiset_contains(b, b[i]);
        to_multiset_contains(a, b[i]);
        assert(b.contains(b[i]));
        let k = choose|k: int| 0 <= k < a.len() && a[k] == b[i];
        assert(holds(a[k]));
    }
}

} // verus!
