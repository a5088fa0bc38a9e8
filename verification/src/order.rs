//! What a comparison function says about the order of elements, and what it
//! means for a sequence to be sorted by it.

use vstd::prelude::*;
use vstd::laws_cmp::obeys_cmp;
use vstd::laws_cmp::obeys_cmp_ord;
use vstd::laws_cmp::obeys_cmp_partial_ord;
use vstd::laws_cmp::obeys_partial_cmp_spec_properties;
use vstd::laws_eq::obeys_concrete_eq;
use vstd::relations::irreflexive;
use vstd::relations::sorted_by;
use vstd::relations::total_ordering;
use vstd::relations::transitive;
use vstd::seq_lib::lemma_sorted_unique;
use crate::sequences::swapped;
use vstd::std_specs::cmp::OrdSpec;
use vstd::std_specs::cmp::PartialEqSpec;
use vstd::std_specs::cmp::PartialOrdSpec;
use core::cmp::Ordering;

verus! {

/// Whether `f` may be called on every two elements of `s`.
pub open spec fn comparable<T, F: Fn(&T, &T) -> Ordering>(s: Seq<T>, f: F) -> bool {
    forall|i: int, j: int|
        0 <= i < s.len() && 0 <= j < s.len() ==> #[trigger] call_requires(f, (&s[i], &s[j]))
}

/// Whether `f` compares by `less`: whatever `f` answers for `a` and `b`, the
/// answer is `Less` exactly where `less(a, b)` holds.
pub open spec fn compares_by<T, F: Fn(&T, &T) -> Ordering>(
    f: F,
    less: spec_fn(T, T) -> bool,
) -> bool {
    forall|a: T, b: T, answer: Ordering| #[trigger]
        call_ensures(f, (&a, &b), answer) ==> (answer == Ordering::Less <==> less(a, b))
}

/// Whether `f` has answered `Less` for `a` and `b`.
pub open spec fn answers_less<T, F: Fn(&T, &T) -> Ordering>(f: F, a: T, b: T) -> bool {
    call_ensures(f, (&a, &b), Ordering::Less)
}

/// Whether `f` has given an answer other than `Less` for `a` and `b`.
pub open spec fn answers_otherwise<T, F: Fn(&T, &T) -> Ordering>(f: F, a: T, b: T) -> bool {
    call_ensures(f, (&a, &b), Ordering::Equal) || call_ensures(f, (&a, &b), Ordering::Greater)
}

/// Whether `f` takes the key `key(a)` of every element `a`: whatever `f`
/// returns for `a`, it is that key.
pub open spec fn keyed_by<T, U, F: Fn(&T) -> &U>(f: F, key: spec_fn(T) -> U) -> bool {
    forall|a: T, k: &U| #[trigger] call_ensures(f, (&a,), k) ==> *k == key(a)
}

/// The order that `T` has of itself: `a` lies before `b` where comparing
/// them gives `Less`.
pub open spec fn natural_less<T: Ord>() -> spec_fn(T, T) -> bool {
    |a: T, b: T| a.cmp_spec(&b) == Ordering::Less
}

/// The order of the elements by their keys, in the order that the keys have
/// of themselves.
pub open spec fn key_less<T, U: Ord>(key: spec_fn(T) -> U) -> spec_fn(T, T) -> bool {
    |a: T, b: T| key(a).cmp_spec(&key(b)) == Ordering::Less
}

/// Whether `less` orders strictly: nothing lies before itself, and what lies
/// before an element lies before all that the element lies before. Every
/// strict weak ordering does, and every strict total ordering.
pub open spec fn strict_order<T>(less: spec_fn(T, T) -> bool) -> bool {
    irreflexive(less) && transitive(less)
}

/// Whether `less` orders strictly and totally: of two different elements one
/// lies before the other.
pub open spec fn strict_total_order<T>(less: spec_fn(T, T) -> bool) -> bool {
    &&& strict_order(less)
    &&& forall|a: T, b: T| a != b ==> #[trigger] less(a, b) || less(b, a)
}

/// Whether `s` is sorted by `less`: no element lies before one that precedes
/// it in `s`.
pub open spec fn ascending<T>(s: Seq<T>, less: spec_fn(T, T) -> bool) -> bool {
    forall|i: int, j: int| 0 <= i < j < s.len() ==> !less(#[trigger] s[j], #[trigger] s[i])
}

/// A function that may be called on every two elements of a window may be
/// called on the elements at any two positions within it.
pub proof fn lemma_comparable_at<T, F: Fn(&T, &T) -> Ordering>(
    s: Seq<T>,
    lo: int,
    hi: int,
    a: int,
    b: int,
    f: F,
)
    requires
        0 <= lo <= hi <= s.len(),
        comparable(s.subrange(lo, hi), f),
        lo <= a < hi,
        lo <= b < hi,
    ensures
        call_requires(f, (&s[a], &s[b])),
{
    let w = s.subrange(lo, hi);
    assert(w[a - lo] == s[a]);
    assert(w[b - lo] == s[b]);
    assert(call_requires(f, (&w[a - lo], &w[b - lo])));
}

/// A function that may be called on every two elements of a window may be
/// called on every two of them after two were exchanged.
pub proof fn lemma_comparable_swapped<T, F: Fn(&T, &T) -> Ordering>(
    s: Seq<T>,
    lo: int,
    hi: int,
    i: int,
    j: int,
    f: F,
)
    requires
        0 <= lo <= hi <= s.len(),
        comparable(s.subrange(lo, hi), f),
        lo <= i < hi,
        lo <= j < hi,
    ensures
        comparable(swapped(s, i, j).subrange(lo, hi), f),
{
    let t = swapped(s, i, j);
    let w = t.subrange(lo, hi);
    assert forall|a: int, b: int| 0 <= a < w.len() && 0 <= b < w.len() implies #[trigger]
        call_requires(f, (&w[a], &w[b])) by {
        let from_a = if lo + a == i {
            j
        } else if lo + a == j {
            i
        } else {
            lo + a
        };
        let from_b = if lo + b == i {
            j
        } else if lo + b == j {
            i
        } else {
            lo + b
        };
        assert(w[a] == s[from_a]);
        assert(w[b] == s[from_b]);
        lemma_comparable_at(s, lo, hi, from_a, from_b, f);
    }
}

/// A function that may be called on every two elements of a window may be
/// called on every two elements of each window within it.
pub proof fn lemma_comparable_window<T, F: Fn(&T, &T) -> Ordering>(
    s: Seq<T>,
    lo: int,
    hi: int,
    from: int,
    to: int,
    f: F,
)
    requires
        0 <= lo <= hi <= s.len(),
        comparable(s.subrange(lo, hi), f),
        lo <= from <= to <= hi,
    ensures
        comparable(s.subrange(from, to), f),
{
    let w = s.subrange(from, to);
    assert forall|a: int, b: int| 0 <= a < w.len() && 0 <= b < w.len() implies #[trigger]
        call_requires(f, (&w[a], &w[b])) by {
        assert(w[a] == s[from + a]);
        assert(w[b] == s[from + b]);
        lemma_comparable_at(s, lo, hi, from + a, from + b, f);
    }
}

/// Where comparing values of `T` obeys the laws of an order, the order that
/// `T` has of itself is strict.
pub proof fn lemma_natural_less_strict<T: Ord>()
    requires
        obeys_cmp::<T>(),
    ensures
        T::obeys_cmp_spec(),
        strict_order(natural_less::<T>()),
{
    reveal(obeys_partial_cmp_spec_properties);
    reveal(obeys_cmp_partial_ord);
    reveal(obeys_cmp_ord);
    let less = natural_less::<T>();
    assert forall|x: T| #[trigger] less(x, x) == false by {
        assert(x.partial_cmp_spec(&x) == Some(x.cmp_spec(&x)));
    }
    assert forall|x: T, y: T, z: T| #[trigger] less(x, y) && #[trigger] less(y, z) implies less(
        x,
        z,
    ) by {
        assert(x.partial_cmp_spec(&y) == Some(x.cmp_spec(&y)));
        assert(y.partial_cmp_spec(&z) == Some(y.cmp_spec(&z)));
        assert(x.partial_cmp_spec(&z) == Some(x.cmp_spec(&z)));
    }
}

/// Where comparing values of `T` obeys the laws of an order and tells apart
/// all values that differ, the order that `T` has of itself is strict and
/// total.
pub proof fn lemma_natural_less_total<T: Ord>()
    requires
        obeys_cmp::<T>(),
        obeys_concrete_eq::<T>(),
    ensures
        strict_total_order(natural_less::<T>()),
{
    lemma_natural_less_strict::<T>();
    reveal(obeys_partial_cmp_spec_properties);
    reveal(obeys_cmp_partial_ord);
    reveal(obeys_cmp_ord);
    reveal(obeys_concrete_eq);
    let less = natural_less::<T>();
    assert forall|a: T, b: T| a != b implies #[trigger] less(a, b) || less(b, a) by {
        assert(a.partial_cmp_spec(&b) == Some(a.cmp_spec(&b)));
        assert(b.partial_cmp_spec(&a) == Some(b.cmp_spec(&a)));
        assert(!a.eq_spec(&b));
    }
}

/// Where comparing keys obeys the laws of an order, the order of the
/// elements by their keys is strict.
pub proof fn lemma_key_less_strict<T, U: Ord>(key: spec_fn(T) -> U)
    requires
        obeys_cmp::<U>(),
    ensures
        U::obeys_cmp_spec(),
        strict_order(key_less::<T, U>(key)),
{
    lemma_natural_less_strict::<U>();
    let less = key_less::<T, U>(key);
    let of_keys = natural_less::<U>();
    assert forall|x: T| #[trigger] less(x, x) == false by {
        assert(of_keys(key(x), key(x)) == false);
    }
    assert forall|x: T, y: T, z: T| #[trigger] less(x, y) && #[trigger] less(y, z) implies less(
        x,
        z,
    ) by {
        assert(of_keys(key(x), key(y)) && of_keys(key(y), key(z)));
        assert(of_keys(key(x), key(z)));
    }
}

/// Sorted parts on both sides of a pivot make a sorted whole, where all of
/// the left part lies before the pivot and nothing of the right part does.
pub proof fn lemma_ascending_around<T>(
    left: Seq<T>,
    pivot: T,
    right: Seq<T>,
    less: spec_fn(T, T) -> bool,
)
    requires
        strict_order(less),
        ascending(left, less),
        ascending(right, less),
        forall|i: int| 0 <= i < left.len() ==> less(#[trigger] left[i], pivot),
        forall|i: int| 0 <= i < right.len() ==> !less(#[trigger] right[i], pivot),
    ensures
        ascending(left + seq![pivot] + right, less),
{
    let whole = left + seq![pivot] + right;
    let at = left.len() as int;
    assert forall|i: int, j: int| 0 <= i < j < whole.len() implies !less(
        #[trigger] whole[j],
        #[trigger] whole[i],
    ) by {
        if j < at {
            assert(whole[i] == left[i] && whole[j] == left[j]);
        } else if i > at {
            assert(whole[i] == right[i - at - 1] && whole[j] == right[j - at - 1]);
        } else if j == at {
            assert(whole[i] == left[i] && whole[j] == pivot);
            assert(less(left[i], pivot));
            if less(pivot, left[i]) {
                assert(less(pivot, pivot));
            }
        } else if i == at {
            assert(whole[i] == pivot && whole[j] == right[j - at - 1]);
        } else {
            assert(whole[i] == left[i] && whole[j] == right[j - at - 1]);
            assert(less(left[i], pivot));
            if less(right[j - at - 1], left[i]) {
                assert(less(right[j - at - 1], pivot));
            }
        }
    }
}

/// Sorting what is sorted changes nothing: two sequences with the same
/// elements, both sorted by one strict total order, are the same sequence.
pub proof fn lemma_ascending_unique<T>(a: Seq<T>, b: Seq<T>, less: spec_fn(T, T) -> bool)
    requires
        strict_total_order(less),
        ascending(a, less),
        ascending(b, less),
        a.to_multiset() == b.to_multiset(),
    ensures
        a == b,
{
    let not_after = |x: T, y: T| !less(y, x);
    assert(total_ordering(not_after)) by {
        assert forall|x: T, y: T| #[trigger] not_after(x, y) && #[trigger] not_after(y, x) implies x
            == y by {
            if x != y {
                assert(less(x, y) || less(y, x));
            }
        }
        assert forall|x: T, y: T, z: T| #[trigger]
            not_after(x, y) && #[trigger] not_after(y, z) implies not_after(x, z) by {
            if less(z, x) {
                if x != y {
                    assert(less(x, y) || less(y, x));
                    assert(less(z, y));
                }
            }
        }
        assert forall|x: T, y: T| #[trigger] not_after(x, y) || #[trigger] not_after(y, x) by {
            if less(y, x) && less(x, y) {
                assert(less(x, x));
            }
        }
    }
    assert(sorted_by(a, not_after)) by {
        assert forall|i: int, j: int| 0 <= i < j < a.len() implies #[trigger] not_after(
            a[i],
            a[j],
        ) by {
            assert(!less(a[j], a[i]));
        }
    }
    assert(sorted_by(b, not_after)) by {
        assert forall|i: int, j: int| 0 <= i < j < b.len() implies #[trigger] not_after(
            b[i],
            b[j],
        ) by {
            assert(!less(b[j], b[i]));
        }
    }
    lemma_sorted_unique(a, b, not_after);
}

} // verus!
