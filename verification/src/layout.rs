//! Sizes of element arrays in bytes, and the capacities an array grows to.

use vstd::prelude::*;
use vstd::arithmetic::power2::pow2;
use vstd::arithmetic::power2::lemma_pow2_unfold;
use vstd::layout::align_nonzero;
use vstd::layout::align_of;
use vstd::layout::size_of;

verus! {

/// The bytes that `count` elements of `T` occupy, laid out back to back.
pub open spec fn array_bytes<T>(count: nat) -> nat {
    count * size_of::<T>()
}

/// The largest size in bytes that storage aligned for `T` may have.
pub open spec fn max_array_bytes<T>() -> int {
    isize::MAX as int - (isize::MAX as int) % (align_of::<T>() as int)
}

/// Whether storage for `count` elements of `T` can be described at all.
pub open spec fn array_fits<T>(count: nat) -> bool {
    array_bytes::<T>(count) <= max_array_bytes::<T>()
}

/// The least power of two that is not below `n`.
pub open spec fn next_power_of_two(n: nat) -> nat
    decreases n,
{
    if n <= 1 {
        1
    } else {
        2 * next_power_of_two((n + 1) / 2)
    }
}

/// `next_power_of_two(n)` is the power of two that reaches `n` while its half
/// does not.
pub proof fn lemma_next_power_of_two_is(n: nat, e: nat)
    requires
        n <= pow2(e),
        e == 0 || pow2((e - 1) as nat) < n,
    ensures
        next_power_of_two(n) == pow2(e),
    decreases e,
{
    if e == 0 {
        assert(pow2(0) == 1) by {
            vstd::arithmetic::power2::lemma2_to64();
        }
    } else {
        lemma_pow2_unfold(e);
        let half: nat = (e - 1) as nat;
        assert(pow2(half) >= 1) by {
            vstd::arithmetic::power2::lemma_pow2_pos(half);
        }
        if half > 0 {
            lemma_pow2_unfold(half);
        }
        lemma_next_power_of_two_is((n + 1) / 2, half);
    }
}

/// A number above a power of two has its next power of two at least twice
/// as high.
pub proof fn lemma_next_power_of_two_above(n: nat, e: nat)
    requires
        pow2(e) < n,
    ensures
        2 * pow2(e) <= next_power_of_two(n),
    decreases e,
{
    if e == 0 {
        assert(pow2(0) == 1) by {
            vstd::arithmetic::power2::lemma2_to64();
        }
        lemma_next_power_of_two_bounds((n + 1) / 2);
    } else {
        lemma_pow2_unfold(e);
        lemma_next_power_of_two_above((n + 1) / 2, (e - 1) as nat);
    }
}

/// The next power of two of `n` is not below `n`, and it is the least one:
/// its half lies below `n` unless it is 1.
pub proof fn lemma_next_power_of_two_bounds(n: nat)
    ensures
        n <= next_power_of_two(n),
        1 <= next_power_of_two(n),
        next_power_of_two(n) == 1 || next_power_of_two(n) < 2 * n,
        exists|e: nat| next_power_of_two(n) == pow2(e),
    decreases n,
{
    if n <= 1 {
        assert(pow2(0) == 1) by {
            vstd::arithmetic::power2::lemma2_to64();
        }
    } else {
        let m: nat = (n + 1) / 2;
        lemma_next_power_of_two_bounds(m);
        let e = choose|e: nat| next_power_of_two(m) == pow2(e);
        lemma_pow2_unfold(e + 1);
        assert(next_power_of_two(n) == pow2(e + 1));
    }
}

/// Room for no element takes no bytes and can always be described.
pub proof fn lemma_nothing_fits<T>()
    ensures
        array_bytes::<T>(0) == 0,
        array_fits::<T>(0),
{
    broadcast use align_nonzero;

    let top = isize::MAX as int;
    let align = align_of::<T>() as int;
    assert(top % align <= top) by (nonlinear_arith)
        requires
            align > 0,
            top >= 0,
    ;
    assert(array_bytes::<T>(0) == 0) by (nonlinear_arith);
}

/// Room that can be described for `more` elements can be described for
/// `fewer`.
pub proof fn lemma_fits_fewer<T>(fewer: nat, more: nat)
    requires
        fewer <= more,
        array_fits::<T>(more),
    ensures
        array_fits::<T>(fewer),
{
    assert(fewer * size_of::<T>() <= more * size_of::<T>()) by (nonlinear_arith)
        requires
            fewer <= more,
    ;
}

/// Elements that take no room need no storage, however many they are: their
/// array takes no bytes and can always be described.
pub proof fn lemma_no_room_fits<T>(count: nat)
    requires
        size_of::<T>() == 0,
    ensures
        array_bytes::<T>(count) == 0,
        array_fits::<T>(count),
{
    lemma_nothing_fits::<T>();
    assert(array_bytes::<T>(count) == 0) by (nonlinear_arith)
        requires
            size_of::<T>() == 0,
    ;
}

/// The size in bytes of an array of `count` elements of `T`, or `None` where
/// no storage of that size can be described.
pub fn array_size<T>(count: usize) -> (bytes: Option<usize>)
    ensures
        match bytes {
            Some(b) => array_fits::<T>(count as nat) && b == array_bytes::<T>(count as nat),
            None => !array_fits::<T>(count as nat),
        },
{
    broadcast use align_nonzero;

    let size: usize = core::mem::size_of::<T>();
    let align: usize = core::mem::align_of::<T>();
    let top: usize = isize::MAX as usize;
    assert(top % align <= top) by (nonlinear_arith)
        requires
            align > 0,
    ;
    let most: usize = top - top % align;
    if size == 0 {
        assert(array_bytes::<T>(count as nat) == 0) by (nonlinear_arith)
            requires
                size_of::<T>() == 0,
        ;
        return Some(0);
    }
    if count > most / size {
        assert(count * size > most) by (nonlinear_arith)
            requires
                count > most / size,
                size > 0,
        ;
        None
    } else {
        assert(count * size <= most) by (nonlinear_arith)
            requires
                count <= most / size,
                size > 0,
        ;
        Some(count * size)
    }
}

/// The least power of two that is not below `n`, or `None` where it does not
/// fit in a `usize`.
pub fn checked_next_power_of_two(n: usize) -> (p: Option<usize>)
    ensures
        match p {
            Some(power) => power == next_power_of_two(n as nat),
            None => next_power_of_two(n as nat) > usize::MAX,
        },
{
    let mut power: usize = 1;
    let ghost mut e: nat = 0;
    proof {
        vstd::arithmetic::power2::lemma2_to64();
    }
    while power < n
        invariant
            1 <= power,
            power == pow2(e),
            e == 0 || pow2((e - 1) as nat) < n,
        decreases usize::MAX - power,
    {
        if power > usize::MAX / 2 {
            proof {
                lemma_next_power_of_two_above(n as nat, e);
            }
            return None;
        }
        proof {
            lemma_pow2_unfold(e + 1);
            e = e + 1;
        }
        power = power * 2;
    }
    proof {
        lemma_next_power_of_two_is(n as nat, e);
    }
    Some(power)
}

} // verus!
