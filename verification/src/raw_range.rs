//! A range of positions given by its two ends, and the operations that
//! rearrange the elements of a storage in place within such a range.

use vstd::prelude::*;
use core::cmp::Ordering;
use core::marker::PhantomData;
use core::ops::Range;
use crate::order::answers_less;
use crate::order::answers_otherwise;
use crate::order::ascending;
use crate::order::comparable;
use crate::order::compares_by;
use crate::order::lemma_ascending_around;
use crate::order::lemma_comparable_at;
use crate::order::lemma_comparable_swapped;
use crate::order::lemma_comparable_window;
use crate::order::strict_order;
use crate::sequences::lemma_rearranged_keeps;
use crate::sequences::lemma_window_parts;
use crate::sequences::lemma_swapped_window;
use crate::sequences::reversed_within;
use crate::sequences::same_outside;
use crate::sequences::swapped;
use crate::vector::Vector;

verus! {

/// The positions from `head` up to `tail` of a storage of `T`.
///
/// The range is plain data: it borrows nothing, and the storage it is meant
/// for is handed to each operation that reads or writes elements. As a
/// cursor it is walked from both ends towards the middle.
pub struct RawVecPtrRange<T> {
    /// The position of the first element.
    pub head: usize,
    /// The position after the last element.
    pub tail: usize,
    /// Ties the range to the element type.
    pub marker: PhantomData<T>,
}

impl<T> Clone for RawVecPtrRange<T> {
    fn clone(&self) -> (copy: Self)
        ensures
            copy == *self,
    {
        RawVecPtrRange { head: self.head, tail: self.tail, marker: PhantomData }
    }
}

impl<T> Copy for RawVecPtrRange<T> {
}

/// Exchanges the elements of `store` at the positions `a` and `b`.
pub fn exchange<T>(store: &mut [T], a: usize, b: usize)
    requires
        a < old(store)@.len(),
        b < old(store)@.len(),
    ensures
        final(store)@ == swapped(old(store)@, a as int, b as int),
{
    let ghost before = store@;
    if a != b {
        let (low, high): (usize, usize) = if a < b {
            (a, b)
        } else {
            (b, a)
        };
        let (front, back) = store.split_at_mut(high);
        core::mem::swap(&mut front[low], &mut back[0]);
    }
    assert(store@ =~= swapped(before, a as int, b as int));
}

impl<T> RawVecPtrRange<T> {
    /// The position of the first element, as a number.
    pub open spec fn lo(self) -> int {
        self.head as int
    }

    /// The position after the last element, as a number.
    pub open spec fn hi(self) -> int {
        self.tail as int
    }

    /// The number of positions between the two ends.
    pub open spec fn spec_len(self) -> nat {
        if self.head <= self.tail {
            (self.tail - self.head) as nat
        } else {
            (self.head - self.tail) as nat
        }
    }

    /// Whether the range lies within a storage of `n` elements.
    pub open spec fn within(self, n: nat) -> bool {
        self.head <= self.tail <= n
    }

    /// The elements of `s` that the range covers.
    pub open spec fn window(self, s: Seq<T>) -> Seq<T> {
        s.subrange(self.head as int, self.tail as int)
    }

    /// Whether `a` and `b` differ at most within the range.
    pub open spec fn keeps_outside(self, a: Seq<T>, b: Seq<T>) -> bool {
        same_outside(a, b, self.head as int, self.tail as int)
    }

    /// The range from `head` up to `tail`.
    pub fn new(head: usize, tail: usize) -> (r: Self)
        ensures
            r.head == head,
            r.tail == tail,
    {
        RawVecPtrRange { head, tail, marker: PhantomData }
    }

    /// The range over all elements of `vector`.
    pub fn from_vector(vector: &Vector<T>) -> (r: Self)
        ensures
            r.head == 0,
            r.tail == vector@.len(),
    {
        RawVecPtrRange { head: 0, tail: vector.len(), marker: PhantomData }
    }

    /// The part of the range from its position `range.start` up to its
    /// position `range.end`.
    pub fn range(self, range: Range<usize>) -> (part: Self)
        requires
            self.head <= self.tail,
            range.start <= range.end <= self.spec_len(),
        ensures
            part.head == self.head + range.start,
            part.tail == self.head + range.end,
    {
        RawVecPtrRange {
            head: self.head + range.start,
            tail: self.head + range.end,
            marker: PhantomData,
        }
    }

    /// The two parts before and from the position `index` of the range.
    pub fn split(self, index: usize) -> (parts: (Self, Self))
        requires
            self.head <= self.tail,
            index <= self.spec_len(),
        ensures
            parts.0.head == self.head,
            parts.0.tail == self.head + index,
            parts.1.head == self.head + index,
            parts.1.tail == self.tail,
    {
        let split_at: usize = self.head + index;
        (
            RawVecPtrRange { head: self.head, tail: split_at, marker: PhantomData },
            RawVecPtrRange { head: split_at, tail: self.tail, marker: PhantomData },
        )
    }

    /// The number of positions between the two ends.
    pub fn len(self) -> (n: usize)
        ensures
            n == self.spec_len(),
    {
        if self.head <= self.tail {
            self.tail - self.head
        } else {
            self.head - self.tail
        }
    }

    /// The element of `store` at the position `index` of the range.
    pub fn index<'a>(self, store: &'a [T], index: usize) -> (element: &'a T)
        requires
            self.within(store@.len()),
            index < self.spec_len(),
        ensures
            *element == store@[self.head + index],
    {
        &store[self.head + index]
    }

    /// The element of `store` at the position `index` of the range, to be
    /// changed in place.
    pub fn index_mut<'a>(self, store: &'a mut [T], index: usize) -> (element: &'a mut T)
        requires
            self.within(old(store)@.len()),
            index < self.spec_len(),
        ensures
            *element == old(store)@[self.head + index],
            final(store)@ == old(store)@.update(self.head + index, *final(element)),
    {
        &mut store[self.head + index]
    }

    /// Exchanges the elements of `store` at the positions `i` and `j` of the
    /// range.
    pub fn swap(self, store: &mut [T], i: usize, j: usize)
        requires
            self.within(old(store)@.len()),
            i < self.spec_len(),
            j < self.spec_len(),
        ensures
            final(store)@ == swapped(old(store)@, self.head + i, self.head + j),
    {
        if i == j {
            assert(swapped(store@, self.head + i, self.head + j) =~= store@);
            return;
        }
        exchange(store, self.head + i, self.head + j);
    }

    /// Puts the elements of `store` within the range in reverse order.
    pub fn reverse(self, store: &mut [T])
        requires
            self.within(old(store)@.len()),
        ensures
            final(store)@ == reversed_within(old(store)@, self.lo(), self.hi()),
    {
        let ghost before = store@;
        let mut head: usize = self.head;
        let mut tail: usize = self.tail;
        while head < tail
            invariant
                self.within(before.len()),
                store@.len() == before.len(),
                self.head <= head,
                tail <= self.tail,
                head + tail == self.head + self.tail,
                head <= tail + 1,
                forall|k: int|
                    0 <= k < before.len() && !(self.head <= k < self.tail) ==> store@[k]
                        == before[k],
                forall|k: int| head <= k < tail ==> store@[k] == before[k],
                forall|k: int|
                    self.head <= k < self.tail && !(head <= k < tail) ==> store@[k]
                        == before[self.head + self.tail - 1 - k],
            decreases tail - head + 1,
        {
            exchange(store, head, tail - 1);
            head = head + 1;
            tail = tail - 1;
        }
        assert(store@ =~= reversed_within(before, self.lo(), self.hi()));
    }

    /// Sorts the elements of `store` within the range by `f`.
    ///
    /// The last element is the pivot. One pass moves the elements that `f`
    /// puts before the pivot to the front, the pivot is put behind them, and
    /// the parts on both sides of it are sorted in the same way. Elements that
    /// `f` does not tell apart may change their order.
    ///
    /// The elements within the range are rearranged, whatever `f` answers.
    /// Where `f` compares by a strict order they end up sorted by it.
    pub fn quick_sort_by<F: Fn(&T, &T) -> Ordering + Copy>(self, store: &mut [T], f: F)
        requires
            self.within(old(store)@.len()),
            comparable(self.window(old(store)@), f),
        ensures
            self.keeps_outside(old(store)@, final(store)@),
            self.window(final(store)@).to_multiset() == self.window(old(store)@).to_multiset(),
            forall|less: spec_fn(T, T) -> bool| #[trigger]
                compares_by(f, less) && strict_order(less) ==> ascending(
                    self.window(final(store)@),
                    less,
                ),
        decreases self.spec_len(),
    {
        let len: usize = self.len();
        if len <= 1 {
            return;
        }
        let ghost before = store@;
        let ghost pivot = store@[self.hi() - 1];
        let pivot_index: usize = len - 1;
        let mut i: usize = 0;
        let mut j: usize = 0;
        while j < pivot_index
            invariant
                self.within(store@.len()),
                len == self.spec_len(),
                pivot_index == len - 1,
                i <= j <= pivot_index,
                self.keeps_outside(before, store@),
                self.window(store@).to_multiset() == self.window(before).to_multiset(),
                comparable(self.window(store@), f),
                store@[self.hi() - 1] == pivot,
                forall|k: int|
                    self.lo() <= k < self.lo() + i ==> answers_less(f, #[trigger] store@[k], pivot),
                forall|k: int|
                    self.lo() + i <= k < self.lo() + j ==> answers_otherwise(
                        f,
                        #[trigger] store@[k],
                        pivot,
                    ),
            decreases pivot_index - j,
        {
            proof {
                lemma_comparable_at(
                    store@,
                    self.lo(),
                    self.hi(),
                    self.lo() + j,
                    self.hi() - 1,
                    f,
                );
            }
            let answer = f(self.index(&*store, j), self.index(&*store, pivot_index));
            match answer {
                Ordering::Less => {
                    proof {
                        lemma_swapped_window(
                            store@,
                            self.lo(),
                            self.hi(),
                            self.lo() + i,
                            self.lo() + j,
                        );
                        lemma_comparable_swapped(
                            store@,
                            self.lo(),
                            self.hi(),
                            self.lo() + i,
                            self.lo() + j,
                            f,
                        );
                    }
                    self.swap(store, i, j);
                    i = i + 1;
                },
                _ => {},
            }
            j = j + 1;
        }
        proof {
            lemma_swapped_window(store@, self.lo(), self.hi(), self.lo() + i, self.hi() - 1);
            lemma_comparable_swapped(
                store@,
                self.lo(),
                self.hi(),
                self.lo() + i,
                self.hi() - 1,
                f,
            );
        }
        self.swap(store, i, pivot_index);
        let (left, rest) = self.split(i);
        let (_, right) = rest.split(1);
        let ghost parted = store@;
        let ghost at = self.lo() + i;
        proof {
            lemma_comparable_window(parted, self.lo(), self.hi(), self.lo(), at, f);
            lemma_comparable_window(parted, self.lo(), self.hi(), at + 1, self.hi(), f);
        }
        left.quick_sort_by(store, f);
        let ghost half = store@;
        proof {
            assert(right.window(half) =~= right.window(parted));
        }
        right.quick_sort_by(store, f);
        proof {
            let done = store@;
            assert(left.window(done) =~= left.window(half));
            assert(done[at] == pivot);
            lemma_window_parts(parted, self.lo(), at, self.hi());
            lemma_window_parts(done, self.lo(), at, self.hi());
            assert(left.window(done) == done.subrange(self.lo(), at));
            assert(right.window(done) == done.subrange(at + 1, self.hi()));
            assert(left.window(parted) == parted.subrange(self.lo(), at));
            assert(right.window(parted) == parted.subrange(at + 1, self.hi()));
            assert forall|less: spec_fn(T, T) -> bool| #[trigger]
                compares_by(f, less) && strict_order(less) implies ascending(
                self.window(done),
                less,
            ) by {
                let before_pivot = |x: T| less(x, pivot);
                let not_before_pivot = |x: T| !less(x, pivot);
                assert forall|k: int| 0 <= k < left.window(parted).len() implies before_pivot(
                    #[trigger] left.window(parted)[k],
                ) by {
                    assert(left.window(parted)[k] == parted[self.lo() + k]);
                    assert(answers_less(f, parted[self.lo() + k], pivot));
                }
                assert forall|k: int| 0 <= k < right.window(parted).len() implies not_before_pivot(
                    #[trigger] right.window(parted)[k],
                ) by {
                    assert(right.window(parted)[k] == parted[at + 1 + k]);
                    assert(answers_otherwise(f, parted[at + 1 + k], pivot));
                }
                lemma_rearranged_keeps(left.window(parted), left.window(done), before_pivot);
                lemma_rearranged_keeps(right.window(parted), right.window(done), not_before_pivot);
                lemma_ascending_around(left.window(done), pivot, right.window(done), less);
            }
        }
    }

    /// The next position from the front, which then leaves the range, or
    /// `None` where no position is left.
    pub fn next(&mut self) -> (position: Option<usize>)
        ensures
            old(self).head < old(self).tail ==> {
                &&& position == Some(old(self).head)
                &&& final(self).head == old(self).head + 1
                &&& final(self).tail == old(self).tail
            },
            old(self).head >= old(self).tail ==> position is None && *final(self) == *old(self),
    {
        if self.head < self.tail {
            let position: usize = self.head;
            self.head = self.head + 1;
            Some(position)
        } else {
            None
        }
    }

    /// The next position from the back, which then leaves the range, or
    /// `None` where no position is left.
    pub fn next_back(&mut self) -> (position: Option<usize>)
        ensures
            old(self).head < old(self).tail ==> {
                &&& position == Some((old(self).tail - 1) as usize)
                &&& final(self).head == old(self).head
                &&& final(self).tail == old(self).tail - 1
            },
            old(self).head >= old(self).tail ==> position is None && *final(self) == *old(self),
    {
        if self.head < self.tail {
            self.tail = self.tail - 1;
            Some(self.tail)
        } else {
            None
        }
    }
}

} // verus!
