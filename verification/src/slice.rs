//! Ranges given by a first position and a length, and the views that pair
//! such a range with the borrowed storage it points into.

use vstd::prelude::*;
use vstd::laws_cmp::obeys_cmp;
use vstd::std_specs::cmp::OrdSpec;
use core::cmp::Ordering;
use core::marker::PhantomData;
use core::ops::Range;
use crate::order::ascending;
use crate::order::comparable;
use crate::order::compares_by;
use crate::order::key_less;
use crate::order::keyed_by;
use crate::order::lemma_key_less_strict;
use crate::order::lemma_natural_less_strict;
use crate::order::natural_less;
use crate::order::strict_order;
use crate::raw_range::exchange;
use crate::raw_range::RawVecPtrRange;
use crate::sequences::reversed_within;
use crate::sequences::same_outside;
use crate::sequences::swapped;
use crate::sequences::with_window;

verus! {

/// The `len` positions from `head` on of a storage of `T`.
///
/// The range is plain data: it borrows nothing, and the storage it is meant
/// for is handed to each operation that reads or writes elements. A range
/// over no storage has its head at position 0.
#[derive(Debug)]
pub struct SlicePtr<T> {
    /// The position of the first element.
    pub head: usize,
    /// The number of elements.
    pub len: usize,
    /// Ties the range to the element type.
    pub marker: PhantomData<T>,
}

impl<T> Clone for SlicePtr<T> {
    fn clone(&self) -> (copy: Self)
        ensures
            copy == *self,
    {
        SlicePtr { head: self.head, len: self.len, marker: PhantomData }
    }
}

impl<T> Copy for SlicePtr<T> {
}

impl<T> SlicePtr<T> {
    /// The position of the first element, as a number.
    pub open spec fn lo(self) -> int {
        self.head as int
    }

    /// The position after the last element, as a number.
    pub open spec fn hi(self) -> int {
        self.head + self.len
    }

    /// Whether the range lies within a storage of `n` elements.
    pub open spec fn within(self, n: nat) -> bool {
        self.head + self.len <= n
    }

    /// Whether the positions of the range are positions at all.
    pub open spec fn wf(self) -> bool {
        self.head + self.len <= usize::MAX
    }

    /// The elements of `s` that the range covers.
    pub open spec fn window(self, s: Seq<T>) -> Seq<T> {
        s.subrange(self.head as int, self.head + self.len)
    }

    /// The range of no elements over no storage.
    pub fn zst_slice() -> (r: Self)
        ensures
            r.head == 0,
            r.len == 0,
    {
        SlicePtr { head: 0, len: 0, marker: PhantomData }
    }

    /// The range of `len` positions from `head` on.
    pub fn new(head: usize, len: usize) -> (r: Self)
        requires
            head + len <= usize::MAX,
        ensures
            r.head == head,
            r.len == len,
    {
        SlicePtr { head, len, marker: PhantomData }
    }

    /// The part of the range from its position `range.start` up to its
    /// position `range.end`. Of elements that take no room only the number
    /// counts: the part has its head at position 0.
    pub fn range(self, range: Range<usize>) -> (part: Self)
        requires
            self.wf(),
            range.start <= range.end <= self.len,
        ensures
            part.len == range.end - range.start,
            part.head == (if vstd::layout::size_of::<T>() == 0 {
                0
            } else {
                self.head + range.start
            }),
    {
        if core::mem::size_of::<T>() == 0 {
            SlicePtr { head: 0, len: range.end - range.start, marker: PhantomData }
        } else {
            SlicePtr {
                head: self.head + range.start,
                len: range.end - range.start,
                marker: PhantomData,
            }
        }
    }

    /// The position of the first element.
    pub fn head(&self) -> (head: usize)
        ensures
            head == self.head,
    {
        self.head
    }

    /// The number of elements.
    pub fn len(self) -> (len: usize)
        ensures
            len == self.len,
    {
        self.len
    }

    /// The position of the first element, to be changed in place.
    pub fn head_mut(&mut self) -> (head: &mut usize)
        ensures
            *head == old(self).head,
            final(self).head == *final(head),
            final(self).len == old(self).len,
    {
        &mut self.head
    }

    /// The number of elements, to be changed in place.
    pub fn len_mut(&mut self) -> (len: &mut usize)
        ensures
            *len == old(self).len,
            final(self).len == *final(len),
            final(self).head == old(self).head,
    {
        &mut self.len
    }

    /// The position of the element at `index` of the range, or `None` where
    /// the range has no such element.
    pub fn get(self, index: usize) -> (position: Option<usize>)
        requires
            self.wf(),
        ensures
            position == (if index < self.len {
                Some((self.head + index) as usize)
            } else {
                None
            }),
    {
        if index >= self.len {
            None
        } else {
            Some(self.head + index)
        }
    }

    /// The element of `store` at `index` of the range, or `None` where the
    /// range has no such element.
    pub fn get_ref<'a>(self, store: &'a [T], index: usize) -> (element: Option<&'a T>)
        requires
            self.within(store@.len()),
        ensures
            element == (if index < self.len {
                Some(&store@[self.head + index])
            } else {
                None
            }),
    {
        match self.get(index) {
            Some(position) => Some(&store[position]),
            None => None,
        }
    }

    /// The element of `store` at `index` of the range, to be changed in
    /// place, or `None` where the range has no such element.
    pub fn get_mut<'a>(self, store: &'a mut [T], index: usize) -> (element: Option<&'a mut T>)
        requires
            self.within(old(store)@.len()),
        ensures
            match element {
                Some(e) => {
                    &&& index < self.len
                    &&& *e == old(store)@[self.head + index]
                    &&& final(store)@ == old(store)@.update(self.head + index, *final(e))
                },
                None => index >= self.len && final(store)@ == old(store)@,
            },
    {
        match self.get(index) {
            Some(position) => Some(&mut store[position]),
            None => None,
        }
    }

    /// Whether the range has no elements.
    pub fn is_empty(self) -> (empty: bool)
        ensures
            empty == (self.len == 0),
    {
        self.len == 0
    }

    /// The two parts before and from the position `index` of the range.
    pub fn split_at(self, index: usize) -> (parts: (Self, Self))
        requires
            self.wf(),
            index <= self.len,
        ensures
            parts.0.head == self.head,
            parts.0.len == index,
            parts.1.head == self.head + index,
            parts.1.len == self.len - index,
    {
        let mid: usize = self.head + index;
        (
            SlicePtr { head: self.head, len: index, marker: PhantomData },
            SlicePtr { head: mid, len: self.len - index, marker: PhantomData },
        )
    }

    /// Puts the elements of `store` within the range in reverse order.
    pub fn reverse(self, store: &mut [T])
        requires
            self.within(old(store)@.len()),
        ensures
            final(store)@ == reversed_within(old(store)@, self.lo(), self.hi()),
    {
        let ghost before = store@;
        if self.len <= 1 {
            assert(store@ =~= reversed_within(before, self.lo(), self.hi()));
            return;
        }
        assert(store@.len() == store.len());
        let mut left: usize = self.head;
        let mut right: usize = self.head + (self.len - 1);
        while left < right
            invariant
                self.within(before.len()),
                store@.len() == before.len(),
                self.len >= 1,
                self.head <= left,
                right < self.head + self.len,
                left + right == self.head + self.head + self.len - 1,
                left <= right + 1,
                forall|k: int|
                    0 <= k < before.len() && !(self.lo() <= k < self.hi()) ==> store@[k]
                        == before[k],
                forall|k: int| left <= k <= right ==> store@[k] == before[k],
                forall|k: int|
                    self.lo() <= k < self.hi() && !(left <= k <= right) ==> store@[k]
                        == before[self.lo() + self.hi() - 1 - k],
            decreases right - left + 1,
        {
            exchange(store, left, right);
            left = left + 1;
            right = right - 1;
        }
        assert(store@ =~= reversed_within(before, self.lo(), self.hi()));
    }

    /// Sorts the elements of `store` within the range by `compare`, which may
    /// be called on every two of them.
    ///
    /// The elements within the range are rearranged, whatever `compare`
    /// answers. Where `compare` compares by a strict order they end up sorted
    /// by it. Elements that `compare` does not tell apart may change their
    /// order.
    pub fn sort_by<F>(self, store: &mut [T], compare: F) where F: Fn(&T, &T) -> Ordering + Copy
        requires
            self.within(old(store)@.len()),
            comparable(self.window(old(store)@), compare),
        ensures
            same_outside(old(store)@, final(store)@, self.lo(), self.hi()),
            self.window(final(store)@).to_multiset() == self.window(old(store)@).to_multiset(),
            forall|less: spec_fn(T, T) -> bool| #[trigger]
                compares_by(compare, less) && strict_order(less) ==> ascending(
                    self.window(final(store)@),
                    less,
                ),
    {
        assert(store@.len() == store.len());
        self.ends().quick_sort_by(store, compare);
    }

    /// The view of the elements of `store` within the range.
    pub fn as_ref<'a>(self, store: &'a [T]) -> (view: SliceRef<'a, T>)
        requires
            self.within(store@.len()),
        ensures
            view.wf(),
            view.ptr() == self,
            view.backing() == store@,
    {
        SliceRef { store, ptr: self }
    }

    /// The view of the elements of `store` within the range, to change them
    /// in place. What the view leaves in its storage is what `store` holds
    /// afterwards.
    pub fn as_mut<'a>(self, store: &'a mut [T]) -> (view: SliceMut<'a, T>)
        requires
            self.within(old(store)@.len()),
        ensures
            view.wf(),
            view.ptr == self,
            view.store@ == old(store)@,
            final(view.store)@ == final(store)@,
    {
        SliceMut { store, ptr: self }
    }

    /// The range as one given by its two ends.
    pub fn ends(self) -> (r: RawVecPtrRange<T>)
        requires
            self.wf(),
        ensures
            r.head == self.head,
            r.tail == self.head + self.len,
    {
        RawVecPtrRange::new(self.head, self.head + self.len)
    }

    /// An iterator over the positions of the range.
    pub fn into_iter(self) -> (iter: SliceIter<T>)
        requires
            self.wf(),
        ensures
            iter.head == self.head,
            iter.tail == self.head + self.len,
    {
        SliceIter { head: self.head, tail: self.head + self.len, marker: PhantomData }
    }
}

/// The positions of a range that are left, walked from both ends towards the
/// middle.
#[derive(Debug)]
pub struct SliceIter<T> {
    /// The first position that is left.
    pub head: usize,
    /// The position after the last one that is left.
    pub tail: usize,
    /// Ties the iterator to the element type.
    pub marker: PhantomData<T>,
}

impl<T> Clone for SliceIter<T> {
    fn clone(&self) -> (copy: Self)
        ensures
            copy == *self,
    {
        SliceIter { head: self.head, tail: self.tail, marker: PhantomData }
    }
}

impl<T> SliceIter<T> {
    /// The number of positions that are left.
    pub open spec fn spec_len(&self) -> nat {
        if self.head <= self.tail {
            (self.tail - self.head) as nat
        } else {
            (self.head - self.tail) as nat
        }
    }

    /// The next position from the front, which then leaves the iterator, or
    /// `None` where no position is left.
    pub fn next(&mut self) -> (position: Option<usize>)
        ensures
            old(self).head < old(self).tail ==> {
                &&& position == Some(old(self).head)
                &&& final(self).head == old(self).head + 1
                &&& final(self).tail == old(self).tail
            },
            old(self).head >= old(self).tail ==> position is None && *final(self) == *old(self),
    {
        if self.head < self.tail {
            let position: usize = self.head;
            self.head = self.head + 1;
            Some(position)
        } else {
            None
        }
    }

    /// The next position from the back, which then leaves the iterator, or
    /// `None` where no position is left.
    pub fn next_back(&mut self) -> (position: Option<usize>)
        ensures
            old(self).head < old(self).tail ==> {
                &&& position == Some((old(self).tail - 1) as usize)
                &&& final(self).head == old(self).head
                &&& final(self).tail == old(self).tail - 1
            },
            old(self).head >= old(self).tail ==> position is None && *final(self) == *old(self),
    {
        if self.head < self.tail {
            self.tail = self.tail - 1;
            Some(self.tail)
        } else {
            None
        }
    }

    /// The number of positions that are left.
    pub fn len(&self) -> (n: usize)
        ensures
            n == self.spec_len(),
    {
        if self.head <= self.tail {
            self.tail - self.head
        } else {
            self.head - self.tail
        }
    }
}

/// What has a range of elements in a borrowed storage.
pub trait AsSlice<T: Sized> {
    /// The range lies within the storage.
    spec fn wf(&self) -> bool;

    /// The range.
    spec fn ptr(&self) -> SlicePtr<T>;

    /// What the storage holds.
    spec fn backing(&self) -> Seq<T>;

    /// The range.
    fn slice_ptr(&self) -> (ptr: SlicePtr<T>)
        requires
            self.wf(),
        ensures
            ptr == self.ptr(),
            ptr.within(self.backing().len()),
    ;

    /// The storage.
    fn store(&self) -> (store: &[T])
        ensures
            store@ == self.backing(),
    ;

    /// The number of elements.
    fn len(&self) -> (n: usize)
        requires
            self.wf(),
        ensures
            n == self.ptr().len,
    {
        self.slice_ptr().len()
    }
}

/// The elements that `slice` has: those of its storage within its range.
pub open spec fn elements<T, S: AsSlice<T>>(slice: &S) -> Seq<T> {
    slice.ptr().window(slice.backing())
}

/// Reading the elements of what has a range of them.
pub trait SliceRefExt<T>: AsSlice<T> {
    /// A view of the elements.
    fn slice_ref<'a>(&'a self) -> (view: SliceRef<'a, T>)
        requires
            self.wf(),
        ensures
            view.wf(),
            view.ptr() == self.ptr(),
            view.backing() == self.backing(),
    {
        self.slice_ptr().as_ref(self.store())
    }

    /// A view of the elements from `range.start` up to `range.end`, which
    /// must all be there.
    fn range_ref<'a>(&'a self, range: Range<usize>) -> (view: SliceRef<'a, T>)
        requires
            self.wf(),
            range.start <= range.end <= self.ptr().len,
        ensures
            view.wf(),
            view.backing() == self.backing(),
            view.ptr().len == range.end - range.start,
            view.ptr().head == (if vstd::layout::size_of::<T>() == 0 {
                0
            } else {
                self.ptr().head + range.start
            }),
            vstd::layout::size_of::<T>() != 0 ==> elements(&view) == self.ptr().window(
                self.backing(),
            ).subrange(range.start as int, range.end as int),
    {
        let ptr = self.slice_ptr();
        let store = self.store();
        assert(store@.len() == store.len());
        let part = ptr.range(range);
        assert(vstd::layout::size_of::<T>() != 0 ==> part.window(store@) =~= ptr.window(
            store@,
        ).subrange(range.start as int, range.end as int));
        part.as_ref(store)
    }

    /// The element at `index`, or `None` where there is none.
    fn get<'a>(&'a self, index: usize) -> (element: Option<&'a T>)
        requires
            self.wf(),
        ensures
            element == (if index < self.ptr().len {
                Some(&self.backing()[self.ptr().head + index])
            } else {
                None
            }),
    {
        self.slice_ptr().get_ref(self.store(), index)
    }

    /// An iterator over the elements by reference.
    fn iter<'a>(&'a self) -> (it: SliceRefIter<'a, T>)
        requires
            self.wf(),
        ensures
            it.wf(),
            it@ == self.ptr().window(self.backing()),
    {
        self.slice_ref().into_iter()
    }
}

/// Changing the elements of what has a range of them, in place.
pub trait SliceMutExt<T>: AsSlice<T> + SliceRefExt<T> {
    /// The borrow of the storage that is held.
    spec fn lent(&self) -> &mut [T];

    /// The storage, to be changed in place. The range stays as it is, and
    /// so does the borrow that is held; what is left in the storage is what
    /// it holds afterwards.
    fn store_mut(&mut self) -> (store: &mut [T])
        ensures
            store@ == old(self).backing(),
            final(self).backing() == final(store)@,
            final(self).ptr() == old(self).ptr(),
            final(final(self).lent())@ == final(old(self).lent())@,
            final(store)@.len() == store@.len() ==> final(self).wf() == old(self).wf(),
    ;

    /// A view of the elements, to change them in place.
    fn slice_mut<'a>(&'a mut self) -> (view: SliceMut<'a, T>)
        requires
            old(self).wf(),
        ensures
            view.wf(),
            view.ptr == old(self).ptr(),
            view.store@ == old(self).backing(),
            final(self).backing() == final(view.store)@,
            final(self).ptr() == old(self).ptr(),
            final(final(self).lent())@ == final(old(self).lent())@,
            final(view.store)@.len() == view.store@.len() ==> final(self).wf(),
    {
        let ptr = self.slice_ptr();
        ptr.as_mut(self.store_mut())
    }

    /// A view of the elements from `range.start` up to `range.end`, which
    /// must all be there, to change them in place.
    fn range_mut<'a>(&'a mut self, range: Range<usize>) -> (view: SliceMut<'a, T>)
        requires
            old(self).wf(),
            range.start <= range.end <= old(self).ptr().len,
        ensures
            view.wf(),
            view.store@ == old(self).backing(),
            view.ptr.len == range.end - range.start,
            view.ptr.head == (if vstd::layout::size_of::<T>() == 0 {
                0
            } else {
                old(self).ptr().head + range.start
            }),
            final(self).backing() == final(view.store)@,
            final(self).ptr() == old(self).ptr(),
            final(final(self).lent())@ == final(old(self).lent())@,
            final(view.store)@.len() == view.store@.len() ==> final(self).wf(),
    {
        let ptr = self.slice_ptr();
        let store = self.store_mut();
        assert(store@.len() == store.len());
        ptr.range(range).as_mut(store)
    }

    /// The element at `index`, to be changed in place, or `None` where
    /// there is none.
    fn get_mut<'a>(&'a mut self, index: usize) -> (element: Option<&'a mut T>)
        requires
            old(self).wf(),
        ensures
            final(self).wf(),
            final(self).ptr() == old(self).ptr(),
            final(final(self).lent())@ == final(old(self).lent())@,
            match element {
                Some(e) => {
                    let at = old(self).ptr().head + index;
                    &&& index < old(self).ptr().len
                    &&& *e == old(self).backing()[at]
                    &&& final(self).backing() == old(self).backing().update(at, *final(e))
                },
                None => {
                    &&& index >= old(self).ptr().len
                    &&& final(self).backing() == old(self).backing()
                },
            },
    {
        let ptr = self.slice_ptr();
        ptr.get_mut(self.store_mut(), index)
    }

    /// An iterator over the elements by mutable reference. What is written
    /// through the references is what the storage holds afterwards; the rest
    /// of the storage stays as it is.
    fn iter_mut<'a>(&'a mut self) -> (it: SliceMutIter<'a, T>)
        requires
            old(self).wf(),
        ensures
            it.rest is Some,
            it.rest.unwrap()@ == old(self).ptr().window(old(self).backing()),
            final(self).backing() == with_window(
                old(self).backing(),
                old(self).ptr().lo(),
                old(self).ptr().hi(),
                final(it.rest.unwrap())@,
            ),
            final(self).ptr() == old(self).ptr(),
            final(final(self).lent())@ == final(old(self).lent())@,
    {
        self.slice_mut().into_iter()
    }

    /// Exchanges the elements at `i` and `j`, which must both be there.
    fn swap(&mut self, i: usize, j: usize)
        requires
            old(self).wf(),
            i < old(self).ptr().len,
            j < old(self).ptr().len,
        ensures
            final(self).wf(),
            final(self).ptr() == old(self).ptr(),
            final(self).backing() == swapped(
                old(self).backing(),
                old(self).ptr().head + i,
                old(self).ptr().head + j,
            ),
            final(final(self).lent())@ == final(old(self).lent())@,
    {
        let ptr = self.slice_ptr();
        let store = self.store_mut();
        assert(store@.len() == store.len());
        ptr.ends().swap(store, i, j);
    }

    /// Sorts the elements by `compare`, which may be called on every two of
    /// them.
    ///
    /// The elements are rearranged, whatever `compare` answers, and the rest
    /// of the storage stays as it is. Where `compare` compares by a strict
    /// order the elements end up sorted by it. Elements that `compare` does
    /// not tell apart may change their order.
    fn sort_by<F>(&mut self, compare: F) where F: Fn(&T, &T) -> Ordering + Copy
        requires
            old(self).wf(),
            comparable(old(self).ptr().window(old(self).backing()), compare),
        ensures
            final(self).wf(),
            final(self).ptr() == old(self).ptr(),
            same_outside(
                old(self).backing(),
                final(self).backing(),
                old(self).ptr().lo(),
                old(self).ptr().hi(),
            ),
            old(self).ptr().window(final(self).backing()).to_multiset() == old(self).ptr().window(
                old(self).backing(),
            ).to_multiset(),
            forall|less: spec_fn(T, T) -> bool| #[trigger]
                compares_by(compare, less) && strict_order(less) ==> ascending(
                    old(self).ptr().window(final(self).backing()),
                    less,
                ),
            final(final(self).lent())@ == final(old(self).lent())@,
    {
        let ptr = self.slice_ptr();
        ptr.sort_by(self.store_mut(), compare);
    }

    /// Sorts the elements by the keys that `f` takes of them, in the order
    /// that the keys have of themselves. `f` may be called on every element.
    ///
    /// The elements are rearranged, whatever `f` returns, and the rest of
    /// the storage stays as it is. Where `f` takes a key of every element and
    /// comparing keys obeys the laws of an order, the elements end up sorted
    /// by their keys. Elements with keys that compare equal may change their
    /// order.
    fn sort_by_key<U: Ord, F: Fn(&T) -> &U>(&mut self, f: F)
        requires
            old(self).wf(),
            forall|i: int|
                old(self).ptr().lo() <= i < old(self).ptr().hi() ==> call_requires(
                    f,
                    (&old(self).backing()[i],),
                ),
        ensures
            final(self).wf(),
            final(self).ptr() == old(self).ptr(),
            same_outside(
                old(self).backing(),
                final(self).backing(),
                old(self).ptr().lo(),
                old(self).ptr().hi(),
            ),
            old(self).ptr().window(final(self).backing()).to_multiset() == old(self).ptr().window(
                old(self).backing(),
            ).to_multiset(),
            forall|key: spec_fn(T) -> U| #[trigger]
                keyed_by(f, key) && obeys_cmp::<U>() ==> ascending(
                    old(self).ptr().window(final(self).backing()),
                    key_less(key),
                ),
            final(final(self).lent())@ == final(old(self).lent())@,
    {
        let range = self.slice_ptr();
        let key_of = &f;
        let by_key = |t1: &T, t2: &T| -> (answer: Ordering)
            requires
                call_requires(key_of, (t1,)),
                call_requires(key_of, (t2,)),
            ensures
                exists|k1: &U, k2: &U|
                    {
                        &&& call_ensures(key_of, (t1,), k1)
                        &&& call_ensures(key_of, (t2,), k2)
                        &&& U::obeys_cmp_spec() ==> answer == k1.cmp_spec(k2)
                    },
            {
                let k1 = key_of(t1);
                let k2 = key_of(t2);
                let answer = k1.cmp(k2);
                assert({
                    &&& call_ensures(key_of, (t1,), k1)
                    &&& call_ensures(key_of, (t2,), k2)
                    &&& U::obeys_cmp_spec() ==> answer == k1.cmp_spec(k2)
                });
                answer
            };
        proof {
            let w = range.window(self.backing());
            assert forall|i: int, j: int| 0 <= i < w.len() && 0 <= j < w.len() implies #[trigger]
                call_requires(by_key, (&w[i], &w[j])) by {
                assert(w[i] == self.backing()[range.lo() + i]);
                assert(w[j] == self.backing()[range.lo() + j]);
            }
        }
        self.sort_by(by_key);
        proof {
            assert forall|key: spec_fn(T) -> U| #[trigger]
                keyed_by(f, key) && obeys_cmp::<U>() implies ascending(
                range.window(self.backing()),
                key_less(key),
            ) by {
                lemma_key_less_strict::<T, U>(key);
                assert(compares_by(by_key, key_less(key)));
            }
        }
    }

    /// Sorts the elements in the order that `T` has of itself.
    ///
    /// The elements are rearranged, and the rest of the storage stays as it
    /// is. Where comparing values of `T` obeys the laws of an order the
    /// elements end up sorted by it. Elements that compare equal may change
    /// their order.
    fn sort(&mut self) where T: Ord
        requires
            old(self).wf(),
        ensures
            final(self).wf(),
            final(self).ptr() == old(self).ptr(),
            same_outside(
                old(self).backing(),
                final(self).backing(),
                old(self).ptr().lo(),
                old(self).ptr().hi(),
            ),
            old(self).ptr().window(final(self).backing()).to_multiset() == old(self).ptr().window(
                old(self).backing(),
            ).to_multiset(),
            obeys_cmp::<T>() ==> ascending(
                old(self).ptr().window(final(self).backing()),
                natural_less::<T>(),
            ),
            final(final(self).lent())@ == final(old(self).lent())@,
    {
        let natural = |a: &T, b: &T| -> (answer: Ordering)
            ensures
                T::obeys_cmp_spec() ==> answer == a.cmp_spec(b),
            { a.cmp(b) };
        self.sort_by(natural);
        proof {
            if obeys_cmp::<T>() {
                lemma_natural_less_strict::<T>();
                assert(compares_by(natural, natural_less::<T>()));
            }
        }
    }

    /// Puts the elements in reverse order.
    fn reverse(&mut self)
        requires
            old(self).wf(),
        ensures
            final(self).wf(),
            final(self).ptr() == old(self).ptr(),
            final(self).backing() == reversed_within(
                old(self).backing(),
                old(self).ptr().lo(),
                old(self).ptr().hi(),
            ),
            final(final(self).lent())@ == final(old(self).lent())@,
    {
        let ptr = self.slice_ptr();
        ptr.reverse(self.store_mut());
    }
}

/// A view of the elements of a borrowed storage within a range, to read
/// them.
#[derive(Debug)]
pub struct SliceRef<'a, T> {
    store: &'a [T],
    ptr: SlicePtr<T>,
}

impl<'a, T> Clone for SliceRef<'a, T> {
    fn clone(&self) -> (copy: Self)
        ensures
            copy == *self,
    {
        SliceRef { store: self.store, ptr: self.ptr }
    }
}

impl<'a, T> Copy for SliceRef<'a, T> {
}

impl<'a, T> AsSlice<T> for SliceRef<'a, T> {
    closed spec fn wf(&self) -> bool {
        self.ptr.within(self.store@.len())
    }

    closed spec fn ptr(&self) -> SlicePtr<T> {
        self.ptr
    }

    closed spec fn backing(&self) -> Seq<T> {
        self.store@
    }

    fn slice_ptr(&self) -> (ptr: SlicePtr<T>) {
        self.ptr
    }

    fn store(&self) -> (store: &[T]) {
        self.store
    }
}

impl<'a, T> SliceRefExt<T> for SliceRef<'a, T> {
}

impl<'a, T> SliceRef<'a, T> {
    /// An iterator over the elements by reference, for as long as the
    /// storage is borrowed.
    pub fn into_iter(self) -> (it: SliceRefIter<'a, T>)
        requires
            self.wf(),
        ensures
            it.wf(),
            it@ == self.ptr().window(self.backing()),
    {
        assert(self.store@.len() == self.store.len());
        SliceRefIter { store: self.store, iter: self.ptr.into_iter() }
    }
}

/// Hands out the elements of a view by reference.
///
/// Its view is the sequence of the elements that are left.
pub struct SliceRefIter<'a, T> {
    store: &'a [T],
    iter: SliceIter<T>,
}

impl<'a, T> View for SliceRefIter<'a, T> {
    type V = Seq<T>;

    closed spec fn view(&self) -> Seq<T> {
        self.store@.subrange(self.iter.head as int, self.iter.tail as int)
    }
}

impl<'a, T> SliceRefIter<'a, T> {
    /// The positions that are left lie within the storage.
    pub closed spec fn wf(&self) -> bool {
        self.iter.head <= self.iter.tail <= self.store@.len()
    }

    /// The iterator over the elements of `store` at the positions of
    /// `iter`.
    pub fn from(store: &'a [T], iter: SliceIter<T>) -> (it: Self)
        requires
            iter.head <= iter.tail <= store@.len(),
        ensures
            it.wf(),
            it@ == store@.subrange(iter.head as int, iter.tail as int),
    {
        SliceRefIter { store, iter }
    }

    /// The first element that is left, which then leaves the iterator.
    pub fn next(&mut self) -> (element: Option<&'a T>)
        requires
            old(self).wf(),
        ensures
            final(self).wf(),
            old(self)@.len() == 0 ==> element is None && final(self)@ == old(self)@,
            old(self)@.len() > 0 ==> {
                &&& element == Some(&old(self)@.first())
                &&& final(self)@ == old(self)@.drop_first()
            },
    {
        let ghost before = self@;
        match self.iter.next() {
            Some(position) => {
                assert(self@ =~= before.drop_first());
                Some(&self.store[position])
            },
            None => None,
        }
    }

    /// The last element that is left, which then leaves the iterator.
    pub fn next_back(&mut self) -> (element: Option<&'a T>)
        requires
            old(self).wf(),
        ensures
            final(self).wf(),
            old(self)@.len() == 0 ==> element is None && final(self)@ == old(self)@,
            old(self)@.len() > 0 ==> {
                &&& element == Some(&old(self)@.last())
                &&& final(self)@ == old(self)@.drop_last()
            },
    {
        let ghost before = self@;
        match self.iter.next_back() {
            Some(position) => {
                assert(self@ =~= before.drop_last());
                Some(&self.store[position])
            },
            None => None,
        }
    }

    /// The number of elements that are left.
    pub fn len(&self) -> (n: usize)
        requires
            self.wf(),
        ensures
            n == self@.len(),
    {
        self.iter.len()
    }
}

/// A view of the elements of a borrowed storage within a range, to change
/// them in place. While it lives nothing else reaches the storage.
pub struct SliceMut<'a, T: 'a> {
    /// The borrowed storage.
    pub store: &'a mut [T],
    /// The range of the elements within the storage.
    pub ptr: SlicePtr<T>,
}

impl<'a, T> AsSlice<T> for SliceMut<'a, T> {
    open spec fn wf(&self) -> bool {
        self.ptr.within(self.store@.len())
    }

    open spec fn ptr(&self) -> SlicePtr<T> {
        self.ptr
    }

    open spec fn backing(&self) -> Seq<T> {
        self.store@
    }

    fn slice_ptr(&self) -> (ptr: SlicePtr<T>) {
        self.ptr
    }

    fn store(&self) -> (store: &[T]) {
        &*self.store
    }
}

impl<'a, T> SliceRefExt<T> for SliceMut<'a, T> {
}

impl<'a, T> SliceMutExt<T> for SliceMut<'a, T> {
    open spec fn lent(&self) -> &mut [T] {
        self.store
    }

    fn store_mut(&mut self) -> (store: &mut [T]) {
        &mut *self.store
    }
}

impl<'a, T> SliceMut<'a, T> {
    /// An iterator over the elements by mutable reference, for as long as
    /// the storage is borrowed. What is written through the references is
    /// what the storage holds afterwards; the rest of it stays as it is.
    pub fn into_iter(self) -> (it: SliceMutIter<'a, T>)
        requires
            self.wf(),
        ensures
            it.rest is Some,
            it.rest.unwrap()@ == self.ptr.window(old(self.store)@),
            final(self.store)@ == with_window(
                old(self.store)@,
                self.ptr.lo(),
                self.ptr.hi(),
                final(it.rest.unwrap())@,
            ),
    {
        let ghost before = self.store@;
        let ptr = self.ptr;
        assert(before.len() == self.store.len());
        let (front, _) = self.store.split_at_mut(ptr.head + ptr.len);
        let (_, part) = front.split_at_mut(ptr.head);
        assert(part@ =~= ptr.window(before));
        SliceMutIter { rest: Some(part) }
    }
}

/// Hands out the elements of a view by mutable reference.
///
/// It holds the part of the storage that is left, and gives up each element
/// as it hands it out: the references it has handed out and the rest never
/// overlap.
pub struct SliceMutIter<'a, T> {
    /// The elements that are left. It is `None` only while an element is
    /// being handed out.
    pub rest: Option<&'a mut [T]>,
}

impl<'a, T> SliceMutIter<'a, T> {
    /// The iterator over the elements of `store`.
    pub fn from(store: &'a mut [T]) -> (it: Self)
        ensures
            it.rest is Some,
            it.rest.unwrap()@ == old(store)@,
            final(it.rest.unwrap())@ == final(store)@,
    {
        SliceMutIter { rest: Some(store) }
    }

    /// The first element that is left, which then leaves the iterator.
    pub fn next(&mut self) -> (element: Option<&'a mut T>)
        requires
            old(self).rest is Some,
        ensures
            final(self).rest is Some,
            match element {
                Some(e) => {
                    &&& old(self).rest.unwrap()@.len() > 0
                    &&& *e == old(self).rest.unwrap()@.first()
                    &&& final(self).rest.unwrap()@ == old(self).rest.unwrap()@.drop_first()
                    &&& final(old(self).rest.unwrap())@ == {
                        let handed = seq![*final(e)];
                        handed + final(final(self).rest.unwrap())@
                    }
                },
                None => {
                    &&& old(self).rest.unwrap()@.len() == 0
                    &&& final(self).rest.unwrap()@ == old(self).rest.unwrap()@
                    &&& final(old(self).rest.unwrap())@ == final(final(self).rest.unwrap())@
                },
            },
    {
        match self.rest.take() {
            Some(store) => {
                if store.len() == 0 {
                    self.rest = Some(store);
                    None
                } else {
                    let (first, rest) = store.split_at_mut(1);
                    self.rest = Some(rest);
                    Some(&mut first[0])
                }
            },
            None => None,
        }
    }

    /// The last element that is left, which then leaves the iterator.
    pub fn next_back(&mut self) -> (element: Option<&'a mut T>)
        requires
            old(self).rest is Some,
        ensures
            final(self).rest is Some,
            match element {
                Some(e) => {
                    &&& old(self).rest.unwrap()@.len() > 0
                    &&& *e == old(self).rest.unwrap()@.last()
                    &&& final(self).rest.unwrap()@ == old(self).rest.unwrap()@.drop_last()
                    &&& final(old(self).rest.unwrap())@ == final(final(self).rest.unwrap())@.push(
                        *final(e),
                    )
                },
                None => {
                    &&& old(self).rest.unwrap()@.len() == 0
                    &&& final(self).rest.unwrap()@ == old(self).rest.unwrap()@
                    &&& final(old(self).rest.unwrap())@ == final(final(self).rest.unwrap())@
                },
            },
    {
        match self.rest.take() {
            Some(store) => {
                let n: usize = store.len();
                if n == 0 {
                    self.rest = Some(store);
                    None
                } else {
                    let (rest, last) = store.split_at_mut(n - 1);
                    self.rest = Some(rest);
                    Some(&mut last[0])
                }
            },
            None => None,
        }
    }

    /// The number of elements that are left.
    pub fn len(&self) -> (n: usize)
        requires
            self.rest is Some,
        ensures
            n == self.rest.unwrap()@.len(),
    {
        match &self.rest {
            Some(store) => store.len(),
            None => 0,
        }
    }
}

} // verus!
