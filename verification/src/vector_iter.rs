//! The iterators of the growable array: by value, by reference and by
//! mutable reference. Each can be walked from both ends and knows how many
//! elements it has left.

use vstd::prelude::*;
use std::collections::VecDeque;
use crate::raw_range::RawVecPtrRange;
use crate::vector::Vector;

verus! {

/// Hands out the elements of an array by value.
///
/// Its view is the sequence of the elements that are left.
pub struct VectorIter<T> {
    items: VecDeque<T>,
}

impl<T> View for VectorIter<T> {
    type V = Seq<T>;

    closed spec fn view(&self) -> Seq<T> {
        self.items@
    }
}

impl<T> VectorIter<T> {
    /// Takes the elements of `vector`, in their order.
    pub fn new(vector: Vector<T>) -> (iter: Self)
        requires
            vector.wf(),
        ensures
            iter@ == vector@,
    {
        let ghost all = vector@;
        let mut vector = vector;
        let mut items: VecDeque<T> = VecDeque::new();
        while vector.len() > 0
            invariant
                vector.wf(),
                vector@ + items@ == all,
            decreases vector@.len(),
        {
            let ghost left = vector@;
            let ghost taken = items@;
            match vector.pop() {
                Some(last) => {
                    items.push_front(last);
                    assert(vector@ + items@ =~= left + taken);
                },
                None => {},
            }
        }
        assert(items@ =~= all);
        VectorIter { items }
    }

    /// The first element that is left, which then leaves the iterator.
    pub fn next(&mut self) -> (element: Option<T>)
        ensures
            old(self)@.len() == 0 ==> element is None && final(self)@ == old(self)@,
            old(self)@.len() > 0 ==> {
                &&& element == Some(old(self)@.first())
                &&& final(self)@ == old(self)@.drop_first()
            },
    {
        self.items.pop_front()
    }

    /// The last element that is left, which then leaves the iterator.
    pub fn next_back(&mut self) -> (element: Option<T>)
        ensures
            old(self)@.len() == 0 ==> element is None && final(self)@ == old(self)@,
            old(self)@.len() > 0 ==> {
                &&& element == Some(old(self)@.last())
                &&& final(self)@ == old(self)@.drop_last()
            },
    {
        self.items.pop_back()
    }

    /// The number of elements that are left.
    pub fn len(&self) -> (n: usize)
        ensures
            n == self@.len(),
    {
        self.items.len()
    }
}

/// Hands out the elements of a borrowed storage by reference.
///
/// Its view is the sequence of the elements that are left.
pub struct VecRefIter<'a, T> {
    store: &'a [T],
    iter: RawVecPtrRange<T>,
}

impl<'a, T> View for VecRefIter<'a, T> {
    type V = Seq<T>;

    closed spec fn view(&self) -> Seq<T> {
        self.iter.window(self.store@)
    }
}

impl<'a, T> VecRefIter<'a, T> {
    /// The positions that are left lie within the storage.
    pub closed spec fn wf(&self) -> bool {
        self.iter.within(self.store@.len())
    }

    /// The iterator over the elements of `store` within `iter`.
    pub fn from(store: &'a [T], iter: RawVecPtrRange<T>) -> (it: Self)
        requires
            iter.within(store@.len()),
        ensures
            it.wf(),
            it@ == iter.window(store@),
    {
        VecRefIter { store, iter }
    }

    /// The first element that is left, which then leaves the iterator.
    pub fn next(&mut self) -> (element: Option<&'a T>)
        requires
            old(self).wf(),
        ensures
            final(self).wf(),
            old(self)@.len() == 0 ==> element is None && final(self)@ == old(self)@,
            old(self)@.len() > 0 ==> {
                &&& element == Some(&old(self)@.first())
                &&& final(self)@ == old(self)@.drop_first()
            },
    {
        let ghost before = self@;
        match self.iter.next() {
            Some(position) => {
                assert(self@ =~= before.drop_first());
                Some(&self.store[position])
            },
            None => None,
        }
    }

    /// The last element that is left, which then leaves the iterator.
    pub fn next_back(&mut self) -> (element: Option<&'a T>)
        requires
            old(self).wf(),
        ensures
            final(self).wf(),
            old(self)@.len() == 0 ==> element is None && final(self)@ == old(self)@,
            old(self)@.len() > 0 ==> {
                &&& element == Some(&old(self)@.last())
                &&& final(self)@ == old(self)@.drop_last()
            },
    {
        let ghost before = self@;
        match self.iter.next_back() {
            Some(position) => {
                assert(self@ =~= before.drop_last());
                Some(&self.store[position])
            },
            None => None,
        }
    }

    /// The number of elements that are left.
    pub fn len(&self) -> (n: usize)
        requires
            self.wf(),
        ensures
            n == self@.len(),
    {
        self.iter.len()
    }
}

/// Hands out the elements of a borrowed storage by mutable reference.
///
/// It holds the part of the storage that is left, and gives up each element
/// as it hands it out: the references it has handed out and the rest never
/// overlap.
pub struct VecMutIter<'a, T> {
    /// The elements that are left. It is `None` only while an element is
    /// being handed out.
    pub rest: Option<&'a mut [T]>,
}

impl<'a, T> VecMutIter<'a, T> {
    /// The iterator over the elements of `store`.
    pub fn from(store: &'a mut [T]) -> (it: Self)
        ensures
            it.rest is Some,
            it.rest.unwrap()@ == old(store)@,
            final(it.rest.unwrap())@ == final(store)@,
    {
        VecMutIter { rest: Some(store) }
    }

    /// The first element that is left, which then leaves the iterator.
    pub fn next(&mut self) -> (element: Option<&'a mut T>)
        requires
            old(self).rest is Some,
        ensures
            final(self).rest is Some,
            match element {
                Some(e) => {
                    &&& old(self).rest.unwrap()@.len() > 0
                    &&& *e == old(self).rest.unwrap()@.first()
                    &&& final(self).rest.unwrap()@ == old(self).rest.unwrap()@.drop_first()
                    &&& final(old(self).rest.unwrap())@ == {
                        let handed = seq![*final(e)];
                        handed + final(final(self).rest.unwrap())@
                    }
                },
                None => {
                    &&& old(self).rest.unwrap()@.len() == 0
                    &&& final(self).rest.unwrap()@ == old(self).rest.unwrap()@
                    &&& final(old(self).rest.unwrap())@ == final(final(self).rest.unwrap())@
                },
            },
    {
        match self.rest.take() {
            Some(store) => {
                if store.len() == 0 {
                    self.rest = Some(store);
                    None
                } else {
                    let (first, rest) = store.split_at_mut(1);
                    self.rest = Some(rest);
                    Some(&mut first[0])
                }
            },
            None => None,
        }
    }

    /// The last element that is left, which then leaves the iterator.
    pub fn next_back(&mut self) -> (element: Option<&'a mut T>)
        requires
            old(self).rest is Some,
        ensures
            final(self).rest is Some,
            match element {
                Some(e) => {
                    &&& old(self).rest.unwrap()@.len() > 0
                    &&& *e == old(self).rest.unwrap()@.last()
                    &&& final(self).rest.unwrap()@ == old(self).rest.unwrap()@.drop_last()
                    &&& final(old(self).rest.unwrap())@ == final(final(self).rest.unwrap())@.push(
                        *final(e),
                    )
                },
                None => {
                    &&& old(self).rest.unwrap()@.len() == 0
                    &&& final(self).rest.unwrap()@ == old(self).rest.unwrap()@
                    &&& final(old(self).rest.unwrap())@ == final(final(self).rest.unwrap())@
                },
            },
    {
        match self.rest.take() {
            Some(store) => {
                let n: usize = store.len();
                if n == 0 {
                    self.rest = Some(store);
                    None
                } else {
                    let (rest, last) = store.split_at_mut(n - 1);
                    self.rest = Some(rest);
                    Some(&mut last[0])
                }
            },
            None => None,
        }
    }

    /// The number of elements that are left.
    pub fn len(&self) -> (n: usize)
        requires
            self.rest is Some,
        ensures
            n == self.rest.unwrap()@.len(),
    {
        match &self.rest {
            Some(store) => store.len(),
            None => 0,
        }
    }
}

impl<T> Vector<T> {
    /// An iterator over the elements by reference.
    pub fn iter(&self) -> (it: VecRefIter<'_, T>)
        ensures
            it.wf(),
            it@ == self@,
    {
        let range = RawVecPtrRange::from_vector(self);
        assert(range.window(self@) =~= self@);
        VecRefIter::from(self.as_slice(), range)
    }

    /// An iterator over the elements by mutable reference. What is written
    /// through the references is what the array holds afterwards.
    pub fn iter_mut(&mut self) -> (it: VecMutIter<'_, T>)
        ensures
            it.rest is Some,
            it.rest.unwrap()@ == old(self)@,
            final(self)@ == final(it.rest.unwrap())@,
            final(self).spec_capacity() == old(self).spec_capacity(),
    {
        VecMutIter::from(self.as_slice_mut())
    }

    /// An iterator that takes the elements out of the array.
    pub fn into_iter(self) -> (it: VectorIter<T>)
        requires
            self.wf(),
        ensures
            it@ == self@,
    {
        VectorIter::new(self)
    }
}

} // verus!
