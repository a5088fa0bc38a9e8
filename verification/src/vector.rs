//! The growable array: it owns its elements, keeps count of the room it has
//! reserved for them, and grows that room by powers of two.

use vstd::prelude::*;
use vstd::laws_cmp::obeys_cmp;
use vstd::std_specs::cmp::OrdSpec;
use core::cmp::Ordering;
use core::ops::Range;
use std::collections::TryReserveError;
use crate::layout::array_bytes;
use crate::layout::array_fits;
use crate::layout::array_size;
use crate::layout::checked_next_power_of_two;
use crate::layout::lemma_fits_fewer;
use crate::layout::lemma_next_power_of_two_bounds;
use crate::layout::lemma_nothing_fits;
use crate::layout::next_power_of_two;
use crate::order::ascending;
use crate::order::comparable;
use crate::order::compares_by;
use crate::order::key_less;
use crate::order::keyed_by;
use crate::order::lemma_key_less_strict;
use crate::order::lemma_natural_less_strict;
use crate::order::natural_less;
use crate::order::strict_order;
use crate::raw_range::RawVecPtrRange;
use crate::sequences::lemma_reversed_within_all;
use crate::sequences::swapped;
use crate::sequences::with_window;

verus! {

/// Calls `Vec::try_reserve_exact`, which asks the allocator for room for
/// `additional` more elements and reports a refusal as a value. Granted or
/// refused, the elements of the vector stay as they are.
#[verifier::external_body]
fn try_reserve_exact<T>(buffer: &mut Vec<T>, additional: usize) -> (outcome: Result<
    (),
    TryReserveError,
>)
    ensures
        final(buffer)@ == old(buffer)@,
{
    buffer.try_reserve_exact(additional)
}

/// Calls `Vec::shrink_to_fit`, which gives room that holds no element back to
/// the allocator. The elements of the vector stay as they are.
#[verifier::external_body]
fn shrink_to_fit<T>(buffer: &mut Vec<T>)
    ensures
        final(buffer)@ == old(buffer)@,
{
    buffer.shrink_to_fit()
}

/// Why room for elements could not be provided.
#[derive(Debug, Clone, Copy, PartialEq, Eq, Structural)]
pub enum VectorError {
    /// No storage of the size asked for can be described.
    LayoutError,
    /// The allocator refused the request.
    AllocError,
}

impl VectorError {
    /// The error in words.
    pub fn message(&self) -> (text: String)
        ensures
            text@ == (match *self {
                VectorError::LayoutError => {
                    "Layout error: invalid parameters to Layout::from_size_align"@
                },
                VectorError::AllocError => "Allocation error: memory allocation failed"@,
            }),
    {
        match self {
            VectorError::LayoutError => {
                "Layout error: invalid parameters to Layout::from_size_align".to_owned()
            },
            VectorError::AllocError => "Allocation error: memory allocation failed".to_owned(),
        }
    }
}

/// A value that could not be pushed, handed back with the reason.
#[derive(Debug)]
pub struct PushError<T> {
    /// The value that was to be pushed.
    pub value: T,
    /// Why no room could be made for it.
    pub error: VectorError,
}

/// The capacity that a request for room for `additional` more elements comes
/// to, for an array of `len` elements with room for `capacity`: `Ok(None)`
/// where the room is there already, else the next power of two from
/// `capacity + additional`, and `LayoutError` where that many elements of `T`
/// cannot be described.
pub open spec fn reserve_target<T>(len: nat, capacity: nat, additional: nat) -> Result<
    Option<usize>,
    VectorError,
> {
    if len + additional <= capacity {
        Ok(None)
    } else {
        let target = next_power_of_two(capacity + additional);
        if target <= usize::MAX && array_fits::<T>(target) {
            Ok(Some(target as usize))
        } else {
            Err(VectorError::LayoutError)
        }
    }
}

/// Decides what a request for room comes to. See [`reserve_target`].
pub fn plan_reserve<T>(len: usize, capacity: usize, additional: usize) -> (plan: Result<
    Option<usize>,
    VectorError,
>)
    ensures
        plan == reserve_target::<T>(len as nat, capacity as nat, additional as nat),
{
    if len <= capacity && additional <= capacity - len {
        return Ok(None);
    }
    proof {
        lemma_next_power_of_two_bounds((capacity + additional) as nat);
    }
    let wanted: usize = match capacity.checked_add(additional) {
        Some(wanted) => wanted,
        None => {
            return Err(VectorError::LayoutError);
        },
    };
    let target: usize = match checked_next_power_of_two(wanted) {
        Some(target) => target,
        None => {
            return Err(VectorError::LayoutError);
        },
    };
    match array_size::<T>(target) {
        Some(_) => Ok(Some(target)),
        None => Err(VectorError::LayoutError),
    }
}

/// A growable array of `T`.
///
/// Its view is the sequence of its elements. Its capacity is the number of
/// elements it has reserved room for.
pub struct Vector<T> {
    buffer: Vec<T>,
    capacity: usize,
}

impl<T> View for Vector<T> {
    type V = Seq<T>;

    closed spec fn view(&self) -> Seq<T> {
        self.buffer@
    }
}

impl<T> Vector<T> {
    /// The number of elements that room is reserved for.
    pub closed spec fn spec_capacity(&self) -> usize {
        self.capacity
    }

    /// The elements fit in the reserved room, and that room can be described.
    pub open spec fn wf(&self) -> bool {
        &&& self@.len() <= self.spec_capacity()
        &&& array_fits::<T>(self.spec_capacity() as nat)
    }

    /// An empty array that has reserved nothing.
    pub fn new() -> (v: Self)
        ensures
            v.wf(),
            v@ == Seq::<T>::empty(),
            v.spec_capacity() == 0,
    {
        proof {
            lemma_nothing_fits::<T>();
        }
        Vector { buffer: Vec::new(), capacity: 0 }
    }

    /// An empty array with room for exactly `capacity` elements.
    ///
    /// Fails with `LayoutError` where that room cannot be described. Where it
    /// takes no bytes nothing is asked of the allocator and the call
    /// succeeds; else the allocator decides, and its refusal is `AllocError`.
    pub fn with_capacity(capacity: usize) -> (made: Result<Self, VectorError>)
        ensures
            match made {
                Ok(v) => {
                    &&& array_fits::<T>(capacity as nat)
                    &&& v.wf()
                    &&& v@ == Seq::<T>::empty()
                    &&& v.spec_capacity() == capacity
                },
                Err(e) => if array_fits::<T>(capacity as nat) {
                    e == VectorError::AllocError && array_bytes::<T>(capacity as nat) > 0
                } else {
                    e == VectorError::LayoutError
                },
            },
    {
        let bytes: usize = match array_size::<T>(capacity) {
            Some(bytes) => bytes,
            None => {
                return Err(VectorError::LayoutError);
            },
        };
        let mut buffer: Vec<T> = Vec::new();
        let granted: bool = if bytes > 0 {
            try_reserve_exact(&mut buffer, capacity).is_ok()
        } else {
            true
        };
        if granted {
            Ok(Vector { buffer, capacity })
        } else {
            Err(VectorError::AllocError)
        }
    }

    /// Takes the capacity `target` where the allocator granted the room for
    /// it, and reports `AllocError` where it did not.
    fn regrown(&mut self, target: usize, granted: bool) -> (r: Result<(), VectorError>)
        ensures
            final(self)@ == old(self)@,
            granted ==> r is Ok && final(self).spec_capacity() == target,
            !granted ==> {
                &&& r == Err::<(), VectorError>(VectorError::AllocError)
                &&& final(self).spec_capacity() == old(self).spec_capacity()
            },
    {
        if granted {
            self.capacity = target;
            Ok(())
        } else {
            Err(VectorError::AllocError)
        }
    }

    /// Makes sure there is room for `additional` more elements.
    ///
    /// Where the room is there nothing happens. Else the capacity grows to
    /// [`reserve_target`]; `LayoutError` where that cannot be described. Where
    /// the new room takes no bytes nothing is asked of the allocator and the
    /// call succeeds; else the allocator decides, and its refusal is
    /// `AllocError`. On any error the array is as it was.
    pub fn reserve(&mut self, additional: usize) -> (r: Result<(), VectorError>)
        requires
            old(self).wf(),
        ensures
            final(self).wf(),
            final(self)@ == old(self)@,
            match reserve_target::<T>(
                old(self)@.len(),
                old(self).spec_capacity() as nat,
                additional as nat,
            ) {
                Ok(None) => r is Ok && final(self).spec_capacity() == old(self).spec_capacity(),
                Ok(Some(target)) => match r {
                    Ok(_) => final(self).spec_capacity() == target,
                    Err(e) => {
                        &&& e == VectorError::AllocError
                        &&& array_bytes::<T>(target as nat) > 0
                        &&& final(self).spec_capacity() == old(self).spec_capacity()
                    },
                },
                Err(e) => {
                    &&& r == Err::<(), VectorError>(e)
                    &&& final(self).spec_capacity() == old(self).spec_capacity()
                },
            },
    {
        let len: usize = self.buffer.len();
        let target: usize = match plan_reserve::<T>(len, self.capacity, additional) {
            Ok(None) => {
                return Ok(());
            },
            Ok(Some(target)) => target,
            Err(e) => {
                return Err(e);
            },
        };
        proof {
            lemma_next_power_of_two_bounds((self.capacity + additional) as nat);
            assert(array_bytes::<T>(target as nat) > 0 <==> vstd::layout::size_of::<T>() > 0)
                by (nonlinear_arith)
                requires
                    target >= 1,
            ;
        }
        let granted: bool = if core::mem::size_of::<T>() == 0 {
            true
        } else {
            try_reserve_exact(&mut self.buffer, target - len).is_ok()
        };
        self.regrown(target, granted)
    }

    /// Gives back the room that holds no element: the capacity becomes the
    /// length. Room that takes no bytes is given up without a word to the
    /// allocator.
    pub fn shrink(&mut self) -> (r: Result<(), VectorError>)
        requires
            old(self).wf(),
        ensures
            final(self).wf(),
            final(self)@ == old(self)@,
            final(self).spec_capacity() == old(self)@.len(),
            r is Ok,
    {
        let len: usize = self.buffer.len();
        if len < self.capacity {
            proof {
                lemma_fits_fewer::<T>(len as nat, self.capacity as nat);
            }
            if core::mem::size_of::<T>() != 0 {
                shrink_to_fit(&mut self.buffer);
            }
            self.capacity = len;
        }
        Ok(())
    }

    /// Appends `value`, growing the room where there is none left, as
    /// [`Vector::reserve`] does for one more element. Where no room can be
    /// made the array is as it was and `value` comes back with the reason.
    pub fn push(&mut self, value: T) -> (r: Result<(), PushError<T>>)
        requires
            old(self).wf(),
        ensures
            final(self).wf(),
            match reserve_target::<T>(old(self)@.len(), old(self).spec_capacity() as nat, 1) {
                Ok(None) => {
                    &&& r is Ok
                    &&& final(self)@ == old(self)@.push(value)
                    &&& final(self).spec_capacity() == old(self).spec_capacity()
                },
                Ok(Some(target)) => match r {
                    Ok(_) => {
                        &&& final(self)@ == old(self)@.push(value)
                        &&& final(self).spec_capacity() == target
                    },
                    Err(e) => {
                        &&& e.value == value
                        &&& e.error == VectorError::AllocError
                        &&& array_bytes::<T>(target as nat) > 0
                        &&& final(self)@ == old(self)@
                        &&& final(self).spec_capacity() == old(self).spec_capacity()
                    },
                },
                Err(error) => {
                    &&& r == Err::<(), PushError<T>>(PushError { value, error })
                    &&& final(self)@ == old(self)@
                    &&& final(self).spec_capacity() == old(self).spec_capacity()
                },
            },
    {
        match self.reserve(1) {
            Ok(_) => {
                proof {
                    lemma_next_power_of_two_bounds((self.capacity + 1) as nat);
                }
                self.buffer.push(value);
                Ok(())
            },
            Err(error) => Err(PushError { value, error }),
        }
    }

    /// Takes the last element off, if there is one.
    pub fn pop(&mut self) -> (last: Option<T>)
        requires
            old(self).wf(),
        ensures
            final(self).wf(),
            final(self).spec_capacity() == old(self).spec_capacity(),
            old(self)@.len() == 0 ==> last is None && final(self)@ == old(self)@,
            old(self)@.len() > 0 ==> {
                &&& last == Some(old(self)@.last())
                &&& final(self)@ == old(self)@.drop_last()
            },
    {
        self.buffer.pop()
    }

    /// The element at `index`, or `None` where there is none.
    pub fn get(&self, index: usize) -> (element: Option<&T>)
        ensures
            element == (if index < self@.len() {
                Some(&self@[index as int])
            } else {
                None
            }),
    {
        if index >= self.buffer.len() {
            None
        } else {
            Some(&self.buffer[index])
        }
    }

    /// The element at `index`, to be changed in place, or `None` where there
    /// is none.
    pub fn get_mut(&mut self, index: usize) -> (element: Option<&mut T>)
        ensures
            final(self).spec_capacity() == old(self).spec_capacity(),
            match element {
                Some(e) => {
                    &&& index < old(self)@.len()
                    &&& *e == old(self)@[index as int]
                    &&& final(self)@ == old(self)@.update(index as int, *final(e))
                },
                None => index >= old(self)@.len() && final(self)@ == old(self)@,
            },
    {
        if index >= self.buffer.len() {
            None
        } else {
            Some(&mut self.buffer[index])
        }
    }

    /// The number of elements.
    pub fn len(&self) -> (n: usize)
        ensures
            n == self@.len(),
    {
        self.buffer.len()
    }

    /// The number of elements that room is reserved for.
    pub fn capacity(&self) -> (n: usize)
        ensures
            n == self.spec_capacity(),
    {
        self.capacity
    }

    /// The elements as a slice.
    pub fn as_slice(&self) -> (elements: &[T])
        ensures
            elements@ == self@,
    {
        self.buffer.as_slice()
    }

    /// The elements as a slice, to be changed in place.
    pub fn as_slice_mut(&mut self) -> (elements: &mut [T])
        ensures
            elements@ == old(self)@,
            final(self)@ == final(elements)@,
            final(self).spec_capacity() == old(self).spec_capacity(),
    {
        self.buffer.as_mut_slice()
    }

    /// The element at `index`, which must be there.
    pub fn index(&self, index: usize) -> (element: &T)
        requires
            index < self@.len(),
        ensures
            *element == self@[index as int],
    {
        &self.buffer[index]
    }

    /// The element at `index`, which must be there, to be changed in place.
    pub fn index_mut(&mut self, index: usize) -> (element: &mut T)
        requires
            index < old(self)@.len(),
        ensures
            *element == old(self)@[index as int],
            final(self)@ == old(self)@.update(index as int, *final(element)),
            final(self).spec_capacity() == old(self).spec_capacity(),
    {
        &mut self.buffer[index]
    }

    /// The elements from `range.start` up to `range.end`, which must all be
    /// there.
    pub fn index_range(&self, range: Range<usize>) -> (part: &[T])
        requires
            range.start <= range.end <= self@.len(),
        ensures
            part@ == self@.subrange(range.start as int, range.end as int),
    {
        let (front, _) = self.buffer.as_slice().split_at(range.end);
        let (_, part) = front.split_at(range.start);
        proof {
            assert(part@ =~= self@.subrange(range.start as int, range.end as int));
        }
        part
    }

    /// The elements from `range.start` up to `range.end`, which must all be
    /// there, to be changed in place. The elements outside stay as they are.
    pub fn index_range_mut(&mut self, range: Range<usize>) -> (part: &mut [T])
        requires
            range.start <= range.end <= old(self)@.len(),
        ensures
            part@ == old(self)@.subrange(range.start as int, range.end as int),
            final(self)@ == with_window(
                old(self)@,
                range.start as int,
                range.end as int,
                final(part)@,
            ),
            final(self).spec_capacity() == old(self).spec_capacity(),
    {
        let ghost before = self.buffer@;
        let (front, _) = self.buffer.as_mut_slice().split_at_mut(range.end);
        let (_, part) = front.split_at_mut(range.start);
        proof {
            assert(part@ =~= before.subrange(range.start as int, range.end as int));
        }
        part
    }

    /// Puts the elements in reverse order.
    pub fn reverse(&mut self)
        ensures
            final(self)@ == old(self)@.reverse(),
            final(self).spec_capacity() == old(self).spec_capacity(),
    {
        proof {
            lemma_reversed_within_all(self@);
        }
        let raw = RawVecPtrRange::from_vector(&*self);
        raw.reverse(self.buffer.as_mut_slice());
    }

    /// Exchanges the elements at `i` and `j`, which must both be there.
    pub fn swap(&mut self, i: usize, j: usize)
        requires
            i < old(self)@.len(),
            j < old(self)@.len(),
        ensures
            final(self)@ == swapped(old(self)@, i as int, j as int),
            final(self).spec_capacity() == old(self).spec_capacity(),
    {
        let raw = RawVecPtrRange::from_vector(&*self);
        raw.swap(self.buffer.as_mut_slice(), i, j);
    }

    /// Sorts the elements by `f`, which may be called on every two of them.
    ///
    /// The elements are rearranged, whatever `f` answers. Where `f` compares
    /// by a strict order they end up sorted by it. Elements that `f` does not
    /// tell apart may change their order.
    pub fn sort_by<F: Fn(&T, &T) -> Ordering + Copy>(&mut self, f: F)
        requires
            comparable(old(self)@, f),
        ensures
            final(self)@.to_multiset() == old(self)@.to_multiset(),
            final(self)@.len() == old(self)@.len(),
            final(self).spec_capacity() == old(self).spec_capacity(),
            forall|less: spec_fn(T, T) -> bool| #[trigger]
                compares_by(f, less) && strict_order(less) ==> ascending(final(self)@, less),
    {
        let ghost before = self@;
        let raw = RawVecPtrRange::from_vector(&*self);
        proof {
            assert(raw.window(before) =~= before);
        }
        raw.quick_sort_by(self.buffer.as_mut_slice(), f);
        proof {
            assert(raw.window(self@) =~= self@);
        }
    }

    /// Sorts the elements by the keys that `f` takes of them, in the order
    /// that the keys have of themselves. `f` may be called on every element.
    ///
    /// The elements are rearranged, whatever `f` returns. Where `f` takes a
    /// key of every element and comparing keys obeys the laws of an order,
    /// they end up sorted by their keys. Elements with keys that compare
    /// equal may change their order.
    pub fn sort_by_key<U: Ord, F: Fn(&T) -> &U>(&mut self, f: F)
        requires
            forall|i: int| 0 <= i < old(self)@.len() ==> call_requires(f, (&old(self)@[i],)),
        ensures
            final(self)@.to_multiset() == old(self)@.to_multiset(),
            final(self)@.len() == old(self)@.len(),
            final(self).spec_capacity() == old(self).spec_capacity(),
            forall|key: spec_fn(T) -> U| #[trigger]
                keyed_by(f, key) && obeys_cmp::<U>() ==> ascending(final(self)@, key_less(key)),
    {
        let key_of = &f;
        let by_key = |t1: &T, t2: &T| -> (answer: Ordering)
            requires
                call_requires(key_of, (t1,)),
                call_requires(key_of, (t2,)),
            ensures
                exists|k1: &U, k2: &U|
                    {
                        &&& call_ensures(key_of, (t1,), k1)
                        &&& call_ensures(key_of, (t2,), k2)
                        &&& U::obeys_cmp_spec() ==> answer == k1.cmp_spec(k2)
                    },
            {
                let k1 = key_of(t1);
                let k2 = key_of(t2);
                let answer = k1.cmp(k2);
                assert({
                    &&& call_ensures(key_of, (t1,), k1)
                    &&& call_ensures(key_of, (t2,), k2)
                    &&& U::obeys_cmp_spec() ==> answer == k1.cmp_spec(k2)
                });
                answer
            };
        self.sort_by(by_key);
        proof {
            assert forall|key: spec_fn(T) -> U| #[trigger]
                keyed_by(f, key) && obeys_cmp::<U>() implies ascending(self@, key_less(key)) by {
                lemma_key_less_strict::<T, U>(key);
                assert(compares_by(by_key, key_less(key)));
            }
        }
    }
}

impl<T: Ord> Vector<T> {
    /// Sorts the elements in the order that `T` has of itself.
    ///
    /// The elements are rearranged. Where comparing values of `T` obeys the
    /// laws of an order they end up sorted by it. Elements that compare equal
    /// may change their order.
    pub fn sort(&mut self)
        ensures
            final(self)@.to_multiset() == old(self)@.to_multiset(),
            final(self)@.len() == old(self)@.len(),
            final(self).spec_capacity() == old(self).spec_capacity(),
            obeys_cmp::<T>() ==> ascending(final(self)@, natural_less::<T>()),
    {
        let natural = |a: &T, b: &T| -> (answer: Ordering)
            ensures
                T::obeys_cmp_spec() ==> answer == a.cmp_spec(b),
            { a.cmp(b) };
        self.sort_by(natural);
        proof {
            if obeys_cmp::<T>() {
                lemma_natural_less_strict::<T>();
                assert(compares_by(natural, natural_less::<T>()));
            }
        }
    }
}

impl<T: Clone> Clone for Vector<T> {
    /// A new array with room for exactly the elements of this one, holding a
    /// clone of each, in their order.
    fn clone(&self) -> (copy: Self)
        ensures
            copy@.len() == self@.len(),
            forall|i: int| 0 <= i < self@.len() ==> cloned::<T>(self@[i], #[trigger] copy@[i]),
            copy.spec_capacity() == self@.len(),
            self.wf() ==> copy.wf(),
    {
        let len: usize = self.buffer.len();
        let mut buffer: Vec<T> = Vec::with_capacity(len);
        let mut i: usize = 0;
        while i < len
            invariant
                len == self.buffer@.len(),
                i <= len,
                buffer@.len() == i,
                forall|k: int| 0 <= k < i ==> cloned::<T>(self.buffer@[k], #[trigger] buffer@[k]),
            decreases len - i,
        {
            buffer.push(self.buffer[i].clone());
            i = i + 1;
        }
        proof {
            if self.wf() {
                lemma_fits_fewer::<T>(len as nat, self.capacity as nat);
            }
        }
        Vector { buffer, capacity: len }
    }
}

} // verus!
