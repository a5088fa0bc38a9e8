use dynarray::layout::array_size;
use dynarray::layout::checked_next_power_of_two;
use dynarray::vector::plan_reserve;
use dynarray::vector::Vector;
use dynarray::vector::VectorError;
use dynarray::raw_range::RawVecPtrRange;
use dynarray::vector_iter::VecMutIter;
use dynarray::vector_iter::VecRefIter;
use dynarray::vector_iter::VectorIter;

fn filled(values: &[i32]) -> Vector<i32> {
    let mut vec = Vector::new();
    for value in values {
        vec.push(*value).unwrap();
    }
    vec
}

#[test]
fn test_vector_push() {
    let mut vec = Vector::new();
    for i in 0..10 {
        vec.push(i).unwrap();
    }
    assert_eq!(vec.len(), 10);
    *vec.get_mut(2).unwrap() = 42;
    assert_eq!(vec.get(2).unwrap(), &42);
}

#[test]
fn test_vector_iter() {
    let mut vec = Vector::new();
    for i in 0..10 {
        vec.push(i).unwrap();
    }
    let mut it = vec.iter();
    let mut at = 0;
    while let Some(i) = it.next() {
        println!("{}", *i);
        assert_eq!(*i, at);
        at += 1;
    }
    assert_eq!(at, 10);
    let mut it = vec.iter_mut();
    while let Some(i) = it.next() {
        *i = &*i + 2;
    }
    let mut it = vec.iter();
    let mut at = 0;
    while let Some(i) = it.next() {
        println!("{}", *i);
        assert_eq!(*i, at + 2);
        at += 1;
    }
    assert_eq!(at, 10);
}

#[test]
fn test_vector_reverse() {
    let mut vec = Vector::new();
    for i in 0..10 {
        vec.push(i).unwrap();
    }
    vec.reverse();
    assert_eq!(vec.as_slice(), &[9, 8, 7, 6, 5, 4, 3, 2, 1, 0]);
    let mut it = vec.into_iter();
    while let Some(i) = it.next() {
        println!("{}", i);
    }
    let mut vec = Vector::new();
    for i in 0..9 {
        vec.push(i).unwrap();
    }
    vec.reverse();
    assert_eq!(vec.as_slice(), &[8, 7, 6, 5, 4, 3, 2, 1, 0]);
    let mut it = vec.into_iter();
    while let Some(i) = it.next() {
        println!("{}", i);
    }
}

#[test]
fn test_vector_sort() {
    let mut vec = filled(&[3, 5, 8, 1, 2, 7, 4, 6]);
    vec.sort();
    assert_eq!(vec.as_slice(), &[1, 2, 3, 4, 5, 6, 7, 8]);
    let mut it = vec.into_iter();
    while let Some(i) = it.next() {
        println!("{}", i);
    }
}

#[test]
fn pops_come_in_reverse_order_of_pushes() {
    let mut vec = Vector::new();
    for value in [4, 9, 2, 7, 7, 1] {
        vec.push(value).unwrap();
    }
    for expected in [1, 7, 7, 2, 9, 4] {
        assert_eq!(vec.pop(), Some(expected));
    }
    assert_eq!(vec.pop(), None);
    assert_eq!(vec.len(), 0);
}

#[test]
fn pushed_values_are_found_in_their_order() {
    let mut vec = Vector::new();
    for i in 0..100usize {
        vec.push(i * 3).unwrap();
        assert_eq!(vec.len(), i + 1);
        assert!(vec.capacity() >= vec.len());
    }
    for i in 0..100usize {
        assert_eq!(vec.get(i), Some(&(i * 3)));
    }
    assert_eq!(vec.get(100), None);
}

#[test]
fn capacity_grows_by_powers_of_two() {
    let mut vec = Vector::new();
    assert_eq!(vec.capacity(), 0);
    let mut seen = Vec::new();
    for i in 0..9 {
        vec.push(i).unwrap();
        seen.push(vec.capacity());
    }
    assert_eq!(seen, vec![1, 2, 4, 4, 8, 8, 8, 8, 16]);
}

#[test]
fn push_after_with_capacity_zero_takes_room_for_one() {
    let mut vec = Vector::with_capacity(0).unwrap();
    assert_eq!(vec.capacity(), 0);
    vec.push(1).unwrap();
    assert_eq!(vec.capacity(), 1);
    assert_eq!(vec.get(0), Some(&1));
}

#[test]
fn with_capacity_takes_exactly_what_is_asked() {
    let mut vec = Vector::with_capacity(5).unwrap();
    assert_eq!(vec.capacity(), 5);
    assert_eq!(vec.len(), 0);
    for i in 0..5 {
        vec.push(i).unwrap();
        assert_eq!(vec.capacity(), 5);
    }
    vec.push(5).unwrap();
    assert_eq!(vec.capacity(), 8);
}

#[test]
fn reserve_grows_from_capacity_plus_additional() {
    let mut vec = filled(&[1, 2, 3]);
    assert_eq!(vec.capacity(), 4);
    vec.reserve(1).unwrap();
    assert_eq!(vec.capacity(), 4);
    vec.reserve(2).unwrap();
    assert_eq!(vec.capacity(), 8);
    vec.reserve(6).unwrap();
    assert_eq!(vec.capacity(), 16);
    assert_eq!(vec.as_slice(), &[1, 2, 3]);
    let mut empty = Vector::<u8>::new();
    empty.reserve(0).unwrap();
    assert_eq!(empty.capacity(), 0);
}

#[test]
fn shrink_leaves_room_for_the_elements_only() {
    let mut vec = filled(&[1, 2, 3, 4, 5]);
    assert_eq!(vec.capacity(), 8);
    assert_eq!(vec.shrink(), Ok(()));
    assert_eq!(vec.capacity(), 5);
    assert_eq!(vec.as_slice(), &[1, 2, 3, 4, 5]);
    assert_eq!(vec.shrink(), Ok(()));
    assert_eq!(vec.capacity(), 5);
    let mut empty = Vector::<i32>::with_capacity(7).unwrap();
    assert_eq!(empty.shrink(), Ok(()));
    assert_eq!(empty.capacity(), 0);
}

#[test]
fn with_capacity_reports_what_cannot_be_described() {
    let made = Vector::<u64>::with_capacity(usize::MAX);
    assert_eq!(made.err(), Some(VectorError::LayoutError));
    let made = Vector::<u64>::with_capacity(isize::MAX as usize / 8 + 1);
    assert_eq!(made.err(), Some(VectorError::LayoutError));
}

#[test]
fn with_capacity_reports_what_the_allocator_refuses() {
    let made = Vector::<u64>::with_capacity(isize::MAX as usize / 8 - 1);
    assert_eq!(made.err(), Some(VectorError::AllocError));
}

#[test]
fn reserve_reports_errors_and_leaves_the_array() {
    let mut vec = Vector::<[u64; 1 << 20]>::new();
    assert_eq!(vec.reserve(1 << 30), Err(VectorError::AllocError));
    assert_eq!(vec.capacity(), 0);
    assert_eq!(vec.len(), 0);
    assert_eq!(vec.reserve(usize::MAX), Err(VectorError::LayoutError));
    assert_eq!(vec.capacity(), 0);
    let mut small = filled(&[1, 2]);
    assert_eq!(small.reserve(usize::MAX), Err(VectorError::LayoutError));
    assert_eq!(small.capacity(), 2);
    assert_eq!(small.as_slice(), &[1, 2]);
}

#[test]
fn elements_without_size_need_no_room() {
    let mut vec = Vector::<()>::with_capacity(usize::MAX).unwrap();
    assert_eq!(vec.capacity(), usize::MAX);
    for _ in 0..1000 {
        vec.push(()).unwrap();
    }
    assert_eq!(vec.len(), 1000);
    assert_eq!(vec.capacity(), usize::MAX);
    for _ in 0..400 {
        assert_eq!(vec.pop(), Some(()));
    }
    assert_eq!(vec.len(), 600);
    let mut grown = Vector::<()>::new();
    for i in 0..1000 {
        grown.push(()).unwrap();
        assert_eq!(grown.len(), i + 1);
    }
    assert_eq!(grown.capacity(), 1024);
    let mut far = Vector::<()>::with_capacity((1 << (usize::BITS - 1)) + 1).unwrap();
    assert_eq!(far.reserve(usize::MAX), Err(VectorError::LayoutError));
}

#[test]
fn message_names_the_error() {
    assert_eq!(
        VectorError::LayoutError.message(),
        "Layout error: invalid parameters to Layout::from_size_align"
    );
    assert_eq!(
        VectorError::AllocError.message(),
        "Allocation error: memory allocation failed"
    );
}

#[test]
fn array_size_counts_bytes() {
    assert_eq!(array_size::<u64>(3), Some(24));
    assert_eq!(array_size::<u64>(0), Some(0));
    assert_eq!(array_size::<u8>(isize::MAX as usize), Some(isize::MAX as usize));
    assert_eq!(array_size::<u8>(isize::MAX as usize + 1), None);
    assert_eq!(array_size::<u64>(isize::MAX as usize / 8), Some(isize::MAX as usize - 7));
    assert_eq!(array_size::<u64>(isize::MAX as usize / 8 + 1), None);
    assert_eq!(array_size::<u64>(usize::MAX), None);
    assert_eq!(array_size::<()>(usize::MAX), Some(0));
}

#[test]
fn next_power_of_two_is_the_least_one() {
    assert_eq!(checked_next_power_of_two(0), Some(1));
    assert_eq!(checked_next_power_of_two(1), Some(1));
    assert_eq!(checked_next_power_of_two(2), Some(2));
    assert_eq!(checked_next_power_of_two(3), Some(4));
    assert_eq!(checked_next_power_of_two(4), Some(4));
    assert_eq!(checked_next_power_of_two(5), Some(8));
    assert_eq!(checked_next_power_of_two(1000), Some(1024));
    let top = 1usize << (usize::BITS - 1);
    assert_eq!(checked_next_power_of_two(top), Some(top));
    assert_eq!(checked_next_power_of_two(top + 1), None);
    assert_eq!(checked_next_power_of_two(usize::MAX), None);
    for n in 0..2000usize {
        assert_eq!(checked_next_power_of_two(n), Some(n.next_power_of_two()));
    }
}

#[test]
fn plan_reserve_decides_the_capacity() {
    assert_eq!(plan_reserve::<u64>(0, 0, 0), Ok(None));
    assert_eq!(plan_reserve::<u64>(0, 0, 1), Ok(Some(1)));
    assert_eq!(plan_reserve::<u64>(1, 1, 1), Ok(Some(2)));
    assert_eq!(plan_reserve::<u64>(2, 2, 1), Ok(Some(4)));
    assert_eq!(plan_reserve::<u64>(3, 4, 1), Ok(None));
    assert_eq!(plan_reserve::<u64>(4, 4, 5), Ok(Some(16)));
    assert_eq!(plan_reserve::<u64>(2, 10, 9), Ok(Some(32)));
    assert_eq!(plan_reserve::<u64>(2, 10, 8), Ok(None));
    assert_eq!(plan_reserve::<u64>(1, 1, usize::MAX), Err(VectorError::LayoutError));
    assert_eq!(plan_reserve::<u64>(0, 0, isize::MAX as usize / 8 + 1), Err(VectorError::LayoutError));
    assert_eq!(plan_reserve::<()>(0, usize::MAX, 1), Ok(None));
    assert_eq!(plan_reserve::<()>(5, 5, usize::MAX - 5), Err(VectorError::LayoutError));
}

#[test]
fn get_reports_absence_and_index_finds_what_is_there() {
    let mut vec = Vector::new();
    for i in 0..10 {
        vec.push(i).unwrap();
    }
    assert_eq!(vec.get(10), None);
    assert_eq!(vec.get(9), Some(&9));
    assert!(vec.get_mut(10).is_none());
    assert_eq!(*vec.index(4), 4);
    *vec.index_mut(4) = 40;
    assert_eq!(vec.get(4), Some(&40));
    assert_eq!(vec.index_range(2..10), &[2, 3, 40, 5, 6, 7, 8, 9]);
    assert_eq!(vec.index_range(10..10).len(), 0);
}

#[test]
fn a_slice_of_the_array_starts_where_it_was_cut() {
    let vec = filled(&[10, 11, 12, 13, 14, 15, 16]);
    let (a, b) = (2usize, 6usize);
    let part = vec.index_range(a..b);
    assert_eq!(part.len(), b - a);
    for k in 0..(b - a) {
        assert_eq!(Some(&part[k]), vec.get(a + k));
    }
}

#[test]
fn index_range_mut_changes_the_array_in_place() {
    let mut vec = filled(&[0, 1, 2, 3, 4, 5]);
    let part = vec.index_range_mut(1..4);
    assert_eq!(part, &[1, 2, 3]);
    part[0] = 10;
    part[2] = 30;
    assert_eq!(vec.as_slice(), &[0, 10, 2, 30, 4, 5]);
    let all = vec.as_slice_mut();
    all[5] = 50;
    assert_eq!(vec.as_slice(), &[0, 10, 2, 30, 4, 50]);
}

#[test]
fn reverse_twice_gives_the_array_back() {
    for len in 0..7 {
        let values: Vec<i32> = (0..len).collect();
        let mut vec = filled(&values);
        vec.reverse();
        let reversed: Vec<i32> = (0..len).rev().collect();
        assert_eq!(vec.as_slice(), &reversed[..]);
        vec.reverse();
        assert_eq!(vec.as_slice(), &values[..]);
    }
}

#[test]
fn reverse_puts_the_last_first() {
    let mut vec = Vector::new();
    for i in 0..10 {
        vec.push(i).unwrap();
    }
    vec.reverse();
    assert_eq!(vec.get(0), Some(&9));
    assert_eq!(vec.get(9), Some(&0));
}

#[test]
fn swap_twice_gives_the_array_back() {
    let mut vec = filled(&[5, 6, 7, 8]);
    vec.swap(0, 3);
    assert_eq!(vec.as_slice(), &[8, 6, 7, 5]);
    vec.swap(0, 3);
    assert_eq!(vec.as_slice(), &[5, 6, 7, 8]);
    vec.swap(2, 2);
    assert_eq!(vec.as_slice(), &[5, 6, 7, 8]);
    vec.swap(3, 1);
    assert_eq!(vec.as_slice(), &[5, 8, 7, 6]);
}

#[test]
fn sort_by_rearranges_into_order() {
    let mut vec = filled(&[3, -1, 3, 0, 12, -7, 3, 5, 0]);
    vec.sort_by(|a, b| a.cmp(b));
    assert_eq!(vec.as_slice(), &[-7, -1, 0, 0, 3, 3, 3, 5, 12]);
    vec.sort_by(|a, b| a.cmp(b));
    assert_eq!(vec.as_slice(), &[-7, -1, 0, 0, 3, 3, 3, 5, 12]);
    vec.sort_by(|a, b| b.cmp(a));
    assert_eq!(vec.as_slice(), &[12, 5, 3, 3, 3, 0, 0, -1, -7]);
}

#[test]
fn sort_by_keeps_the_elements_whatever_the_answers() {
    let mut vec = filled(&[4, 1, 3, 1, 2]);
    vec.sort_by(|_, _| std::cmp::Ordering::Less);
    let mut kept: Vec<i32> = vec.as_slice().to_vec();
    kept.sort();
    assert_eq!(kept, vec![1, 1, 2, 3, 4]);
    vec.sort_by(|_, _| std::cmp::Ordering::Greater);
    let mut kept: Vec<i32> = vec.as_slice().to_vec();
    kept.sort();
    assert_eq!(kept, vec![1, 1, 2, 3, 4]);
}

#[test]
fn sort_handles_what_is_sorted_and_what_is_equal() {
    let mut vec = filled(&[1, 2, 3, 4, 5, 6]);
    vec.sort();
    assert_eq!(vec.as_slice(), &[1, 2, 3, 4, 5, 6]);
    let mut vec = filled(&[6, 5, 4, 3, 2, 1]);
    vec.sort();
    assert_eq!(vec.as_slice(), &[1, 2, 3, 4, 5, 6]);
    let mut vec = filled(&[2, 2, 2, 2]);
    vec.sort();
    assert_eq!(vec.as_slice(), &[2, 2, 2, 2]);
    let mut vec = filled(&[]);
    vec.sort();
    assert_eq!(vec.len(), 0);
    let mut vec = filled(&[1]);
    vec.sort();
    assert_eq!(vec.as_slice(), &[1]);
}

#[test]
fn sort_by_key_orders_by_the_keys() {
    let mut vec = Vector::new();
    for pair in [(3, 'c'), (1, 'a'), (2, 'b'), (0, 'z')] {
        vec.push(pair).unwrap();
    }
    vec.sort_by_key(|pair: &(i32, char)| &pair.0);
    assert_eq!(vec.as_slice(), &[(0, 'z'), (1, 'a'), (2, 'b'), (3, 'c')]);
    vec.sort_by_key(|pair: &(i32, char)| &pair.1);
    assert_eq!(vec.as_slice(), &[(1, 'a'), (2, 'b'), (3, 'c'), (0, 'z')]);
}

#[test]
fn clone_holds_the_same_elements_in_room_for_just_them() {
    let vec = filled(&[1, 2, 3]);
    assert_eq!(vec.capacity(), 4);
    let mut copy = vec.clone();
    assert_eq!(copy.as_slice(), &[1, 2, 3]);
    assert_eq!(copy.capacity(), 3);
    copy.push(4).unwrap();
    assert_eq!(copy.as_slice(), &[1, 2, 3, 4]);
    assert_eq!(vec.as_slice(), &[1, 2, 3]);
}

#[test]
fn iterators_meet_in_the_middle() {
    let vec = filled(&[1, 2, 3, 4, 5]);
    let mut it = vec.iter();
    assert_eq!(it.len(), 5);
    assert_eq!(it.next(), Some(&1));
    assert_eq!(it.next_back(), Some(&5));
    assert_eq!(it.next(), Some(&2));
    assert_eq!(it.next_back(), Some(&4));
    assert_eq!(it.len(), 1);
    assert_eq!(it.next_back(), Some(&3));
    assert_eq!(it.len(), 0);
    assert_eq!(it.next(), None);
    assert_eq!(it.next_back(), None);
    assert_eq!(it.len(), 0);
    let mut it = vec.into_iter();
    assert_eq!(it.len(), 5);
    assert_eq!(it.next_back(), Some(5));
    assert_eq!(it.next(), Some(1));
    assert_eq!(it.next(), Some(2));
    assert_eq!(it.len(), 2);
    assert_eq!(it.next(), Some(3));
    assert_eq!(it.next(), Some(4));
    assert_eq!(it.next(), None);
    assert_eq!(it.next_back(), None);
    assert_eq!(it.len(), 0);
}

#[test]
fn iter_mut_writes_through_from_both_ends() {
    let mut vec = filled(&[1, 2, 3, 4]);
    let mut it = vec.iter_mut();
    assert_eq!(it.len(), 4);
    let first = it.next().unwrap();
    let last = it.next_back().unwrap();
    std::mem::swap(first, last);
    assert_eq!(it.len(), 2);
    *it.next().unwrap() += 10;
    *it.next_back().unwrap() += 20;
    assert!(it.next().is_none());
    assert!(it.next_back().is_none());
    assert_eq!(vec.as_slice(), &[4, 12, 23, 1]);
}

#[test]
fn vector_iterators_are_made_from_their_parts() {
    let mut vec = filled(&[1, 2, 3, 4]);
    let range = RawVecPtrRange::from_vector(&vec).range(1..3);
    let mut it = VecRefIter::from(vec.as_slice(), range);
    assert_eq!(it.len(), 2);
    assert_eq!(it.next(), Some(&2));
    assert_eq!(it.next(), Some(&3));
    assert_eq!(it.next(), None);
    let mut it = VecMutIter::from(vec.as_slice_mut());
    *it.next().unwrap() = 10;
    assert_eq!(it.len(), 3);
    let mut it = VectorIter::new(vec);
    assert_eq!(it.len(), 4);
    assert_eq!(it.next(), Some(10));
    assert_eq!(it.next_back(), Some(4));
}

#[test]
fn a_dropped_iterator_drops_what_it_has_left() {
    let counter = std::rc::Rc::new(());
    let mut vec = Vector::new();
    for _ in 0..5 {
        vec.push(counter.clone()).unwrap();
    }
    assert_eq!(std::rc::Rc::strong_count(&counter), 6);
    let mut it = vec.into_iter();
    let first = it.next();
    assert!(first.is_some());
    assert_eq!(std::rc::Rc::strong_count(&counter), 6);
    drop(it);
    assert_eq!(std::rc::Rc::strong_count(&counter), 2);
    drop(first);
    assert_eq!(std::rc::Rc::strong_count(&counter), 1);
}
