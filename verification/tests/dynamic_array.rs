use containers::dynamic_array::DynamicArray;
use containers::BoundsError;

fn collect(mut it: containers::dynamic_array::IntoIter<i32>) -> Vec<i32> {
    let mut out = Vec::new();
    while let Some(v) = it.next() {
        out.push(v);
    }
    out
}

#[test]
fn push_count_and_forward_order() {
    let mut arr = DynamicArray::new();
    let values = [3, 1, 4, 1, 5, 9, 2, 6];
    for v in values {
        arr.push(v);
    }
    assert_eq!(arr.len(), values.len());
    let yielded = collect(arr.into_iter());
    assert_eq!(yielded, values.to_vec());
}

#[test]
fn pop_yields_reverse_order_then_empty_signal() {
    let mut arr = DynamicArray::new();
    for v in [10, 20, 30] {
        arr.push(v);
    }
    assert_eq!(arr.pop(), Some(30));
    assert_eq!(arr.pop(), Some(20));
    assert_eq!(arr.pop(), Some(10));
    assert_eq!(arr.pop(), None);
    assert_eq!(arr.pop(), None);
    assert_eq!(arr.len(), 0);
}

#[test]
fn insert_splices_at_every_position() {
    let mut arr = DynamicArray::new();
    for v in [1, 2, 3] {
        arr.push(v);
    }
    assert_eq!(arr.insert(0, 9), Ok(()));
    assert_eq!(arr.insert(2, 8), Ok(()));
    assert_eq!(arr.insert(5, 7), Ok(()));
    assert_eq!(arr.len(), 6);
    let yielded = collect(arr.into_iter());
    assert_eq!(yielded, vec![9, 1, 8, 2, 3, 7]);
}

#[test]
fn remove_returns_value_and_preserves_order() {
    let mut arr = DynamicArray::new();
    for v in [1, 2, 3, 4] {
        arr.push(v);
    }
    assert_eq!(arr.remove(1), Ok(2));
    assert_eq!(arr.len(), 3);
    assert_eq!(*arr.get(0), 1);
    assert_eq!(*arr.get(1), 3);
    assert_eq!(*arr.get(2), 4);
    assert_eq!(arr.remove(2), Ok(4));
    assert_eq!(arr.remove(0), Ok(1));
    assert_eq!(arr.remove(0), Ok(3));
    assert_eq!(arr.len(), 0);
}

#[test]
fn bounds_violations_fail_deterministically() {
    let mut arr = DynamicArray::new();
    arr.push(5);
    arr.push(6);
    assert_eq!(arr.insert(3, 7), Err(BoundsError));
    assert_eq!(arr.remove(2), Err(BoundsError));
    assert_eq!(arr.remove(usize::MAX), Err(BoundsError));
    assert_eq!(arr.len(), 2);
    assert_eq!(*arr.get(0), 5);
    assert_eq!(*arr.get(1), 6);
    let mut empty: DynamicArray<i32> = DynamicArray::new();
    assert_eq!(empty.insert(1, 1), Err(BoundsError));
    assert_eq!(empty.remove(0), Err(BoundsError));
}

#[test]
fn drain_yields_all_and_leaves_empty_array() {
    let mut arr = DynamicArray::new();
    for v in [7, 8, 9] {
        arr.push(v);
    }
    let cap_before = arr.capacity();
    let mut drain = arr.drain();
    assert_eq!(arr.len(), 0);
    assert_eq!(arr.capacity(), cap_before);
    assert_eq!(drain.next(), Some(7));
    assert_eq!(drain.next(), Some(8));
    assert_eq!(drain.next(), Some(9));
    assert_eq!(drain.next(), None);
    arr.push(1);
    assert_eq!(arr.len(), 1);
    assert_eq!(*arr.get(0), 1);
}

#[test]
fn drain_discarded_early_still_empties_the_array() {
    let mut arr = DynamicArray::new();
    for v in [1, 2, 3, 4] {
        arr.push(v);
    }
    {
        let mut drain = arr.drain();
        assert_eq!(drain.next(), Some(1));
    }
    assert_eq!(arr.len(), 0);
    assert_eq!(arr.pop(), None);
    arr.push(42);
    assert_eq!(arr.pop(), Some(42));
}

#[test]
fn drain_consumed_from_the_back() {
    let mut arr = DynamicArray::new();
    for v in [1, 2, 3] {
        arr.push(v);
    }
    let mut drain = arr.drain();
    assert_eq!(drain.next_back(), Some(3));
    assert_eq!(drain.next(), Some(1));
    assert_eq!(drain.next_back(), Some(2));
    assert_eq!(drain.next(), None);
    assert_eq!(drain.next_back(), None);
}

#[test]
fn owned_iterator_round_trip() {
    let mut arr = DynamicArray::new();
    let values: Vec<i32> = (0..25).collect();
    for &v in &values {
        arr.push(v);
    }
    let yielded = collect(arr.into_iter());
    assert_eq!(yielded, values);
}

#[test]
fn owned_iterator_from_both_ends_yields_each_slot_once() {
    let mut arr = DynamicArray::new();
    for v in [1, 2, 3, 4, 5] {
        arr.push(v);
    }
    let mut it = arr.into_iter();
    assert_eq!(it.next(), Some(1));
    assert_eq!(it.next_back(), Some(5));
    assert_eq!(it.next(), Some(2));
    assert_eq!(it.next_back(), Some(4));
    assert_eq!(it.next(), Some(3));
    assert_eq!(it.next(), None);
    assert_eq!(it.next_back(), None);
}

#[test]
fn growth_preserves_previously_pushed_values() {
    let mut arr = DynamicArray::new();
    assert_eq!(arr.capacity(), 0);
    let mut expected = Vec::new();
    for v in 0..20 {
        let before: Vec<i32> = (0..expected.len()).map(|i| *arr.get(i)).collect();
        assert_eq!(before, expected);
        arr.push(v);
        expected.push(v);
        let after: Vec<i32> = (0..expected.len()).map(|i| *arr.get(i)).collect();
        assert_eq!(after, expected);
        assert!(arr.capacity() >= arr.len());
    }
    assert_eq!(arr.capacity(), 32);
}

#[test]
fn capacity_doubles_from_one() {
    let mut arr = DynamicArray::new();
    arr.push(1);
    assert_eq!(arr.capacity(), 1);
    arr.push(2);
    assert_eq!(arr.capacity(), 2);
    arr.push(3);
    assert_eq!(arr.capacity(), 4);
    arr.push(4);
    arr.push(5);
    assert_eq!(arr.capacity(), 8);
}

#[test]
fn set_overwrites_in_place() {
    let mut arr = DynamicArray::new();
    for v in [1, 2, 3] {
        arr.push(v);
    }
    arr.set(1, 99);
    assert_eq!(*arr.get(0), 1);
    assert_eq!(*arr.get(1), 99);
    assert_eq!(*arr.get(2), 3);
    assert_eq!(arr.len(), 3);
}

#[test]
fn array_works_with_heap_owning_elements() {
    let mut arr = DynamicArray::new();
    arr.push(String::from("a"));
    arr.push(String::from("b"));
    arr.push(String::from("c"));
    assert_eq!(arr.remove(1), Ok(String::from("b")));
    assert_eq!(arr.pop(), Some(String::from("c")));
    assert_eq!(arr.pop(), Some(String::from("a")));
    assert_eq!(arr.pop(), None);
}
