use array_vec_deque::Array;
use array_vec_deque::ArrayVecDeque;
use array_vec_deque::FixedBlock;
use array_vec_deque::Index;
use array_vec_deque::count;
use array_vec_deque::wrap_index;

#[test]
fn new_push_pop_index() {
    let mut v = ArrayVecDeque::<FixedBlock<usize>>::new(10);
    v.push_back(1);
    assert_eq!(v.pop_back().unwrap(), 1);
    v.push_front(2);
    assert_eq!(v.pop_front().unwrap(), 2);
    v.push_back(1);
    v.push_back(2);
    assert_eq!(*v.index(0), 1);
    assert_eq!(*v.index(1), 2);
}

#[test]
fn wrap_around() {
    let mut v = ArrayVecDeque::<FixedBlock<usize>>::new(3);
    assert_eq!(v.len(), 0);
    v.push_back(1);
    assert_eq!(v.len(), 1);
    v.push_back(2);
    assert_eq!(v.len(), 2);
    assert_eq!(v.pop_front().unwrap(), 1);
    assert_eq!(v.len(), 1);
    v.push_back(3);
    assert_eq!(v.len(), 2);
    assert_eq!(v.pop_front().unwrap(), 2);
    assert_eq!(v.len(), 1);
    assert_eq!(v.pop_front().unwrap(), 3);
    assert_eq!(v.len(), 0);
}

#[test]
fn push_back_pop_back_round_trip() {
    let mut v = ArrayVecDeque::<FixedBlock<u32>>::new(4);
    v.push_back(7);
    v.push_back(8);
    let before = v.len();
    v.push_back(9);
    assert_eq!(v.pop_back(), Some(9));
    assert_eq!(v.len(), before);
    assert_eq!(*v.index(0), 7);
    assert_eq!(*v.index(1), 8);
}

#[test]
fn len_matches_plain_list_simulation() {
    let mut v = ArrayVecDeque::<FixedBlock<i64>>::new(5);
    let mut model: Vec<i64> = Vec::new();
    let mut pushes: usize = 0;
    let mut pops: usize = 0;

    let steps: [(u8, i64); 12] = [
        (0, 10),
        (1, 11),
        (0, 12),
        (2, 0),
        (1, 13),
        (3, 0),
        (0, 14),
        (2, 0),
        (2, 0),
        (3, 0),
        (3, 0),
        (3, 0),
    ];
    for &(kind, x) in steps.iter() {
        match kind {
            0 => {
                assert!(v.try_push_back(x).is_ok());
                model.push(x);
                pushes += 1;
            }
            1 => {
                assert!(v.try_push_front(x).is_ok());
                model.insert(0, x);
                pushes += 1;
            }
            2 => {
                let got = v.pop_back();
                let want = model.pop();
                assert_eq!(got, want);
                if got.is_some() {
                    pops += 1;
                }
            }
            _ => {
                let got = v.pop_front();
                let want = if model.is_empty() { None } else { Some(model.remove(0)) };
                assert_eq!(got, want);
                if got.is_some() {
                    pops += 1;
                }
            }
        }
        assert_eq!(v.len(), model.len());
        assert_eq!(v.len(), pushes - pops);
        for i in 0..model.len() {
            assert_eq!(v.get(i), Some(&model[i]));
        }
    }
}

#[test]
fn full_buffer_rejects_push_and_returns_value() {
    let mut v = ArrayVecDeque::<FixedBlock<String>>::new(3);
    assert!(v.try_push_back(String::from("a")).is_ok());
    assert!(v.try_push_back(String::from("b")).is_ok());
    match v.try_push_back(String::from("rejected")) {
        Ok(()) => panic!("push into a full buffer must fail"),
        Err(e) => assert_eq!(e.element, "rejected"),
    }
    match v.try_push_front(String::from("also rejected")) {
        Ok(()) => panic!("push into a full buffer must fail"),
        Err(e) => assert_eq!(e.element, "also rejected"),
    }
    assert_eq!(v.len(), 2);
    assert_eq!(v.get(0).map(String::as_str), Some("a"));
    assert_eq!(v.get(1).map(String::as_str), Some("b"));
}

#[test]
fn zero_capacity_buffer_rejects_every_push() {
    let mut v = ArrayVecDeque::<FixedBlock<u8>>::new(1);
    assert_eq!(v.capacity(), 0);
    assert!(v.is_empty());
    match v.try_push_back(42) {
        Ok(()) => panic!("a buffer with no usable slot must reject a push"),
        Err(e) => assert_eq!(e.element, 42),
    }
    assert_eq!(v.pop_front(), None);
    assert_eq!(v.pop_back(), None);
}

#[test]
fn get_out_of_range_is_none() {
    let mut v = ArrayVecDeque::<FixedBlock<u16>>::new(4);
    assert_eq!(v.get(0), None);
    v.push_back(5);
    v.push_back(6);
    assert_eq!(v.get(1), Some(&6));
    assert_eq!(v.get(2), None);
    assert_eq!(v.get(usize::MAX), None);
}

#[test]
fn get_mut_writes_through() {
    let mut v = ArrayVecDeque::<FixedBlock<u32>>::new(4);
    v.push_back(1);
    v.push_back(2);
    v.push_back(3);
    *v.get_mut(1) = 20;
    *v.index_mut(2) = 30;
    assert_eq!(v.get(0), Some(&1));
    assert_eq!(v.get(1), Some(&20));
    assert_eq!(v.get(2), Some(&30));
}

#[test]
fn clear_empties_and_is_idempotent() {
    let mut v = ArrayVecDeque::<FixedBlock<i32>>::new(3);
    v.push_back(1);
    v.push_back(2);
    assert!(!v.is_empty());
    v.clear();
    assert_eq!(v.len(), 0);
    v.clear();
    assert_eq!(v.len(), 0);
    assert!(v.is_empty());
    v.push_back(9);
    assert_eq!(v.pop_front(), Some(9));
}

#[test]
fn capacity_is_constant_over_lifetime() {
    let mut v = ArrayVecDeque::<FixedBlock<u64>>::new(4);
    assert_eq!(v.capacity(), 3);
    v.push_back(1);
    assert_eq!(v.capacity(), 3);
    v.push_front(2);
    assert_eq!(v.capacity(), 3);
    v.push_back(3);
    assert_eq!(v.capacity(), 3);
    let _ = v.try_push_back(4);
    assert_eq!(v.capacity(), 3);
    v.pop_back();
    v.pop_front();
    assert_eq!(v.capacity(), 3);
    v.clear();
    assert_eq!(v.capacity(), 3);
}

#[test]
fn push_front_orders_elements_newest_first() {
    let mut v = ArrayVecDeque::<FixedBlock<char>>::new(4);
    v.push_front('c');
    v.push_front('b');
    v.push_front('a');
    assert_eq!(*v.index(0), 'a');
    assert_eq!(*v.index(1), 'b');
    assert_eq!(*v.index(2), 'c');
    assert_eq!(v.pop_back(), Some('c'));
    assert_eq!(v.pop_front(), Some('a'));
}

#[test]
fn count_formula_exact_values() {
    assert_eq!(count(0, 0, 3), 0);
    assert_eq!(count(0, 2, 3), 2);
    assert_eq!(count(2, 1, 3), 2);
    assert_eq!(count(2, 0, 3), 1);
    assert_eq!(count(5, 5, 8), 0);
    assert_eq!(count(6, 2, 8), 4);
}

#[test]
fn wrap_index_is_remainder() {
    assert_eq!(wrap_index(0, 3), 0);
    assert_eq!(wrap_index(2, 3), 2);
    assert_eq!(wrap_index(3, 3), 0);
    assert_eq!(wrap_index(7, 3), 1);
    assert_eq!(wrap_index(10, 1), 0);
}

#[test]
fn index_types_round_trip_through_usize() {
    assert_eq!(<u8 as Index>::from(200).to_usize(), 200);
    assert_eq!(<u16 as Index>::from(40_000).to_usize(), 40_000);
    assert_eq!(<u32 as Index>::from(70_000).to_usize(), 70_000);
    assert_eq!(<usize as Index>::from(123).to_usize(), 123);
}

#[test]
fn fixed_block_starts_empty_with_requested_size() {
    let b = FixedBlock::<u8>::with_size(5);
    assert_eq!(b.capacity(), 5);
    for i in 0..5 {
        assert!(b.slot(i).is_none());
    }
}
