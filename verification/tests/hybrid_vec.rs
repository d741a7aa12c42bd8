use hybrid_collections::hybrid::LocalStorageVec;

#[test]
fn it_constructs() {
    let vec: LocalStorageVec<usize, 10> = LocalStorageVec::new();
    assert!(matches!(vec, LocalStorageVec::Stack { buf: _, len: 0 }));
}

#[test]
fn it_pushes() {
    let mut vec: LocalStorageVec<_, 128> = LocalStorageVec::new();
    for value in 0..128 {
        vec.push(value);
    }
    assert!(matches!(vec, LocalStorageVec::Stack { len: 128, .. }));
    for value in 128..256 {
        vec.push(value);
    }
    assert!(matches!(vec, LocalStorageVec::Heap(v) if v.len() == 256));
}

#[test]
fn it_pops() {
    let mut vec: LocalStorageVec<_, 128> = LocalStorageVec::from([0; 128]);
    for _ in 0..128 {
        assert_eq!(vec.pop(), Some(0));
    }
    assert_eq!(vec.pop(), None);
}

#[test]
fn hybrid_scenario_lengths() {
    let mut vec: LocalStorageVec<i32, 128> = LocalStorageVec::new();
    for value in 0..128 {
        vec.push(value);
    }
    assert_eq!(vec.len(), 128);
    assert!(matches!(&vec, LocalStorageVec::Stack { .. }));
    for value in 128..256 {
        vec.push(value);
    }
    assert_eq!(vec.len(), 256);
    assert!(matches!(&vec, LocalStorageVec::Heap(_)));
}

#[test]
fn pops_reverse_push_order() {
    let mut vec: LocalStorageVec<i32, 3> = LocalStorageVec::new();
    for value in 1..=5 {
        vec.push(value);
    }
    for expected in (1..=5).rev() {
        assert_eq!(vec.pop(), Some(expected));
    }
    assert_eq!(vec.pop(), None);
}

#[test]
fn from_vec_round_trip() {
    let mut vec: LocalStorageVec<i32, 10> = LocalStorageVec::from(vec![1, 2, 3]);
    assert!(matches!(&vec, LocalStorageVec::Stack { len: 3, .. }));
    assert_eq!(vec.pop(), Some(3));
    assert_eq!(vec.pop(), Some(2));
    assert_eq!(vec.pop(), Some(1));
    assert_eq!(vec.pop(), None);

    let mut vec: LocalStorageVec<i32, 2> = LocalStorageVec::from(vec![1, 2, 3]);
    assert!(matches!(&vec, LocalStorageVec::Heap(_)));
    assert_eq!(vec.len(), 3);
    assert_eq!(vec.pop(), Some(3));
}

#[test]
fn from_array_round_trip() {
    let mut vec: LocalStorageVec<i32, 3> = LocalStorageVec::from([4, 5, 6]);
    assert!(matches!(&vec, LocalStorageVec::Stack { len: 3, .. }));
    assert_eq!(vec.pop(), Some(6));
    assert_eq!(vec.pop(), Some(5));
    assert_eq!(vec.pop(), Some(4));
    assert_eq!(vec.pop(), None);

    let vec: LocalStorageVec<i32, 2> = LocalStorageVec::from([4, 5, 6]);
    assert!(matches!(&vec, LocalStorageVec::Heap(v) if v.len() == 3));
}

#[test]
fn clear_resets_any_state() {
    let mut vec: LocalStorageVec<i32, 2> = LocalStorageVec::new();
    vec.push(1);
    vec.push(2);
    vec.push(3);
    assert!(matches!(&vec, LocalStorageVec::Heap(_)));
    vec.clear();
    assert_eq!(vec.len(), 0);
    assert!(matches!(&vec, LocalStorageVec::Stack { len: 0, .. }));
    vec.clear();
    assert_eq!(vec.len(), 0);
    assert!(matches!(&vec, LocalStorageVec::Stack { len: 0, .. }));
    vec.push(9);
    assert_eq!(vec.pop(), Some(9));
}

#[test]
fn zero_capacity_first_push_overflows() {
    let mut vec: LocalStorageVec<u8, 0> = LocalStorageVec::new();
    assert!(matches!(&vec, LocalStorageVec::Stack { len: 0, .. }));
    vec.push(7);
    assert!(matches!(&vec, LocalStorageVec::Heap(v) if v.len() == 1));
    assert_eq!(vec.len(), 1);
    assert_eq!(vec.pop(), Some(7));
    assert!(matches!(&vec, LocalStorageVec::Heap(v) if v.is_empty()));
}
