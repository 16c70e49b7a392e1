use os_process::task::id::RecycleAllocator;

#[test]
fn ids_count_up_from_zero() {
    let mut a = RecycleAllocator::new();
    assert_eq!(a.alloc_id(), 0);
    assert_eq!(a.alloc_id(), 1);
    assert_eq!(a.alloc_id(), 2);
}

#[test]
fn last_id_given_back_comes_first() {
    let mut a = RecycleAllocator::new();
    for _ in 0..4 {
        a.alloc_id();
    }
    a.dealloc_id(1);
    a.dealloc_id(3);
    assert_eq!(a.alloc_id(), 3);
    assert_eq!(a.alloc_id(), 1);
    assert_eq!(a.alloc_id(), 4);
}
