use os_process::task::mutex_info::{FinishedMutexInfo, MutexInfo, NeedMutexInfo};

#[test]
fn allocate_takes_units_while_they_last() {
    let mut info = MutexInfo::new(7, 3);
    assert_eq!(info.get_id(), 7);
    assert!(info.allocate(2));
    assert!(!info.allocate(2));
    assert!(info.allocate(1));
    assert!(!info.allocate(1));
    assert!(info.allocate(0));
    assert_eq!(info.get_id(), 7);
}

#[test]
fn release_puts_units_back() {
    let mut info = MutexInfo::new(-1, 0);
    assert!(!info.allocate(5));
    info.release(5);
    assert!(info.allocate(5));
    assert!(!info.allocate(1));
    info.release(-2);
    assert!(!info.allocate(-1));
    assert!(info.allocate(-2));
}

#[test]
fn need_finds_what_was_added() {
    let mut need = NeedMutexInfo::new(4, vec![MutexInfo::new(1, 1)]);
    assert_eq!(need.get_tid(), 4);
    assert!(need.exists_mutex(1));
    assert!(!need.exists_mutex(2));
    need.add_mutex_info(MutexInfo::new(2, 9));
    assert!(need.exists_mutex(2));
}

#[test]
fn need_removes_one_entry_at_a_time() {
    let mut need = NeedMutexInfo::new(
        0,
        vec![MutexInfo::new(1, 1), MutexInfo::new(2, 1), MutexInfo::new(1, 2)],
    );
    assert!(!need.remove_mutex_info(3));
    assert!(need.remove_mutex_info(1));
    assert!(need.exists_mutex(1));
    assert!(need.remove_mutex_info(1));
    assert!(!need.exists_mutex(1));
    assert!(!need.remove_mutex_info(1));
    assert!(need.exists_mutex(2));
    assert_eq!(need.get_tid(), 0);
}

#[test]
fn finished_mark_can_be_set() {
    let mut info = FinishedMutexInfo::new(6, false);
    assert_eq!(info.get_tid(), 6);
    assert!(!info.is_finished());
    info.set_finished(true);
    assert!(info.is_finished());
    info.set_finished(false);
    assert!(!info.is_finished());
    assert_eq!(info.get_tid(), 6);
}
