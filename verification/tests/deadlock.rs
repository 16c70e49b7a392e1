use os_process::config::MUTEX_CHECK_DEADLOCK;
use os_process::task::deadlock::DeadlockDetector;

fn detector() -> DeadlockDetector {
    let mut d = DeadlockDetector::new();
    d.set_mode(1);
    d
}

#[test]
fn off_answers_zero_and_knows_nothing() {
    let mut d = DeadlockDetector::new();
    assert_eq!(d.init_mutex_list(0, 1), 0);
    assert_eq!(d.try_lock(1, 0, 1), 0);
    assert_eq!(d.try_lock(2, 0, 1), 0);
    assert_eq!(d.mutex_release(1, 0, 1), 0);
    d.set_mode(1);
    // What was made known while detection was off is not known now.
    assert_eq!(d.try_lock(1, 0, 1), MUTEX_CHECK_DEADLOCK);
}

#[test]
fn second_request_for_a_taken_lock_is_refused() {
    let mut d = detector();
    d.init_mutex_list(0, 1);
    assert_eq!(d.try_lock(1, 0, 1), 0);
    assert_eq!(d.try_lock(2, 0, 1), MUTEX_CHECK_DEADLOCK);
    assert_eq!(d.try_lock(2, 0, 1), MUTEX_CHECK_DEADLOCK);
    // The thread that holds the lock is refused as well.
    assert_eq!(d.try_lock(1, 0, 1), MUTEX_CHECK_DEADLOCK);
}

#[test]
fn unknown_resource_is_refused() {
    let mut d = detector();
    d.init_mutex_list(3, 1);
    assert_eq!(d.try_lock(1, 4, 1), MUTEX_CHECK_DEADLOCK);
}

#[test]
fn init_has_effect_once() {
    let mut d = detector();
    assert_eq!(d.init_mutex_list(0, 1), 0);
    assert_eq!(d.init_mutex_list(0, 5), 0);
    assert_eq!(d.try_lock(1, 0, 2), MUTEX_CHECK_DEADLOCK);
    assert_eq!(d.try_lock(1, 0, 1), 0);
}

#[test]
fn lock_then_release_restores_the_units() {
    let mut d = detector();
    d.init_mutex_list(0, 2);
    assert_eq!(d.try_lock(1, 0, 2), 0);
    assert_eq!(d.try_lock(2, 0, 1), MUTEX_CHECK_DEADLOCK);
    assert_eq!(d.mutex_release(1, 0, 2), 0);
    assert_eq!(d.try_lock(2, 0, 2), 0);
    assert_eq!(d.try_lock(3, 0, 1), MUTEX_CHECK_DEADLOCK);
}

#[test]
fn finished_thread_passes_and_takes_nothing() {
    let mut d = detector();
    d.init_mutex_list(0, 1);
    assert_eq!(d.try_lock(1, 0, 1), 0);
    d.mutex_release(1, 0, 1);
    // Thread 1 is finished: it passes, even for what is not there.
    assert_eq!(d.try_lock(1, 0, 1), 0);
    assert_eq!(d.try_lock(1, 9, 100), 0);
    // It took nothing: the unit is still there for thread 2.
    assert_eq!(d.try_lock(2, 0, 1), 0);
    assert_eq!(d.try_lock(3, 0, 1), MUTEX_CHECK_DEADLOCK);
}

#[test]
fn refused_request_takes_nothing() {
    let mut d = detector();
    d.init_mutex_list(0, 3);
    assert_eq!(d.try_lock(1, 0, 4), MUTEX_CHECK_DEADLOCK);
    assert_eq!(d.try_lock(2, 0, 3), 0);
    assert_eq!(d.try_lock(2, 0, 1), MUTEX_CHECK_DEADLOCK);
}

#[test]
fn release_without_a_grant_has_no_effect() {
    let mut d = detector();
    d.init_mutex_list(0, 1);
    assert_eq!(d.mutex_release(1, 0, 1), 0);
    assert_eq!(d.try_lock(1, 0, 2), MUTEX_CHECK_DEADLOCK);
}

#[test]
fn only_the_oldest_grant_can_be_released() {
    let mut d = detector();
    d.init_mutex_list(0, 1);
    d.init_mutex_list(1, 1);
    assert_eq!(d.try_lock(1, 0, 1), 0);
    assert_eq!(d.try_lock(1, 1, 1), 0);
    // The oldest grant is of resource 0, so giving back resource 1 is ignored.
    assert_eq!(d.mutex_release(1, 1, 1), 0);
    assert_eq!(d.try_lock(2, 1, 1), MUTEX_CHECK_DEADLOCK);
    assert_eq!(d.mutex_release(1, 0, 1), 0);
    assert_eq!(d.try_lock(2, 0, 1), 0);
    // Spent: nothing more comes back.
    assert_eq!(d.mutex_release(1, 1, 1), 0);
    assert_eq!(d.mutex_release(1, 0, 1), 0);
    assert_eq!(d.try_lock(3, 1, 1), MUTEX_CHECK_DEADLOCK);
    assert_eq!(d.try_lock(3, 0, 1), MUTEX_CHECK_DEADLOCK);
}

#[test]
fn threads_do_not_release_for_each_other() {
    let mut d = detector();
    d.init_mutex_list(0, 2);
    assert_eq!(d.try_lock(1, 0, 1), 0);
    assert_eq!(d.try_lock(2, 0, 1), 0);
    d.mutex_release(1, 0, 1);
    // Thread 2 is not finished, and still holds its unit.
    assert_eq!(d.try_lock(2, 0, 2), MUTEX_CHECK_DEADLOCK);
    assert_eq!(d.mutex_release(2, 0, 1), 0);
    assert_eq!(d.try_lock(3, 0, 2), 0);
}

#[test]
fn switching_off_keeps_the_books() {
    let mut d = detector();
    d.init_mutex_list(0, 1);
    assert_eq!(d.try_lock(1, 0, 1), 0);
    d.set_mode(0);
    assert_eq!(d.try_lock(2, 0, 1), 0);
    assert_eq!(d.mutex_release(1, 0, 1), 0);
    d.set_mode(1);
    assert_eq!(d.try_lock(2, 0, 1), MUTEX_CHECK_DEADLOCK);
}
