use os_process::config::{
    SYSCALL_GET_TIME, SYSCALL_MMAP, SYSCALL_MUNMAP, SYSCALL_SBRK, SYSCALL_TRACE, SYSCALL_YIELD,
};
use os_process::syscall::process::{
    sys_exit, sys_get_time, sys_mmap, sys_munmap, sys_sbrk, sys_trace, sys_yield, valid_addr,
    valid_prot, Action, Event, TimeVal,
};

fn counted(action: Action, id: usize) -> bool {
    matches!(action, Action::CountCall { id: i } if i == id)
}

fn value(action: Action) -> isize {
    match action {
        Action::Return { value } => value,
        _ => panic!("the call is not over"),
    }
}

#[test]
fn every_call_counts_itself_first() {
    assert!(counted(sys_yield(Event::Start), SYSCALL_YIELD));
    assert!(counted(sys_get_time(8, 0, Event::Start), SYSCALL_GET_TIME));
    assert!(counted(sys_trace(7, 0, 0, Event::Start), SYSCALL_TRACE));
    assert!(counted(sys_mmap(1, 1, 0, Event::Start), SYSCALL_MMAP));
    assert!(counted(sys_munmap(1, 1, Event::Start), SYSCALL_MUNMAP));
    assert!(counted(sys_sbrk(-4, Event::Start), SYSCALL_SBRK));
}

#[test]
fn exit_ends_the_task_with_its_code() {
    for code in [0, -1, 42, i32::MIN, i32::MAX] {
        match sys_exit(code) {
            Action::ExitCurrent { exit_code } => assert_eq!(exit_code, code),
            _ => panic!("the task goes on"),
        }
    }
}

#[test]
fn yield_suspends_and_returns_zero() {
    assert!(matches!(sys_yield(Event::Counted { count: 3 }), Action::SuspendCurrent));
    assert_eq!(value(sys_yield(Event::Resumed)), 0);
}

#[test]
fn get_time_stores_seconds_and_microseconds() {
    assert!(matches!(sys_get_time(0x80, 0, Event::Counted { count: 1 }), Action::ReadClock));
    match sys_get_time(0x80, 0, Event::Clock { us: 12_345_678 }) {
        Action::WriteUser { addr, data } => {
            assert_eq!(addr, 0x80);
            let mut want = 12usize.to_le_bytes().to_vec();
            want.extend(345_678usize.to_le_bytes());
            assert_eq!(data, want);
        }
        _ => panic!("no store"),
    }
    assert_eq!(value(sys_get_time(0x80, 0, Event::Written)), 0);
}

#[test]
fn time_bytes_are_two_words() {
    let t = TimeVal { sec: 0x0102, usec: usize::MAX };
    let mut want = 0x0102usize.to_le_bytes().to_vec();
    want.extend(usize::MAX.to_le_bytes());
    assert_eq!(t.to_bytes(), want);
}

#[test]
fn trace_reads_a_byte() {
    assert!(matches!(
        sys_trace(0, 0x1234, 9, Event::Counted { count: 1 }),
        Action::ReadUser { addr: 0x1234, len: 1 }
    ));
    let found = Event::Read { buffers: Some(vec![vec![0xfe, 1], vec![2]]) };
    assert_eq!(value(sys_trace(0, 0x1234, 9, found)), 0xfe);
    assert_eq!(value(sys_trace(0, 0x1234, 9, Event::Read { buffers: None })), -1);
}

#[test]
fn trace_writes_the_low_byte() {
    match sys_trace(1, 0x99, 0x1ff, Event::Counted { count: 1 }) {
        Action::TryWriteUser { addr, data } => {
            assert_eq!(addr, 0x99);
            assert_eq!(data, vec![0xff]);
        }
        _ => panic!("no store"),
    }
    assert_eq!(value(sys_trace(1, 0x99, 0x1ff, Event::TriedWrite { ok: true })), 0);
    assert_eq!(value(sys_trace(1, 0x99, 0x1ff, Event::TriedWrite { ok: false })), -1);
}

#[test]
fn trace_tells_call_counts() {
    assert!(matches!(
        sys_trace(2, SYSCALL_YIELD, 0, Event::Counted { count: 5 }),
        Action::ReadCallCount { id: SYSCALL_YIELD }
    ));
    assert_eq!(value(sys_trace(2, SYSCALL_YIELD, 0, Event::CallCount { count: 17 })), 17);
    // The trace call itself: the count that came back when it was counted.
    assert_eq!(value(sys_trace(2, SYSCALL_TRACE, 0, Event::Counted { count: 5 })), 5);
}

#[test]
fn trace_rejects_other_requests() {
    assert_eq!(value(sys_trace(3, 0, 0, Event::Counted { count: 1 })), -1);
    assert_eq!(value(sys_trace(usize::MAX, 0, 0, Event::Counted { count: 1 })), -1);
}

#[test]
fn mmap_asks_for_the_area() {
    assert!(matches!(
        sys_mmap(0x1000, 5, 3, Event::Counted { count: 1 }),
        Action::MapArea { start: 0x1000, len: 5, prot: 3 }
    ));
    assert_eq!(value(sys_mmap(0x1000, 5, 3, Event::Mapped { ok: true })), 0);
    assert_eq!(value(sys_mmap(0x1000, 5, 3, Event::Mapped { ok: false })), -1);
}

#[test]
fn mmap_refuses_bad_requests() {
    let go = || Event::Counted { count: 1 };
    assert_eq!(value(sys_mmap(0x1001, 5, 3, go())), -1);
    assert_eq!(value(sys_mmap(0x1000, 5, 0, go())), -1);
    assert_eq!(value(sys_mmap(0x1000, 5, 8, go())), -1);
    assert_eq!(value(sys_mmap(0x1000, 5, 0xb, go())), -1);
}

#[test]
fn munmap_needs_a_page_boundary() {
    assert_eq!(value(sys_munmap(0xfff, 1, Event::Counted { count: 1 })), -1);
    assert!(matches!(
        sys_munmap(0x2000, 1, Event::Counted { count: 1 }),
        Action::UnmapArea { start: 0x2000, len: 1 }
    ));
    assert_eq!(value(sys_munmap(0x2000, 1, Event::Unmapped { ok: true })), 0);
    assert_eq!(value(sys_munmap(0x2000, 1, Event::Unmapped { ok: false })), -1);
}

#[test]
fn sbrk_returns_the_old_break() {
    assert!(matches!(
        sys_sbrk(-64, Event::Counted { count: 1 }),
        Action::ChangeBrk { size: -64 }
    ));
    assert_eq!(value(sys_sbrk(-64, Event::BrkChanged { old_brk: Some(0x3000) })), 0x3000);
    assert_eq!(value(sys_sbrk(-64, Event::BrkChanged { old_brk: None })), -1);
    assert_eq!(
        value(sys_sbrk(1, Event::BrkChanged { old_brk: Some(usize::MAX - 1) })),
        (usize::MAX - 1) as isize
    );
    assert_eq!(
        value(sys_sbrk(1, Event::BrkChanged { old_brk: Some(isize::MAX as usize + 1) })),
        isize::MIN
    );
}

#[test]
fn prot_and_address_checks() {
    for prot in 0..20usize {
        assert_eq!(valid_prot(prot), (1..8).contains(&prot));
    }
    assert!(!valid_prot(usize::MAX));
    assert!(valid_addr(0));
    assert!(valid_addr(4096));
    assert!(!valid_addr(4095));
    assert!(!valid_addr(2048));
}
