use os_process::config::MUTEX_CHECK_DEADLOCK;
use os_process::fs::FileHandle;
use os_process::mm::{MapPermission, MemorySet, VirtAddr, VirtPageNum};
use os_process::task::id::{PidHandle, RecycleAllocator};
use os_process::task::launch::{
    ExecAction, ExecEvent, ForkAction, ForkEvent, LaunchAction, LaunchEvent,
};
use os_process::task::process::{MapRequest, ProcessControlBlock, UnmapRequest};
use os_process::task::thread::{TaskControlBlock, TaskUserRes, TrapTarget, UserEntry};
use os_process::task::user_stack::UserWrite;

const W: usize = core::mem::size_of::<usize>();

const TARGET: TrapTarget = TrapTarget { kernel_satp: 0xf0, trap_handler: 0xf8 };

fn task(kstack_top: usize, ustack_base: usize) -> TaskControlBlock {
    TaskControlBlock { kstack_top, res: Some(TaskUserRes { ustack_base }), trap_cx_ppn: 77 }
}

/// A process with pid 3 whose main thread has its stacks at 0x5000.
fn launch() -> ProcessControlBlock {
    let loaded = LaunchEvent::Loaded {
        memory_set: MemorySet { token: 0x80 },
        ustack_base: 0x5000,
        entry_point: 0x100,
        pid: PidHandle(3),
    };
    let mut process = match ProcessControlBlock::new(&[1, 2], loaded) {
        LaunchAction::CreateTask { process, ustack_base, alloc_user_res, entry_point } => {
            assert_eq!(ustack_base, 0x5000);
            assert!(alloc_user_res);
            assert_eq!(entry_point, 0x100);
            process
        }
        _ => panic!("no thread asked for"),
    };
    assert_eq!(process.inner_exclusive_access().alloc_tid(), 0);
    let created = LaunchEvent::TaskCreated {
        process,
        task: task(0x9000, 0x5000),
        ustack_top: 0x7000,
        trap_cx_ppn: 5,
        ustack_base: 0x5000,
        entry_point: 0x100,
        target: TARGET,
    };
    match ProcessControlBlock::new(&[1, 2], created) {
        LaunchAction::Finish { process, task: t, entry, schedule } => {
            assert_eq!(t, task(0x9000, 0x5000));
            assert_eq!(
                entry,
                UserEntry {
                    entry_point: 0x100,
                    user_sp: 0x7000,
                    kernel_sp: 0x9000,
                    target: TARGET,
                    x10: None,
                    x11: None
                }
            );
            assert!(schedule);
            process
        }
        _ => panic!("not finished"),
    }
}

#[test]
fn new_process_loads_the_program_first() {
    match ProcessControlBlock::new(&[1, 2, 3], LaunchEvent::Start) {
        LaunchAction::Load { elf_data } => assert_eq!(elf_data, &[1u8, 2, 3]),
        _ => panic!("nothing to load"),
    }
}

#[test]
fn new_process_state() {
    let p = launch();
    assert_eq!(p.getpid(), 3);
    assert_eq!(p.inner.get_user_token(), 0x80);
    assert!(!p.inner.is_zombie);
    assert_eq!(p.inner.parent, None);
    assert_eq!(p.inner.children, Vec::<usize>::new());
    assert_eq!(p.inner.exit_code, 0);
    assert_eq!(
        p.inner.fd_table,
        vec![Some(FileHandle::Stdin), Some(FileHandle::Stdout), Some(FileHandle::Stdout)]
    );
    assert_eq!(p.inner.signals.bits, 0);
    assert_eq!(p.inner.thread_count(), 1);
    assert_eq!(p.inner.get_task(0), task(0x9000, 0x5000));
    assert_eq!(p.inner.priority, 16);
    assert_eq!(p.inner.mutex_list.len(), 0);
    assert_eq!(p.inner.semaphore_list.len(), 0);
    assert_eq!(p.inner.condvar_list.len(), 0);
}

#[test]
fn fork_copies_files_and_links_parent_and_child() {
    let mut p = launch();
    p.inner.fd_table.push(None);
    p.inner.fd_table.push(Some(FileHandle::Open(4)));
    p.inner.priority = 40;
    match p.fork(ForkEvent::Start) {
        ForkAction::Copy { memory_set } => assert_eq!(memory_set.token, 0x80),
        _ => panic!("no copy"),
    }
    assert_eq!(p.inner.children.len(), 0);
    let copied = ForkEvent::Copied { memory_set: MemorySet { token: 0x81 }, pid: PidHandle(8) };
    let child = match p.fork(copied) {
        ForkAction::CreateTask { child, ustack_base, alloc_user_res } => {
            assert_eq!(ustack_base, 0x5000);
            assert!(!alloc_user_res);
            child
        }
        _ => panic!("no thread asked for"),
    };
    assert_eq!(p.inner.children, vec![8]);
    assert_eq!(child.inner.thread_count(), 0);
    let child = match p.fork(ForkEvent::TaskCreated { child, task: task(0xa000, 0x5000) }) {
        ForkAction::Finish { child, task: t, kernel_sp } => {
            assert_eq!(t, task(0xa000, 0x5000));
            assert_eq!(kernel_sp, 0xa000);
            child
        }
        _ => panic!("not finished"),
    };
    assert_eq!(child.getpid(), 8);
    assert_eq!(child.inner.parent, Some(3));
    assert_eq!(child.inner.get_user_token(), 0x81);
    assert_eq!(child.inner.fd_table, p.inner.fd_table);
    assert_eq!(child.inner.thread_count(), 1);
    assert_eq!(child.inner.get_task(0), task(0xa000, 0x5000));
    assert_eq!(child.inner.priority, 16);
    assert_eq!(p.inner.children, vec![8]);
    assert_eq!(p.inner.priority, 40);
    assert_eq!(p.inner.thread_count(), 1);
}

#[test]
fn spawn_leaves_the_child_without_listed_threads() {
    let mut p = launch();
    match p.spawn(&[9], LaunchEvent::Start) {
        LaunchAction::Load { elf_data } => assert_eq!(elf_data, &[9u8]),
        _ => panic!("nothing to load"),
    }
    let loaded = LaunchEvent::Loaded {
        memory_set: MemorySet { token: 0x90 },
        ustack_base: 0x6000,
        entry_point: 0x200,
        pid: PidHandle(12),
    };
    let child = match p.spawn(&[9], loaded) {
        LaunchAction::CreateTask { process, ustack_base, alloc_user_res, entry_point } => {
            assert_eq!(ustack_base, 0x6000);
            assert!(alloc_user_res);
            assert_eq!(entry_point, 0x200);
            process
        }
        _ => panic!("no thread asked for"),
    };
    let created = LaunchEvent::TaskCreated {
        process: child,
        task: task(0xb000, 0x6000),
        ustack_top: 0x8000,
        trap_cx_ppn: 5,
        ustack_base: 0x6000,
        entry_point: 0x200,
        target: TARGET,
    };
    match p.spawn(&[9], created) {
        LaunchAction::Finish { process, task: t, entry, schedule } => {
            assert_eq!(process.getpid(), 12);
            assert_eq!(process.inner.parent, Some(3));
            assert_eq!(process.inner.fd_table, p.inner.fd_table);
            assert_eq!(process.inner.thread_count(), 0);
            assert_eq!(t.trap_cx_ppn, 5);
            assert_eq!(entry.user_sp, 0x6000);
            assert_eq!(entry.kernel_sp, 0xb000);
            assert_eq!(entry.entry_point, 0x200);
            assert_eq!(entry.target, TARGET);
            assert!(!schedule);
        }
        _ => panic!("not finished"),
    }
    assert_eq!(p.inner.children, vec![12]);
}

#[test]
fn exec_replaces_the_program_only() {
    let mut p = launch();
    p.inner.children.push(44);
    p.inner.priority = 7;
    let args = vec![String::from("ls"), String::from("-l")];
    match p.exec(&[6], &args, ExecEvent::Start) {
        ExecAction::Load { elf_data } => assert_eq!(elf_data, &[6u8]),
        _ => panic!("nothing to load"),
    }
    let loaded = ExecEvent::Loaded {
        memory_set: MemorySet { token: 0x99 },
        ustack_base: 0x3000,
        entry_point: 0x300,
    };
    match p.exec(&[6], &args, loaded) {
        ExecAction::AllocUserRes { tid, entry_point } => {
            assert_eq!(tid, 0);
            assert_eq!(entry_point, 0x300);
        }
        _ => panic!("no resources asked for"),
    }
    assert_eq!(p.inner.get_user_token(), 0x99);
    assert_eq!(p.inner.get_task(0).res, Some(TaskUserRes { ustack_base: 0x3000 }));
    let allocated = ExecEvent::ResAllocated {
        trap_cx_ppn: 21,
        ustack_top: 0x4000,
        entry_point: 0x300,
        target: TARGET,
    };
    match p.exec(&[6], &args, allocated) {
        ExecAction::Finish { token, writes, entry } => {
            assert_eq!(token, 0x99);
            assert_eq!(writes.len(), 1 + 4 + 4);
            assert_eq!(writes[0], UserWrite::Word { addr: 0x4000 - W, word: 0 });
            assert_eq!(
                entry,
                UserEntry {
                    entry_point: 0x300,
                    user_sp: 0x4000 - 3 * W - 8,
                    kernel_sp: 0x9000,
                    target: TARGET,
                    x10: Some(2),
                    x11: Some(0x4000 - 3 * W)
                }
            );
        }
        _ => panic!("not finished"),
    }
    assert_eq!(p.inner.thread_count(), 1);
    assert_eq!(p.inner.get_task(0).trap_cx_ppn, 21);
    assert_eq!(p.inner.get_task(0).kstack_top, 0x9000);
    assert_eq!(p.inner.children, vec![44]);
    assert_eq!(p.inner.priority, 7);
    assert_eq!(p.inner.fd_table.len(), 3);
    assert_eq!(p.getpid(), 3);
}

#[test]
fn alloc_fd_gives_the_lowest_free_slot() {
    let mut p = launch();
    let inner = p.inner_exclusive_access();
    assert_eq!(inner.alloc_fd(), 3);
    assert_eq!(inner.fd_table.len(), 4);
    // Nothing was put in the slot, so it is given again.
    assert_eq!(inner.alloc_fd(), 3);
    assert_eq!(inner.fd_table.len(), 4);
    inner.fd_table[3] = Some(FileHandle::Open(1));
    assert_eq!(inner.alloc_fd(), 4);
    inner.fd_table[1] = None;
    assert_eq!(inner.alloc_fd(), 1);
}

#[test]
fn task_ids_are_recycled() {
    let mut p = launch();
    assert_eq!(p.inner.alloc_tid(), 1);
    assert_eq!(p.inner.alloc_tid(), 2);
    p.inner.dealloc_tid(1);
    assert_eq!(p.inner.alloc_tid(), 1);
    assert_eq!(p.inner.alloc_tid(), 3);
}

#[test]
fn detection_is_switched_by_zero_and_one() {
    let mut p = launch();
    assert_eq!(p.enable_deadlock_detection(2), -1);
    assert_eq!(p.enable_deadlock_detection(-1), -1);
    p.inner.init_mutex_list(0, 1);
    assert_eq!(p.inner.try_lock(0, 5, 1), 0);
    assert_eq!(p.enable_deadlock_detection(1), 0);
    assert_eq!(p.inner.init_mutex_list(0, 1), 0);
    assert_eq!(p.inner.try_lock(0, 0, 1), 0);
    assert_eq!(p.inner.try_lock(1, 0, 1), MUTEX_CHECK_DEADLOCK);
    // A value that is not accepted leaves detection on.
    assert_eq!(p.enable_deadlock_detection(7), -1);
    assert_eq!(p.inner.try_lock(1, 0, 1), MUTEX_CHECK_DEADLOCK);
    assert_eq!(p.inner.mutex_release(0, 0, 1), 0);
    assert_eq!(p.inner.try_lock(1, 0, 1), 0);
    assert_eq!(p.enable_deadlock_detection(0), 0);
    assert_eq!(p.inner.try_lock(2, 0, 1), 0);
}

#[test]
fn deadlock_answer() {
    assert_eq!(MUTEX_CHECK_DEADLOCK, -0xdead);
}

#[test]
fn priority_starts_at_two() {
    let mut p = launch();
    assert_eq!(p.set_priority(1), None);
    assert_eq!(p.set_priority(-5), None);
    assert_eq!(p.inner.priority, 16);
    assert_eq!(p.set_priority(2), Some(2));
    assert_eq!(p.inner.priority, 2);
    assert_eq!(p.set_priority(isize::MAX), Some(isize::MAX));
    assert_eq!(p.inner.priority, isize::MAX as usize);
}

#[test]
fn mmap_request() {
    let p = launch();
    assert_eq!(
        p.mmap(0x1000, 0x234, 3),
        Some(MapRequest {
            memory_set: MemorySet { token: 0x80 },
            start: VirtAddr(0x1000),
            end: VirtAddr(0x1234),
            permission: MapPermission { bits: 0x16 }
        })
    );
    assert_eq!(p.mmap(0, 0, 0).unwrap().permission.bits, 0x10);
    assert_eq!(p.mmap(0, 0, 7).unwrap().permission.bits, 0x1e);
    assert_eq!(p.mmap(0, 0, 0x88).unwrap().permission.bits, 0x10);
    assert_eq!(p.mmap(0, 0, usize::MAX).unwrap().permission.bits, 0x1e);
}

#[test]
fn munmap_request() {
    let p = launch();
    let want = |start, end| UnmapRequest {
        memory_set: MemorySet { token: 0x80 },
        start: VirtPageNum(start),
        end: VirtPageNum(end),
    };
    assert_eq!(p.munmap(0x1000, 0x1000), want(1, 2));
    assert_eq!(p.munmap(0x1000, 0x1001), want(1, 3));
    assert_eq!(p.munmap(0x1fff, 1), want(1, 2));
    assert_eq!(p.munmap(0x1000, 0), want(1, 1));
    assert_eq!(p.munmap(0, 0), want(0, 0));
}

#[test]
fn permission_bits() {
    assert_eq!(MapPermission::from_bits(0x12), Some(MapPermission { bits: 0x12 }));
    assert_eq!(MapPermission::from_bits(0), Some(MapPermission { bits: 0 }));
    assert_eq!(MapPermission::from_bits(1), None);
    assert_eq!(MapPermission::from_bits(0x20), None);
}

#[test]
fn pid_stays_the_same_and_children_get_another() {
    let mut pids = RecycleAllocator::new();
    for pid in 0..4 {
        assert_eq!(pids.alloc_id(), pid);
    }
    let mut p = launch();
    assert_eq!(p.getpid(), 3);
    assert_eq!(p.set_priority(9), Some(9));
    assert_eq!(p.set_priority(1), None);
    assert_eq!(p.enable_deadlock_detection(1), 0);
    assert_eq!(p.enable_deadlock_detection(2), -1);
    assert!(p.mmap(0x1000, 8, 3).is_some());
    p.munmap(0x1000, 8);
    assert_eq!(p.inner_exclusive_access().alloc_fd(), 3);
    assert_eq!(p.getpid(), 3);

    pids.dealloc_id(1);
    let pid = PidHandle(pids.alloc_id());
    let copied = ForkEvent::Copied { memory_set: MemorySet { token: 0x81 }, pid };
    match p.fork(copied) {
        ForkAction::CreateTask { child, .. } => {
            assert_eq!(child.getpid(), 1);
            assert_ne!(child.getpid(), p.getpid());
        }
        _ => panic!("no thread asked for"),
    }
    let pid = PidHandle(pids.alloc_id());
    let loaded = LaunchEvent::Loaded {
        memory_set: MemorySet { token: 0x90 },
        ustack_base: 0x6000,
        entry_point: 0x200,
        pid,
    };
    match p.spawn(&[9], loaded) {
        LaunchAction::CreateTask { process, .. } => {
            assert_eq!(process.getpid(), 4);
            assert_ne!(process.getpid(), p.getpid());
        }
        _ => panic!("no thread asked for"),
    }
    let loaded = ExecEvent::Loaded {
        memory_set: MemorySet { token: 0x91 },
        ustack_base: 0x6000,
        entry_point: 0x200,
    };
    p.exec(&[9], &vec![], loaded);
    assert_eq!(p.getpid(), 3);
    assert_eq!(p.inner.children, vec![1, 4]);
}
