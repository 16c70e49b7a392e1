//! What a new process, a child and a process with a new program end up with.
use vstd::prelude::*;
use vstd::arithmetic::power::pow;
use vstd::layout::size_of;
use vstd::utf8::encode_utf8;
use crate::bytes::lemma_word_size;
use crate::fs::FileHandle;
use crate::mm::MemorySet;
use crate::task::id::PidHandle;
use crate::task::launch::{
    ExecAction, ExecEvent, ForkAction, ForkEvent, LaunchAction, LaunchEvent,
};
use crate::task::process::{ProcessControlBlock, ProcessView};
use crate::task::thread::{TaskControlBlock, TaskUserRes, TrapTarget};
use crate::task::user_stack::{args_fit, lemma_args_are_whole, store_all, Memory};

verus! {

/// What a first process is, field by field, once it is finished: not a zombie, in the address
/// space of its program, without parent or child, with exit code 0, with standard input, output
/// and error, without signals, with the thread that was created for it and no other, without
/// locks, of priority 16, and with detection off and knowing nothing. The thread is scheduled and
/// enters the program at its entry point, on the user stack and the kernel stack that it was
/// given. All that is supposed of the thread's creation is that it changes nothing of the process
/// but its task ids.
pub proof fn law_first_process(
    elf: &[u8],
    load: LaunchAction,
    create: LaunchAction,
    end: LaunchAction,
    memory_set: MemorySet,
    ustack_base: usize,
    entry_point: usize,
    pid: PidHandle,
    process: ProcessControlBlock,
    task: TaskControlBlock,
    ustack_top: usize,
    trap_cx_ppn: usize,
    target: TrapTarget,
)
    requires
        call_ensures(ProcessControlBlock::new, (elf, LaunchEvent::Start), load),
        call_ensures(
            ProcessControlBlock::new,
            (elf, LaunchEvent::Loaded { memory_set, ustack_base, entry_point, pid }),
            create,
        ),
        process.pid == create->CreateTask_process.pid,
        process.inner@ == (ProcessView {
            task_ids: process.inner@.task_ids,
            ..create->CreateTask_process.inner@
        }),
        call_ensures(
            ProcessControlBlock::new,
            (
                elf,
                LaunchEvent::TaskCreated {
                    process,
                    task,
                    ustack_top,
                    trap_cx_ppn,
                    ustack_base: create->CreateTask_ustack_base,
                    entry_point: create->CreateTask_entry_point,
                    target,
                },
            ),
            end,
        ),
    ensures
        load == (LaunchAction::Load { elf_data: elf }),
        create matches LaunchAction::CreateTask { process: made, ustack_base: base, .. } && {
            &&& base == ustack_base
            &&& create->CreateTask_alloc_user_res
            &&& made.inner.tasks@.len() == 0
            &&& made.inner.task_res_allocator@.current == 0
            &&& made.inner.task_res_allocator@.recycled.len() == 0
        },
        end matches LaunchAction::Finish { process: c, task: t, entry, schedule } && {
            &&& c.pid == pid
            &&& !c.inner.is_zombie
            &&& c.inner.memory_set == memory_set
            &&& c.inner.parent is None
            &&& c.inner.children@.len() == 0
            &&& c.inner.exit_code == 0
            &&& c.inner.fd_table@.len() == 3
            &&& c.inner.fd_table@[0] == Some(FileHandle::Stdin)
            &&& c.inner.fd_table@[1] == Some(FileHandle::Stdout)
            &&& c.inner.fd_table@[2] == Some(FileHandle::Stdout)
            &&& c.inner.signals.bits == 0
            &&& c.inner.tasks@.len() == 1
            &&& c.inner.tasks@[0] == Some(task)
            &&& c.inner.mutex_list@.len() == 0
            &&& c.inner.semaphore_list@.len() == 0
            &&& c.inner.condvar_list@.len() == 0
            &&& c.inner.priority == 16
            &&& c.inner.detector@.mode == 0
            &&& forall|k: isize| !c.inner.detector@.available.contains_key(k)
            &&& c.inner.detector@.grants.len() == 0
            &&& forall|k: isize| !c.inner.detector@.need.contains_key(k)
            &&& forall|k: isize| !c.inner.detector@.finished.contains_key(k)
            &&& c.inner.task_res_allocator@ == process.inner.task_res_allocator@
            &&& t == task
            &&& schedule
            &&& entry.entry_point == entry_point
            &&& entry.user_sp == ustack_top
            &&& entry.kernel_sp == task.kstack_top
            &&& entry.target == target
            &&& entry.x10 is None
            &&& entry.x11 is None
        },
{
}

/// What the child of a fork is, field by field, once it is finished: not a zombie, in the copy of
/// the parent's own address space, with the parent's pid as its parent, without child, with exit
/// code 0, with the parent's files, without signals, with the thread that was created for it and
/// no other, without locks, of priority 16, and with detection off and knowing nothing. The thread
/// is asked for without user resources of its own, with user stacks where those of the parent's
/// thread are, and its kernel stack pointer is the top of its own kernel stack. The parent has
/// one more child from the moment when the child gets its pid, and is otherwise as it was.
pub proof fn law_forked_child(
    p1: &mut ProcessControlBlock,
    p2: &mut ProcessControlBlock,
    p3: &mut ProcessControlBlock,
    copy: ForkAction,
    create: ForkAction,
    end: ForkAction,
    main: TaskControlBlock,
    memory_set: MemorySet,
    pid: PidHandle,
    child: ProcessControlBlock,
    task: TaskControlBlock,
)
    requires
        old(p1).inner.tasks@.len() == 1,
        old(p1).inner.tasks@[0] == Some(main),
        main.res is Some,
        call_ensures(ProcessControlBlock::fork, (p1, ForkEvent::Start), copy),
        *old(p2) == *final(p1),
        call_ensures(
            ProcessControlBlock::fork,
            (p2, ForkEvent::Copied { memory_set, pid }),
            create,
        ),
        child.pid == create->CreateTask_child.pid,
        child.inner@ == (ProcessView {
            task_ids: child.inner@.task_ids,
            ..create->CreateTask_child.inner@
        }),
        *old(p3) == *final(p2),
        call_ensures(ProcessControlBlock::fork, (p3, ForkEvent::TaskCreated { child, task }), end),
    ensures
        copy == (ForkAction::Copy { memory_set: old(p1).inner.memory_set }),
        final(p1).inner@ == old(p1).inner@,
        final(p2).inner@ == final(p3).inner@,
        create matches ForkAction::CreateTask { child: made, ustack_base, alloc_user_res } && {
            &&& ustack_base == main.res->0.ustack_base
            &&& !alloc_user_res
            &&& made.inner.tasks@.len() == 0
            &&& made.inner.task_res_allocator@.current == 0
            &&& made.inner.task_res_allocator@.recycled.len() == 0
        },
        end matches ForkAction::Finish { child: c, task: t, kernel_sp } && {
            &&& c.pid == pid
            &&& !c.inner.is_zombie
            &&& c.inner.memory_set == memory_set
            &&& c.inner.parent == Some(old(p1).pid.0)
            &&& c.inner.children@.len() == 0
            &&& c.inner.exit_code == 0
            &&& c.inner.fd_table@ == old(p1).inner.fd_table@
            &&& c.inner.signals.bits == 0
            &&& c.inner.tasks@.len() == 1
            &&& c.inner.tasks@[0] == Some(task)
            &&& c.inner.mutex_list@.len() == 0
            &&& c.inner.semaphore_list@.len() == 0
            &&& c.inner.condvar_list@.len() == 0
            &&& c.inner.priority == 16
            &&& c.inner.detector@.mode == 0
            &&& forall|k: isize| !c.inner.detector@.available.contains_key(k)
            &&& c.inner.detector@.grants.len() == 0
            &&& forall|k: isize| !c.inner.detector@.need.contains_key(k)
            &&& forall|k: isize| !c.inner.detector@.finished.contains_key(k)
            &&& c.inner.task_res_allocator@ == child.inner.task_res_allocator@
            &&& t == task
            &&& kernel_sp == task.kstack_top
        },
        final(p3).pid == old(p1).pid,
        final(p3).inner.children@ == old(p1).inner.children@.push(pid.0),
        final(p3).inner.is_zombie == old(p1).inner.is_zombie,
        final(p3).inner.memory_set == old(p1).inner.memory_set,
        final(p3).inner.parent == old(p1).inner.parent,
        final(p3).inner.exit_code == old(p1).inner.exit_code,
        final(p3).inner.fd_table@ == old(p1).inner.fd_table@,
        final(p3).inner.signals == old(p1).inner.signals,
        final(p3).inner.tasks@ == old(p1).inner.tasks@,
        final(p3).inner.mutex_list@ == old(p1).inner.mutex_list@,
        final(p3).inner.semaphore_list@ == old(p1).inner.semaphore_list@,
        final(p3).inner.condvar_list@ == old(p1).inner.condvar_list@,
        final(p3).inner.priority == old(p1).inner.priority,
        final(p3).inner.task_res_allocator@ == old(p1).inner.task_res_allocator@,
        final(p3).inner.detector@ == old(p1).inner.detector@,
{
}

/// What the child of a spawn is, field by field, once it is finished: not a zombie, in the address
/// space of its program, with the parent's pid as its parent, without child, with exit code 0,
/// with the parent's files, without signals, with no thread in its list, without locks, of
/// priority 16, and with detection off and knowing nothing. The thread that was created for it
/// is not scheduled; it would enter the program at its entry point, with its stack pointer where
/// the user stacks start. The parent has one more child from the moment when the child gets its
/// pid, and is otherwise as it was.
pub proof fn law_spawned_child(
    elf: &[u8],
    p1: &mut ProcessControlBlock,
    p2: &mut ProcessControlBlock,
    p3: &mut ProcessControlBlock,
    load: LaunchAction,
    create: LaunchAction,
    end: LaunchAction,
    memory_set: MemorySet,
    ustack_base: usize,
    entry_point: usize,
    pid: PidHandle,
    child: ProcessControlBlock,
    task: TaskControlBlock,
    ustack_top: usize,
    trap_cx_ppn: usize,
    target: TrapTarget,
)
    requires
        call_ensures(ProcessControlBlock::spawn, (p1, elf, LaunchEvent::Start), load),
        *old(p2) == *final(p1),
        call_ensures(
            ProcessControlBlock::spawn,
            (p2, elf, LaunchEvent::Loaded { memory_set, ustack_base, entry_point, pid }),
            create,
        ),
        child.pid == create->CreateTask_process.pid,
        child.inner@ == (ProcessView {
            task_ids: child.inner@.task_ids,
            ..create->CreateTask_process.inner@
        }),
        *old(p3) == *final(p2),
        call_ensures(
            ProcessControlBlock::spawn,
            (
                p3,
                elf,
                LaunchEvent::TaskCreated {
                    process: child,
                    task,
                    ustack_top,
                    trap_cx_ppn,
                    ustack_base: create->CreateTask_ustack_base,
                    entry_point: create->CreateTask_entry_point,
                    target,
                },
            ),
            end,
        ),
    ensures
        load == (LaunchAction::Load { elf_data: elf }),
        final(p1).inner@ == old(p1).inner@,
        final(p2).inner@ == final(p3).inner@,
        create matches LaunchAction::CreateTask { process: made, ustack_base: base, .. } && {
            &&& base == ustack_base
            &&& create->CreateTask_alloc_user_res
            &&& made.inner.task_res_allocator@.current == 0
            &&& made.inner.task_res_allocator@.recycled.len() == 0
        },
        end matches LaunchAction::Finish { process: c, task: t, entry, schedule } && {
            &&& c.pid == pid
            &&& !c.inner.is_zombie
            &&& c.inner.memory_set == memory_set
            &&& c.inner.parent == Some(old(p1).pid.0)
            &&& c.inner.children@.len() == 0
            &&& c.inner.exit_code == 0
            &&& c.inner.fd_table@ == old(p1).inner.fd_table@
            &&& c.inner.signals.bits == 0
            &&& c.inner.tasks@.len() == 0
            &&& c.inner.mutex_list@.len() == 0
            &&& c.inner.semaphore_list@.len() == 0
            &&& c.inner.condvar_list@.len() == 0
            &&& c.inner.priority == 16
            &&& c.inner.detector@.mode == 0
            &&& forall|k: isize| !c.inner.detector@.available.contains_key(k)
            &&& c.inner.detector@.grants.len() == 0
            &&& forall|k: isize| !c.inner.detector@.need.contains_key(k)
            &&& forall|k: isize| !c.inner.detector@.finished.contains_key(k)
            &&& c.inner.task_res_allocator@ == child.inner.task_res_allocator@
            &&& t.kstack_top == task.kstack_top
            &&& t.res == task.res
            &&& t.trap_cx_ppn == trap_cx_ppn
            &&& !schedule
            &&& entry.entry_point == entry_point
            &&& entry.user_sp == ustack_base
            &&& entry.kernel_sp == task.kstack_top
            &&& entry.target == target
            &&& entry.x10 is None
            &&& entry.x11 is None
        },
        final(p3).pid == old(p1).pid,
        final(p3).inner.children@ == old(p1).inner.children@.push(pid.0),
        final(p3).inner.is_zombie == old(p1).inner.is_zombie,
        final(p3).inner.memory_set == old(p1).inner.memory_set,
        final(p3).inner.parent == old(p1).inner.parent,
        final(p3).inner.exit_code == old(p1).inner.exit_code,
        final(p3).inner.fd_table@ == old(p1).inner.fd_table@,
        final(p3).inner.signals == old(p1).inner.signals,
        final(p3).inner.tasks@ == old(p1).inner.tasks@,
        final(p3).inner.mutex_list@ == old(p1).inner.mutex_list@,
        final(p3).inner.semaphore_list@ == old(p1).inner.semaphore_list@,
        final(p3).inner.condvar_list@ == old(p1).inner.condvar_list@,
        final(p3).inner.priority == old(p1).inner.priority,
        final(p3).inner.task_res_allocator@ == old(p1).inner.task_res_allocator@,
        final(p3).inner.detector@ == old(p1).inner.detector@,
{
}

/// What a process is, field by field, once it has a new program: it has the new address space,
/// and its one thread has its user stacks and its trap context in it; everything else is as it
/// was. The arguments go to the new address space. The thread enters the program at its entry
/// point, on the kernel stack that it had. The address space and the user stacks are the new ones
/// as soon as the program is loaded.
pub proof fn law_program_replaced(
    elf: &[u8],
    args: &Vec<String>,
    p1: &mut ProcessControlBlock,
    p2: &mut ProcessControlBlock,
    p3: &mut ProcessControlBlock,
    load: ExecAction,
    alloc_res: ExecAction,
    end: ExecAction,
    main: TaskControlBlock,
    memory_set: MemorySet,
    ustack_base: usize,
    entry_point: usize,
    trap_cx_ppn: usize,
    ustack_top: usize,
    target: TrapTarget,
)
    requires
        old(p1).inner.tasks@.len() == 1,
        old(p1).inner.tasks@[0] == Some(main),
        call_ensures(ProcessControlBlock::exec, (p1, elf, args, ExecEvent::Start), load),
        *old(p2) == *final(p1),
        call_ensures(
            ProcessControlBlock::exec,
            (p2, elf, args, ExecEvent::Loaded { memory_set, ustack_base, entry_point }),
            alloc_res,
        ),
        *old(p3) == *final(p2),
        call_ensures(
            ProcessControlBlock::exec,
            (
                p3,
                elf,
                args,
                ExecEvent::ResAllocated {
                    trap_cx_ppn,
                    ustack_top,
                    entry_point: alloc_res->entry_point,
                    target,
                },
            ),
            end,
        ),
    ensures
        load == (ExecAction::Load { elf_data: elf }),
        final(p1).inner@ == old(p1).inner@,
        final(p2).inner.memory_set == memory_set,
        final(p2).inner.tasks@[0] == Some(
            TaskControlBlock {
                kstack_top: main.kstack_top,
                res: Some(TaskUserRes { ustack_base }),
                trap_cx_ppn: main.trap_cx_ppn,
            },
        ),
        final(p2).inner@ == (ProcessView { tasks: final(p2).inner@.tasks, ..final(p3).inner@ }),
        alloc_res matches ExecAction::AllocUserRes { tid, .. } && tid == 0,
        end matches ExecAction::Finish { token, entry, .. } && {
            &&& token == memory_set.token
            &&& entry.entry_point == entry_point
            &&& entry.kernel_sp == main.kstack_top
            &&& entry.target == target
        },
        final(p3).pid == old(p1).pid,
        final(p3).inner.memory_set == memory_set,
        final(p3).inner.tasks@.len() == 1,
        final(p3).inner.tasks@[0] == Some(
            TaskControlBlock {
                kstack_top: main.kstack_top,
                res: Some(TaskUserRes { ustack_base }),
                trap_cx_ppn,
            },
        ),
        final(p3).inner.is_zombie == old(p1).inner.is_zombie,
        final(p3).inner.parent == old(p1).inner.parent,
        final(p3).inner.exit_code == old(p1).inner.exit_code,
        final(p3).inner.fd_table@ == old(p1).inner.fd_table@,
        final(p3).inner.signals == old(p1).inner.signals,
        final(p3).inner.mutex_list@ == old(p1).inner.mutex_list@,
        final(p3).inner.semaphore_list@ == old(p1).inner.semaphore_list@,
        final(p3).inner.condvar_list@ == old(p1).inner.condvar_list@,
        final(p3).inner.priority == old(p1).inner.priority,
        final(p3).inner.children@ == old(p1).inner.children@,
        final(p3).inner.task_res_allocator@ == old(p1).inner.task_res_allocator@,
        final(p3).inner.detector@ == old(p1).inner.detector@,
{
}

/// A program finds in its registers how many arguments it was given and where their pointers
/// are, and through the pointers every argument whole. Let the stores that an exec asks for be
/// made. Then there is a pointer for each argument such that
/// - the pointers stand side by side from the place that the second register names on, word
///   after word, with a null pointer behind them that ends where the stack starts;
/// - each pointer leads to the UTF-8 bytes of its argument, all of them, and a zero byte;
/// - the arguments lie side by side below the pointers, the first one highest;
/// - the stack pointer is the highest word boundary that is not above the lowest of them;
/// - and no byte below the stack pointer, or from the top of the stack on, is touched.
pub proof fn law_program_reads_its_arguments(
    mem: Memory,
    elf: &[u8],
    args: &Vec<String>,
    p: &mut ProcessControlBlock,
    end: ExecAction,
    trap_cx_ppn: usize,
    ustack_top: usize,
    entry_point: usize,
    target: TrapTarget,
)
    requires
        call_ensures(args_fit, (args, ustack_top), true),
        call_ensures(
            ProcessControlBlock::exec,
            (
                p,
                elf,
                args,
                ExecEvent::ResAllocated { trap_cx_ppn, ustack_top, entry_point, target },
            ),
            end,
        ),
    ensures
        end matches ExecAction::Finish { writes, entry, .. } && {
            let m = store_all(mem, writes@);
            let w = size_of::<usize>() as int;
            let n = args@.len() as int;
            let argv = entry.x11->0 as int;
            &&& entry.x10 is Some
            &&& entry.x11 is Some
            &&& entry.x10->0 == n
            &&& exists|ptrs: Seq<usize>|
                {
                    &&& #[trigger] ptrs.len() == n
                    &&& forall|i: int, k: int|
                        0 <= i < n && 0 <= k < w ==> #[trigger] m(argv + i * w + k) as int == (
                        ptrs[i] as int / pow(256, k as nat)) % 256
                    &&& forall|i: int, k: int|
                        0 <= i < n && 0 <= k < encode_utf8(args@[i]@).len() ==> #[trigger] m(
                            ptrs[i] + k,
                        ) == encode_utf8(args@[i]@)[k]
                    &&& forall|i: int|
                        0 <= i < n ==> m(
                            (#[trigger] ptrs[i]) + encode_utf8(args@[i]@).len(),
                        ) == 0
                    &&& forall|i: int|
                        0 <= i < n ==> (#[trigger] ptrs[i]) + encode_utf8(args@[i]@).len() + 1 == (
                        if i == 0 {
                            argv
                        } else {
                            ptrs[i - 1] as int
                        })
                    &&& {
                        let low = if n == 0 {
                            argv
                        } else {
                            ptrs[n - 1] as int
                        };
                        entry.user_sp <= low < entry.user_sp + w
                    }
                }
            &&& forall|k: int| 0 <= k < w ==> #[trigger] m(argv + n * w + k) == 0
            &&& argv + n * w + w == ustack_top
            &&& entry.user_sp as int % w == 0
            &&& forall|x: int|
                x < entry.user_sp || ustack_top <= x ==> #[trigger] m(x) == mem(x)
        },
{
    lemma_args_are_whole(mem, args@, ustack_top as int);
    lemma_word_size();
    let n = args@.len() as int;
    let w = size_of::<usize>() as int;
    assert(n <= n * w) by (nonlinear_arith)
        requires
            0 <= n,
            w >= 1,
    ;
}

/// A thread that was created for a process is added behind the threads that the process lists,
/// whatever else the process holds, and that is kept; a spawn lists no thread.
pub proof fn law_thread_is_attached(
    elf: &[u8],
    p: &mut ProcessControlBlock,
    q: &mut ProcessControlBlock,
    c: ProcessControlBlock,
    task: TaskControlBlock,
    ustack_top: usize,
    trap_cx_ppn: usize,
    ustack_base: usize,
    entry_point: usize,
    target: TrapTarget,
    made: LaunchAction,
    forked: ForkAction,
    spawned: LaunchAction,
)
    requires
        call_ensures(
            ProcessControlBlock::new,
            (
                elf,
                LaunchEvent::TaskCreated {
                    process: c,
                    task,
                    ustack_top,
                    trap_cx_ppn,
                    ustack_base,
                    entry_point,
                    target,
                },
            ),
            made,
        ),
        call_ensures(
            ProcessControlBlock::fork,
            (p, ForkEvent::TaskCreated { child: c, task }),
            forked,
        ),
        call_ensures(
            ProcessControlBlock::spawn,
            (
                q,
                elf,
                LaunchEvent::TaskCreated {
                    process: c,
                    task,
                    ustack_top,
                    trap_cx_ppn,
                    ustack_base,
                    entry_point,
                    target,
                },
            ),
            spawned,
        ),
    ensures
        made matches LaunchAction::Finish { process: a, .. } && {
            &&& a.pid == c.pid
            &&& a.inner@ == (ProcessView {
                tasks: c.inner.tasks@.push(Some(task)),
                ..c.inner@
            })
        },
        forked matches ForkAction::Finish { child: a, .. } && {
            &&& a.pid == c.pid
            &&& a.inner@ == (ProcessView {
                tasks: c.inner.tasks@.push(Some(task)),
                ..c.inner@
            })
        },
        spawned matches LaunchAction::Finish { process: a, .. } && a == c,
        final(p).inner@ == old(p).inner@,
        final(q).inner@ == old(q).inner@,
{
}

} // verus!
