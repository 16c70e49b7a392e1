//! Creating a process and giving it a new program.
//!
//! Both take turns with work that only the rest of the kernel can do: building address spaces,
//! allocating pids and kernel stacks, writing user memory. [`ProcessControlBlock::new`],
//! [`ProcessControlBlock::fork`], [`ProcessControlBlock::spawn`] and
//! [`ProcessControlBlock::exec`] are therefore called once for each event, from `Start` on, and
//! each call says what is to be done next.
use vstd::prelude::*;
use crate::bytes::{lemma_word_size, word_size};
use crate::fs::FileHandle;
use crate::mm::MemorySet;
use crate::task::id::PidHandle;
use crate::task::process::{std_fds, ProcessControlBlock, ProcessControlBlockInner, ProcessView};
use crate::task::thread::{TaskControlBlock, TaskUserRes, TrapTarget, UserEntry};
use crate::task::user_stack::{
    arg_addr, arg_bytes, argv_size, argv_slot, argv_start, holds_string, holds_word,
    law_args_read_back, law_stack_pointer_aligned, push_args, stack_low, stack_need,
    stack_pointer, store_all, user_writes, Memory, UserWrite,
};

verus! {

/// What has happened on the way to a new process that runs a program.
pub enum LaunchEvent {
    /// Nothing yet.
    Start,
    /// An address space was built from the program, and a pid was allocated.
    Loaded { memory_set: MemorySet, ustack_base: usize, entry_point: usize, pid: PidHandle },
    /// The main thread of `process` was created. `ustack_top` is the top of its user stack;
    /// `trap_cx_ppn` is the page that its user resources set aside for its trap context;
    /// `ustack_base` and `entry_point` are those of the action `CreateTask`.
    TaskCreated {
        process: ProcessControlBlock,
        task: TaskControlBlock,
        ustack_top: usize,
        trap_cx_ppn: usize,
        ustack_base: usize,
        entry_point: usize,
        target: TrapTarget,
    },
}

/// What is to be done next for a new process that runs a program.
pub enum LaunchAction<'a> {
    /// Build an address space from the program, then allocate a pid.
    Load { elf_data: &'a [u8] },
    /// Create a main thread of `process` whose user stacks start at `ustack_base`, with user
    /// resources of its own if `alloc_user_res` says so.
    CreateTask {
        process: ProcessControlBlock,
        ustack_base: usize,
        alloc_user_res: bool,
        entry_point: usize,
    },
    /// Fill in the trap context of `task` from `entry` and make `process` known under its pid.
    /// Then, if `schedule` says so, add `task` to the scheduler. The call is over.
    Finish {
        process: ProcessControlBlock,
        task: TaskControlBlock,
        entry: UserEntry,
        schedule: bool,
    },
}

/// What has happened on the way to a copy of a process.
pub enum ForkEvent {
    /// Nothing yet.
    Start,
    /// The address space was copied, and a pid was allocated.
    Copied { memory_set: MemorySet, pid: PidHandle },
    /// The main thread of `child` was created.
    TaskCreated { child: ProcessControlBlock, task: TaskControlBlock },
}

/// What is to be done next for a copy of a process.
pub enum ForkAction {
    /// Copy the user address space `memory_set`, then allocate a pid.
    Copy { memory_set: MemorySet },
    /// Create a main thread of `child` whose user stacks start at `ustack_base`, with user
    /// resources of its own if `alloc_user_res` says so.
    CreateTask { child: ProcessControlBlock, ustack_base: usize, alloc_user_res: bool },
    /// Set the kernel stack pointer in the trap context of `task` to `kernel_sp`, make `child`
    /// known under its pid, and add `task` to the scheduler. The call is over.
    Finish { child: ProcessControlBlock, task: TaskControlBlock, kernel_sp: usize },
}

/// What has happened on the way to a new program in an existing process.
pub enum ExecEvent {
    /// Nothing yet.
    Start,
    /// An address space was built from the program.
    Loaded { memory_set: MemorySet, ustack_base: usize, entry_point: usize },
    /// The user resources of the main thread were allocated in the new address space:
    /// `trap_cx_ppn` is the page set aside for its trap context, `ustack_top` the top of its user
    /// stack. `entry_point` is that of the action `AllocUserRes`.
    ResAllocated {
        trap_cx_ppn: usize,
        ustack_top: usize,
        entry_point: usize,
        target: TrapTarget,
    },
}

/// What is to be done next for a new program in an existing process.
pub enum ExecAction<'a> {
    /// Build an address space from the program.
    Load { elf_data: &'a [u8] },
    /// Allocate the user resources of thread `tid` again, in the new address space.
    AllocUserRes { tid: usize, entry_point: usize },
    /// Make the stores `writes` in the address space `token`, then replace the trap context of
    /// thread 0 by one made from `entry`. The call is over.
    Finish { token: usize, writes: Vec<UserWrite>, entry: UserEntry },
}

/// A copy of a file descriptor table.
fn copy_fd_table(fd_table: &Vec<Option<FileHandle>>) -> (copy: Vec<Option<FileHandle>>)
    ensures
        copy@ == fd_table@,
{
    let mut copy: Vec<Option<FileHandle>> = Vec::new();
    let mut i: usize = 0;
    while i < fd_table.len()
        invariant
            i <= fd_table.len(),
            copy@ == fd_table@.take(i as int),
        decreases fd_table.len() - i,
    {
        if let Some(file) = fd_table[i] {
            copy.push(Some(file));
        } else {
            copy.push(None);
        }
        i += 1;
        assert(copy@ =~= fd_table@.take(i as int));
    }
    assert(copy@ =~= fd_table@);
    copy
}

/// `process` is new: it has pid `pid`, no thread and no child.
pub open spec fn is_fresh(
    process: ProcessControlBlock,
    pid: PidHandle,
    memory_set: MemorySet,
    parent: Option<usize>,
    fd_table: Seq<Option<FileHandle>>,
) -> bool {
    &&& process.wf()
    &&& process.pid == pid
    &&& process.state() == ProcessView::fresh(memory_set, parent, fd_table)
}

/// `after` is `before` with one more thread, `task`.
pub open spec fn gained_task(
    before: ProcessControlBlock,
    after: ProcessControlBlock,
    task: TaskControlBlock,
) -> bool {
    &&& after.wf() == before.wf()
    &&& after.pid == before.pid
    &&& after.state() == (ProcessView {
        tasks: before.state().tasks.push(Some(task)),
        ..before.state()
    })
}

/// `after` is `before` with one more child, of pid `pid`.
pub open spec fn gained_child(
    before: ProcessControlBlock,
    after: ProcessControlBlock,
    pid: usize,
) -> bool {
    &&& after.wf() == before.wf()
    &&& after.pid == before.pid
    &&& after.state() == (ProcessView {
        children: before.state().children.push(pid),
        ..before.state()
    })
}

/// Nothing changed from `before` to `after`.
pub open spec fn unchanged(before: ProcessControlBlock, after: ProcessControlBlock) -> bool {
    &&& after.wf() == before.wf()
    &&& after.pid == before.pid
    &&& after.state() == before.state()
}

/// What [`ProcessControlBlock::new`] does with `event`.
pub open spec fn new_step(elf_data: &[u8], event: LaunchEvent, action: LaunchAction) -> bool {
    match event {
        LaunchEvent::Start => action == (LaunchAction::Load { elf_data }),
        LaunchEvent::Loaded { memory_set, ustack_base, entry_point, pid } => {
            &&& action matches LaunchAction::CreateTask {
                process,
                ustack_base: base,
                alloc_user_res,
                entry_point: entry,
            }
            &&& is_fresh(process, pid, memory_set, None, std_fds())
            &&& base == ustack_base
            &&& alloc_user_res
            &&& entry == entry_point
        },
        LaunchEvent::TaskCreated { process: p, task: t, ustack_top, entry_point, target, .. } => {
            &&& action matches LaunchAction::Finish { process, task, entry, schedule }
            &&& gained_task(p, process, t)
            &&& task == t
            &&& entry == (UserEntry {
                entry_point,
                user_sp: ustack_top,
                kernel_sp: t.kstack_top,
                target,
                x10: None,
                x11: None,
            })
            &&& schedule
        },
    }
}

/// What [`ProcessControlBlock::spawn`] does with `event` on `before`, which leaves `after`.
pub open spec fn spawn_step(
    before: ProcessControlBlock,
    elf_data: &[u8],
    event: LaunchEvent,
    after: ProcessControlBlock,
    action: LaunchAction,
) -> bool {
    match event {
        LaunchEvent::Start => {
            &&& action == (LaunchAction::Load { elf_data })
            &&& unchanged(before, after)
        },
        LaunchEvent::Loaded { memory_set, ustack_base, entry_point, pid } => {
            &&& action matches LaunchAction::CreateTask {
                process,
                ustack_base: base,
                alloc_user_res,
                entry_point: entry,
            }
            &&& is_fresh(
                process,
                pid,
                memory_set,
                Some(before.pid.0),
                before.state().fd_table,
            )
            &&& base == ustack_base
            &&& alloc_user_res
            &&& entry == entry_point
            &&& gained_child(before, after, pid.0)
        },
        LaunchEvent::TaskCreated {
            process: p,
            task: t,
            trap_cx_ppn,
            ustack_base,
            entry_point,
            target,
            ..
        } => {
            &&& action matches LaunchAction::Finish { process, task, entry, schedule }
            &&& process == p
            &&& task == (TaskControlBlock { trap_cx_ppn, ..t })
            &&& entry == (UserEntry {
                entry_point,
                user_sp: ustack_base,
                kernel_sp: t.kstack_top,
                target,
                x10: None,
                x11: None,
            })
            &&& !schedule
            &&& unchanged(before, after)
        },
    }
}

/// What [`ProcessControlBlock::fork`] does with `event` on `before`, which leaves `after`.
pub open spec fn fork_step(
    before: ProcessControlBlock,
    event: ForkEvent,
    after: ProcessControlBlock,
    action: ForkAction,
) -> bool {
    match event {
        ForkEvent::Start => {
            &&& action == (ForkAction::Copy { memory_set: before.state().memory_set })
            &&& unchanged(before, after)
        },
        ForkEvent::Copied { memory_set, pid } => {
            &&& action matches ForkAction::CreateTask { child, ustack_base, alloc_user_res }
            &&& is_fresh(child, pid, memory_set, Some(before.pid.0), before.state().fd_table)
            &&& ustack_base == before.state().tasks[0]->0.res->0.ustack_base
            &&& !alloc_user_res
            &&& gained_child(before, after, pid.0)
        },
        ForkEvent::TaskCreated { child: c, task: t } => {
            &&& action matches ForkAction::Finish { child, task, kernel_sp }
            &&& gained_task(c, child, t)
            &&& task == t
            &&& kernel_sp == t.kstack_top
            &&& unchanged(before, after)
        },
    }
}

/// What [`ProcessControlBlock::exec`] does with `event` on `before`, which leaves `after`.
pub open spec fn exec_step(
    before: ProcessControlBlock,
    elf_data: &[u8],
    args: Seq<Seq<u8>>,
    event: ExecEvent,
    after: ProcessControlBlock,
    action: ExecAction,
) -> bool {
    &&& after.wf() == before.wf()
    &&& after.pid == before.pid
    &&& match event {
        ExecEvent::Start => {
            &&& action == (ExecAction::Load { elf_data })
            &&& after.state() == before.state()
        },
        ExecEvent::Loaded { memory_set, ustack_base, entry_point } => {
            &&& action == (ExecAction::AllocUserRes { tid: 0, entry_point })
            &&& after.state() == (ProcessView {
                memory_set,
                tasks: seq![
                    Some(
                        TaskControlBlock {
                            res: Some(TaskUserRes { ustack_base }),
                            ..before.state().tasks[0]->0
                        },
                    ),
                ],
                ..before.state()
            })
        },
        ExecEvent::ResAllocated { trap_cx_ppn, ustack_top, entry_point, target } => {
            &&& action matches ExecAction::Finish { token, writes, entry }
            &&& token == before.state().memory_set.token
            &&& writes@ == user_writes(args, ustack_top as int)
            &&& entry == (UserEntry {
                entry_point,
                user_sp: stack_pointer(args, ustack_top as int) as usize,
                kernel_sp: before.state().tasks[0]->0.kstack_top,
                target,
                x10: Some(args.len() as usize),
                x11: Some(argv_start(args, ustack_top as int) as usize),
            })
            &&& after.state() == (ProcessView {
                tasks: seq![Some(TaskControlBlock { trap_cx_ppn, ..before.state().tasks[0]->0 })],
                ..before.state()
            })
        },
    }
}

impl ProcessControlBlock {
    /// new process from elf file
    pub fn new<'a>(elf_data: &'a [u8], event: LaunchEvent) -> (action: LaunchAction<'a>)
        ensures
            new_step(elf_data, event, action),
    {
        match event {
            LaunchEvent::Start => LaunchAction::Load { elf_data },
            LaunchEvent::Loaded { memory_set, ustack_base, entry_point, pid } => {
                let fd_table = vec![
                    // 0 -> stdin
                    Some(FileHandle::Stdin),
                    // 1 -> stdout
                    Some(FileHandle::Stdout),
                    // 2 -> stderr
                    Some(FileHandle::Stdout),
                ];
                assert(fd_table@ =~= std_fds());
                let process = ProcessControlBlock {
                    pid,
                    inner: ProcessControlBlockInner::new(memory_set, None, fd_table),
                };
                // create a main thread, we should allocate ustack and trap_cx here
                LaunchAction::CreateTask { process, ustack_base, alloc_user_res: true, entry_point }
            },
            LaunchEvent::TaskCreated { process, task, ustack_top, entry_point, target, .. } => {
                let mut process = process;
                // add main thread to the process
                process.inner.tasks.push(Some(task));
                LaunchAction::Finish {
                    process,
                    task,
                    entry: UserEntry {
                        entry_point,
                        user_sp: ustack_top,
                        kernel_sp: task.kstack_top,
                        target,
                        x10: None,
                        x11: None,
                    },
                    schedule: true,
                }
            },
        }
    }

    /// Gives the process a new program that starts with `args`.
    ///
    /// Only support processes with a single thread.
    pub fn exec<'a>(
        &mut self,
        elf_data: &'a [u8],
        args: &Vec<String>,
        event: ExecEvent,
    ) -> (action: ExecAction<'a>)
        requires
            old(self).state().single_threaded(),
            event matches ExecEvent::ResAllocated { ustack_top, .. } ==> stack_need(
                arg_bytes(args@),
            ) <= ustack_top,
        ensures
            exec_step(*old(self), elf_data, arg_bytes(args@), event, *final(self), action),
    {
        match event {
            ExecEvent::Start => ExecAction::Load { elf_data },
            ExecEvent::Loaded { memory_set, ustack_base, entry_point } => {
                // substitute memory_set
                self.inner.memory_set = memory_set;
                // then we alloc user resource for main thread again
                // since memory_set has been changed
                let mut task = self.inner.get_task(0);
                task.res = Some(TaskUserRes { ustack_base });
                self.inner.tasks[0] = Some(task);
                assert(self.inner.tasks@ =~= seq![Some(task)]);
                ExecAction::AllocUserRes { tid: 0, entry_point }
            },
            ExecEvent::ResAllocated { trap_cx_ppn, ustack_top, entry_point, target } => {
                let mut task = self.inner.get_task(0);
                task.trap_cx_ppn = trap_cx_ppn;
                self.inner.tasks[0] = Some(task);
                assert(self.inner.tasks@ =~= seq![Some(task)]);
                // push arguments on user stack
                let stack = push_args(args, ustack_top);
                ExecAction::Finish {
                    token: self.inner.get_user_token(),
                    writes: stack.writes,
                    entry: UserEntry {
                        entry_point,
                        user_sp: stack.user_sp,
                        kernel_sp: task.kstack_top,
                        target,
                        x10: Some(args.len()),
                        x11: Some(stack.argv_base),
                    },
                }
            },
        }
    }

    /// A copy of the process.
    ///
    /// Only support processes with a single thread.
    pub fn fork(&mut self, event: ForkEvent) -> (action: ForkAction)
        requires
            old(self).state().single_threaded(),
        ensures
            fork_step(*old(self), event, *final(self), action),
    {
        match event {
            ForkEvent::Start => ForkAction::Copy { memory_set: self.inner.memory_set },
            ForkEvent::Copied { memory_set, pid } => {
                // copy fd table
                let fd_table = copy_fd_table(&self.inner.fd_table);
                // create child process pcb
                let child = ProcessControlBlock {
                    pid,
                    inner: ProcessControlBlockInner::new(
                        memory_set,
                        Some(self.getpid()),
                        fd_table,
                    ),
                };
                // add child
                self.inner.children.push(child.getpid());
                let ustack_base = self.inner.get_task(0).res.unwrap().ustack_base;
                // here we do not allocate trap_cx or ustack again
                ForkAction::CreateTask { child, ustack_base, alloc_user_res: false }
            },
            ForkEvent::TaskCreated { child, task } => {
                let mut child = child;
                // attach task to child process
                child.inner.tasks.push(Some(task));
                ForkAction::Finish { child, task, kernel_sp: task.kstack_top }
            },
        }
    }

    /// A new child process from an elf file.
    ///
    /// The child is made known, and the trap context of its thread is filled in, but the thread
    /// is neither listed among the child's tasks nor scheduled.
    pub fn spawn<'a>(&mut self, elf_data: &'a [u8], event: LaunchEvent) -> (action: LaunchAction<
        'a,
    >)
        ensures
            spawn_step(*old(self), elf_data, event, *final(self), action),
    {
        match event {
            LaunchEvent::Start => LaunchAction::Load { elf_data },
            LaunchEvent::Loaded { memory_set, ustack_base, entry_point, pid } => {
                let fd_table = copy_fd_table(&self.inner.fd_table);
                let process = ProcessControlBlock {
                    pid,
                    inner: ProcessControlBlockInner::new(
                        memory_set,
                        Some(self.getpid()),
                        fd_table,
                    ),
                };
                // add child
                self.inner.children.push(process.getpid());
                LaunchAction::CreateTask { process, ustack_base, alloc_user_res: true, entry_point }
            },
            LaunchEvent::TaskCreated {
                process,
                task,
                trap_cx_ppn,
                ustack_base,
                entry_point,
                target,
                ..
            } => {
                let mut task = task;
                task.trap_cx_ppn = trap_cx_ppn;
                LaunchAction::Finish {
                    process,
                    task,
                    entry: UserEntry {
                        entry_point,
                        user_sp: ustack_base,
                        kernel_sp: task.kstack_top,
                        target,
                        x10: None,
                        x11: None,
                    },
                    schedule: false,
                }
            },
        }
    }
}

/// `after` is `before` but for the task ids that were handed out in it: creating a thread hands
/// one out.
pub open spec fn only_task_ids_differ(
    before: ProcessControlBlock,
    after: ProcessControlBlock,
) -> bool {
    &&& after.pid == before.pid
    &&& after.state() == (ProcessView { task_ids: after.state().task_ids, ..before.state() })
}

/// A first process ends up with standard input, output and error, with no parent and no child,
/// and with the one thread that was created for it; the thread is scheduled, and starts the
/// program at its entry point on its own user stack. If creating the thread leaves the process
/// well formed, it ends up well formed.
pub proof fn law_new_process(
    elf_data: &[u8],
    memory_set: MemorySet,
    ustack_base: usize,
    entry_point: usize,
    pid: PidHandle,
    create: LaunchAction,
    process: ProcessControlBlock,
    task: TaskControlBlock,
    ustack_top: usize,
    trap_cx_ppn: usize,
    target: TrapTarget,
    end: LaunchAction,
)
    requires
        new_step(
            elf_data,
            LaunchEvent::Loaded { memory_set, ustack_base, entry_point, pid },
            create,
        ),
        only_task_ids_differ(create->CreateTask_process, process),
        process.wf(),
        new_step(
            elf_data,
            LaunchEvent::TaskCreated {
                process,
                task,
                ustack_top,
                trap_cx_ppn,
                ustack_base: create->CreateTask_ustack_base,
                entry_point: create->CreateTask_entry_point,
                target,
            },
            end,
        ),
    ensures
        end matches LaunchAction::Finish { process: p, task: t, entry, schedule } && {
            &&& p.wf()
            &&& p.pid == pid
            &&& p.state() == (ProcessView {
                tasks: seq![Some(task)],
                task_ids: process.state().task_ids,
                ..ProcessView::fresh(memory_set, None, std_fds())
            })
            &&& t == task
            &&& entry == (UserEntry {
                entry_point,
                user_sp: ustack_top,
                kernel_sp: task.kstack_top,
                target,
                x10: None,
                x11: None,
            })
            &&& schedule
        },
{
    let p = end->Finish_process;
    assert(p.state().tasks =~= seq![Some(task)]);
}

/// A fork asks for a copy of the process's own address space and leaves the process as it was
/// but for one more child. The child ends up with the copy, with the same files, with the
/// process as its parent, and with the one thread that was created for it, whose user stacks
/// start where those of the process do; it has no child, default priority, and deadlock
/// detection off. Its pid is the one that was allocated for it; if that is not the pid of the
/// process, the two differ. If creating the thread leaves the child well formed, it ends up well
/// formed.
pub proof fn law_fork(
    parent: ProcessControlBlock,
    started: ProcessControlBlock,
    linked: ProcessControlBlock,
    done: ProcessControlBlock,
    memory_set: MemorySet,
    pid: PidHandle,
    child: ProcessControlBlock,
    task: TaskControlBlock,
    copy: ForkAction,
    create: ForkAction,
    end: ForkAction,
)
    requires
        parent.state().single_threaded(),
        fork_step(parent, ForkEvent::Start, started, copy),
        fork_step(started, ForkEvent::Copied { memory_set, pid }, linked, create),
        only_task_ids_differ(create->CreateTask_child, child),
        child.wf(),
        fork_step(linked, ForkEvent::TaskCreated { child, task }, done, end),
    ensures
        copy == (ForkAction::Copy { memory_set: parent.state().memory_set }),
        create->CreateTask_ustack_base == parent.state().tasks[0]->0.res->0.ustack_base,
        gained_child(parent, done, pid.0),
        done.state().single_threaded(),
        end matches ForkAction::Finish { child: c, task: t, kernel_sp } && {
            &&& c.wf()
            &&& c.pid == pid
            &&& pid != parent.pid ==> c.pid != done.pid
            &&& c.state() == (ProcessView {
                tasks: seq![Some(task)],
                task_ids: child.state().task_ids,
                ..ProcessView::fresh(memory_set, Some(parent.pid.0), parent.state().fd_table)
            })
            &&& t == task
            &&& kernel_sp == task.kstack_top
        },
{
    let c = end->Finish_child;
    assert(c.state().tasks =~= seq![Some(task)]);
}

/// A spawn leaves the process as it was but for one more child. The child ends up with the new
/// program's address space, with the same files and with the process as its parent, but with no
/// thread in its list. Its pid is the one that was allocated for it; if that is not the pid of
/// the process, the two differ. If creating the thread leaves the child well formed, it ends up
/// well formed.
pub proof fn law_spawn(
    elf_data: &[u8],
    parent: ProcessControlBlock,
    started: ProcessControlBlock,
    linked: ProcessControlBlock,
    done: ProcessControlBlock,
    memory_set: MemorySet,
    ustack_base: usize,
    entry_point: usize,
    pid: PidHandle,
    child: ProcessControlBlock,
    task: TaskControlBlock,
    ustack_top: usize,
    trap_cx_ppn: usize,
    target: TrapTarget,
    load: LaunchAction,
    create: LaunchAction,
    end: LaunchAction,
)
    requires
        spawn_step(parent, elf_data, LaunchEvent::Start, started, load),
        spawn_step(
            started,
            elf_data,
            LaunchEvent::Loaded { memory_set, ustack_base, entry_point, pid },
            linked,
            create,
        ),
        only_task_ids_differ(create->CreateTask_process, child),
        child.wf(),
        spawn_step(
            linked,
            elf_data,
            LaunchEvent::TaskCreated {
                process: child,
                task,
                ustack_top,
                trap_cx_ppn,
                ustack_base: create->CreateTask_ustack_base,
                entry_point: create->CreateTask_entry_point,
                target,
            },
            done,
            end,
        ),
    ensures
        load == (LaunchAction::Load { elf_data }),
        gained_child(parent, done, pid.0),
        end matches LaunchAction::Finish { process: c, task: t, entry, schedule } && {
            &&& c.wf()
            &&& c.pid == pid
            &&& pid != parent.pid ==> c.pid != done.pid
            &&& c.state() == (ProcessView {
                task_ids: child.state().task_ids,
                ..ProcessView::fresh(memory_set, Some(parent.pid.0), parent.state().fd_table)
            })
            &&& c.state().tasks.len() == 0
            &&& t == (TaskControlBlock { trap_cx_ppn, ..task })
            &&& entry == (UserEntry {
                entry_point,
                user_sp: ustack_base,
                kernel_sp: task.kstack_top,
                target,
                x10: None,
                x11: None,
            })
            &&& !schedule
        },
{
}

/// An exec replaces the address space and what the main thread has in it, and nothing else of
/// the process: files, children, parent, priority and deadlock detection stay. The arguments are
/// stored in the new address space, and the program starts with their number and the place of
/// their pointers in its first two registers.
pub proof fn law_exec(
    elf_data: &[u8],
    args: Seq<Seq<u8>>,
    process: ProcessControlBlock,
    started: ProcessControlBlock,
    loaded: ProcessControlBlock,
    done: ProcessControlBlock,
    memory_set: MemorySet,
    ustack_base: usize,
    entry_point: usize,
    trap_cx_ppn: usize,
    ustack_top: usize,
    target: TrapTarget,
    load: ExecAction,
    alloc_res: ExecAction,
    end: ExecAction,
)
    requires
        process.state().single_threaded(),
        stack_need(args) <= ustack_top,
        exec_step(process, elf_data, args, ExecEvent::Start, started, load),
        exec_step(
            started,
            elf_data,
            args,
            ExecEvent::Loaded { memory_set, ustack_base, entry_point },
            loaded,
            alloc_res,
        ),
        exec_step(
            loaded,
            elf_data,
            args,
            ExecEvent::ResAllocated {
                trap_cx_ppn,
                ustack_top,
                entry_point: alloc_res->entry_point,
                target,
            },
            done,
            end,
        ),
    ensures
        load == (ExecAction::Load { elf_data }),
        loaded.state().single_threaded(),
        done.pid == process.pid,
        done.wf() == process.wf(),
        done.state().single_threaded(),
        done.state() == (ProcessView {
            memory_set,
            tasks: seq![
                Some(
                    TaskControlBlock {
                        kstack_top: process.state().tasks[0]->0.kstack_top,
                        res: Some(TaskUserRes { ustack_base }),
                        trap_cx_ppn,
                    },
                ),
            ],
            ..process.state()
        }),
        end matches ExecAction::Finish { token, writes, entry } && {
            &&& token == memory_set.token
            &&& writes@ == user_writes(args, ustack_top as int)
            &&& entry == (UserEntry {
                entry_point,
                user_sp: stack_pointer(args, ustack_top as int) as usize,
                kernel_sp: process.state().tasks[0]->0.kstack_top,
                target,
                x10: Some(args.len() as usize),
                x11: Some(argv_start(args, ustack_top as int) as usize),
            })
        },
{
}

/// A program that an exec starts finds its arguments through its first two registers: as many
/// pointers as the one says, at the place that the other names, lead to the bytes of the
/// arguments, each closed by a zero byte, and a null pointer closes the pointers. Its stack
/// pointer is aligned to a word and lies below the arguments.
pub proof fn law_exec_args_read_back(
    mem: Memory,
    elf_data: &[u8],
    args: Seq<Seq<u8>>,
    before: ProcessControlBlock,
    after: ProcessControlBlock,
    trap_cx_ppn: usize,
    ustack_top: usize,
    entry_point: usize,
    target: TrapTarget,
    end: ExecAction,
)
    requires
        stack_need(args) <= ustack_top,
        exec_step(
            before,
            elf_data,
            args,
            ExecEvent::ResAllocated { trap_cx_ppn, ustack_top, entry_point, target },
            after,
            end,
        ),
    ensures
        end matches ExecAction::Finish { writes, entry, .. } && {
            let m = store_all(mem, writes@);
            let argv = entry.x11->0 as int;
            let w = word_size() as int;
            &&& entry.x10->0 == args.len()
            &&& forall|i: int|
                0 <= i < args.len() ==> {
                    &&& holds_word(m, argv + #[trigger] (i * w), arg_place(args, ustack_top, i))
                    &&& holds_string(m, arg_place(args, ustack_top, i) as int, args[i])
                }
            &&& holds_word(m, argv + args.len() * w, 0)
            &&& entry.user_sp as int % w == 0
            &&& forall|i: int|
                0 <= i < args.len() ==> entry.user_sp <= #[trigger] arg_place(args, ustack_top, i)
            &&& entry.user_sp <= argv <= ustack_top
        },
{
    let top = ustack_top as int;
    let w = word_size() as int;
    law_args_read_back(mem, args, top);
    law_stack_pointer_aligned(args, top);
    lemma_word_size();
    assert(args.len() <= argv_size(args)) by (nonlinear_arith)
        requires
            argv_size(args) == (args.len() + 1) * word_size(),
            word_size() >= 1,
    ;
    let writes = end->writes;
    let m = store_all(mem, writes@);
    assert forall|i: int| 0 <= i < args.len() implies {
        &&& holds_word(
            m,
            argv_start(args, top) + #[trigger] (i * w),
            arg_place(args, ustack_top, i),
        )
        &&& holds_string(m, arg_place(args, ustack_top, i) as int, args[i])
    } by {
        assert(holds_word(m, argv_slot(args, top, i), arg_addr(args, top, i) as usize));
        assert(holds_string(m, arg_addr(args, top, i), args[i]));
    }
    assert forall|i: int| 0 <= i < args.len() implies stack_pointer(args, top)
        <= #[trigger] arg_place(args, ustack_top, i) by {
        assert(stack_low(args, top) <= arg_addr(args, top, i));
    }
}

/// Where argument `i` is put on a stack with top `ustack_top`.
pub open spec fn arg_place(args: Seq<Seq<u8>>, ustack_top: usize, i: int) -> usize {
    arg_addr(args, ustack_top as int, i) as usize
}

} // verus!
