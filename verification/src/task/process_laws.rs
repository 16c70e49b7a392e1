//! What holds of a process over any run of calls on it.
use vstd::prelude::*;
use crate::config::PAGE_SIZE;
use crate::task::deadlock::DeadlockDetector;
use crate::task::id::{law_alloc_is_fresh, AllocatorView, PidHandle, RecycleAllocator};
use crate::task::launch::{
    exec_step, fork_step, spawn_step, ExecAction, ExecEvent, ForkAction, ForkEvent, LaunchAction,
    LaunchEvent,
};
use crate::task::process::{
    enable_step, law_alloc_fd_repeats, law_free_fd_unique, priority_step, MapRequest,
    ProcessControlBlock, ProcessControlBlockInner, ProcessView, UnmapRequest,
};
use crate::task::thread::TaskControlBlock;

verus! {

/// A call on a process, with its arguments and its result.
pub enum ProcessCall<'a> {
    /// `exec`, for one event.
    Exec {
        elf_data: &'a [u8],
        args: Seq<Seq<u8>>,
        event: ExecEvent,
        action: ExecAction<'a>,
    },
    /// `fork`, for one event.
    Fork { event: ForkEvent, action: ForkAction },
    /// `spawn`, for one event.
    Spawn { elf_data: &'a [u8], event: LaunchEvent, action: LaunchAction<'a> },
    /// `enable_deadlock_detection`.
    EnableDetection { is_enable: isize, r: isize },
    /// `set_priority`.
    SetPriority { priority: isize, r: Option<isize> },
    /// `inner_exclusive_access`, and anything that is done through what it gives.
    Access,
    /// `mmap`, `munmap` or `getpid`, which only look at the process.
    Look,
}

impl<'a> ProcessCall<'a> {
    /// The call on `before` leaves `after`.
    pub open spec fn step(self, before: ProcessControlBlock, after: ProcessControlBlock) -> bool {
        match self {
            ProcessCall::Exec { elf_data, args, event, action } => exec_step(
                before,
                elf_data,
                args,
                event,
                after,
                action,
            ),
            ProcessCall::Fork { event, action } => fork_step(before, event, after, action),
            ProcessCall::Spawn { elf_data, event, action } => spawn_step(
                before,
                elf_data,
                event,
                after,
                action,
            ),
            ProcessCall::EnableDetection { is_enable, r } => enable_step(
                before,
                is_enable,
                after,
                r,
            ),
            ProcessCall::SetPriority { priority, r } => priority_step(before, priority, after, r),
            ProcessCall::Access => after.pid == before.pid,
            ProcessCall::Look => after == before,
        }
    }

    /// The pid that the call is handed for a child: a new one, or the one of a child that was
    /// given its thread.
    pub open spec fn handed_pid(self) -> Option<PidHandle> {
        match self {
            ProcessCall::Fork { event, .. } => match event {
                ForkEvent::Start => None,
                ForkEvent::Copied { pid, .. } => Some(pid),
                ForkEvent::TaskCreated { child, .. } => Some(child.pid),
            },
            ProcessCall::Spawn { event, .. } => match event {
                LaunchEvent::Start => None,
                LaunchEvent::Loaded { pid, .. } => Some(pid),
                LaunchEvent::TaskCreated { process, .. } => Some(process.pid),
            },
            _ => None,
        }
    }

    /// The child that the call gives.
    pub open spec fn child(self) -> Option<ProcessControlBlock> {
        match self {
            ProcessCall::Fork { action, .. } => match action {
                ForkAction::Copy { .. } => None,
                ForkAction::CreateTask { child, .. } => Some(child),
                ForkAction::Finish { child, .. } => Some(child),
            },
            ProcessCall::Spawn { action, .. } => match action {
                LaunchAction::Load { .. } => None,
                LaunchAction::CreateTask { process, .. } => Some(process),
                LaunchAction::Finish { process, .. } => Some(process),
            },
            _ => None,
        }
    }
}

/// A process goes through `states`: each of `calls` leads from one state to the next.
pub open spec fn is_history(states: Seq<ProcessControlBlock>, calls: Seq<ProcessCall>) -> bool {
    &&& states.len() == calls.len() + 1
    &&& forall|i: int|
        0 <= i < calls.len() ==> (#[trigger] calls[i]).step(states[i], states[i + 1])
}

/// The pid of a process is immutable: whatever is called on the process, it has the pid that it
/// had at first.
pub proof fn law_pid_is_immutable(
    states: Seq<ProcessControlBlock>,
    calls: Seq<ProcessCall>,
    i: int,
)
    requires
        is_history(states, calls),
        0 <= i < states.len(),
    ensures
        states[i].pid == states[0].pid,
    decreases i,
{
    if i > 0 {
        law_pid_is_immutable(states, calls, i - 1);
        assert(calls[i - 1].step(states[i - 1], states[i]));
    }
}

/// A process that is well formed at first stays so, whatever is called on it, as long as nothing
/// is done to its inner state directly.
pub proof fn law_stays_well_formed(
    states: Seq<ProcessControlBlock>,
    calls: Seq<ProcessCall>,
    i: int,
)
    requires
        is_history(states, calls),
        forall|k: int| 0 <= k < calls.len() ==> !((#[trigger] calls[k]) is Access),
        states[0].wf(),
        0 <= i < states.len(),
    ensures
        states[i].wf(),
    decreases i,
{
    if i > 0 {
        law_stays_well_formed(states, calls, i - 1);
        assert(calls[i - 1].step(states[i - 1], states[i]));
    }
}

/// A fork or a spawn gives a child exactly where it is handed a pid for one, and the child has
/// that pid. Where the pid is not the one of the process, the child's pid differs from the one
/// that the process has at any time.
pub proof fn law_child_pid_differs(
    states: Seq<ProcessControlBlock>,
    calls: Seq<ProcessCall>,
    i: int,
    j: int,
)
    requires
        is_history(states, calls),
        0 <= i < calls.len(),
        0 <= j < states.len(),
    ensures
        calls[i].child() is Some <==> calls[i].handed_pid() is Some,
        calls[i].child() matches Some(c) ==> {
            &&& calls[i].handed_pid() == Some(c.pid)
            &&& calls[i].handed_pid() != Some(states[0].pid) ==> c.pid != states[j].pid
        },
{
    assert(calls[i].step(states[i], states[i + 1]));
    law_pid_is_immutable(states, calls, j);
}

/// While a process holds its pid, no child of it gets that pid: if the pid of the process is in
/// use where pids are allocated, the pid allocated next for a child is another one.
pub proof fn law_child_pid_is_new(
    pids: AllocatorView,
    states: Seq<ProcessControlBlock>,
    calls: Seq<ProcessCall>,
    i: int,
    j: int,
)
    requires
        is_history(states, calls),
        0 <= i < calls.len(),
        0 <= j < states.len(),
        pids.consistent(),
        pids.has_next(),
        pids.is_live(states[0].pid.0),
        calls[i].handed_pid() == Some(PidHandle(pids.next())),
    ensures
        calls[i].child() matches Some(c) && c.pid != states[j].pid,
{
    law_alloc_is_fresh(pids);
    law_child_pid_differs(states, calls, i, j);
}

/// The state of a process that the contracts speak of leaves out no field of it: it has each one
/// as it is, each list item for item.
pub proof fn law_state_has_every_field(p: ProcessControlBlock)
    ensures
        p.state() == p.inner@,
        p.state().is_zombie == p.inner.is_zombie,
        p.state().memory_set == p.inner.memory_set,
        p.state().parent == p.inner.parent,
        p.state().children == p.inner.children@,
        p.state().exit_code == p.inner.exit_code,
        p.state().fd_table == p.inner.fd_table@,
        p.state().signals == p.inner.signals,
        p.state().tasks == p.inner.tasks@,
        p.state().mutex_list == p.inner.mutex_list@,
        p.state().semaphore_list == p.inner.semaphore_list@,
        p.state().condvar_list == p.inner.condvar_list@,
        p.state().priority == p.inner.priority,
        p.state().task_ids == p.inner.task_res_allocator@,
        p.state().detector == p.inner.detector@,
{
}

/// The file descriptor that is given has no file, and every lower one has. The table keeps its
/// entries, grows by one without a file only if every entry had one, and nothing else changes;
/// and asking again gives the same file descriptor.
pub proof fn law_lowest_free_fd(
    p: &mut ProcessControlBlockInner,
    q: &mut ProcessControlBlockInner,
    fd: usize,
    again: usize,
    i: int,
)
    requires
        call_ensures(ProcessControlBlockInner::alloc_fd, (p,), fd),
        *old(q) == *final(p),
        call_ensures(ProcessControlBlockInner::alloc_fd, (q,), again),
    ensures
        fd < final(p).fd_table@.len(),
        final(p).fd_table@[fd as int] is None,
        0 <= i < fd ==> final(p).fd_table@[i] is Some,
        0 <= i < old(p).fd_table@.len() ==> final(p).fd_table@[i] == old(p).fd_table@[i],
        fd < old(p).fd_table@.len() ==> final(p).fd_table@.len() == old(p).fd_table@.len(),
        fd >= old(p).fd_table@.len() ==> {
            &&& fd == old(p).fd_table@.len()
            &&& final(p).fd_table@.len() == fd + 1
        },
        final(p)@ == (ProcessView { fd_table: final(p)@.fd_table, ..old(p)@ }),
        again == fd,
        final(q)@ == old(q)@,
{
    let v = old(p)@;
    let w = final(p)@;
    assert(v.is_free_fd(fd as int));
    if fd < v.fd_table.len() {
        assert(w == v);
    } else {
        assert(w.fd_table == v.fd_table.push(None));
        law_alloc_fd_repeats(v, fd as int);
    }
    assert(w.is_free_fd(fd as int));
    law_free_fd_unique(w, fd as int, again as int);
    if 0 <= i < fd {
        assert(w.fd_table[i] is Some);
    }
}

/// Task ids come from the allocator of the process and go back to it, and nothing else changes.
pub proof fn law_task_ids(
    p: &mut ProcessControlBlockInner,
    q: &mut ProcessControlBlockInner,
    a: &mut RecycleAllocator,
    b: &mut RecycleAllocator,
    tid: usize,
    id: usize,
    back: usize,
)
    requires
        call_ensures(ProcessControlBlockInner::alloc_tid, (p,), tid),
        *old(a) == old(p).task_res_allocator,
        call_ensures(RecycleAllocator::alloc_id, (a,), id),
        call_ensures(ProcessControlBlockInner::dealloc_tid, (q, back), ()),
        *old(b) == old(q).task_res_allocator,
        call_ensures(RecycleAllocator::dealloc_id, (b, back), ()),
    ensures
        tid == id,
        final(p)@ == (ProcessView { task_ids: final(a)@, ..old(p)@ }),
        final(q)@ == (ProcessView { task_ids: final(b)@, ..old(q)@ }),
{
}

/// What a process tells of itself: the token of its address space, how many threads it lists,
/// the thread that it lists under an id, and its pid.
pub proof fn law_looks(
    p: ProcessControlBlock,
    tid: usize,
    token: usize,
    count: usize,
    task: TaskControlBlock,
    pid: usize,
)
    requires
        call_ensures(ProcessControlBlockInner::get_user_token, (&p.inner,), token),
        call_ensures(ProcessControlBlockInner::thread_count, (&p.inner,), count),
        call_ensures(ProcessControlBlockInner::get_task, (&p.inner, tid), task),
        call_ensures(ProcessControlBlock::getpid, (&p,), pid),
    ensures
        token == p.inner.memory_set.token,
        count == p.inner.tasks@.len(),
        p.inner.tasks@[tid as int] == Some(task),
        p.pid == PidHandle(pid),
{
}

/// A process asks its own detector, and nobody else's, with just the arguments it was given; it
/// answers what the detector answers, and only the detector changes.
pub proof fn law_process_asks_its_detector(
    p: &mut ProcessControlBlockInner,
    q: &mut ProcessControlBlockInner,
    s: &mut ProcessControlBlockInner,
    d: &mut DeadlockDetector,
    e: &mut DeadlockDetector,
    f: &mut DeadlockDetector,
    tid: isize,
    id: isize,
    count: isize,
    init: isize,
    lock: isize,
    release: isize,
    d_init: isize,
    d_lock: isize,
    d_release: isize,
)
    requires
        call_ensures(ProcessControlBlockInner::init_mutex_list, (p, id, count), init),
        *old(d) == old(p).detector,
        call_ensures(DeadlockDetector::init_mutex_list, (d, id, count), d_init),
        call_ensures(ProcessControlBlockInner::try_lock, (q, tid, id, count), lock),
        *old(e) == old(q).detector,
        call_ensures(DeadlockDetector::try_lock, (e, tid, id, count), d_lock),
        call_ensures(ProcessControlBlockInner::mutex_release, (s, tid, id, count), release),
        *old(f) == old(s).detector,
        call_ensures(DeadlockDetector::mutex_release, (f, tid, id, count), d_release),
    ensures
        init == d_init,
        final(p)@ == (ProcessView { detector: final(d)@, ..old(p)@ }),
        lock == d_lock,
        final(q)@ == (ProcessView { detector: final(e)@, ..old(q)@ }),
        release == d_release,
        final(s)@ == (ProcessView { detector: final(f)@, ..old(s)@ }),
{
}

/// Detection is switched by 0 and 1, which are answered 0, and by nothing else, which is answered
/// -1. What the detector knows stays, and so does everything else of the process.
pub proof fn law_detection_switch(p: &mut ProcessControlBlock, is_enable: isize, r: isize)
    requires
        call_ensures(ProcessControlBlock::enable_deadlock_detection, (p, is_enable), r),
    ensures
        is_enable == 0 || is_enable == 1 ==> r == 0 && final(p).inner.detector@.mode == is_enable,
        is_enable < 0 || is_enable > 1 ==> r == -1 && final(p).inner.detector@.mode == old(
            p,
        ).inner.detector@.mode,
        final(p).inner.detector@.available == old(p).inner.detector@.available,
        final(p).inner.detector@.grants == old(p).inner.detector@.grants,
        final(p).inner.detector@.need == old(p).inner.detector@.need,
        final(p).inner.detector@.finished == old(p).inner.detector@.finished,
        final(p).inner@ == (ProcessView {
            detector: final(p).inner.detector@,
            ..old(p).inner@
        }),
        final(p).pid == old(p).pid,
{
}

/// A priority from 2 on is taken and given back; a lower one is not taken, and the priority
/// stays. Nothing else changes.
pub proof fn law_priority(p: &mut ProcessControlBlock, priority: isize, r: Option<isize>)
    requires
        call_ensures(ProcessControlBlock::set_priority, (p, priority), r),
    ensures
        priority >= 2 ==> r == Some(priority) && final(p).inner.priority == priority,
        priority <= 1 ==> r is None && final(p).inner.priority == old(p).inner.priority,
        final(p).inner@ == (ProcessView { priority: final(p).inner.priority, ..old(p).inner@ }),
        final(p).pid == old(p).pid,
{
}

/// Access to what is inside a process is access to all of it and to nothing else.
pub proof fn law_access(p: &mut ProcessControlBlock, inner: &mut ProcessControlBlockInner)
    requires
        call_ensures(ProcessControlBlock::inner_exclusive_access, (p,), inner),
    ensures
        *old(inner) == old(p).inner,
        *final(inner) == final(p).inner,
        final(p).pid == old(p).pid,
{
}

/// A request to map is of the address space of the process, from the first byte to behind the
/// last one, open to the user (16), and readable (2), writable (4) or executable (8) just as the
/// bits of `port` that count for 1, 2 and 4 say; the other bits of `port` do not matter.
pub proof fn law_map_request(
    p: ProcessControlBlock,
    start: usize,
    len: usize,
    port: usize,
    r: Option<MapRequest>,
)
    requires
        start + len <= usize::MAX,
        call_ensures(ProcessControlBlock::mmap, (&p, start, len, port), r),
    ensures
        r matches Some(m) && {
            &&& m.memory_set == p.inner.memory_set
            &&& m.start.0 == start
            &&& m.end.0 == start + len
            &&& m.permission.bits == 16 + (if port % 2 == 1 {
                2int
            } else {
                0
            }) + (if (port / 2) % 2 == 1 {
                4int
            } else {
                0
            }) + (if (port / 4) % 2 == 1 {
                8int
            } else {
                0
            })
        },
{
}

/// A request to unmap is of the address space of the process, and of just the pages that hold a
/// byte of the area: the first one holds the first byte, and the one before the end holds the
/// last byte.
pub proof fn law_unmap_request(
    p: ProcessControlBlock,
    start: usize,
    len: usize,
    r: UnmapRequest,
)
    requires
        start + len <= usize::MAX,
        call_ensures(ProcessControlBlock::munmap, (&p, start, len), r),
    ensures
        r.memory_set == p.inner.memory_set,
        r.start.0 * PAGE_SIZE <= start < r.start.0 * PAGE_SIZE + PAGE_SIZE,
        start + len <= r.end.0 * PAGE_SIZE < start + len + PAGE_SIZE,
{
}

} // verus!
