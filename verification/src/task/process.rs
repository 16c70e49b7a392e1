//! Process control blocks.
use vstd::prelude::*;
use crate::fs::FileHandle;
use crate::mm::{MapPermission, MemorySet, VirtAddr, VirtPageNum};
use crate::task::deadlock::{DeadlockDetector, DetectorView};
use crate::task::id::{AllocatorView, PidHandle, RecycleAllocator};
use crate::task::signal::SignalFlags;
use crate::task::thread::TaskControlBlock;

verus! {

/// The priority that a process starts with.
pub const DEFAULT_PRIORITY: usize = 16;

/// Inner of Process Control Block
#[derive(Debug)]
pub struct ProcessControlBlockInner {
    /// is zombie?
    pub is_zombie: bool,
    /// memory set(address space)
    pub memory_set: MemorySet,
    /// pid of the parent process
    pub parent: Option<usize>,
    /// pids of the children processes, oldest first
    pub children: Vec<usize>,
    /// exit code
    pub exit_code: i32,
    /// file descriptor table
    pub fd_table: Vec<Option<FileHandle>>,
    /// signal flags
    pub signals: SignalFlags,
    /// tasks(also known as threads)
    pub tasks: Vec<Option<TaskControlBlock>>,
    /// task resource allocator
    pub task_res_allocator: RecycleAllocator,
    /// numbers of the mutexes
    pub mutex_list: Vec<Option<usize>>,
    /// numbers of the semaphores
    pub semaphore_list: Vec<Option<usize>>,
    /// numbers of the condition variables
    pub condvar_list: Vec<Option<usize>>,
    /// Priority
    pub priority: usize,
    /// deadlock detection
    pub detector: DeadlockDetector,
}

/// The state of a [`ProcessControlBlockInner`].
#[verifier::ext_equal]
pub struct ProcessView {
    pub is_zombie: bool,
    pub memory_set: MemorySet,
    pub parent: Option<usize>,
    pub children: Seq<usize>,
    pub exit_code: i32,
    pub fd_table: Seq<Option<FileHandle>>,
    pub signals: SignalFlags,
    pub tasks: Seq<Option<TaskControlBlock>>,
    pub task_ids: AllocatorView,
    pub mutex_list: Seq<Option<usize>>,
    pub semaphore_list: Seq<Option<usize>>,
    pub condvar_list: Seq<Option<usize>>,
    pub priority: usize,
    pub detector: DetectorView,
}

impl ProcessView {
    /// A new process with no thread and no child, on which nobody has asked for detection.
    pub open spec fn fresh(
        memory_set: MemorySet,
        parent: Option<usize>,
        fd_table: Seq<Option<FileHandle>>,
    ) -> ProcessView {
        ProcessView {
            is_zombie: false,
            memory_set,
            parent,
            children: Seq::empty(),
            exit_code: 0,
            fd_table,
            signals: SignalFlags { bits: 0 },
            tasks: Seq::empty(),
            task_ids: AllocatorView { current: 0, recycled: Seq::empty() },
            mutex_list: Seq::empty(),
            semaphore_list: Seq::empty(),
            condvar_list: Seq::empty(),
            priority: DEFAULT_PRIORITY,
            detector: DetectorView {
                mode: 0,
                available: Map::empty(),
                grants: Seq::empty(),
                need: Map::empty(),
                finished: Map::empty(),
            },
        }
    }

    /// Thread `tid` exists.
    pub open spec fn has_task(self, tid: int) -> bool {
        0 <= tid < self.tasks.len() && self.tasks[tid] is Some
    }

    /// The process has one thread, thread 0, which has its user resources.
    pub open spec fn single_threaded(self) -> bool {
        self.tasks.len() == 1 && self.has_task(0) && self.tasks[0]->0.res is Some
    }

    /// The lowest file descriptor that is free; one past the table if none is.
    pub open spec fn is_free_fd(self, fd: int) -> bool {
        &&& 0 <= fd <= self.fd_table.len()
        &&& fd < self.fd_table.len() ==> self.fd_table[fd] is None
        &&& forall|i: int| 0 <= i < fd ==> (#[trigger] self.fd_table[i]) is Some
    }
}

/// The file descriptor table of a process that no other process made: standard input, output
/// and error.
pub open spec fn std_fds() -> Seq<Option<FileHandle>> {
    seq![Some(FileHandle::Stdin), Some(FileHandle::Stdout), Some(FileHandle::Stdout)]
}

impl View for ProcessControlBlockInner {
    type V = ProcessView;

    open spec fn view(&self) -> ProcessView {
        ProcessView {
            is_zombie: self.is_zombie,
            memory_set: self.memory_set,
            parent: self.parent,
            children: self.children@,
            exit_code: self.exit_code,
            fd_table: self.fd_table@,
            signals: self.signals,
            tasks: self.tasks@,
            task_ids: self.task_res_allocator@,
            mutex_list: self.mutex_list@,
            semaphore_list: self.semaphore_list@,
            condvar_list: self.condvar_list@,
            priority: self.priority,
            detector: self.detector@,
        }
    }
}

impl ProcessControlBlockInner {
    /// The process is well formed.
    pub open spec fn wf(&self) -> bool {
        self.task_res_allocator.wf() && self.detector.wf()
    }

    /// A new process with no thread.
    pub(crate) fn new(
        memory_set: MemorySet,
        parent: Option<usize>,
        fd_table: Vec<Option<FileHandle>>,
    ) -> (inner: ProcessControlBlockInner)
        ensures
            inner.wf(),
            inner@ == ProcessView::fresh(memory_set, parent, fd_table@),
    {
        ProcessControlBlockInner {
            is_zombie: false,
            memory_set,
            parent,
            children: Vec::new(),
            exit_code: 0,
            fd_table,
            signals: SignalFlags::empty(),
            tasks: Vec::new(),
            task_res_allocator: RecycleAllocator::new(),
            mutex_list: Vec::new(),
            semaphore_list: Vec::new(),
            condvar_list: Vec::new(),
            priority: DEFAULT_PRIORITY,
            detector: DeadlockDetector::new(),
        }
    }

    /// get the address of app's page table
    pub fn get_user_token(&self) -> (token: usize)
        ensures
            token == self@.memory_set.token,
    {
        self.memory_set.token()
    }

    /// allocate a new file descriptor
    pub fn alloc_fd(&mut self) -> (fd: usize)
        requires
            old(self).wf(),
        ensures
            final(self).wf(),
            old(self)@.is_free_fd(fd as int),
            fd < old(self)@.fd_table.len() ==> final(self)@ == old(self)@,
            fd == old(self)@.fd_table.len() ==> final(self)@ == (ProcessView {
                fd_table: old(self)@.fd_table.push(None),
                ..old(self)@
            }),
    {
        let mut fd: usize = 0;
        while fd < self.fd_table.len()
            invariant
                old(self).wf(),
                *self == *old(self),
                fd <= self.fd_table.len(),
                forall|i: int| 0 <= i < fd ==> (#[trigger] self.fd_table[i]) is Some,
            decreases self.fd_table.len() - fd,
        {
            if self.fd_table[fd].is_none() {
                return fd;
            }
            fd += 1;
        }
        self.fd_table.push(None);
        self.fd_table.len() - 1
    }

    /// allocate a new task id
    pub fn alloc_tid(&mut self) -> (tid: usize)
        requires
            old(self).wf(),
            old(self)@.task_ids.has_next(),
        ensures
            final(self).wf(),
            tid == old(self)@.task_ids.next(),
            final(self)@ == (ProcessView {
                task_ids: old(self)@.task_ids.after_alloc(),
                ..old(self)@
            }),
    {
        self.task_res_allocator.alloc_id()
    }

    /// deallocate a task id
    pub fn dealloc_tid(&mut self, tid: usize)
        requires
            old(self).wf(),
            old(self)@.task_ids.is_live(tid),
        ensures
            final(self).wf(),
            final(self)@ == (ProcessView {
                task_ids: old(self)@.task_ids.after_dealloc(tid),
                ..old(self)@
            }),
    {
        self.task_res_allocator.dealloc_id(tid)
    }

    /// the count of tasks(threads) in this process
    pub fn thread_count(&self) -> (count: usize)
        ensures
            count == self@.tasks.len(),
    {
        self.tasks.len()
    }

    /// get a task with tid in this process
    pub fn get_task(&self, tid: usize) -> (task: TaskControlBlock)
        requires
            self@.has_task(tid as int),
        ensures
            self@.tasks[tid as int] == Some(task),
    {
        self.tasks[tid].unwrap()
    }

    /// Makes `mutex_count` units of mutex `mutex_id` known to deadlock detection, unless
    /// detection is off or the mutex is known already.
    pub fn init_mutex_list(&mut self, mutex_id: isize, mutex_count: isize) -> (r: isize)
        requires
            old(self).wf(),
        ensures
            r == 0,
            final(self).wf(),
            final(self)@ == (ProcessView {
                detector: old(self)@.detector.after_init(mutex_id, mutex_count),
                ..old(self)@
            }),
    {
        self.detector.init_mutex_list(mutex_id, mutex_count)
    }

    /// Asks deadlock detection for `mutex_count` units of mutex `mutex_id` for thread `tid`.
    ///
    /// The answer is 0, or `MUTEX_CHECK_DEADLOCK` where the request is refused.
    pub fn try_lock(&mut self, tid: isize, mutex_id: isize, mutex_count: isize) -> (r: isize)
        requires
            old(self).wf(),
            old(self)@.detector.grants_lock(tid, mutex_id, mutex_count)
                ==> old(self)@.detector.available[mutex_id] - mutex_count <= isize::MAX,
        ensures
            r == if old(self)@.detector.refuses_lock(tid, mutex_id, mutex_count) {
                crate::config::MUTEX_CHECK_DEADLOCK
            } else {
                0
            },
            final(self).wf(),
            final(self)@ == (ProcessView {
                detector: old(self)@.detector.after_lock(tid, mutex_id, mutex_count),
                ..old(self)@
            }),
    {
        self.detector.try_lock(tid, mutex_id, mutex_count)
    }

    /// Tells deadlock detection that thread `tid` gives back `mutex_count` units of mutex
    /// `mutex_id`.
    pub fn mutex_release(&mut self, tid: isize, mutex_id: isize, mutex_count: isize) -> (r: isize)
        requires
            old(self).wf(),
            old(self)@.detector.accepts_release(tid, mutex_id) ==> isize::MIN
                <= old(self)@.detector.available[mutex_id] + mutex_count <= isize::MAX,
        ensures
            r == 0,
            final(self).wf(),
            final(self)@ == (ProcessView {
                detector: old(self)@.detector.after_release(tid, mutex_id, mutex_count),
                ..old(self)@
            }),
    {
        self.detector.mutex_release(tid, mutex_id, mutex_count)
    }
}

/// Process Control Block
#[derive(Debug)]
pub struct ProcessControlBlock {
    /// immutable
    pub pid: PidHandle,
    /// mutable
    pub inner: ProcessControlBlockInner,
}

/// A request to map an area in an address space. The answer to it is the answer to the call.
#[derive(Clone, Copy, Debug, PartialEq, Eq, Structural)]
pub struct MapRequest {
    pub memory_set: MemorySet,
    pub start: VirtAddr,
    pub end: VirtAddr,
    pub permission: MapPermission,
}

/// A request to unmap pages of an address space. The answer to it is the answer to the call.
#[derive(Clone, Copy, Debug, PartialEq, Eq, Structural)]
pub struct UnmapRequest {
    pub memory_set: MemorySet,
    pub start: VirtPageNum,
    pub end: VirtPageNum,
}

/// The rights of a mapped area: user access, and read, write and execute access as the three
/// low bits of `port` say.
pub open spec fn port_rights(port: usize) -> MapPermission {
    MapPermission { bits: (16 + 2 * (port % 8)) as u8 }
}

/// What `enable_deadlock_detection(is_enable)` does on `before`, which leaves `after`.
pub open spec fn enable_step(
    before: ProcessControlBlock,
    is_enable: isize,
    after: ProcessControlBlock,
    r: isize,
) -> bool {
    &&& after.pid == before.pid
    &&& after.wf()
    &&& if is_enable == 0 || is_enable == 1 {
        &&& r == 0
        &&& after.state() == (ProcessView {
            detector: DetectorView { mode: is_enable, ..before.state().detector },
            ..before.state()
        })
    } else {
        &&& r == -1
        &&& after.state() == before.state()
    }
}

/// What `set_priority(priority)` does on `before`, which leaves `after`.
pub open spec fn priority_step(
    before: ProcessControlBlock,
    priority: isize,
    after: ProcessControlBlock,
    r: Option<isize>,
) -> bool {
    &&& after.pid == before.pid
    &&& after.wf() == before.wf()
    &&& if priority < 2 {
        &&& r is None
        &&& after.state() == before.state()
    } else {
        &&& r == Some(priority)
        &&& after.state() == (ProcessView { priority: priority as usize, ..before.state() })
    }
}

impl ProcessControlBlock {
    /// The state of the process.
    pub open spec fn state(&self) -> ProcessView {
        self.inner@
    }

    /// The process is well formed.
    pub open spec fn wf(&self) -> bool {
        self.inner.wf()
    }

    /// inner_exclusive_access
    pub fn inner_exclusive_access(&mut self) -> (inner: &mut ProcessControlBlockInner)
        ensures
            *inner == old(self).inner,
            final(self).inner == *final(inner),
            final(self).pid == old(self).pid,
    {
        &mut self.inner
    }

    /// get pid
    pub fn getpid(&self) -> (pid: usize)
        ensures
            pid == self.pid.0,
    {
        self.pid.0
    }

    /// enable deadlock detection
    pub fn enable_deadlock_detection(&mut self, is_enable: isize) -> (r: isize)
        requires
            old(self).wf(),
        ensures
            enable_step(*old(self), is_enable, *final(self), r),
    {
        if is_enable != 0 && is_enable != 1 {
            -1
        } else {
            self.inner.detector.set_mode(is_enable);
            0
        }
    }

    /// set priority. return None if failed.
    pub fn set_priority(&mut self, priority: isize) -> (r: Option<isize>)
        ensures
            priority_step(*old(self), priority, *final(self), r),
    {
        if priority < 2 {
            return None;
        }
        self.inner.priority = priority as usize;
        Some(priority)
    }

    /// What to ask the address space for so as to map `len` bytes from `start` on.
    ///
    /// Without valid rights there would be nothing to ask, but whatever `port` is, the rights
    /// made from it are valid.
    pub fn mmap(&self, start: usize, len: usize, port: usize) -> (r: Option<MapRequest>)
        requires
            start + len <= usize::MAX,
        ensures
            r == Some(
                MapRequest {
                    memory_set: self.state().memory_set,
                    start: VirtAddr(start),
                    end: VirtAddr((start + len) as usize),
                    permission: port_rights(port),
                },
            ),
    {
        let start_va = VirtAddr(start);
        let end_va = VirtAddr(start + len);
        let perm: u8 = ((port << 1) as u8 | 0b0001_0000) & 0b0001_1110;
        proof {
            assert(perm == 16 + 2 * (port % 8)) by (bit_vector)
                requires
                    perm == ((port << 1) as u8 | 0b0001_0000) & 0b0001_1110,
            ;
            assert(perm & !0x1eu8 == 0) by (bit_vector)
                requires
                    perm == ((port << 1) as u8 | 0b0001_0000) & 0b0001_1110,
            ;
        }
        if let Some(permission) = MapPermission::from_bits(perm) {
            Some(
                MapRequest {
                    memory_set: self.inner.memory_set,
                    start: start_va,
                    end: end_va,
                    permission,
                },
            )
        } else {
            None
        }
    }

    /// What to ask the address space for so as to unmap `len` bytes from `start` on: every
    /// page that holds one of them.
    pub fn munmap(&self, start: usize, len: usize) -> (r: UnmapRequest)
        requires
            start + len <= usize::MAX,
        ensures
            r.memory_set == self.state().memory_set,
            r.start == VirtAddr(start).floor_page(),
            r.end == VirtAddr((start + len) as usize).ceil_page(),
    {
        let start_va = VirtAddr(start);
        let end_va = VirtAddr(start + len);
        let start_vpn = start_va.floor();
        let end_vpn = end_va.ceil();
        UnmapRequest { memory_set: self.inner.memory_set, start: start_vpn, end: end_vpn }
    }
}

/// There is exactly one file descriptor that `alloc_fd` can give.
pub proof fn law_free_fd_unique(v: ProcessView, a: int, b: int)
    requires
        v.is_free_fd(a),
        v.is_free_fd(b),
    ensures
        a == b,
{
    if a < b {
        assert(v.fd_table[a] is Some);
    } else if b < a {
        assert(v.fd_table[b] is Some);
    }
}

/// `alloc_fd` reserves nothing: until a file is put in the slot, the same file descriptor is
/// given again.
pub proof fn law_alloc_fd_repeats(v: ProcessView, fd: int)
    requires
        v.is_free_fd(fd),
    ensures
        fd == v.fd_table.len() ==> (ProcessView {
            fd_table: v.fd_table.push(None),
            ..v
        }).is_free_fd(fd),
{
    let w = ProcessView { fd_table: v.fd_table.push(None), ..v };
    if fd == v.fd_table.len() {
        assert forall|i: int| 0 <= i < fd implies (#[trigger] w.fd_table[i]) is Some by {
            assert(v.fd_table[i] is Some);
        }
    }
}

/// Once a file is put in the slot that `alloc_fd` gave, the next file descriptor is a higher one.
pub proof fn law_used_fd_is_skipped(v: ProcessView, fd: int, file: FileHandle, next: int)
    requires
        v.is_free_fd(fd),
        fd < v.fd_table.len(),
        (ProcessView { fd_table: v.fd_table.update(fd, Some(file)), ..v }).is_free_fd(next),
    ensures
        fd < next,
{
    let w = ProcessView { fd_table: v.fd_table.update(fd, Some(file)), ..v };
    if next < fd {
        assert(v.fd_table[next] is Some);
        assert(w.fd_table[next] is None);
    }
}

/// A mapped area is always open to the user, has no right that there is not, and has the
/// rights that the three low bits of `port` name and no others.
pub proof fn law_port_rights(port: usize, other: usize)
    ensures
        port_rights(port).bits & 0x10 == 0x10,
        port_rights(port).bits & !MapPermission::ALL == 0,
        port_rights(port) == port_rights(other) <==> port % 8 == other % 8,
{
    let bits = port_rights(port).bits;
    let low = (port % 8) as u8;
    assert(bits == 16 + 2 * low);
    assert(bits & 0x10 == 0x10 && bits & !0x1e == 0) by (bit_vector)
        requires
            bits == 16 + 2 * low,
            low < 8,
    ;
}

} // verus!
