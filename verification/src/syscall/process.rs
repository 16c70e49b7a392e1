//! Process management syscalls
//!
//! A system call takes turns with work that only the rest of the kernel can do: counting the
//! call, scheduling, reading the clock, reaching user memory. Each system call is therefore
//! called once for each event, from `Start` on, and says what is to be done next; it is over
//! with the action `Return`.
use vstd::prelude::*;
use crate::bytes::{push_word, word_bytes};
use crate::config::{
    PAGE_SIZE, SYSCALL_GET_TIME, SYSCALL_MMAP, SYSCALL_MUNMAP, SYSCALL_SBRK, SYSCALL_TRACE,
    SYSCALL_YIELD,
};

verus! {

/// A point in time.
#[derive(Clone, Copy, Debug, PartialEq, Eq, Structural)]
pub struct TimeVal {
    /// Whole seconds.
    pub sec: usize,
    /// Microseconds within the second.
    pub usec: usize,
}

impl TimeVal {
    /// The bytes of the time in memory: the seconds, then the microseconds.
    pub open spec fn bytes(self) -> Seq<u8> {
        word_bytes(self.sec) + word_bytes(self.usec)
    }

    /// The time `us` microseconds after the start.
    pub open spec fn of_us(us: usize) -> TimeVal {
        TimeVal { sec: us / 1_000_000, usec: us % 1_000_000 }
    }

    /// The bytes of the time in memory: the seconds, then the microseconds.
    pub fn to_bytes(&self) -> (data: Vec<u8>)
        ensures
            data@ == self.bytes(),
    {
        let mut data: Vec<u8> = Vec::new();
        push_word(&mut data, self.sec);
        push_word(&mut data, self.usec);
        assert(data@ =~= self.bytes());
        data
    }
}

/// What is to be done next for a system call of the current task.
pub enum Action {
    /// Count one more system call `id`.
    CountCall { id: usize },
    /// Read how often system call `id` was counted.
    ReadCallCount { id: usize },
    /// End the task with exit code `exit_code` and run the next one. The call never comes back.
    ExitCurrent { exit_code: i32 },
    /// Suspend the task and run the next one.
    SuspendCurrent,
    /// Read the clock, in microseconds.
    ReadClock,
    /// Store `data` at `addr` in the memory of the task.
    WriteUser { addr: usize, data: Vec<u8> },
    /// Store `data` at `addr` in the memory of the task, if that can be done.
    TryWriteUser { addr: usize, data: Vec<u8> },
    /// Find the `len` bytes at `addr` in the memory of the task, if they are there.
    ReadUser { addr: usize, len: usize },
    /// Map `len` bytes from `start` on with the rights `prot`.
    MapArea { start: usize, len: usize, prot: usize },
    /// Unmap `len` bytes from `start` on.
    UnmapArea { start: usize, len: usize },
    /// Move the program break by `size` bytes.
    ChangeBrk { size: i32 },
    /// The call is over; this is its result.
    Return { value: isize },
}

/// What has happened for a system call.
pub enum Event {
    /// Nothing yet.
    Start,
    /// The call was counted, and has now been counted `count` times.
    Counted { count: isize },
    /// The count was read.
    CallCount { count: isize },
    /// The task runs again.
    Resumed,
    /// The clock was read.
    Clock { us: usize },
    /// The data was stored.
    Written,
    /// The data was stored, or `ok` says that it could not be.
    TriedWrite { ok: bool },
    /// The bytes, in one buffer for each page they lie on, or `None` if they are not there.
    Read { buffers: Option<Vec<Vec<u8>>> },
    /// The area was mapped, or `ok` says that it could not be.
    Mapped { ok: bool },
    /// The area was unmapped, or `ok` says that it could not be.
    Unmapped { ok: bool },
    /// The old program break, or `None` if it could not be moved.
    BrkChanged { old_brk: Option<usize> },
}

/// Event `e` is one that action `a` can end in.
pub open spec fn answers(a: Action, e: Event) -> bool {
    match a {
        Action::CountCall { .. } => e is Counted,
        Action::ReadCallCount { .. } => e is CallCount,
        Action::SuspendCurrent => e is Resumed,
        Action::ReadClock => e is Clock,
        Action::WriteUser { .. } => e is Written,
        Action::TryWriteUser { .. } => e is TriedWrite,
        Action::ReadUser { .. } => e matches Event::Read { buffers } && buffers_ok(buffers),
        Action::MapArea { .. } => e is Mapped,
        Action::UnmapArea { .. } => e is Unmapped,
        Action::ChangeBrk { .. } => e is BrkChanged,
        Action::ExitCurrent { .. } => false,
        Action::Return { .. } => false,
    }
}

/// Bytes that were found lie in a first buffer that is not empty.
pub open spec fn buffers_ok(buffers: Option<Vec<Vec<u8>>>) -> bool {
    buffers matches Some(b) ==> b@.len() > 0 && b@[0]@.len() > 0
}

/// The action is the end of the call with result `value`.
pub open spec fn ends_with(a: Action, value: int) -> bool {
    a matches Action::Return { value: v } && v == value
}

/// The signed number with the bits of `v`.
pub open spec fn as_signed(v: usize) -> int {
    if v <= isize::MAX {
        v as int
    } else {
        v - usize::MAX - 1
    }
}

/// The signed number with the bits of `v`.
fn to_signed(v: usize) -> (r: isize)
    ensures
        r == as_signed(v),
{
    if v <= isize::MAX as usize {
        v as isize
    } else {
        -((usize::MAX - v) as isize) - 1
    }
}

/// task exits and submit an exit code
pub fn sys_exit(exit_code: i32) -> (action: Action)
    ensures
        action == (Action::ExitCurrent { exit_code }),
{
    Action::ExitCurrent { exit_code }
}

/// The events that `sys_yield` can be called for.
pub open spec fn yield_takes(event: Event) -> bool {
    event is Start || event is Counted || event is Resumed
}

/// What `sys_yield` does with event `e`.
pub open spec fn yield_step(e: Event, a: Action) -> bool {
    match e {
        Event::Start => a == (Action::CountCall { id: SYSCALL_YIELD }),
        Event::Counted { .. } => a is SuspendCurrent,
        Event::Resumed => ends_with(a, 0),
        _ => false,
    }
}

/// current task gives up resources for other tasks
pub fn sys_yield(event: Event) -> (action: Action)
    requires
        yield_takes(event),
    ensures
        yield_step(event, action),
{
    match event {
        Event::Start => Action::CountCall { id: SYSCALL_YIELD },
        Event::Counted { .. } => Action::SuspendCurrent,
        _ => Action::Return { value: 0 },
    }
}

/// The events that `sys_get_time` can be called for.
pub open spec fn get_time_takes(event: Event) -> bool {
    event is Start || event is Counted || event is Clock || event is Written
}

/// What `sys_get_time` does with event `e`.
pub open spec fn get_time_step(ts: usize, e: Event, a: Action) -> bool {
    match e {
        Event::Start => a == (Action::CountCall { id: SYSCALL_GET_TIME }),
        Event::Counted { .. } => a is ReadClock,
        Event::Clock { us } => a matches Action::WriteUser { addr, data } && addr == ts && data@
            == TimeVal::of_us(us).bytes(),
        Event::Written => ends_with(a, 0),
        _ => false,
    }
}

/// Stores the time at `ts` as a [`TimeVal`]. The time zone is not looked at.
pub fn sys_get_time(ts: usize, _tz: usize, event: Event) -> (action: Action)
    requires
        get_time_takes(event),
    ensures
        get_time_step(ts, event, action),
{
    match event {
        Event::Start => Action::CountCall { id: SYSCALL_GET_TIME },
        Event::Counted { .. } => Action::ReadClock,
        Event::Clock { us } => {
            let data = TimeVal { sec: us / 1_000_000, usec: us % 1_000_000 };
            Action::WriteUser { addr: ts, data: data.to_bytes() }
        },
        _ => Action::Return { value: 0 },
    }
}

/// The events that `sys_trace` can be called for.
pub open spec fn trace_takes(event: Event) -> bool {
    ||| event is Start
    ||| event is Counted
    ||| event is TriedWrite
    ||| event is CallCount
    ||| event matches Event::Read { buffers } && buffers_ok(buffers)
}

/// What `sys_trace` does with event `e`.
pub open spec fn trace_step(
    trace_request: usize,
    id: usize,
    data: usize,
    e: Event,
    a: Action,
) -> bool {
    match e {
        Event::Start => a == (Action::CountCall { id: SYSCALL_TRACE }),
        Event::Counted { count } => {
            if trace_request == 0 {
                a == (Action::ReadUser { addr: id, len: 1 })
            } else if trace_request == 1 {
                a matches Action::TryWriteUser { addr, data: d } && addr == id && d@ == seq![
                    (data % 256) as u8,
                ]
            } else if trace_request == 2 {
                if id == SYSCALL_TRACE {
                    ends_with(a, count as int)
                } else {
                    a == (Action::ReadCallCount { id })
                }
            } else {
                ends_with(a, -1)
            }
        },
        Event::Read { buffers } => match buffers {
            Some(b) => ends_with(a, b@[0]@[0] as int),
            None => ends_with(a, -1),
        },
        Event::TriedWrite { ok } => ends_with(
            a,
            if ok {
                0
            } else {
                -1
            },
        ),
        Event::CallCount { count } => ends_with(a, count as int),
        _ => false,
    }
}

/// Request 0 reads the byte at address `id`, request 1 stores the low byte of `data` there, and
/// request 2 tells how often system call `id` was called, this call included. Any other request
/// is answered -1.
pub fn sys_trace(trace_request: usize, id: usize, data: usize, event: Event) -> (action: Action)
    requires
        trace_takes(event),
    ensures
        trace_step(trace_request, id, data, event, action),
{
    match event {
        Event::Start => Action::CountCall { id: SYSCALL_TRACE },
        Event::Counted { count } => match trace_request {
            0 => Action::ReadUser { addr: id, len: 1 },
            1 => {
                let byte: u8 = #[verifier::truncate]
                (data as u8);
                assert(data as u8 == (data % 256) as u8) by (bit_vector);
                let bytes = vec![byte];
                assert(bytes@ =~= seq![(data % 256) as u8]);
                Action::TryWriteUser { addr: id, data: bytes }
            },
            2 => {
                if id != SYSCALL_TRACE {
                    Action::ReadCallCount { id }
                } else {
                    Action::Return { value: count }
                }
            },
            _ => Action::Return { value: -1 },
        },
        Event::Read { buffers } => match buffers {
            Some(buffers) => Action::Return { value: buffers[0][0] as isize },
            None => Action::Return { value: -1 },
        },
        Event::TriedWrite { ok } => {
            if !ok {
                return Action::Return { value: -1 };
            }
            Action::Return { value: 0 }
        },
        Event::CallCount { count } => Action::Return { value: count },
        _ => Action::Return { value: -1 },
    }
}

/// Address `start` is a page boundary.
pub open spec fn page_aligned(start: usize) -> bool {
    start % PAGE_SIZE == 0
}

/// `prot` asks for at least one of read, write and execute access, and for nothing else.
pub open spec fn prot_ok(prot: usize) -> bool {
    0 < prot < 8
}

/// The events that `sys_mmap` can be called for.
pub open spec fn mmap_takes(event: Event) -> bool {
    event is Start || event is Counted || event is Mapped
}

/// What `sys_mmap` does with event `e`.
pub open spec fn mmap_step(start: usize, len: usize, prot: usize, e: Event, a: Action) -> bool {
    match e {
        Event::Start => a == (Action::CountCall { id: SYSCALL_MMAP }),
        Event::Counted { .. } => if page_aligned(start) && prot_ok(prot) {
            a == (Action::MapArea { start, len, prot })
        } else {
            ends_with(a, -1)
        },
        Event::Mapped { ok } => ends_with(
            a,
            if ok {
                0
            } else {
                -1
            },
        ),
        _ => false,
    }
}

/// Maps `len` bytes from `start` on with the rights `prot`.
pub fn sys_mmap(start: usize, len: usize, prot: usize, event: Event) -> (action: Action)
    requires
        mmap_takes(event),
    ensures
        mmap_step(start, len, prot, event, action),
{
    match event {
        Event::Start => Action::CountCall { id: SYSCALL_MMAP },
        Event::Counted { .. } => {
            if valid_addr(start) && valid_prot(prot) {
                Action::MapArea { start, len, prot }
            } else {
                Action::Return { value: -1 }
            }
        },
        Event::Mapped { ok: true } => Action::Return { value: 0 },
        _ => Action::Return { value: -1 },
    }
}

/// Whether `start` is a page boundary.
pub fn valid_addr(start: usize) -> (valid: bool)
    ensures
        valid == page_aligned(start),
{
    start % PAGE_SIZE == 0
}

/// Whether `prot` asks for at least one of read, write and execute access, and for nothing else.
pub fn valid_prot(prot: usize) -> (valid: bool)
    ensures
        valid == prot_ok(prot),
{
    assert(((prot & !0x7) == 0 && (prot & 0x7) != 0) == (0 < prot < 8)) by (bit_vector);
    (prot & !0x7) == 0 && (prot & 0x7) != 0
}

/// The events that `sys_munmap` can be called for.
pub open spec fn munmap_takes(event: Event) -> bool {
    event is Start || event is Counted || event is Unmapped
}

/// What `sys_munmap` does with event `e`.
pub open spec fn munmap_step(start: usize, len: usize, e: Event, a: Action) -> bool {
    match e {
        Event::Start => a == (Action::CountCall { id: SYSCALL_MUNMAP }),
        Event::Counted { .. } => if page_aligned(start) {
            a == (Action::UnmapArea { start, len })
        } else {
            ends_with(a, -1)
        },
        Event::Unmapped { ok } => ends_with(
            a,
            if ok {
                0
            } else {
                -1
            },
        ),
        _ => false,
    }
}

/// Unmaps `len` bytes from `start` on.
pub fn sys_munmap(start: usize, len: usize, event: Event) -> (action: Action)
    requires
        munmap_takes(event),
    ensures
        munmap_step(start, len, event, action),
{
    match event {
        Event::Start => Action::CountCall { id: SYSCALL_MUNMAP },
        Event::Counted { .. } => {
            if valid_addr(start) {
                Action::UnmapArea { start, len }
            } else {
                Action::Return { value: -1 }
            }
        },
        Event::Unmapped { ok: true } => Action::Return { value: 0 },
        _ => Action::Return { value: -1 },
    }
}

/// The events that `sys_sbrk` can be called for.
pub open spec fn sbrk_takes(event: Event) -> bool {
    event is Start || event is Counted || event is BrkChanged
}

/// What `sys_sbrk` does with event `e`.
pub open spec fn sbrk_step(size: i32, e: Event, a: Action) -> bool {
    match e {
        Event::Start => a == (Action::CountCall { id: SYSCALL_SBRK }),
        Event::Counted { .. } => a == (Action::ChangeBrk { size }),
        Event::BrkChanged { old_brk } => match old_brk {
            Some(old) => ends_with(a, as_signed(old)),
            None => ends_with(a, -1),
        },
        _ => false,
    }
}

/// change data segment size
pub fn sys_sbrk(size: i32, event: Event) -> (action: Action)
    requires
        sbrk_takes(event),
    ensures
        sbrk_step(size, event, action),
{
    match event {
        Event::Start => Action::CountCall { id: SYSCALL_SBRK },
        Event::Counted { .. } => Action::ChangeBrk { size },
        Event::BrkChanged { old_brk: Some(old_brk) } => {
            Action::Return { value: to_signed(old_brk) }
        },
        _ => Action::Return { value: -1 },
    }
}

} // verus!
