//! What holds of a system call from its first event to its result.
use vstd::prelude::*;
use vstd::arithmetic::power::pow;
use vstd::layout::size_of;
use crate::bytes::{
    law_word_bytes_are_digits, law_word_bytes_read_back, le_value, lemma_word_size, word_bytes,
    word_size,
};
use crate::config::{
    PAGE_SIZE, SYSCALL_GET_TIME, SYSCALL_MMAP, SYSCALL_MUNMAP, SYSCALL_SBRK, SYSCALL_TRACE,
    SYSCALL_YIELD,
};
use crate::syscall::process::{
    answers, as_signed, ends_with, get_time_step, get_time_takes, mmap_step, mmap_takes,
    munmap_step, munmap_takes, page_aligned, prot_ok, sbrk_step, sbrk_takes, sys_exit,
    sys_get_time, sys_mmap, sys_munmap, sys_sbrk, sys_trace, sys_yield, trace_step, trace_takes,
    valid_addr, valid_prot, yield_step, yield_takes, Action, Event, TimeVal,
};

verus! {

/// A system call that comes back, with its arguments.
pub enum Syscall {
    Yield,
    GetTime { ts: usize },
    Trace { trace_request: usize, id: usize, data: usize },
    Mmap { start: usize, len: usize, prot: usize },
    Munmap { start: usize, len: usize },
    Sbrk { size: i32 },
}

impl Syscall {
    /// The number of the call.
    pub open spec fn number(self) -> usize {
        match self {
            Syscall::Yield => SYSCALL_YIELD,
            Syscall::GetTime { .. } => SYSCALL_GET_TIME,
            Syscall::Trace { .. } => SYSCALL_TRACE,
            Syscall::Mmap { .. } => SYSCALL_MMAP,
            Syscall::Munmap { .. } => SYSCALL_MUNMAP,
            Syscall::Sbrk { .. } => SYSCALL_SBRK,
        }
    }

    /// The call can be called for event `e`.
    pub open spec fn takes(self, e: Event) -> bool {
        match self {
            Syscall::Yield => yield_takes(e),
            Syscall::GetTime { .. } => get_time_takes(e),
            Syscall::Trace { .. } => trace_takes(e),
            Syscall::Mmap { .. } => mmap_takes(e),
            Syscall::Munmap { .. } => munmap_takes(e),
            Syscall::Sbrk { .. } => sbrk_takes(e),
        }
    }

    /// The call, called for event `e`, asks for action `a`.
    pub open spec fn step(self, e: Event, a: Action) -> bool {
        match self {
            Syscall::Yield => yield_step(e, a),
            Syscall::GetTime { ts } => get_time_step(ts, e, a),
            Syscall::Trace { trace_request, id, data } => trace_step(trace_request, id, data, e, a),
            Syscall::Mmap { start, len, prot } => mmap_step(start, len, prot, e, a),
            Syscall::Munmap { start, len } => munmap_step(start, len, e, a),
            Syscall::Sbrk { size } => sbrk_step(size, e, a),
        }
    }
}

/// `run` is what happens for call `c` up to some moment: it begins with `Start`, each action is
/// the one that the call asks for, and each further event is one that the action before it can
/// end in.
pub open spec fn is_run(c: Syscall, run: Seq<(Event, Action)>) -> bool {
    &&& run.len() > 0
    &&& run[0].0 is Start
    &&& forall|i: int| 0 <= i < run.len() ==> c.step((#[trigger] run[i]).0, run[i].1)
    &&& forall|i: int| 1 <= i < run.len() ==> answers(run[i - 1].1, (#[trigger] run[i]).0)
}

/// `run` is call `c` from its first event to its result `value`.
pub open spec fn is_full_run(c: Syscall, run: Seq<(Event, Action)>, value: int) -> bool {
    is_run(c, run) && ends_with(run.last().1, value)
}

/// Whatever the rest of the kernel answers, a call that is not over can be called for the
/// answer.
pub proof fn law_never_stuck(c: Syscall, run: Seq<(Event, Action)>, e: Event)
    requires
        is_run(c, run),
        answers(run.last().1, e),
    ensures
        c.takes(e),
{
    let last = run[run.len() - 1];
    assert(c.step(last.0, last.1));
}

/// Every call is over after at most four events.
pub proof fn law_calls_end(c: Syscall, run: Seq<(Event, Action)>)
    requires
        is_run(c, run),
    ensures
        run.len() <= 4,
{
    lemma_run_prefix(c, run);
    if run.len() > 4 {
        assert(c.step(run[3].0, run[3].1));
        assert(answers(run[3].1, run[4].0));
    }
}

/// Every call counts itself before it does anything else, and counts itself once.
pub proof fn law_counts_itself_once(c: Syscall, run: Seq<(Event, Action)>)
    requires
        is_run(c, run),
    ensures
        run[0].1 == (Action::CountCall { id: c.number() }),
        forall|i: int| 1 <= i < run.len() ==> !((#[trigger] run[i]).1 is CountCall),
{
    assert(c.step(run[0].0, run[0].1));
    assert forall|i: int| 1 <= i < run.len() implies !((#[trigger] run[i]).1 is CountCall) by {
        assert(c.step(run[i].0, run[i].1));
        assert(answers(run[i - 1].1, run[i].0));
    }
}

proof fn lemma_run_prefix(c: Syscall, run: Seq<(Event, Action)>)
    requires
        is_run(c, run),
    ensures
        run[0].0 is Start,
        c.step(run[0].0, run[0].1),
        run.len() > 1 ==> answers(run[0].1, run[1].0) && c.step(run[1].0, run[1].1),
        run.len() > 2 ==> answers(run[1].1, run[2].0) && c.step(run[2].0, run[2].1),
        run.len() > 3 ==> answers(run[2].1, run[3].0) && c.step(run[3].0, run[3].1),
{
    if run.len() > 1 {
        let e = run[1];
    }
    if run.len() > 2 {
        let e = run[2];
    }
    if run.len() > 3 {
        let e = run[3];
    }
}

/// A yield suspends the task once and is answered 0.
pub proof fn law_yield(run: Seq<(Event, Action)>, value: int)
    requires
        is_full_run(Syscall::Yield, run, value),
    ensures
        run.len() == 3,
        run[1].1 is SuspendCurrent,
        value == 0,
{
    lemma_run_prefix(Syscall::Yield, run);
    law_calls_end(Syscall::Yield, run);
}

/// A time request is answered 0 once the time that the clock showed is stored at the place it
/// names: two words, the whole seconds and the microseconds that remain.
pub proof fn law_get_time(ts: usize, run: Seq<(Event, Action)>, value: int)
    requires
        is_full_run(Syscall::GetTime { ts }, run, value),
    ensures
        value == 0,
        run.len() == 4,
        run[2].0 matches Event::Clock { us } && run[2].1 matches Action::WriteUser {
            addr,
            data,
        } && {
            let w = word_size() as int;
            &&& addr == ts
            &&& data@.len() == 2 * w
            &&& le_value(data@.take(w)) == us / 1_000_000
            &&& le_value(data@.skip(w)) == us % 1_000_000
        },
{
    let c = Syscall::GetTime { ts };
    lemma_run_prefix(c, run);
    law_calls_end(c, run);
    if run[2].0 is Clock {
        law_time_bytes_read_back(TimeVal::of_us(run[2].0->us));
    }
}

/// The bytes of a time are two words that read back as its seconds and its microseconds.
pub proof fn law_time_bytes_read_back(t: TimeVal)
    ensures
        t.bytes().len() == 2 * word_size(),
        le_value(t.bytes().take(word_size() as int)) == t.sec,
        le_value(t.bytes().skip(word_size() as int)) == t.usec,
{
    law_word_bytes_read_back(t.sec);
    law_word_bytes_read_back(t.usec);
    let w = word_size() as int;
    assert(t.bytes().take(w) =~= word_bytes(t.sec));
    assert(t.bytes().skip(w) =~= word_bytes(t.usec));
}

/// Splitting a time into seconds and microseconds loses nothing.
pub proof fn law_time_is_exact(us: usize)
    ensures
        TimeVal::of_us(us).sec * 1_000_000 + TimeVal::of_us(us).usec == us,
        TimeVal::of_us(us).usec < 1_000_000,
{
}

/// Trace request 0 is answered with the byte at the address, or -1 if it is not there.
pub proof fn law_trace_read(id: usize, data: usize, run: Seq<(Event, Action)>, value: int)
    requires
        is_full_run(Syscall::Trace { trace_request: 0, id, data }, run, value),
    ensures
        run.len() == 3,
        run[1].1 == (Action::ReadUser { addr: id, len: 1 }),
        run[2].0 matches Event::Read { buffers } && value == match buffers {
            Some(b) => b@[0]@[0] as int,
            None => -1,
        },
{
    let c = Syscall::Trace { trace_request: 0, id, data };
    lemma_run_prefix(c, run);
    law_calls_end(c, run);
}

/// Trace request 1 stores the low byte of the data at the address, and is answered 0 or, if
/// that cannot be done, -1.
pub proof fn law_trace_write(id: usize, data: usize, run: Seq<(Event, Action)>, value: int)
    requires
        is_full_run(Syscall::Trace { trace_request: 1, id, data }, run, value),
    ensures
        run.len() == 3,
        run[1].1 matches Action::TryWriteUser { addr, data: d } && addr == id && d@ == seq![
            (data % 256) as u8,
        ],
        run[2].0 matches Event::TriedWrite { ok } && value == if ok {
            0int
        } else {
            -1
        },
{
    let c = Syscall::Trace { trace_request: 1, id, data };
    lemma_run_prefix(c, run);
    law_calls_end(c, run);
}

/// Trace request 2 is answered with the count of the system call it names; for the trace call
/// itself, that is the count that includes this very call.
pub proof fn law_trace_count(id: usize, data: usize, run: Seq<(Event, Action)>, value: int)
    requires
        is_full_run(Syscall::Trace { trace_request: 2, id, data }, run, value),
    ensures
        id == SYSCALL_TRACE ==> run.len() == 2 && (run[1].0 matches Event::Counted { count }
            && value == count),
        id != SYSCALL_TRACE ==> run.len() == 3 && run[1].1 == (Action::ReadCallCount { id }) && (
        run[2].0 matches Event::CallCount { count } && value == count),
{
    let c = Syscall::Trace { trace_request: 2, id, data };
    lemma_run_prefix(c, run);
    law_calls_end(c, run);
}

/// Any other trace request is answered -1 and reaches nothing.
pub proof fn law_trace_unknown(
    trace_request: usize,
    id: usize,
    data: usize,
    run: Seq<(Event, Action)>,
    value: int,
)
    requires
        trace_request > 2,
        is_full_run(Syscall::Trace { trace_request, id, data }, run, value),
    ensures
        run.len() == 2,
        value == -1,
{
    let c = Syscall::Trace { trace_request, id, data };
    lemma_run_prefix(c, run);
    law_calls_end(c, run);
}

/// A request to map an area that does not start on a page boundary, or with rights that are
/// none or unknown, is answered -1, and nothing is mapped.
pub proof fn law_mmap_refused(
    start: usize,
    len: usize,
    prot: usize,
    run: Seq<(Event, Action)>,
    value: int,
)
    requires
        !page_aligned(start) || !prot_ok(prot),
        is_full_run(Syscall::Mmap { start, len, prot }, run, value),
    ensures
        value == -1,
        forall|i: int| 0 <= i < run.len() ==> !((#[trigger] run[i]).1 is MapArea),
{
    let c = Syscall::Mmap { start, len, prot };
    lemma_run_prefix(c, run);
    law_calls_end(c, run);
}

/// Any other request to map an area maps just that area, and is answered 0 or, if that cannot
/// be done, -1.
pub proof fn law_mmap_accepted(
    start: usize,
    len: usize,
    prot: usize,
    run: Seq<(Event, Action)>,
    value: int,
)
    requires
        page_aligned(start),
        prot_ok(prot),
        is_full_run(Syscall::Mmap { start, len, prot }, run, value),
    ensures
        run.len() == 3,
        run[1].1 == (Action::MapArea { start, len, prot }),
        run[2].0 matches Event::Mapped { ok } && value == if ok {
            0int
        } else {
            -1
        },
{
    let c = Syscall::Mmap { start, len, prot };
    lemma_run_prefix(c, run);
    law_calls_end(c, run);
}

/// A request to unmap an area that does not start on a page boundary is answered -1, and
/// nothing is unmapped. Any other unmaps just that area, and is answered 0 or, if that cannot be
/// done, -1.
pub proof fn law_munmap(start: usize, len: usize, run: Seq<(Event, Action)>, value: int)
    requires
        is_full_run(Syscall::Munmap { start, len }, run, value),
    ensures
        !page_aligned(start) ==> run.len() == 2 && value == -1,
        page_aligned(start) ==> run.len() == 3 && run[1].1 == (Action::UnmapArea { start, len })
            && (run[2].0 matches Event::Unmapped { ok } && value == if ok {
            0int
        } else {
            -1
        }),
{
    let c = Syscall::Munmap { start, len };
    lemma_run_prefix(c, run);
    law_calls_end(c, run);
}

/// A move of the program break is answered with the old break, or -1 if it cannot be moved.
pub proof fn law_sbrk(size: i32, run: Seq<(Event, Action)>, value: int)
    requires
        is_full_run(Syscall::Sbrk { size }, run, value),
    ensures
        run.len() == 3,
        run[1].1 == (Action::ChangeBrk { size }),
        run[2].0 matches Event::BrkChanged { old_brk } && value == match old_brk {
            Some(old) => as_signed(old),
            None => -1,
        },
{
    let c = Syscall::Sbrk { size };
    lemma_run_prefix(c, run);
    law_calls_end(c, run);
}

/// A task that exits hands on just the exit code that it gave: two exits ask for the same if and
/// only if their codes are the same.
pub proof fn law_exit_code_is_submitted(code: i32, other: i32, a: Action, b: Action)
    requires
        call_ensures(sys_exit, (code,), a),
        call_ensures(sys_exit, (other,), b),
    ensures
        a matches Action::ExitCurrent { exit_code } && exit_code == code,
        a == b <==> code == other,
{
}

/// A yield is counted under its number, then suspends the task, then is answered 0.
pub proof fn law_yield_steps(e: Event, a: Action)
    requires
        call_ensures(sys_yield, (e,), a),
    ensures
        e is Start ==> a == (Action::CountCall { id: SYSCALL_YIELD }),
        e is Counted ==> a is SuspendCurrent,
        e is Resumed ==> a == (Action::Return { value: 0 }),
{
}

/// The bytes of a time in memory: the digits of its seconds to base 256, the lowest one first,
/// then those of its microseconds.
pub proof fn law_time_bytes_are_digits(t: TimeVal, data: Vec<u8>, i: nat)
    requires
        call_ensures(TimeVal::to_bytes, (&t,), data),
        i < size_of::<usize>(),
    ensures
        data@.len() == 2 * size_of::<usize>(),
        data@[i as int] as int == (t.sec as int / pow(256, i)) % 256,
        data@[(size_of::<usize>() + i) as int] as int == (t.usec as int / pow(256, i)) % 256,
{
    law_word_bytes_are_digits(t.sec, i);
    law_word_bytes_are_digits(t.usec, i);
}

/// A time request is counted under its number, then reads the clock, then stores at the place it
/// names, whatever the time zone is: a word for the whole seconds that the clock showed, and a
/// word for the microseconds that are left. Then it is answered 0.
pub proof fn law_get_time_steps(ts: usize, tz: usize, e: Event, a: Action)
    requires
        call_ensures(sys_get_time, (ts, tz, e), a),
    ensures
        e is Start ==> a == (Action::CountCall { id: SYSCALL_GET_TIME }),
        e is Counted ==> a is ReadClock,
        e matches Event::Clock { us } ==> {
            &&& a matches Action::WriteUser { addr, data }
            &&& addr == ts
            &&& data@.len() == 2 * size_of::<usize>()
            &&& forall|i: nat|
                i < size_of::<usize>() ==> #[trigger] data@[i as int] as int == ((us as int
                    / 1_000_000) / pow(256, i)) % 256
            &&& forall|i: nat|
                i < size_of::<usize>() ==> data@[(size_of::<usize>() + i) as int] as int == ((
                us as int % 1_000_000) / #[trigger] pow(256, i)) % 256
        },
        e is Written ==> a == (Action::Return { value: 0 }),
{
    if e is Clock {
        let us = e->us;
        let data = a->WriteUser_data;
        let t = TimeVal::of_us(us);
        let w = size_of::<usize>();
        assert(data@ == t.bytes());
        lemma_word_size();
        law_time_bytes_read_back(t);
        assert forall|i: nat| i < w implies #[trigger] data@[i as int] as int == ((us as int
            / 1_000_000) / pow(256, i)) % 256 by {
            law_word_bytes_are_digits(t.sec, i);
        }
        assert forall|i: nat| i < w implies data@[(w + i) as int] as int == ((us as int
            % 1_000_000) / #[trigger] pow(256, i)) % 256 by {
            law_word_bytes_are_digits(t.sec, i);
            law_word_bytes_are_digits(t.usec, i);
        }
    }
}

/// A trace call is counted under its number. Request 0 then asks for the one byte at the address;
/// request 1 stores there the one byte that the data leaves when divided by 256; request 2 asks
/// for the count of the call it names, except that for the trace call itself it is answered with
/// the count just made; and any other request is answered -1. A byte that was read is the answer
/// as it is; a count that was read is; a store is answered 0; and what could not be done is
/// answered -1.
pub proof fn law_trace_steps(request: usize, id: usize, data: usize, e: Event, a: Action)
    requires
        call_ensures(sys_trace, (request, id, data, e), a),
    ensures
        e is Start ==> a == (Action::CountCall { id: SYSCALL_TRACE }),
        e is Counted && request == 0 ==> a == (Action::ReadUser { addr: id, len: 1 }),
        e is Counted && request == 1 ==> {
            &&& a matches Action::TryWriteUser { addr, data: stored }
            &&& addr == id
            &&& stored@.len() == 1
            &&& stored@[0] as int == data as int % 256
        },
        e matches Event::Counted { count } ==> request == 2 && id == SYSCALL_TRACE ==> a == (
        Action::Return { value: count }),
        e is Counted && request == 2 && id != SYSCALL_TRACE ==> a == (Action::ReadCallCount { id }),
        e is Counted && request > 2 ==> (a matches Action::Return { value } && value
            == -1),
        e matches Event::Read { buffers: Some(b) } ==> a == (Action::Return {
            value: b@[0]@[0] as isize,
        }),
        e matches Event::Read { buffers: None } ==> (a matches Action::Return { value } && value
            == -1),
        e matches Event::TriedWrite { ok: true } ==> a == (Action::Return { value: 0 }),
        e matches Event::TriedWrite { ok: false } ==> (a matches Action::Return { value } && value
            == -1),
        e matches Event::CallCount { count } ==> a == (Action::Return { value: count }),
{
}

/// An address is a page boundary if and only if it is a multiple of the page size; and rights can
/// be asked for if and only if they are some of the three, which count for 1, 2 and 4, and not
/// none of them.
pub proof fn law_valid_arguments(start: usize, prot: usize, boundary: bool, rights: bool)
    requires
        call_ensures(valid_addr, (start,), boundary),
        call_ensures(valid_prot, (prot,), rights),
    ensures
        boundary <==> exists|page: int| start == #[trigger] (page * PAGE_SIZE),
        rights <==> 1 <= prot <= 1 + 2 + 4,
{
    if boundary {
        assert(start == (start as int / PAGE_SIZE as int) * PAGE_SIZE);
    }
}

/// A request to map is counted under its number. It then asks for just the area and the rights it
/// names if the area starts at a multiple of the page size and the rights are from 1 to 7, and is
/// answered -1 at once if not. An area that was mapped is answered 0, one that could not be, -1.
pub proof fn law_mmap_steps(start: usize, len: usize, prot: usize, e: Event, a: Action)
    requires
        call_ensures(sys_mmap, (start, len, prot, e), a),
    ensures
        e is Start ==> a == (Action::CountCall { id: SYSCALL_MMAP }),
        e is Counted && start as int % PAGE_SIZE as int == 0 && 1 <= prot <= 7 ==> a == (
        Action::MapArea { start, len, prot }),
        e is Counted && !(start as int % PAGE_SIZE as int == 0 && 1 <= prot <= 7) ==> (
        a matches Action::Return { value } && value == -1),
        e matches Event::Mapped { ok: true } ==> a == (Action::Return { value: 0 }),
        e matches Event::Mapped { ok: false } ==> (a matches Action::Return { value } && value
            == -1),
{
}

/// A request to unmap is counted under its number. It then asks for just the area it names if
/// that starts at a multiple of the page size, and is answered -1 at once if not. An area that
/// was unmapped is answered 0, one that could not be, -1.
pub proof fn law_munmap_steps(start: usize, len: usize, e: Event, a: Action)
    requires
        call_ensures(sys_munmap, (start, len, e), a),
    ensures
        e is Start ==> a == (Action::CountCall { id: SYSCALL_MUNMAP }),
        e is Counted && start as int % PAGE_SIZE as int == 0 ==> a == (Action::UnmapArea {
            start,
            len,
        }),
        e is Counted && start as int % PAGE_SIZE as int != 0 ==> (
        a matches Action::Return { value } && value == -1),
        e matches Event::Unmapped { ok: true } ==> a == (Action::Return { value: 0 }),
        e matches Event::Unmapped { ok: false } ==> (a matches Action::Return { value } && value
            == -1),
{
}

/// A move of the program break is counted under its number and asks for a move by just the bytes
/// it names. It is answered with the old break itself: with the very number if that is a signed
/// one, and otherwise with the signed number that has the same bits, which is lower by one more
/// than the highest word. A break that could not be moved is answered -1.
pub proof fn law_sbrk_returns_old_break(size: i32, e: Event, a: Action)
    requires
        call_ensures(sys_sbrk, (size, e), a),
    ensures
        e is Start ==> a == (Action::CountCall { id: SYSCALL_SBRK }),
        e is Counted ==> a == (Action::ChangeBrk { size }),
        e matches Event::BrkChanged { old_brk: Some(old) } ==> {
            &&& a matches Action::Return { value }
            &&& old <= isize::MAX ==> value == old
            &&& value == old || value == old - (usize::MAX + 1)
        },
        e matches Event::BrkChanged { old_brk: None } ==> (
        a matches Action::Return { value } && value == -1),
{
}

} // verus!
