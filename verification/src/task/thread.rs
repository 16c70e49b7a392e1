//! Threads, as far as process management looks at them.
use vstd::prelude::*;

verus! {

/// The user resources of a thread.
#[derive(Clone, Copy, Debug, PartialEq, Eq, Structural)]
pub struct TaskUserRes {
    /// Where the user stacks of the process start.
    pub ustack_base: usize,
}

/// A thread.
#[derive(Clone, Copy, Debug, PartialEq, Eq, Structural)]
pub struct TaskControlBlock {
    /// The top of the thread's kernel stack.
    pub kstack_top: usize,
    /// The thread's user resources, until it exits.
    pub res: Option<TaskUserRes>,
    /// The physical page that holds the thread's trap context.
    pub trap_cx_ppn: usize,
}

/// What every trap context needs to know of the kernel.
#[derive(Clone, Copy, Debug, PartialEq, Eq, Structural)]
pub struct TrapTarget {
    /// The token of the kernel's address space.
    pub kernel_satp: usize,
    /// The address of the trap handler.
    pub trap_handler: usize,
}

/// How a thread enters user mode: what its trap context is made from.
#[derive(Clone, Copy, Debug, PartialEq, Eq, Structural)]
pub struct UserEntry {
    /// Where the program starts.
    pub entry_point: usize,
    /// The user stack pointer.
    pub user_sp: usize,
    /// The top of the kernel stack that the next trap uses.
    pub kernel_sp: usize,
    /// Where the next trap goes.
    pub target: TrapTarget,
    /// Register `x10` (`a0`), where the program is started with arguments.
    pub x10: Option<usize>,
    /// Register `x11` (`a1`), where the program is started with arguments.
    pub x11: Option<usize>,
}

} // verus!
