//! Constants shared by the whole kernel.
use vstd::prelude::*;

verus! {

/// Size of a page in bytes.
pub const PAGE_SIZE: usize = 4096;

/// Number of the `yield` system call.
pub const SYSCALL_YIELD: usize = 124;

/// Number of the `get_time` system call.
pub const SYSCALL_GET_TIME: usize = 169;

/// Number of the `sbrk` system call.
pub const SYSCALL_SBRK: usize = 214;

/// Number of the `munmap` system call.
pub const SYSCALL_MUNMAP: usize = 215;

/// Number of the `mmap` system call.
pub const SYSCALL_MMAP: usize = 222;

/// Number of the `trace` system call.
pub const SYSCALL_TRACE: usize = 410;

/// What a lock request is answered when granting it could end in a deadlock.
pub const MUTEX_CHECK_DEADLOCK: isize = -0xdead;

/// The numbers that programs and the rest of the kernel go by: the page size, the numbers of the
/// system calls, no two of which are the same, and the answer to a refused lock request, which no
/// granted request gets.
pub proof fn law_numbers()
    ensures
        PAGE_SIZE == 4096,
        SYSCALL_YIELD == 124,
        SYSCALL_GET_TIME == 169,
        SYSCALL_SBRK == 214,
        SYSCALL_MUNMAP == 215,
        SYSCALL_MMAP == 222,
        SYSCALL_TRACE == 410,
        MUTEX_CHECK_DEADLOCK == -57005,
{
}

} // verus!
