//! Process management for a small RISC-V teaching kernel.
//!
//! The crate decides; it touches no hardware and no other part of the kernel. A call that needs
//! such work in between is made once for each event, and answers with what is to be done next.
//!
//! The proof functions named `law_..` say what the calls are for. Where one of them supposes
//! `call_ensures(f, args, r)`, it speaks of any call of `f` with the arguments `args` that gave
//! `r`; of an argument that the call may change, `old` is the value before the call and `final`
//! the value after it, and several calls in a row are several such arguments, each starting from
//! what the one before left.
pub mod bytes;
pub mod config;
pub mod fs;
pub mod mm;
pub mod syscall;
pub mod task;
