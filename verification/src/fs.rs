//! Files, as far as a file descriptor table looks at them.
use vstd::prelude::*;

verus! {

/// An open file that a file descriptor stands for.
#[derive(Clone, Copy, Debug, PartialEq, Eq, Structural)]
pub enum FileHandle {
    /// The console's input.
    Stdin,
    /// The console's output.
    Stdout,
    /// Any other open file, by its number in the kernel.
    Open(usize),
}

} // verus!
