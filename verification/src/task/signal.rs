//! Signals.
use vstd::prelude::*;

verus! {

/// The signals that wait for a process, one bit per signal.
#[derive(Clone, Copy, Debug, PartialEq, Eq, Structural)]
pub struct SignalFlags {
    pub bits: u32,
}

impl SignalFlags {
    /// No signal.
    pub fn empty() -> (flags: SignalFlags)
        ensures
            flags.bits == 0,
    {
        SignalFlags { bits: 0 }
    }
}

/// No signal is no bit.
pub proof fn law_no_signal(flags: SignalFlags)
    requires
        call_ensures(SignalFlags::empty, (), flags),
    ensures
        flags == (SignalFlags { bits: 0 }),
{
}

} // verus!
