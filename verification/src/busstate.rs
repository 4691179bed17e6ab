//! Shared machine state outside the CPU core: the two 60Hz timers and
//! the key-wait latch.

use vstd::prelude::*;

verus! {

/// Timers and the key-wait latch, shared over the bus.
pub struct BusState {
    /// Delay timer, decremented at 60Hz down to 0.
    pub delay: u8,
    /// Sound timer, decremented at 60Hz down to 0; nonzero means a tone
    /// is sounding.
    pub sound: u8,
    /// Whether instruction ticks are blocked until a key press arrives.
    pub lock_until_pressed: bool,
    /// The register the awaited key is written into.
    pub write_to: u8,
}

impl BusState {
    /// The key-wait target names a real register.
    pub open spec fn wf(self) -> bool {
        self.write_to < 16
    }
}

} // verus!
