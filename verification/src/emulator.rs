use vstd::prelude::*;

verus! {

/// Handle for a host front end that owns a core, a display and a pacing
/// loop. The loop itself does I/O and sleeps, so it lives with the host;
/// the core it drives is `crate::chip8::Chip8`.
pub struct Emulator;

impl Emulator {
    pub fn new() -> (e: Emulator)
        ensures
            e == (Emulator {}),
    {
        Emulator {}
    }
}

} // verus!
