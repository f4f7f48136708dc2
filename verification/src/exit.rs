//! Verdict codes for QEMU's isa-debug-exit device.
use vstd::prelude::*;

verus! {

/// Written to the exit device when every non-skipped test passed.
pub const SUCCESS: u8 = 0x10;

/// Written to the exit device when some test failed.
pub const FAILURE: u8 = 0x11;

/// I/O port of the isa-debug-exit device.
pub const EXIT_PORT: u16 = 0xf4;

/// The byte to report to the exit device for a run whose verdict is `ok`.
pub fn verdict_code(ok: bool) -> (code: u8)
    ensures
        code == (if ok { SUCCESS } else { FAILURE }),
{
    if ok {
        SUCCESS
    } else {
        FAILURE
    }
}

} // verus!
