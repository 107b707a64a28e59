//! The status register and what the driver reads from it.
//!
//! Bit 0 is set while a program or erase runs inside the chip, bit 1 while the write
//! enable latch is set, and bit 6 is reserved: a healthy chip always reports it as zero.

use vstd::prelude::*;

verus! {

/// Mask of the bit that is set while a program or erase is in progress.
pub const WRITE_IN_PROGRESS: u8 = 0x01;

/// Mask of the write enable latch.
pub const WRITE_ENABLE_LATCH: u8 = 0x02;

/// Mask of the reserved bit.
pub const RESERVED: u8 = 0x40;

/// What a status byte says about the chip.
#[derive(Clone, Copy, Debug, PartialEq, Eq, Structural)]
pub enum Verdict {
    /// No program or erase is running.
    Idle,
    /// A program or erase is still running.
    Busy,
    /// The reserved bit is set: the byte did not come from a healthy chip.
    Faulty,
}

/// Whether `status` reports a program or erase in progress.
pub open spec fn in_progress(status: u8) -> bool {
    status % 2 == 1
}

/// Whether `status` reports the write enable latch as set.
pub open spec fn latch_set(status: u8) -> bool {
    (status / 2) % 2 == 1
}

/// Whether `status` has the reserved bit set.
pub open spec fn reserved_set(status: u8) -> bool {
    (status / 64) % 2 == 1
}

/// The verdict on a status byte: the reserved bit decides first, then the progress bit.
pub open spec fn verdict(status: u8) -> Verdict {
    if reserved_set(status) {
        Verdict::Faulty
    } else if in_progress(status) {
        Verdict::Busy
    } else {
        Verdict::Idle
    }
}

/// Tells whether a program or erase is in progress according to `status`.
pub fn is_busy(status: u8) -> (busy: bool)
    ensures
        busy == in_progress(status),
{
    assert((status & 0x01 != 0) == (status % 2 == 1)) by (bit_vector);
    status & WRITE_IN_PROGRESS != 0
}

/// Tells whether the write enable latch is set according to `status`.
pub fn is_write_enabled(status: u8) -> (enabled: bool)
    ensures
        enabled == latch_set(status),
{
    assert((status & 0x02 != 0) == ((status / 2) % 2 == 1)) by (bit_vector);
    status & WRITE_ENABLE_LATCH != 0
}

/// Tells whether the reserved bit of `status` is clear, as it is on a healthy chip.
pub fn is_plausible(status: u8) -> (plausible: bool)
    ensures
        plausible == !reserved_set(status),
{
    assert((status & 0x40 == 0) == !((status / 64) % 2 == 1)) by (bit_vector);
    status & RESERVED == 0
}

/// Judges a status byte.
pub fn judge(status: u8) -> (out: Verdict)
    ensures
        out == verdict(status),
{
    if !is_plausible(status) {
        Verdict::Faulty
    } else if is_busy(status) {
        Verdict::Busy
    } else {
        Verdict::Idle
    }
}

} // verus!
