//! The delay primitive: a calibrated busy-wait that burns a fixed number of
//! cycles instead of using a timer peripheral.
//!
//! The iteration count is a single tunable constant, calibrated empirically
//! for one clock configuration; the loop itself has no feedback and no
//! failure mode. On the target the body of each iteration is a
//! no-operation instruction; the verified loop here pins down the exact
//! number of iterations performed.

use vstd::prelude::*;

use crate::regmap::DELAY_CYCLES;

verus! {

/// Busy-wait for exactly `cycles` iterations, returning how many were
/// performed.
pub fn spin(cycles: u32) -> (spent: u32)
    ensures
        spent == cycles,
{
    let mut i: u32 = 0;
    while i < cycles
        invariant
            i <= cycles,
        decreases cycles - i,
    {
        i = i + 1;
    }
    i
}

/// One human-visible delay unit: the calibrated spin of roughly half a
/// second at the target clock speed.
pub fn delay() -> (spent: u32)
    ensures
        spent == DELAY_CYCLES,
{
    spin(DELAY_CYCLES)
}

} // verus!
