//! Register map of the GPIO port: the absolute addresses of the
//! pin-configuration block and of the output set / clear registers of port
//! P0 on the target chip, and the two pins wired to one row and one column
//! of the LED matrix.
//!
//! These are fixed hardware facts; nothing here is computed at run time
//! beyond the address of a pin's configuration register.

use vstd::prelude::*;

verus! {

/// Memory location of the GPIO register block.
pub const GPIO_BASE: usize = 0x5000_0000;

/// Base of port P0's registers: the first port of the GPIO block.
pub const GPIO_P0: usize = GPIO_BASE;

/// Offset from a port's base to its block of pin-configuration registers,
/// one 32-bit register per pin.
pub const PIN_CNF_OFFSET: usize = 0x700;

/// Offset from a port's base to the output set register
/// (write 1 to a bit to drive that pin high).
pub const OUTSET_OFFSET: usize = 0x508;

/// Offset from a port's base to the output clear register
/// (write 1 to a bit to drive that pin low).
pub const OUTCLR_OFFSET: usize = 0x50c;

/// Number of pins on one port, and the length of its configuration block.
pub const PINS_PER_PORT: u32 = 32;

/// Row 1 of the LED matrix: pin P0.21.
pub const ROW1_PIN: u32 = 21;

/// Column 1 of the LED matrix: pin P0.28.
pub const COL1_PIN: u32 = 28;

/// Configuration value selecting output direction for a pin.
pub const CNF_OUTPUT: u32 = 0b01;

/// Configuration value selecting input direction for a pin; also the
/// reset-time state of every pin's configuration register.
pub const CNF_INPUT: u32 = 0b10;

/// Spin iterations of the delay primitive, calibrated to roughly half a
/// second at the target clock speed.
pub const DELAY_CYCLES: u32 = 4_000_000;

/// Address of a pin's configuration register on port P0.
pub open spec fn pin_cnf_addr_spec(pin: int) -> int {
    GPIO_P0 + PIN_CNF_OFFSET + 4 * pin
}

/// Address of port P0's output set register.
pub open spec fn outset_addr_spec() -> int {
    GPIO_P0 + OUTSET_OFFSET
}

/// Address of port P0's output clear register.
pub open spec fn outclr_addr_spec() -> int {
    GPIO_P0 + OUTCLR_OFFSET
}

/// Does this address fall on one of port P0's pin-configuration registers?
pub open spec fn is_pin_cnf_addr(addr: int) -> bool {
    &&& pin_cnf_addr_spec(0) <= addr < pin_cnf_addr_spec(PINS_PER_PORT as int)
    &&& (addr - pin_cnf_addr_spec(0)) % 4 == 0
}

/// The pin whose configuration register sits at this address.
pub open spec fn pin_of_cnf_addr(addr: int) -> int {
    (addr - pin_cnf_addr_spec(0)) / 4
}

/// Address of the configuration register of `pin` on port P0.
pub fn pin_cnf_addr(pin: u32) -> (addr: usize)
    requires
        pin < PINS_PER_PORT,
    ensures
        addr == pin_cnf_addr_spec(pin as int),
        is_pin_cnf_addr(addr as int),
        pin_of_cnf_addr(addr as int) == pin as int,
{
    GPIO_P0 + PIN_CNF_OFFSET + 4 * (pin as usize)
}

/// Address of the output set register of port P0.
pub fn outset_addr() -> (addr: usize)
    ensures
        addr == outset_addr_spec(),
{
    GPIO_P0 + OUTSET_OFFSET
}

/// Address of the output clear register of port P0.
pub fn outclr_addr() -> (addr: usize)
    ensures
        addr == outclr_addr_spec(),
{
    GPIO_P0 + OUTCLR_OFFSET
}

} // verus!
