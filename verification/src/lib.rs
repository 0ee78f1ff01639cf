//! A verified model of a minimal GPIO blink driver for one LED of an LED
//! matrix: the register map of the GPIO port, a simulated register address
//! space, the configuration and output-drive write sequences of the three
//! program variants, and the alternating drive loop, each with a contract.
//!
//! The hardware itself is outside the library: the driver logic here produces
//! register writes as plain values, and proofs relate those writes to a model
//! of the port's registers. A thin unverified layer performs the same writes
//! on the memory-mapped registers of the target chip.

pub mod delay;
pub mod division;
pub mod driver;
pub mod port;
pub mod program;
pub mod regmap;
