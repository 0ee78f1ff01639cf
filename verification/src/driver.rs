//! Pin Configurator and Output Driver: the register writes the driver
//! issues, as plain values, and what each does to the port model.
//!
//! A configuration write stores a direction value in one pin's
//! configuration register. An output command writes a mask with a single
//! bit set to the output set or output clear register; the hardware then
//! raises or lowers exactly that pin and leaves every other pin's level
//! untouched.

use vstd::prelude::*;

use crate::port::{apply_write, PortView, RegWrite};
use crate::regmap::{
    is_pin_cnf_addr, outclr_addr, outclr_addr_spec, outset_addr, outset_addr_spec,
    pin_cnf_addr, pin_cnf_addr_spec, pin_of_cnf_addr, CNF_INPUT, CNF_OUTPUT, PINS_PER_PORT,
};

verus! {

/// The electrical direction a pin is configured to.
#[derive(Clone, Copy, Debug, PartialEq, Eq, Structural)]
pub enum PinConfig {
    /// The pin actively drives a logic level.
    Output,
    /// The pin is electrically disconnected from being driven.
    Input,
}

/// The configuration value stored for a direction.
pub open spec fn cnf_value_spec(c: PinConfig) -> u32 {
    match c {
        PinConfig::Output => CNF_OUTPUT,
        PinConfig::Input => CNF_INPUT,
    }
}

impl PinConfig {
    /// The configuration value stored for this direction.
    pub fn cnf_value(&self) -> (v: u32)
        ensures
            v == cnf_value_spec(*self),
    {
        match self {
            PinConfig::Output => CNF_OUTPUT,
            PinConfig::Input => CNF_INPUT,
        }
    }
}

/// The write that configures `pin` with direction `c`.
pub open spec fn configure_write_spec(pin: u32, c: PinConfig) -> RegWrite {
    RegWrite { addr: pin_cnf_addr_spec(pin as int) as usize, value: cnf_value_spec(c) }
}

/// The output command that raises `pin` to logic-high.
pub open spec fn set_write_spec(pin: u32) -> RegWrite {
    RegWrite { addr: outset_addr_spec() as usize, value: 1u32 << pin }
}

/// The output command that lowers `pin` to logic-low.
pub open spec fn clear_write_spec(pin: u32) -> RegWrite {
    RegWrite { addr: outclr_addr_spec() as usize, value: 1u32 << pin }
}

/// Build the write that configures `pin` with direction `c`.
pub fn configure_write(pin: u32, c: PinConfig) -> (w: RegWrite)
    requires
        pin < PINS_PER_PORT,
    ensures
        w == configure_write_spec(pin, c),
{
    RegWrite { addr: pin_cnf_addr(pin), value: c.cnf_value() }
}

/// Build the output command that raises `pin`.
pub fn set_write(pin: u32) -> (w: RegWrite)
    requires
        pin < PINS_PER_PORT,
    ensures
        w == set_write_spec(pin),
{
    RegWrite { addr: outset_addr(), value: 1u32 << pin }
}

/// Build the output command that lowers `pin`.
pub fn clear_write(pin: u32) -> (w: RegWrite)
    requires
        pin < PINS_PER_PORT,
    ensures
        w == clear_write_spec(pin),
{
    RegWrite { addr: outclr_addr(), value: 1u32 << pin }
}

/// A configuration write stores exactly the direction value in the
/// configuration register of its pin, and changes nothing else: no other
/// pin's stored configuration, and no output level. Reading back after
/// configuring as output yields exactly the output value, and likewise for
/// input.
pub proof fn lemma_configure_readback(p: PortView, pin: u32, c: PinConfig)
    requires
        p.wf(),
        pin < PINS_PER_PORT,
    ensures
        ({
            let q = apply_write(p, configure_write_spec(pin, c));
            &&& q.cnf[pin as int] == cnf_value_spec(c)
            &&& q.out == p.out
            &&& forall|o: u32|
                o < PINS_PER_PORT && o != pin ==> q.cnf[o as int] == p.cnf[o as int]
        }),
{
    let w = configure_write_spec(pin, c);
    assert(w.addr as int == pin_cnf_addr_spec(pin as int));
    assert(is_pin_cnf_addr(w.addr as int));
    assert(pin_of_cnf_addr(w.addr as int) == pin as int);
}

/// A set command drives its pin high and leaves every other pin's level and
/// every pin's stored configuration unchanged.
pub proof fn lemma_set_effect(p: PortView, pin: u32)
    requires
        pin < PINS_PER_PORT,
    ensures
        ({
            let q = apply_write(p, set_write_spec(pin));
            &&& q.level(pin)
            &&& forall|o: u32| o < PINS_PER_PORT && o != pin ==> q.level(o) == p.level(o)
            &&& q.cnf == p.cnf
        }),
{
    let w = set_write_spec(pin);
    assert(w.addr as int == outset_addr_spec());
    assert(!is_pin_cnf_addr(w.addr as int));
    let x = p.out;
    assert((x | (1u32 << pin)) & (1u32 << pin) != 0) by (bit_vector)
        requires
            pin < 32u32,
    ;
    assert forall|o: u32| o < PINS_PER_PORT && o != pin implies (x | (1u32 << pin)) & (1u32 << o)
        == x & (1u32 << o) by {
        assert((x | (1u32 << pin)) & (1u32 << o) == x & (1u32 << o)) by (bit_vector)
            requires
                pin < 32u32,
                o < 32u32,
                o != pin,
        ;
    }
}

/// A clear command drives its pin low and leaves every other pin's level
/// and every pin's stored configuration unchanged.
pub proof fn lemma_clear_effect(p: PortView, pin: u32)
    requires
        pin < PINS_PER_PORT,
    ensures
        ({
            let q = apply_write(p, clear_write_spec(pin));
            &&& !q.level(pin)
            &&& forall|o: u32| o < PINS_PER_PORT && o != pin ==> q.level(o) == p.level(o)
            &&& q.cnf == p.cnf
        }),
{
    let w = clear_write_spec(pin);
    assert(w.addr as int == outclr_addr_spec());
    assert(!is_pin_cnf_addr(w.addr as int));
    let x = p.out;
    assert((x & !(1u32 << pin)) & (1u32 << pin) == 0) by (bit_vector)
        requires
            pin < 32u32,
    ;
    assert forall|o: u32| o < PINS_PER_PORT && o != pin implies (x & !(1u32 << pin)) & (1u32 << o)
        == x & (1u32 << o) by {
        assert((x & !(1u32 << pin)) & (1u32 << o) == x & (1u32 << o)) by (bit_vector)
            requires
                pin < 32u32,
                o < 32u32,
                o != pin,
        ;
    }
}

/// Setting a pin and then clearing it leaves that pin low, and leaves every
/// other pin's level, and every pin's stored configuration, exactly as it
/// was before the two commands.
pub proof fn lemma_set_then_clear(p: PortView, pin: u32)
    requires
        p.wf(),
        pin < PINS_PER_PORT,
    ensures
        ({
            let q = apply_write(apply_write(p, set_write_spec(pin)), clear_write_spec(pin));
            &&& !q.level(pin)
            &&& forall|o: u32| o < PINS_PER_PORT && o != pin ==> q.level(o) == p.level(o)
            &&& q.cnf == p.cnf
        }),
{
    let mid = apply_write(p, set_write_spec(pin));
    lemma_set_effect(p, pin);
    lemma_clear_effect(mid, pin);
}

/// Issuing the same set command twice leaves the port exactly as issuing it
/// once does.
pub proof fn lemma_set_idempotent(p: PortView, pin: u32)
    requires
        pin < PINS_PER_PORT,
    ensures
        apply_write(apply_write(p, set_write_spec(pin)), set_write_spec(pin)) == apply_write(
            p,
            set_write_spec(pin),
        ),
{
    let x = p.out;
    assert((x | (1u32 << pin)) | (1u32 << pin) == x | (1u32 << pin)) by (bit_vector);
    assert(apply_write(apply_write(p, set_write_spec(pin)), set_write_spec(pin)) =~= apply_write(
        p,
        set_write_spec(pin),
    ));
}

/// Issuing the same clear command twice leaves the port exactly as issuing
/// it once does.
pub proof fn lemma_clear_idempotent(p: PortView, pin: u32)
    requires
        pin < PINS_PER_PORT,
    ensures
        apply_write(apply_write(p, clear_write_spec(pin)), clear_write_spec(pin)) == apply_write(
            p,
            clear_write_spec(pin),
        ),
{
    let x = p.out;
    assert((x & !(1u32 << pin)) & !(1u32 << pin) == x & !(1u32 << pin)) by (bit_vector);
    assert(apply_write(apply_write(p, clear_write_spec(pin)), clear_write_spec(pin))
        =~= apply_write(p, clear_write_spec(pin)));
}

} // verus!
