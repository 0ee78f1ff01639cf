//! A model of the GPIO port's register memory: the simulated address space
//! the driver logic is verified against.
//!
//! A [`Port`] holds the stored configuration value of each pin and the
//! output word of the port. A [`RegWrite`] is one register write, an
//! absolute address and the 32-bit word written there. Applying a write to
//! the model follows the hardware's register semantics: a write to a
//! pin-configuration register stores the value for that pin alone; a write
//! to the output set (clear) register raises (lowers) exactly the pins whose
//! bits are 1 in the written word and leaves every other pin's level
//! unchanged; a write anywhere else touches nothing.

use vstd::prelude::*;

use crate::regmap::{
    is_pin_cnf_addr, outclr_addr, outclr_addr_spec, outset_addr, outset_addr_spec,
    pin_cnf_addr, pin_of_cnf_addr, CNF_INPUT, PINS_PER_PORT,
};

verus! {

/// One write to a memory-mapped register: an absolute address and the word
/// written there.
#[derive(Clone, Copy, Debug, PartialEq, Eq, Structural)]
pub struct RegWrite {
    pub addr: usize,
    pub value: u32,
}

/// The mathematical model of a port: the stored configuration value of each
/// pin, and the output word whose bit `p` is pin `p`'s driven level.
#[verifier::ext_equal]
pub struct PortView {
    pub cnf: Seq<u32>,
    pub out: u32,
}

/// Bit `pin` of `word`: the driven level of `pin` in an output word.
pub open spec fn bit_is_set(word: u32, pin: u32) -> bool {
    word & (1u32 << pin) != 0
}

impl PortView {
    /// A port model holds one configuration register per pin.
    pub open spec fn wf(self) -> bool {
        self.cnf.len() == PINS_PER_PORT
    }

    /// The driven output level of `pin`: true is logic-high.
    pub open spec fn level(self, pin: u32) -> bool {
        bit_is_set(self.out, pin)
    }
}

/// The port as the hardware resets it: every pin configured as input, every
/// output level low.
pub open spec fn reset_port() -> PortView {
    PortView { cnf: Seq::new(PINS_PER_PORT as nat, |i: int| CNF_INPUT), out: 0 }
}

/// The effect of one register write on the port model.
pub open spec fn apply_write(p: PortView, w: RegWrite) -> PortView {
    if is_pin_cnf_addr(w.addr as int) {
        PortView { cnf: p.cnf.update(pin_of_cnf_addr(w.addr as int), w.value), out: p.out }
    } else if w.addr as int == outset_addr_spec() {
        PortView { cnf: p.cnf, out: p.out | w.value }
    } else if w.addr as int == outclr_addr_spec() {
        PortView { cnf: p.cnf, out: p.out & !w.value }
    } else {
        p
    }
}

/// The effect of a sequence of register writes, applied left to right.
pub open spec fn apply_writes(p: PortView, ws: Seq<RegWrite>) -> PortView
    decreases ws.len(),
{
    if ws.len() == 0 {
        p
    } else {
        apply_writes(apply_write(p, ws[0]), ws.drop_first())
    }
}

/// A write never changes how many configuration registers the port has.
pub proof fn lemma_apply_write_wf(p: PortView, w: RegWrite)
    requires
        p.wf(),
    ensures
        apply_write(p, w).wf(),
{
}

/// Appending one write to a sequence is the same as applying it after the
/// sequence.
pub proof fn lemma_apply_writes_push(p: PortView, ws: Seq<RegWrite>, w: RegWrite)
    ensures
        apply_writes(p, ws.push(w)) == apply_write(apply_writes(p, ws), w),
    decreases ws.len(),
{
    if ws.len() == 0 {
        assert(ws.push(w)[0] == w);
        assert(ws.push(w).drop_first() =~= Seq::<RegWrite>::empty());
        assert(apply_writes(p, ws) == p);
        assert(apply_writes(apply_write(p, w), Seq::<RegWrite>::empty()) == apply_write(p, w));
    } else {
        assert(ws.push(w).drop_first() =~= ws.drop_first().push(w));
        lemma_apply_writes_push(apply_write(p, ws[0]), ws.drop_first(), w);
    }
}

/// Applying a concatenation is applying the two halves in turn.
pub proof fn lemma_apply_writes_concat(p: PortView, xs: Seq<RegWrite>, ys: Seq<RegWrite>)
    ensures
        apply_writes(p, xs + ys) == apply_writes(apply_writes(p, xs), ys),
    decreases xs.len(),
{
    if xs.len() == 0 {
        assert(xs + ys =~= ys);
    } else {
        assert((xs + ys)[0] == xs[0]);
        assert((xs + ys).drop_first() =~= xs.drop_first() + ys);
        lemma_apply_writes_concat(apply_write(p, xs[0]), xs.drop_first(), ys);
    }
}

/// A sequence of writes never changes how many configuration registers the
/// port has.
pub proof fn lemma_apply_writes_wf(p: PortView, ws: Seq<RegWrite>)
    requires
        p.wf(),
    ensures
        apply_writes(p, ws).wf(),
    decreases ws.len(),
{
    if ws.len() == 0 {
        assert(apply_writes(p, ws) == p);
    } else {
        lemma_apply_write_wf(p, ws[0]);
        lemma_apply_writes_wf(apply_write(p, ws[0]), ws.drop_first());
    }
}

/// The simulated register memory of one GPIO port.
pub struct Port {
    cnf: Vec<u32>,
    out: u32,
}

impl View for Port {
    type V = PortView;

    closed spec fn view(&self) -> PortView {
        PortView { cnf: self.cnf@, out: self.out }
    }
}

impl Port {
    /// The port is well formed: one configuration register per pin.
    pub open spec fn wf(self) -> bool {
        self@.wf()
    }

    /// A fresh port in its hardware reset state: every pin an input, every
    /// output level low.
    pub fn new() -> (p: Port)
        ensures
            p.wf(),
            p@ == reset_port(),
    {
        let mut cnf: Vec<u32> = Vec::new();
        let mut i: u32 = 0;
        while i < PINS_PER_PORT
            invariant
                i <= PINS_PER_PORT,
                cnf@.len() == i as nat,
                forall|j: int| 0 <= j < i as int ==> cnf@[j] == CNF_INPUT,
            decreases PINS_PER_PORT - i,
        {
            cnf.push(CNF_INPUT);
            i = i + 1;
        }
        let p = Port { cnf, out: 0 };
        proof {
            assert(p@ =~= reset_port());
        }
        p
    }

    /// Perform one register write on the simulated address space.
    pub fn apply(&mut self, w: &RegWrite)
        requires
            old(self).wf(),
        ensures
            final(self).wf(),
            final(self)@ == apply_write(old(self)@, *w),
    {
        let cnf_base = pin_cnf_addr(0);
        if w.addr >= cnf_base && w.addr < cnf_base + 4 * (PINS_PER_PORT as usize)
            && (w.addr - cnf_base) % 4 == 0
        {
            let pin = (w.addr - cnf_base) / 4;
            assert(pin < PINS_PER_PORT);
            assert(pin as int == pin_of_cnf_addr(w.addr as int));
            self.cnf.set(pin, w.value);
        } else if w.addr == outset_addr() {
            self.out = self.out | w.value;
        } else if w.addr == outclr_addr() {
            self.out = self.out & !w.value;
        }
    }

    /// Perform a sequence of register writes, first to last.
    pub fn apply_all(&mut self, ws: &Vec<RegWrite>)
        requires
            old(self).wf(),
        ensures
            final(self).wf(),
            final(self)@ == apply_writes(old(self)@, ws@),
    {
        let ghost start = self@;
        let mut i: usize = 0;
        while i < ws.len()
            invariant
                self.wf(),
                i <= ws@.len(),
                self@ == apply_writes(start, ws@.take(i as int)),
            decreases ws@.len() - i,
        {
            proof {
                lemma_apply_writes_push(start, ws@.take(i as int), ws@[i as int]);
                assert(ws@.take(i as int).push(ws@[i as int]) =~= ws@.take(i as int + 1));
            }
            self.apply(&ws[i]);
            i = i + 1;
        }
        proof {
            assert(ws@.take(ws@.len() as int) =~= ws@);
        }
    }

    /// Read back the stored configuration value of `pin`.
    pub fn read_cnf(&self, pin: u32) -> (v: u32)
        requires
            self.wf(),
            pin < PINS_PER_PORT,
        ensures
            v == self@.cnf[pin as int],
    {
        self.cnf[pin as usize]
    }

    /// Read back the driven output level of `pin`: true is logic-high.
    pub fn read_level(&self, pin: u32) -> (b: bool)
        requires
            pin < PINS_PER_PORT,
        ensures
            b == self@.level(pin),
    {
        self.out & (1u32 << pin) != 0
    }

    /// The whole output word of the port.
    pub fn out_word(&self) -> (w: u32)
        ensures
            w == self@.out,
    {
        self.out
    }
}

} // verus!
