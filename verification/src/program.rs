//! The Drive Loop and the three program variants: the exact register-write
//! sequences each issues, the alternating row state machine, and runs of
//! each program against the simulated port.
//!
//! The blink programs configure the row and column pins as outputs, ground
//! the column once, and then alternate the row between high and low forever,
//! one delay unit between neighbouring commands. The safe-idle variant
//! configures both pins as inputs and never issues an output command.

use vstd::prelude::*;

use crate::driver::{
    clear_write, clear_write_spec, configure_write, configure_write_spec,
    lemma_configure_readback, set_write, set_write_spec, PinConfig,
};
use crate::port::{
    apply_write, apply_writes, bit_is_set, lemma_apply_write_wf, lemma_apply_writes_push,
    reset_port, Port, PortView, RegWrite,
};
use crate::regmap::{
    is_pin_cnf_addr, outclr_addr, outclr_addr_spec, outset_addr_spec, pin_cnf_addr,
    pin_cnf_addr_spec, pin_of_cnf_addr, CNF_INPUT, CNF_OUTPUT, COL1_PIN, PINS_PER_PORT, ROW1_PIN,
};

verus! {

/// The alternating state of the drive loop: what level the row pin is
/// currently driven to. One delay unit passes between neighbouring steps.
#[derive(Clone, Copy, Debug, PartialEq, Eq, Structural)]
pub enum DriveState {
    /// The row pin is low; the LED is dark.
    RowLow,
    /// The row pin is high; current flows through the LED.
    RowHigh,
}

/// The boot writes of the raw-address program variant, with the literal
/// values that variant stores: configure the row and column pins as
/// outputs, then ground the column pin once.
pub open spec fn raw_boot_spec() -> Seq<RegWrite> {
    seq![
        RegWrite { addr: pin_cnf_addr_spec(ROW1_PIN as int) as usize, value: 1u32 },
        RegWrite { addr: pin_cnf_addr_spec(COL1_PIN as int) as usize, value: 1u32 },
        RegWrite { addr: outclr_addr_spec() as usize, value: 1u32 << COL1_PIN },
    ]
}

/// The boot writes of the structured program variant, built from the named
/// direction values instead of literal bit patterns.
pub open spec fn structured_boot_spec() -> Seq<RegWrite> {
    seq![
        configure_write_spec(ROW1_PIN, PinConfig::Output),
        configure_write_spec(COL1_PIN, PinConfig::Output),
        clear_write_spec(COL1_PIN),
    ]
}

/// The boot writes of the safe-idle program variant: configure both pins as
/// inputs and drive nothing.
pub open spec fn off_boot_spec() -> Seq<RegWrite> {
    seq![
        configure_write_spec(ROW1_PIN, PinConfig::Input),
        configure_write_spec(COL1_PIN, PinConfig::Input),
    ]
}

/// The boot writes of the raw-address variant, as that variant issues them.
pub fn raw_boot_writes() -> (ws: Vec<RegWrite>)
    ensures
        ws@ == raw_boot_spec(),
{
    let mut ws: Vec<RegWrite> = Vec::new();
    ws.push(RegWrite { addr: pin_cnf_addr(ROW1_PIN), value: 1 });
    ws.push(RegWrite { addr: pin_cnf_addr(COL1_PIN), value: 1 });
    ws.push(RegWrite { addr: outclr_addr(), value: 1u32 << COL1_PIN });
    proof {
        assert(ws@ =~= raw_boot_spec());
    }
    ws
}

/// The boot writes of the structured variant, built through the named
/// direction values and command constructors.
pub fn structured_boot_writes() -> (ws: Vec<RegWrite>)
    ensures
        ws@ == structured_boot_spec(),
{
    let mut ws: Vec<RegWrite> = Vec::new();
    ws.push(configure_write(ROW1_PIN, PinConfig::Output));
    ws.push(configure_write(COL1_PIN, PinConfig::Output));
    ws.push(clear_write(COL1_PIN));
    proof {
        assert(ws@ =~= structured_boot_spec());
    }
    ws
}

/// The boot writes of the safe-idle variant.
pub fn off_boot_writes() -> (ws: Vec<RegWrite>)
    ensures
        ws@ == off_boot_spec(),
{
    let mut ws: Vec<RegWrite> = Vec::new();
    ws.push(configure_write(ROW1_PIN, PinConfig::Input));
    ws.push(configure_write(COL1_PIN, PinConfig::Input));
    proof {
        assert(ws@ =~= off_boot_spec());
    }
    ws
}

/// The raw-address variant and the structured variant issue exactly the
/// same register writes: from the port model's point of view the two
/// programs are indistinguishable.
pub proof fn lemma_structured_matches_raw()
    ensures
        structured_boot_spec() == raw_boot_spec(),
        forall|p: PortView|
            apply_writes(p, structured_boot_spec()) == apply_writes(p, raw_boot_spec()),
{
    assert(structured_boot_spec() =~= raw_boot_spec());
}

/// The output command one step of the drive loop issues: entering from a
/// low row raises it, entering from a high row lowers it.
pub open spec fn step_write_spec(s: DriveState) -> RegWrite {
    match s {
        DriveState::RowLow => set_write_spec(ROW1_PIN),
        DriveState::RowHigh => clear_write_spec(ROW1_PIN),
    }
}

/// The state the drive loop moves to after one step.
pub open spec fn next_state(s: DriveState) -> DriveState {
    match s {
        DriveState::RowLow => DriveState::RowHigh,
        DriveState::RowHigh => DriveState::RowLow,
    }
}

/// The state after `n` steps of the loop: the row starts low and strictly
/// alternates, so it is high exactly after an odd number of steps.
pub open spec fn state_at(n: nat) -> DriveState {
    if n % 2 == 0 {
        DriveState::RowLow
    } else {
        DriveState::RowHigh
    }
}

/// The output commands the first `n` steps of the drive loop issue.
pub open spec fn step_writes(n: nat) -> Seq<RegWrite>
    decreases n,
{
    if n == 0 {
        Seq::empty()
    } else {
        step_writes((n - 1) as nat).push(step_write_spec(state_at((n - 1) as nat)))
    }
}

/// Every register write the blink program has issued after booting and
/// running `n` steps of the drive loop.
pub open spec fn blink_trace(n: nat) -> Seq<RegWrite> {
    raw_boot_spec() + step_writes(n)
}

/// One step of the drive loop: the output command to issue, and the state
/// the loop moves to.
pub fn drive_step(s: DriveState) -> (r: (RegWrite, DriveState))
    ensures
        r.0 == step_write_spec(s),
        r.1 == next_state(s),
{
    match s {
        DriveState::RowLow => (set_write(ROW1_PIN), DriveState::RowHigh),
        DriveState::RowHigh => (clear_write(ROW1_PIN), DriveState::RowLow),
    }
}

/// Boot the blink program on a simulated port and run `steps` steps of its
/// drive loop, returning the loop state reached.
pub fn run_blink(port: &mut Port, steps: usize) -> (s: DriveState)
    requires
        old(port).wf(),
    ensures
        final(port).wf(),
        final(port)@ == apply_writes(old(port)@, blink_trace(steps as nat)),
        s == state_at(steps as nat),
{
    let ghost start = port@;
    let boot = raw_boot_writes();
    port.apply_all(&boot);
    proof {
        assert(step_writes(0) =~= Seq::<RegWrite>::empty());
        assert(blink_trace(0) =~= raw_boot_spec());
    }
    let mut s = DriveState::RowLow;
    let mut i: usize = 0;
    while i < steps
        invariant
            port.wf(),
            i <= steps,
            port@ == apply_writes(start, blink_trace(i as nat)),
            s == state_at(i as nat),
        decreases steps - i,
    {
        let (w, ns) = drive_step(s);
        proof {
            assert(step_writes(i as nat + 1) == step_writes(i as nat).push(
                step_write_spec(state_at(i as nat)),
            ));
            assert(blink_trace(i as nat + 1) =~= blink_trace(i as nat).push(w));
            lemma_apply_writes_push(start, blink_trace(i as nat), w);
            assert(state_at(i as nat + 1) == next_state(state_at(i as nat)));
        }
        port.apply(&w);
        s = ns;
        i = i + 1;
    }
    s
}

/// Boot the safe-idle program on a simulated port: both pins become inputs
/// and no output command is ever issued.
pub fn run_off(port: &mut Port)
    requires
        old(port).wf(),
    ensures
        final(port).wf(),
        final(port)@ == apply_writes(old(port)@, off_boot_spec()),
{
    let ws = off_boot_writes();
    port.apply_all(&ws);
}

/// A write to the output set or output clear register: a command that
/// drives a pin's level.
pub open spec fn is_output_cmd(w: RegWrite) -> bool {
    w.addr as int == outset_addr_spec() || w.addr as int == outclr_addr_spec()
}

/// An output command whose mask touches `pin`.
pub open spec fn drives_pin(w: RegWrite, pin: u32) -> bool {
    is_output_cmd(w) && w.value & (1u32 << pin) != 0
}

/// The write that stores a configuration value for `pin`.
pub open spec fn configures_pin(w: RegWrite, pin: u32) -> bool {
    is_pin_cnf_addr(w.addr as int) && pin_of_cnf_addr(w.addr as int) == pin as int
}

/// The first `n` steps of the drive loop issue exactly `n` output commands,
/// the command of step `i` being the one its state calls for.
proof fn lemma_step_writes_shape(n: nat)
    ensures
        step_writes(n).len() == n,
        forall|i: int|
            0 <= i < n ==> #[trigger] step_writes(n)[i] == step_write_spec(state_at(i as nat)),
    decreases n,
{
    if n > 0 {
        lemma_step_writes_shape((n - 1) as nat);
    }
}

/// Ordering invariant of the blink program: in its whole write trace, any
/// output command that touches a pin comes strictly after the write that
/// configures that pin.
pub proof fn lemma_configure_before_drive(n: nat, i: int, pin: u32)
    requires
        pin < PINS_PER_PORT,
        0 <= i < blink_trace(n).len(),
        drives_pin(blink_trace(n)[i], pin),
    ensures
        exists|j: int| 0 <= j < i && configures_pin(#[trigger] blink_trace(n)[j], pin),
{
    lemma_step_writes_shape(n);
    let w = blink_trace(n)[i];
    if i < 2 {
        assert(!is_output_cmd(w));
    } else if i == 2 {
        assert(w.value == 1u32 << COL1_PIN);
        assert((1u32 << 28u32) & (1u32 << pin) != 0 ==> pin == 28u32) by (bit_vector)
            requires
                pin < 32u32,
        ;
        assert(pin == COL1_PIN);
        assert(configures_pin(blink_trace(n)[1], pin));
    } else {
        assert(w == step_write_spec(state_at((i - 3) as nat)));
        assert(w.value == 1u32 << ROW1_PIN);
        assert((1u32 << 21u32) & (1u32 << pin) != 0 ==> pin == 21u32) by (bit_vector)
            requires
                pin < 32u32,
        ;
        assert(pin == ROW1_PIN);
        assert(configures_pin(blink_trace(n)[0], pin));
    }
}

/// The output word of the blink program's port after `n` steps: only the
/// row pin's bit, and only while the row is high.
pub open spec fn blink_out_word(n: nat) -> u32 {
    if state_at(n) == DriveState::RowHigh {
        1u32 << ROW1_PIN
    } else {
        0u32
    }
}

/// A run of the blink program from the reset state: after booting and `n`
/// steps, the row and column pins are configured as outputs and every other
/// pin is untouched; the row pin's level strictly alternates with the step
/// count, starting low; and the column pin, like every pin but the row,
/// stays low throughout.
pub proof fn lemma_blink_run(n: nat)
    ensures
        ({
            let q = apply_writes(reset_port(), blink_trace(n));
            &&& q.wf()
            &&& q.cnf[ROW1_PIN as int] == CNF_OUTPUT
            &&& q.cnf[COL1_PIN as int] == CNF_OUTPUT
            &&& forall|o: u32|
                o < PINS_PER_PORT && o != ROW1_PIN && o != COL1_PIN ==> q.cnf[o as int]
                    == CNF_INPUT
            &&& q.out == blink_out_word(n)
            &&& q.level(ROW1_PIN) == (state_at(n) == DriveState::RowHigh)
            &&& forall|o: u32| o < PINS_PER_PORT && o != ROW1_PIN ==> !q.level(o)
        }),
    decreases n,
{
    if n == 0 {
        let p0 = reset_port();
        let b = raw_boot_spec();
        assert(blink_trace(0) =~= b);
        assert(b =~= Seq::<RegWrite>::empty().push(b[0]).push(b[1]).push(b[2]));
        lemma_apply_writes_push(p0, Seq::<RegWrite>::empty().push(b[0]).push(b[1]), b[2]);
        lemma_apply_writes_push(p0, Seq::<RegWrite>::empty().push(b[0]), b[1]);
        lemma_apply_writes_push(p0, Seq::<RegWrite>::empty(), b[0]);
        assert(apply_writes(p0, Seq::<RegWrite>::empty()) == p0);
        assert(b[0] == configure_write_spec(ROW1_PIN, PinConfig::Output));
        assert(b[1] == configure_write_spec(COL1_PIN, PinConfig::Output));
        assert(b[2] == clear_write_spec(COL1_PIN));
        let q1 = apply_write(p0, b[0]);
        let q2 = apply_write(q1, b[1]);
        let q3 = apply_write(q2, b[2]);
        lemma_configure_readback(p0, ROW1_PIN, PinConfig::Output);
        lemma_apply_write_wf(p0, b[0]);
        lemma_configure_readback(q1, COL1_PIN, PinConfig::Output);
        lemma_apply_write_wf(q1, b[1]);
        lemma_apply_write_wf(q2, b[2]);
        assert(q2.out == 0);
        assert(q3.out == (0u32 & !(1u32 << 28u32)));
        assert(0u32 & !(1u32 << 28u32) == 0u32) by (bit_vector);
        let word0 = q3.out;
        assert forall|o: u32| o < PINS_PER_PORT implies !bit_is_set(word0, o) by {
            assert(word0 & (1u32 << o) == 0u32) by (bit_vector)
                requires
                    o < 32u32,
                    word0 == 0u32,
            ;
        }
    } else {
        lemma_blink_run((n - 1) as nat);
        let q_prev = apply_writes(reset_port(), blink_trace((n - 1) as nat));
        let w = step_write_spec(state_at((n - 1) as nat));
        assert(step_writes(n) == step_writes((n - 1) as nat).push(w));
        assert(blink_trace(n) =~= blink_trace((n - 1) as nat).push(w));
        lemma_apply_writes_push(reset_port(), blink_trace((n - 1) as nat), w);
        let q = apply_write(q_prev, w);
        lemma_apply_write_wf(q_prev, w);
        assert(!is_pin_cnf_addr(w.addr as int));
        if state_at((n - 1) as nat) == DriveState::RowLow {
            assert(q_prev.out == 0);
            assert(q.out == (0u32 | (1u32 << 21u32)));
            assert(0u32 | (1u32 << 21u32) == 1u32 << 21u32) by (bit_vector);
            assert(state_at(n) == DriveState::RowHigh);
        } else {
            assert(q_prev.out == 1u32 << ROW1_PIN);
            assert(q.out == ((1u32 << 21u32) & !(1u32 << 21u32)));
            assert((1u32 << 21u32) & !(1u32 << 21u32) == 0u32) by (bit_vector);
            assert(state_at(n) == DriveState::RowLow);
        }
        let wordn = q.out;
        assert(bit_is_set(wordn, ROW1_PIN) == (state_at(n) == DriveState::RowHigh)) by {
            assert((1u32 << 21u32) & (1u32 << 21u32) != 0) by (bit_vector);
            assert(0u32 & (1u32 << 21u32) == 0) by (bit_vector);
        }
        assert forall|o: u32| o < PINS_PER_PORT && o != ROW1_PIN implies !bit_is_set(
            wordn,
            o,
        ) by {
            assert(wordn & (1u32 << o) == 0) by (bit_vector)
                requires
                    o < 32u32,
                    o != 21u32,
                    wordn == 1u32 << 21u32 || wordn == 0u32,
            ;
        }
    }
}

/// The safe-idle program never issues an output command: its trace holds
/// configuration writes alone, both pins end configured as inputs, every
/// other pin's stored configuration is untouched, and no pin's output level
/// changes from whatever it was before the run.
pub proof fn lemma_off_never_drives(p: PortView)
    requires
        p.wf(),
    ensures
        forall|i: int|
            0 <= i < off_boot_spec().len() ==> !is_output_cmd(#[trigger] off_boot_spec()[i]),
        ({
            let q = apply_writes(p, off_boot_spec());
            &&& q.wf()
            &&& q.cnf[ROW1_PIN as int] == CNF_INPUT
            &&& q.cnf[COL1_PIN as int] == CNF_INPUT
            &&& forall|o: u32|
                o < PINS_PER_PORT && o != ROW1_PIN && o != COL1_PIN ==> q.cnf[o as int]
                    == p.cnf[o as int]
            &&& q.out == p.out
        }),
{
    let b = off_boot_spec();
    assert(b =~= Seq::<RegWrite>::empty().push(b[0]).push(b[1]));
    lemma_apply_writes_push(p, Seq::<RegWrite>::empty().push(b[0]), b[1]);
    lemma_apply_writes_push(p, Seq::<RegWrite>::empty(), b[0]);
    assert(apply_writes(p, Seq::<RegWrite>::empty()) == p);
    assert(b[0] == configure_write_spec(ROW1_PIN, PinConfig::Input));
    assert(b[1] == configure_write_spec(COL1_PIN, PinConfig::Input));
    lemma_configure_readback(p, ROW1_PIN, PinConfig::Input);
    lemma_apply_write_wf(p, b[0]);
    lemma_configure_readback(apply_write(p, b[0]), COL1_PIN, PinConfig::Input);
    lemma_apply_write_wf(apply_write(p, b[0]), b[1]);
}

} // verus!
