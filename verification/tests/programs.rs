use blinky::delay::{delay, spin};
use blinky::port::{Port, RegWrite};
use blinky::program::{
    drive_step, off_boot_writes, raw_boot_writes, run_blink, run_off, structured_boot_writes,
    DriveState,
};
use blinky::regmap::{
    outclr_addr, outset_addr, pin_cnf_addr, CNF_INPUT, CNF_OUTPUT, COL1_PIN, DELAY_CYCLES,
    ROW1_PIN,
};

#[test]
fn raw_boot_sequence_exact() {
    let ws = raw_boot_writes();
    assert_eq!(
        ws,
        vec![
            RegWrite { addr: 0x5000_0754, value: 0b01 },
            RegWrite { addr: 0x5000_0770, value: 0b01 },
            RegWrite { addr: 0x5000_050c, value: 1 << 28 },
        ]
    );
}

#[test]
fn structured_variant_matches_raw_variant() {
    assert_eq!(structured_boot_writes(), raw_boot_writes());
}

#[test]
fn off_boot_sequence_exact() {
    let ws = off_boot_writes();
    assert_eq!(
        ws,
        vec![
            RegWrite { addr: 0x5000_0754, value: 0b10 },
            RegWrite { addr: 0x5000_0770, value: 0b10 },
        ]
    );
}

#[test]
fn blink_scenario_row_alternates_column_stays_low() {
    // One fresh run per step count: after booting and n steps, the row is
    // high exactly after an odd number of delay units, and the column and
    // every other pin stay low throughout.
    for steps in 0..8usize {
        let mut port = Port::new();
        let state = run_blink(&mut port, steps);
        let row_high = steps % 2 == 1;
        assert_eq!(state == DriveState::RowHigh, row_high);
        assert_eq!(port.read_level(ROW1_PIN), row_high);
        assert!(!port.read_level(COL1_PIN));
        for p in 0..32u32 {
            if p != ROW1_PIN {
                assert!(!port.read_level(p));
            }
        }
        assert_eq!(port.read_cnf(ROW1_PIN), CNF_OUTPUT);
        assert_eq!(port.read_cnf(COL1_PIN), CNF_OUTPUT);
    }
}

#[test]
fn blink_scenario_stepwise() {
    let mut port = Port::new();
    let mut state = run_blink(&mut port, 0);
    assert_eq!(state, DriveState::RowLow);
    assert!(!port.read_level(ROW1_PIN));
    for step in 1..7usize {
        let (w, next) = drive_step(state);
        port.apply(&w);
        state = next;
        assert_eq!(port.read_level(ROW1_PIN), step % 2 == 1);
        assert!(!port.read_level(COL1_PIN));
    }
}

#[test]
fn configuration_precedes_every_output_command() {
    // Record the full write order of a boot plus several loop steps, and
    // check that any output command touching a pin comes strictly after
    // that pin's configuration write.
    let mut trace = raw_boot_writes();
    let mut state = DriveState::RowLow;
    for _ in 0..5 {
        let (w, next) = drive_step(state);
        trace.push(w);
        state = next;
    }
    for (i, w) in trace.iter().enumerate() {
        if w.addr == outset_addr() || w.addr == outclr_addr() {
            for pin in 0..32u32 {
                if w.value & (1u32 << pin) != 0 {
                    let configured_earlier = trace[..i]
                        .iter()
                        .any(|e| e.addr == pin_cnf_addr(pin));
                    assert!(configured_earlier);
                }
            }
        }
    }
}

#[test]
fn off_scenario_no_output_writes_levels_untouched() {
    let ws = off_boot_writes();
    for w in ws.iter() {
        assert_ne!(w.addr, outset_addr());
        assert_ne!(w.addr, outclr_addr());
    }
    let mut port = Port::new();
    // A level left over from before the run must survive it untouched.
    port.apply(&blinky::driver::set_write(9));
    let out_before = port.out_word();
    run_off(&mut port);
    assert_eq!(port.out_word(), out_before);
    assert!(port.read_level(9));
    assert_eq!(port.read_cnf(ROW1_PIN), CNF_INPUT);
    assert_eq!(port.read_cnf(COL1_PIN), CNF_INPUT);
}

#[test]
fn spin_counts_exactly() {
    assert_eq!(spin(0), 0);
    assert_eq!(spin(5), 5);
    assert_eq!(delay(), DELAY_CYCLES);
}
