use blinky::driver::{clear_write, configure_write, set_write, PinConfig};
use blinky::port::{Port, RegWrite};
use blinky::regmap::{outclr_addr, outset_addr, pin_cnf_addr, CNF_INPUT, CNF_OUTPUT};

#[test]
fn register_map_addresses() {
    assert_eq!(pin_cnf_addr(0), 0x5000_0700);
    assert_eq!(pin_cnf_addr(21), 0x5000_0754);
    assert_eq!(pin_cnf_addr(28), 0x5000_0770);
    assert_eq!(outset_addr(), 0x5000_0508);
    assert_eq!(outclr_addr(), 0x5000_050c);
}

#[test]
fn reset_state_all_inputs_all_low() {
    let port = Port::new();
    let mut pin: u32 = 0;
    while pin < 32 {
        assert_eq!(port.read_cnf(pin), CNF_INPUT);
        assert!(!port.read_level(pin));
        pin += 1;
    }
    assert_eq!(port.out_word(), 0);
}

#[test]
fn configure_readback_every_pin() {
    let mut pin: u32 = 0;
    while pin < 32 {
        let mut port = Port::new();
        port.apply(&configure_write(pin, PinConfig::Output));
        assert_eq!(port.read_cnf(pin), CNF_OUTPUT);
        port.apply(&configure_write(pin, PinConfig::Input));
        assert_eq!(port.read_cnf(pin), CNF_INPUT);
        pin += 1;
    }
}

#[test]
fn configure_values_exact() {
    assert_eq!(configure_write(21, PinConfig::Output).value, 0b01);
    assert_eq!(configure_write(21, PinConfig::Input).value, 0b10);
    assert_eq!(configure_write(21, PinConfig::Output).addr, 0x5000_0754);
}

#[test]
fn set_then_clear_leaves_pin_low_others_untouched() {
    let mut port = Port::new();
    port.apply(&set_write(7));
    port.apply(&set_write(19));
    let before: Vec<bool> = (0..32).map(|p| port.read_level(p)).collect();

    port.apply(&set_write(3));
    port.apply(&clear_write(3));

    assert!(!port.read_level(3));
    for p in 0..32u32 {
        if p != 3 {
            assert_eq!(port.read_level(p), before[p as usize]);
        }
    }
    assert!(port.read_level(7));
    assert!(port.read_level(19));
}

#[test]
fn set_twice_equals_set_once() {
    let mut once = Port::new();
    once.apply(&set_write(21));
    let mut twice = Port::new();
    twice.apply(&set_write(21));
    twice.apply(&set_write(21));
    assert_eq!(once.out_word(), twice.out_word());
    for p in 0..32u32 {
        assert_eq!(once.read_level(p), twice.read_level(p));
        assert_eq!(once.read_cnf(p), twice.read_cnf(p));
    }
}

#[test]
fn clear_twice_equals_clear_once() {
    let mut once = Port::new();
    once.apply(&set_write(21));
    once.apply(&clear_write(21));
    let mut twice = Port::new();
    twice.apply(&set_write(21));
    twice.apply(&clear_write(21));
    twice.apply(&clear_write(21));
    assert_eq!(once.out_word(), twice.out_word());
}

#[test]
fn unmapped_write_changes_nothing() {
    let mut port = Port::new();
    port.apply(&set_write(5));
    let out_before = port.out_word();
    port.apply(&RegWrite { addr: 0x2000_0000, value: 0xffff_ffff });
    port.apply(&RegWrite { addr: 0x5000_0500, value: 0xffff_ffff });
    assert_eq!(port.out_word(), out_before);
    for p in 0..32u32 {
        assert_eq!(port.read_cnf(p), CNF_INPUT);
    }
}

#[test]
fn output_commands_do_not_touch_configuration() {
    let mut port = Port::new();
    port.apply(&configure_write(21, PinConfig::Output));
    port.apply(&set_write(21));
    port.apply(&clear_write(21));
    assert_eq!(port.read_cnf(21), CNF_OUTPUT);
    assert_eq!(port.read_cnf(28), CNF_INPUT);
}
