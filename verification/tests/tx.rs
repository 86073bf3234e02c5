use one_kvm_ir::config::IrConfig;
use one_kvm_ir::error::IrError;
use one_kvm_ir::lirc::lirc_scancode_bytes;
use one_kvm_ir::tx::{gpio_pulses, led_register_layout, lirc_send_plan, open_plan, tx_gpio_chip_path, tx_register_layout, TxOpen, TxProbe};
use one_kvm_ir::encode;

fn done(p: TxProbe) -> Option<(String, Option<String>)> {
    match p {
        TxProbe::Done(c) => c,
        _ => panic!("probe should be over"),
    }
}

#[test]
fn probe_auto_prefers_kernel_device() {
    assert!(matches!(TxProbe::start("auto"), TxProbe::ProbeLirc));
    let c = done(TxProbe::after_lirc("auto", Some("/dev/lirc1".to_string())));
    assert_eq!(c, Some(("lirc".to_string(), Some("/dev/lirc1".to_string()))));
    assert!(matches!(TxProbe::after_lirc("auto", None), TxProbe::ProbeGpio));
    assert_eq!(done(TxProbe::after_gpio(true)), Some(("gpio".to_string(), None)));
    assert_eq!(done(TxProbe::after_gpio(false)), None);
}

#[test]
fn probe_respects_explicit_modes() {
    assert_eq!(done(TxProbe::start("none")), None);
    assert_eq!(done(TxProbe::start("serial")), None);
    assert!(matches!(TxProbe::start("gpio"), TxProbe::ProbeGpio));
    assert!(matches!(TxProbe::start("lirc"), TxProbe::ProbeLirc));
    assert_eq!(done(TxProbe::after_lirc("lirc", None)), None);
}

#[test]
fn open_plan_choices() {
    match open_plan(Some(("lirc".to_string(), Some("/dev/lirc3".to_string())))) {
        Ok(TxOpen::Lirc(p)) => assert_eq!(p, "/dev/lirc3"),
        _ => panic!(),
    }
    match open_plan(Some(("lirc".to_string(), None))) {
        Ok(TxOpen::Lirc(p)) => assert_eq!(p, "/dev/lirc1"),
        _ => panic!(),
    }
    assert!(matches!(open_plan(Some(("gpio".to_string(), None))), Ok(TxOpen::Gpio)));
    match open_plan(None) {
        Err(IrError::Internal(m)) => assert!(m.starts_with("no IR transmitter available")),
        _ => panic!(),
    }
}

#[test]
fn gpio_chip_must_be_configured() {
    let mut c = IrConfig::default();
    c.tx_gpio_chip = " /dev/gpiochip1 ".to_string();
    assert_eq!(tx_gpio_chip_path(&c).unwrap(), "/dev/gpiochip1");
    c.tx_gpio_chip = "  ".to_string();
    match tx_gpio_chip_path(&c) {
        Err(IrError::Internal(m)) => assert_eq!(m, "TX GPIO chip not configured"),
        _ => panic!(),
    }
}

#[test]
fn kernel_send_request() {
    let s = lirc_send_plan("necx", Some(0xABCDEF), true, 38000).unwrap();
    assert_eq!(s.set_carrier, Some(38000));
    assert_eq!(s.bytes, lirc_scancode_bytes(10, 0xABCDEF));
    let s = lirc_send_plan("rc5", Some(-1), false, 38000).unwrap();
    assert_eq!(s.set_carrier, None);
    assert_eq!(s.bytes, lirc_scancode_bytes(2, u64::MAX));
    let s = lirc_send_plan("nec", Some(1), true, 0).unwrap();
    assert_eq!(s.set_carrier, None);
}

#[test]
fn kernel_send_errors() {
    match lirc_send_plan("morse", Some(1), true, 38000) {
        Err(IrError::BadRequest(m)) => assert_eq!(m, "unknown IR protocol 'morse'"),
        _ => panic!(),
    }
    match lirc_send_plan("nec", None, true, 38000) {
        Err(IrError::BadRequest(m)) => assert_eq!(m, "button has no scancode"),
        _ => panic!(),
    }
}

#[test]
fn gpio_train_prefers_raw_data() {
    let raw = vec![9000u32, 4500, 560];
    assert_eq!(gpio_pulses("rc5", None, Some(&raw)).unwrap(), raw);
    assert_eq!(gpio_pulses("nec", Some(0x807F), Some(&[])).unwrap(), encode("nec", 0x807F).unwrap());
    assert_eq!(gpio_pulses("nec", Some(0x807F), None).unwrap(), encode("nec", 0x807F).unwrap());
}

#[test]
fn gpio_train_errors() {
    match gpio_pulses("nec", None, None) {
        Err(IrError::BadRequest(m)) => assert_eq!(m, "button has neither raw data nor a scancode"),
        _ => panic!(),
    }
    match gpio_pulses("rc5", Some(3), None) {
        Err(IrError::BadRequest(m)) => assert_eq!(
            m,
            "protocol 'rc5' needs a kernel transmitter (gpio-ir-tx); the GPIO fallback only supports NEC"
        ),
        _ => panic!(),
    }
    assert!(gpio_pulses("nec", Some(0x1_0000), None).is_err());
}

#[test]
fn register_layouts() {
    let l = tx_register_layout(0xff63_4440, 28, 32, 23).unwrap();
    assert_eq!(l.page, 0xff63_4000);
    assert_eq!(l.oen_word, (0x440 + 28) / 4);
    assert_eq!(l.out_word, (0x440 + 32) / 4);
    assert_eq!(l.mask, 1 << 23);
    match tx_register_layout(0, 28, 32, 23) {
        Err(IrError::Internal(m)) => assert_eq!(m, "mmap GPIO base not configured"),
        _ => panic!(),
    }
    match tx_register_layout(0x1000, 0, 0, 32) {
        Err(IrError::Internal(m)) => assert_eq!(m, "mmap GPIO bit out of range"),
        _ => panic!(),
    }
    let mut c = IrConfig::default();
    let l = led_register_layout(&c).unwrap();
    assert_eq!(l.page, 0xff80_0000);
    assert_eq!(l.oen_word, 0x24 / 4);
    assert_eq!(l.out_word, (0x24 + 16) / 4);
    assert_eq!(l.mask, 1 << 8);
    c.led_bit = 77;
    assert_eq!(led_register_layout(&c).unwrap().mask, 1 << 31);
    c.led_mmap_base = 0;
    match led_register_layout(&c) {
        Err(IrError::Internal(m)) => assert_eq!(m, "LED mmap base not configured"),
        _ => panic!(),
    }
}
