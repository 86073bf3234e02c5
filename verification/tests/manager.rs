use one_kvm_ir::config::IrConfig;
use one_kvm_ir::error::IrError;
use one_kvm_ir::led::{LedColor, LedPattern};
use one_kvm_ir::manager::{
    button_to_send, capture_outcome, hardware_status, learn_open_failed, learn_timeout_ms, learn_waiting, save_outcome,
    scancode_column, send_outcome, stored_raw_pulses, CaptureOutcome, LearnSlot, LearnedCode,
};
use one_kvm_ir::store::IrButtonRecord;

#[test]
fn status_report() {
    let s = hardware_status(Some("/dev/lirc0".to_string()), Some(("lirc".to_string(), Some("/dev/lirc1".to_string()))), true, false);
    assert!(s.rx_available);
    assert_eq!(s.rx_device.as_deref(), Some("/dev/lirc0"));
    assert!(s.tx_available);
    assert_eq!(s.tx_mode, "lirc");
    assert_eq!(s.tx_device.as_deref(), Some("/dev/lirc1"));
    assert!(s.led_ready);
    assert!(!s.learn_active);
    let s = hardware_status(None, None, false, true);
    assert!(!s.rx_available && !s.tx_available);
    assert_eq!(s.tx_mode, "none");
    assert_eq!(s.tx_device, None);
    assert!(s.learn_active);
}

#[test]
fn one_learn_session_at_a_time() {
    let mut slot: LearnSlot<u32> = LearnSlot::new();
    assert!(!slot.is_active());
    assert!(slot.check_free().is_ok());
    slot.install(7);
    assert!(slot.is_active());
    match slot.check_free() {
        Err(IrError::Conflict(m)) => assert_eq!(m, "a learn session is already running"),
        _ => panic!(),
    }
    match slot.cancel() {
        Ok((h, led, e)) => {
            assert_eq!(h, 7);
            assert_eq!(led, LedPattern::Off);
            assert_eq!(e.state, "cancelled");
            assert_eq!(e.remote_id, None);
        }
        Err(_) => panic!(),
    }
    assert!(!slot.is_active());
    match slot.cancel() {
        Err(IrError::BadRequest(m)) => assert_eq!(m, "no learn session running"),
        _ => panic!(),
    }
    slot.install(8);
    slot.finish();
    assert!(slot.check_free().is_ok());
}

#[test]
fn learn_timeout_is_at_least_a_second() {
    let mut c = IrConfig::default();
    assert_eq!(learn_timeout_ms(&c), 10000);
    c.learn_timeout_ms = 10;
    assert_eq!(learn_timeout_ms(&c), 1000);
}

#[test]
fn learn_feedback() {
    let (led, e) = learn_open_failed(3);
    assert_eq!(led, LedPattern::solid(LedColor::red(), 2000));
    assert_eq!(e.state, "failed");
    assert_eq!(e.remote_id, Some(3));
    let (led, e) = learn_waiting(3);
    assert_eq!(led, LedPattern::blink(LedColor::green()));
    assert_eq!(e.state, "waiting");
}

#[test]
fn capture_results() {
    let code = LearnedCode { proto: "nec".to_string(), scancode: 5 };
    match capture_outcome(1, Ok(code)) {
        CaptureOutcome::Save(c) => assert_eq!(c.scancode, 5),
        _ => panic!(),
    }
    assert!(matches!(capture_outcome(1, Err(IrError::Conflict("learn cancelled".into()))), CaptureOutcome::Ignore));
    match capture_outcome(1, Err(IrError::Internal("x".into()))) {
        CaptureOutcome::Report(led, e) => {
            assert_eq!(led, LedPattern::solid(LedColor::red(), 2000));
            assert_eq!(e.state, "failed");
            assert_eq!(e.remote_id, Some(1));
        }
        _ => panic!(),
    }
}

#[test]
fn save_results() {
    let (led, e) = save_outcome(2, LearnedCode { proto: "necx".into(), scancode: 0xABC }, Ok(40));
    assert_eq!(led, LedPattern::solid(LedColor::blue(), 2000));
    assert_eq!(e.state, "saved");
    assert_eq!(e.button_id, Some(40));
    assert_eq!(e.proto.as_deref(), Some("necx"));
    assert_eq!(e.scancode, Some(0xABC));
    let (led, e) = save_outcome(2, LearnedCode { proto: "necx".into(), scancode: 1 }, Err(IrError::Persistence("db".into())));
    assert_eq!(led, LedPattern::solid(LedColor::red(), 2000));
    assert_eq!(e.state, "failed");
    assert_eq!(scancode_column(u64::MAX), -1);
    assert_eq!(scancode_column(0x807F), 0x807F);
}

fn rec() -> IrButtonRecord {
    IrButtonRecord {
        id: 4,
        remote_id: 1,
        name: "power".into(),
        proto: "nec".into(),
        scancode: Some(-1),
        has_raw: false,
        carrier: 38000,
        slot: None,
    }
}

#[test]
fn sending() {
    assert!(button_to_send(Some(rec()), 4).is_ok());
    match button_to_send(None, 4) {
        Err(IrError::NotFound(m)) => assert_eq!(m, "IR button 4 not found"),
        _ => panic!(),
    }
    let (led, ev, r) = send_outcome(&rec(), Ok(()));
    assert_eq!(led, LedPattern::solid(LedColor::blue(), 400));
    let ev = ev.unwrap();
    assert_eq!(ev.state, "sent");
    assert_eq!(ev.scancode, Some(u64::MAX));
    assert!(r.is_ok());
    let (led, ev, r) = send_outcome(&rec(), Err(IrError::Internal("tx".into())));
    assert_eq!(led, LedPattern::solid(LedColor::red(), 800));
    assert!(ev.is_none());
    assert!(matches!(r, Err(IrError::Internal(m)) if m == "tx"));
}

#[test]
fn stored_raw_text() {
    assert_eq!(stored_raw_pulses(None).unwrap(), None);
    assert_eq!(stored_raw_pulses(Some("[9000,4500,560]".into())).unwrap(), Some(vec![9000, 4500, 560]));
    assert_eq!(stored_raw_pulses(Some(" [ 1 , 2 ] ".into())).unwrap(), Some(vec![1, 2]));
    match stored_raw_pulses(Some("[1,-2]".into())) {
        Err(IrError::Internal(m)) => assert!(m.starts_with("corrupt raw IR data: ")),
        _ => panic!(),
    }
}
