use one_kvm_ir::error::IrError;
use one_kvm_ir::lirc::{can_receive_scancodes, can_send_scancodes, can_set_send_carrier, decode_lirc_scancode, lirc_scancode_bytes};
use one_kvm_ir::rx::{needs_device_scan, probe_receiver, receiver_features_check, receiver_path, resolve_device, uevent_device_path, Capture, CaptureEvent, CaptureStep};

fn devs(list: &[(&str, bool)]) -> Vec<(String, bool)> {
    list.iter().map(|(d, c)| (d.to_string(), *c)).collect()
}

#[test]
fn explicit_receiver_is_trimmed() {
    let scan = devs(&[("/dev/lirc0", true)]);
    assert_eq!(resolve_device("  /dev/lirc2 ", &scan), Some("/dev/lirc2".to_string()));
}

#[test]
fn auto_picks_first_scancode_receiver() {
    let scan = devs(&[("/dev/lirc0", false), ("/dev/lirc1", true), ("/dev/lirc2", true)]);
    assert_eq!(resolve_device("auto", &scan), Some("/dev/lirc1".to_string()));
    assert_eq!(resolve_device("   ", &scan), Some("/dev/lirc1".to_string()));
    assert_eq!(resolve_device("auto", &devs(&[("/dev/lirc0", false)])), None);
    assert_eq!(resolve_device("", &Vec::new()), None);
}

#[test]
fn uevent_names_the_device_node() {
    assert_eq!(uevent_device_path("MAJOR=251\nMINOR=0\nDEVNAME=lirc0\n"), Some("/dev/lirc0".to_string()));
    assert_eq!(uevent_device_path("DEVNAME=lirc1\r\nX=1"), Some("/dev/lirc1".to_string()));
    assert_eq!(uevent_device_path("DEVNAME=lirc3"), Some("/dev/lirc3".to_string()));
    assert_eq!(uevent_device_path("MAJOR=251\nDEVNAM=x\n"), None);
    assert_eq!(uevent_device_path(""), None);
    assert_eq!(uevent_device_path("X=1\nDEVNAME=\n"), Some("/dev/".to_string()));
}

#[test]
fn feature_bits() {
    assert!(can_receive_scancodes(0x800));
    assert!(!can_receive_scancodes(0x008));
    assert!(can_send_scancodes(0x008));
    assert!(!can_send_scancodes(0x800));
    assert!(can_set_send_carrier(0x1000));
    assert!(!can_set_send_carrier(0x0fff));
}

#[test]
fn receiver_errors() {
    assert_eq!(receiver_path(Some("/dev/lirc0".to_string())).unwrap(), "/dev/lirc0");
    match receiver_path(None) {
        Err(IrError::Internal(m)) => assert_eq!(m, "no IR receiver found (meson-ir rc-core device with scancode support required)"),
        other => panic!("{other:?}"),
    }
    assert!(receiver_features_check("/dev/lirc0", 0x800).is_ok());
    match receiver_features_check("/dev/lirc0", 0x8) {
        Err(IrError::Internal(m)) => assert_eq!(m, "/dev/lirc0 does not support LIRC_MODE_SCANCODE reception"),
        other => panic!("{other:?}"),
    }
}

#[test]
fn scancode_record_layout() {
    let b = lirc_scancode_bytes(9, 0x0102_0304_0506_0708);
    assert_eq!(b.len(), 24);
    assert_eq!(&b[..10], &[0u8; 10]);
    assert_eq!(&b[10..12], &[9, 0]);
    assert_eq!(&b[12..16], &[0u8; 4]);
    assert_eq!(&b[16..], &[8, 7, 6, 5, 4, 3, 2, 1]);
    assert_eq!(decode_lirc_scancode(&b), Some((9, 0x0102_0304_0506_0708, 0)));
}

#[test]
fn received_record_is_decoded() {
    let mut buf = [0u8; 24];
    buf[8] = 2; // repeat flag
    buf[10] = 11;
    buf[16] = 0x7f;
    buf[17] = 0x80;
    assert_eq!(decode_lirc_scancode(&buf), Some((11, 0x807f, 2)));
    assert_eq!(decode_lirc_scancode(&buf[..23]), None);
    let proto = 300u16;
    let back = decode_lirc_scancode(&lirc_scancode_bytes(proto, u64::MAX)).unwrap();
    assert_eq!(back, (300, u64::MAX, 0));
}

#[test]
fn capture_holds_first_press_until_quiet() {
    let mut c = Capture::new();
    assert_eq!(c.read_timeout_ns(10_000_000_000), 50_000_000);
    assert!(matches!(c.step(CaptureEvent::Read(None)), CaptureStep::Continue));
    assert!(matches!(c.step(CaptureEvent::Read(Some((9, 0x807f, 0)))), CaptureStep::Continue));
    assert_eq!(c.read_timeout_ns(10_000_000_000), 250_000_000);
    // repeat frame and same code are ignored
    assert!(matches!(c.step(CaptureEvent::Read(Some((9, 0x1234, 2)))), CaptureStep::Continue));
    assert!(matches!(c.step(CaptureEvent::Read(Some((9, 0x807f, 0)))), CaptureStep::Continue));
    assert_eq!(c.captured, Some((9, 0x807f, 0)));
    match c.step(CaptureEvent::Read(None)) {
        CaptureStep::Finished(Ok(code)) => {
            assert_eq!(code.proto, "nec");
            assert_eq!(code.scancode, 0x807f);
        }
        _ => panic!("capture should finish"),
    }
}

#[test]
fn capture_keeps_the_first_press() {
    let mut c = Capture::new();
    c.step(CaptureEvent::Read(Some((9, 1, 0))));
    c.step(CaptureEvent::Read(Some((10, 2, 0))));
    assert_eq!(c.captured, Some((9, 1, 0)));
    match c.step(CaptureEvent::TimeUp) {
        CaptureStep::Finished(Ok(code)) => {
            assert_eq!(code.proto, "nec");
            assert_eq!(code.scancode, 1);
        }
        _ => panic!("time up with a held code returns it"),
    }
}

#[test]
fn capture_errors() {
    let mut c = Capture::new();
    match c.step(CaptureEvent::TimeUp) {
        CaptureStep::Finished(Err(IrError::Internal(m))) => assert_eq!(m, "learn timeout: no IR signal captured"),
        _ => panic!("expected timeout"),
    }
    match c.step(CaptureEvent::Cancelled) {
        CaptureStep::Finished(Err(IrError::Conflict(m))) => assert_eq!(m, "learn cancelled"),
        _ => panic!("expected cancel"),
    }
}

#[test]
fn read_timeout_bounds() {
    let c = Capture::new();
    assert_eq!(c.read_timeout_ns(20_000_000), 20_000_000);
    assert_eq!(c.read_timeout_ns(10), 1_000_000);
    assert_eq!(c.read_timeout_ns(0), 1_000_000);
}

#[test]
fn only_auto_or_blank_settings_scan() {
    assert!(needs_device_scan("auto"));
    assert!(needs_device_scan("  "));
    assert!(!needs_device_scan(" /dev/lirc0 "));
}

#[test]
fn probe_checks_an_explicit_path_against_the_scan() {
    let scan = devs(&[("/dev/lirc0", false), ("/dev/lirc1", true)]);
    assert_eq!(probe_receiver(" /dev/lirc1 ", &scan), Some("/dev/lirc1".to_string()));
    assert_eq!(probe_receiver("/dev/lirc0", &scan), None);
    assert_eq!(probe_receiver("/dev/lirc9", &scan), None);
    assert_eq!(probe_receiver("auto", &scan), Some("/dev/lirc1".to_string()));
    assert_eq!(probe_receiver("", &devs(&[("/dev/lirc0", false)])), None);
}
