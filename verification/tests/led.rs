use one_kvm_ir::led::{frame_schedule, led_program, pattern_on_config_change, LedColor, LedOp, LedPattern, LinePhase};

#[test]
fn pattern_constructors() {
    assert_eq!(LedPattern::solid(LedColor::red(), 2000), LedPattern::Solid { color: LedColor::red(), hold_ms: 2000 });
    assert_eq!(LedPattern::blink(LedColor::green()), LedPattern::Blink { color: LedColor::green() });
}

#[test]
fn frame_bits_are_grb_msb_first() {
    let s = frame_schedule(LedColor { r: 0x00, g: 0x80, b: 0x01 });
    assert_eq!(s.len(), 1 + 48 + 1);
    assert_eq!(s[0], LinePhase { high: false, ns: 80_000 });
    // first bit is g's top bit: a one
    assert_eq!(s[1], LinePhase { high: true, ns: 800 });
    assert_eq!(s[2], LinePhase { high: false, ns: 1_250 - 800 });
    // second bit: zero
    assert_eq!(s[3], LinePhase { high: true, ns: 400 });
    // last data bit is b's lowest bit: a one
    assert_eq!(s[47], LinePhase { high: true, ns: 800 });
    assert_eq!(s[49], LinePhase { high: false, ns: 0 });
    let ones = s.iter().filter(|p| p.high && p.ns == 800).count();
    assert_eq!(ones, 2);
}

#[test]
fn programs_per_pattern() {
    let off = led_program(LedPattern::Off, LedColor::red());
    assert_eq!(off.ops, vec![LedOp::Frame(LedColor::black()), LedOp::PollChange { rounds: 100, poll_ms: 50 }]);
    assert_eq!(off.after, LedPattern::Off);

    let solid = led_program(LedPattern::solid(LedColor::blue(), 20), LedColor::blue());
    assert_eq!(
        solid.ops,
        vec![
            LedOp::Frame(LedColor::blue()),
            LedOp::HoldFor { ms: 100, poll_ms: 10 },
            LedOp::SettleIfUnchanged(LedColor::black())
        ]
    );
    assert_eq!(solid.after, LedPattern::Off);
    let long = led_program(LedPattern::solid(LedColor::blue(), 2000), LedColor::blue());
    assert_eq!(long.ops[1], LedOp::HoldFor { ms: 2000, poll_ms: 10 });

    let blink = led_program(LedPattern::blink(LedColor::green()), LedColor { r: 0, g: 128, b: 0 });
    assert_eq!(blink.ops.len(), 6);
    assert_eq!(blink.ops[1], LedOp::Frame(LedColor { r: 0, g: 128, b: 0 }));
    assert_eq!(blink.ops[2], LedOp::Sleep(250));
    assert_eq!(blink.ops[4], LedOp::Frame(LedColor::black()));
    assert_eq!(blink.after, LedPattern::blink(LedColor::green()));
}

#[test]
fn disabling_the_led_turns_it_off() {
    assert_eq!(pattern_on_config_change(false, true), Some(LedPattern::Off));
    assert_eq!(pattern_on_config_change(false, false), None);
    assert_eq!(pattern_on_config_change(true, true), None);
}

#[test]
fn every_bit_lasts_one_period() {
    let s = frame_schedule(LedColor { r: 0x5a, g: 0xc3, b: 0x0f });
    for k in 0..24 {
        let hi = s[1 + 2 * k];
        let lo = s[2 + 2 * k];
        assert!(hi.high && !lo.high);
        assert_eq!(hi.ns + lo.ns, 1_250);
    }
}
