//! WS2812 status LED: colours, patterns, the bit timing of one frame and
//! the program each pattern runs.

use vstd::prelude::*;

verus! {

/// WS2812 bit period (ns).
pub const FRAME_PERIOD_NS: u64 = 1250;
/// High time of a 0 bit (ns).
pub const T0H_NS: u64 = 400;
/// High time of a 1 bit (ns).
pub const T1H_NS: u64 = 800;
/// Low time that latches a frame (ns).
pub const RESET_NS: u64 = 80_000;

/// An RGB colour.
#[derive(Debug, Clone, Copy, PartialEq, Eq, Structural)]
pub struct LedColor {
    pub r: u8,
    pub g: u8,
    pub b: u8,
}

impl LedColor {
    /// Pure green.
    pub fn green() -> (c: Self)
        ensures
            c == (LedColor { r: 0, g: 255, b: 0 }),
    {
        LedColor { r: 0, g: 255, b: 0 }
    }

    /// Pure blue.
    pub fn blue() -> (c: Self)
        ensures
            c == (LedColor { r: 0, g: 0, b: 255 }),
    {
        LedColor { r: 0, g: 0, b: 255 }
    }

    /// Pure red.
    pub fn red() -> (c: Self)
        ensures
            c == (LedColor { r: 255, g: 0, b: 0 }),
    {
        LedColor { r: 255, g: 0, b: 0 }
    }

    /// All channels off.
    pub fn black() -> (c: Self)
        ensures
            c == (LedColor { r: 0, g: 0, b: 0 }),
    {
        LedColor { r: 0, g: 0, b: 0 }
    }
}

/// What the status LED shows.
#[derive(Debug, Clone, Copy, PartialEq, Eq, Structural)]
pub enum LedPattern {
    Off,
    Solid { color: LedColor, hold_ms: u64 },
    Blink { color: LedColor },
}

impl LedPattern {
    /// The solid pattern of `color` for `hold_ms`.
    pub open spec fn solid_spec(color: LedColor, hold_ms: u64) -> Self {
        LedPattern::Solid { color, hold_ms }
    }

    /// `color` for `hold_ms`, then off.
    pub fn solid(color: LedColor, hold_ms: u64) -> (p: Self)
        ensures
            p == LedPattern::solid_spec(color, hold_ms),
    {
        LedPattern::Solid { color, hold_ms }
    }

    /// `color` blinking until the pattern changes.
    pub fn blink(color: LedColor) -> (p: Self)
        ensures
            p == (LedPattern::Blink { color }),
    {
        LedPattern::Blink { color }
    }
}

/// The 24-bit GRB word of a frame.
pub open spec fn frame_word(color: LedColor) -> u32 {
    ((color.g as u32) * 0x1_0000 + (color.r as u32) * 0x100 + color.b as u32) as u32
}

/// One level of the data line and how long it is held (ns).
#[derive(Debug, Clone, Copy, PartialEq, Eq, Structural)]
pub struct LinePhase {
    pub high: bool,
    pub ns: u64,
}

/// The phases of data bit `k` (0 = first sent, the word's bit 23).
pub open spec fn bit_phases(word: u32, k: int) -> Seq<LinePhase> {
    let one = (word >> ((23 - k) as u32)) & 1 == 1;
    let high_ns = if one { T1H_NS } else { T0H_NS };
    seq![LinePhase { high: true, ns: high_ns }, LinePhase { high: false, ns: (FRAME_PERIOD_NS - high_ns) as u64 }]
}

/// The line levels of the first `n` data bits.
pub open spec fn bits_phases(word: u32, n: nat) -> Seq<LinePhase>
    decreases n,
{
    if n == 0 {
        Seq::empty()
    } else {
        bits_phases(word, (n - 1) as nat) + bit_phases(word, n - 1)
    }
}

/// How one frame drives the data line: low for the latch time, then the
/// 24 bits most significant first, then low.
pub open spec fn spec_frame_schedule(color: LedColor) -> Seq<LinePhase> {
    seq![LinePhase { high: false, ns: RESET_NS }] + bits_phases(frame_word(color), 24) + seq![
        LinePhase { high: false, ns: 0 },
    ]
}

/// Every data bit of a frame starts high and lasts one bit period; the
/// frame opens with the latch time and holds 50 line levels in all.
pub proof fn lemma_frame_bit_periods(color: LedColor)
    ensures
        spec_frame_schedule(color).len() == 50,
        spec_frame_schedule(color)[0] == (LinePhase { high: false, ns: RESET_NS }),
        forall|k: int| 0 <= k < 24 ==> {
            let hi = #[trigger] spec_frame_schedule(color)[1 + 2 * k];
            let lo = spec_frame_schedule(color)[2 + 2 * k];
            &&& hi.high && !lo.high
            &&& hi.ns + lo.ns == FRAME_PERIOD_NS
            &&& hi.ns == T0H_NS || hi.ns == T1H_NS
        },
{
    lemma_bits_phases_shape(frame_word(color), 24);
    assert forall|k: int| 0 <= k < 24 implies {
        let hi = #[trigger] spec_frame_schedule(color)[1 + 2 * k];
        let lo = spec_frame_schedule(color)[2 + 2 * k];
        &&& hi.high && !lo.high
        &&& hi.ns + lo.ns == FRAME_PERIOD_NS
        &&& hi.ns == T0H_NS || hi.ns == T1H_NS
    } by {
        let b = bits_phases(frame_word(color), 24);
        assert(spec_frame_schedule(color)[1 + 2 * k] == b[2 * k]);
        assert(spec_frame_schedule(color)[2 + 2 * k] == b[2 * k + 1]);
    }
}

proof fn lemma_bits_phases_shape(word: u32, n: nat)
    ensures
        bits_phases(word, n).len() == 2 * n,
        forall|k: int| 0 <= k < n ==> {
            let hi = #[trigger] bits_phases(word, n)[2 * k];
            let lo = bits_phases(word, n)[2 * k + 1];
            &&& hi.high && !lo.high
            &&& hi.ns + lo.ns == FRAME_PERIOD_NS
            &&& hi.ns == T0H_NS || hi.ns == T1H_NS
        },
    decreases n,
{
    if n > 0 {
        lemma_bits_phases_shape(word, (n - 1) as nat);
        let prev = bits_phases(word, (n - 1) as nat);
        let last = bit_phases(word, n - 1);
        assert forall|k: int| 0 <= k < n implies {
            let hi = #[trigger] bits_phases(word, n)[2 * k];
            let lo = bits_phases(word, n)[2 * k + 1];
            &&& hi.high && !lo.high
            &&& hi.ns + lo.ns == FRAME_PERIOD_NS
            &&& hi.ns == T0H_NS || hi.ns == T1H_NS
        } by {
            if k < n - 1 {
                assert(bits_phases(word, n)[2 * k] == prev[2 * k]);
                assert(bits_phases(word, n)[2 * k + 1] == prev[2 * k + 1]);
            } else {
                assert(bits_phases(word, n)[2 * k] == last[0]);
                assert(bits_phases(word, n)[2 * k + 1] == last[1]);
            }
        }
    }
}

/// Data bit `k` of a frame (0 = sent first): green from its most
/// significant bit down, then red, then blue.
pub open spec fn frame_data_bit(c: LedColor, k: int) -> bool {
    if k < 8 {
        ((c.g as u32) >> ((7 - k) as u32)) & 1 == 1
    } else if k < 16 {
        ((c.r as u32) >> ((15 - k) as u32)) & 1 == 1
    } else {
        ((c.b as u32) >> ((23 - k) as u32)) & 1 == 1
    }
}

proof fn lemma_word_bit(g: u8, r: u8, b: u8, i: u32)
    by (bit_vector)
    requires
        i < 24,
    ensures
        16 <= i ==> ((((g as u32) * 0x1_0000 + (r as u32) * 0x100 + b as u32) as u32 >> i) & 1 == 1) == (((g as u32) >> (
        i - 16) as u32) & 1 == 1),
        8 <= i < 16 ==> ((((g as u32) * 0x1_0000 + (r as u32) * 0x100 + b as u32) as u32 >> i) & 1 == 1) == (((r as u32)
            >> (i - 8) as u32) & 1 == 1),
        i < 8 ==> ((((g as u32) * 0x1_0000 + (r as u32) * 0x100 + b as u32) as u32 >> i) & 1 == 1) == (((b as u32) >> i)
            & 1 == 1),
{
}

proof fn lemma_bits_phases_at(word: u32, n: nat, k: int)
    requires
        0 <= k < n,
    ensures
        bits_phases(word, n).len() == 2 * n,
        bits_phases(word, n)[2 * k] == bit_phases(word, k)[0],
    decreases n,
{
    lemma_bits_phases_shape(word, n);
    if k < n - 1 {
        lemma_bits_phases_at(word, (n - 1) as nat, k);
        lemma_bits_phases_shape(word, (n - 1) as nat);
    }
}

/// A frame sends green, red and blue in that order, each from its most
/// significant bit: data bit `k` is a long (T1H) pulse exactly when
/// `frame_data_bit(color, k)`, else a short (T0H) one.
pub proof fn lemma_frame_msb_first(color: LedColor)
    ensures
        forall|k: int| 0 <= k < 24 ==> #[trigger] spec_frame_schedule(color)[1 + 2 * k] == (LinePhase {
            high: true,
            ns: if frame_data_bit(color, k) { T1H_NS } else { T0H_NS },
        }),
{
    let w = frame_word(color);
    assert forall|k: int| 0 <= k < 24 implies #[trigger] spec_frame_schedule(color)[1 + 2 * k] == (LinePhase {
        high: true,
        ns: if frame_data_bit(color, k) { T1H_NS } else { T0H_NS },
    }) by {
        lemma_bits_phases_at(w, 24, k);
        assert(spec_frame_schedule(color)[1 + 2 * k] == bits_phases(w, 24)[2 * k]);
        lemma_word_bit(color.g, color.r, color.b, (23 - k) as u32);
    }
}

/// The line levels that send `color` to the LED.
pub fn frame_schedule(color: LedColor) -> (r: Vec<LinePhase>)
    ensures
        r@ == spec_frame_schedule(color),
        r@.len() == 50,
        forall|k: int| 0 <= k < 24 ==> #[trigger] r@[1 + 2 * k] == (LinePhase {
            high: true,
            ns: if frame_data_bit(color, k) { T1H_NS } else { T0H_NS },
        }),
{
    proof {
        lemma_frame_msb_first(color);
        lemma_frame_bit_periods(color);
    }
    let word: u32 = (color.g as u32) * 0x1_0000 + (color.r as u32) * 0x100 + color.b as u32;
    let mut out: Vec<LinePhase> = Vec::new();
    out.push(LinePhase { high: false, ns: RESET_NS });
    let mut k: u32 = 0;
    while k < 24
        invariant
            k <= 24,
            word == frame_word(color),
            out@ =~= seq![LinePhase { high: false, ns: RESET_NS }] + bits_phases(word, k as nat),
        decreases 24 - k,
    {
        let i: u32 = 23 - k;
        let one: bool = (word >> i) & 1 == 1;
        let high_ns: u64 = if one { T1H_NS } else { T0H_NS };
        out.push(LinePhase { high: true, ns: high_ns });
        out.push(LinePhase { high: false, ns: FRAME_PERIOD_NS - high_ns });
        k = k + 1;
        assert(bits_phases(word, k as nat) =~= bits_phases(word, (k - 1) as nat) + bit_phases(word, k - 1));
    }
    out.push(LinePhase { high: false, ns: 0 });
    out
}

/// One step of a pattern's program.
#[derive(Debug, Clone, Copy, PartialEq, Eq, Structural)]
pub enum LedOp {
    /// Send this colour.
    Frame(LedColor),
    /// Check for a new pattern up to `rounds` times, sleeping `poll_ms`
    /// between checks; stop early on a change.
    PollChange { rounds: u64, poll_ms: u64 },
    /// Until `ms` have passed, check for a new pattern every `poll_ms`;
    /// stop early on a change.
    HoldFor { ms: u64, poll_ms: u64 },
    /// End the program if a new pattern is waiting.
    StopIfChanged,
    /// Sleep `ms`.
    Sleep(u64),
    /// Send this colour and take up `LedProgram::after` unless a new
    /// pattern is waiting.
    SettleIfUnchanged(LedColor),
}

/// What the LED thread does for the current pattern, in order.
pub struct LedProgram {
    pub ops: Vec<LedOp>,
    /// The pattern to take up after a `SettleIfUnchanged` step.
    pub after: LedPattern,
}

/// Blink half period (ms).
pub const BLINK_HALF_MS: u64 = 250;

/// The program of a pattern whose colour shows as `lit` at the configured
/// brightness: off sends black and waits for a change for up to
/// 100 × 50 ms; solid sends `lit`, holds it for at least 100 ms, then goes
/// black and off unless a new pattern arrived; blink alternates `lit` and
/// black every 250 ms, stopping as soon as a new pattern is waiting.
pub open spec fn spec_led_program(pattern: LedPattern, lit: LedColor) -> (Seq<LedOp>, LedPattern) {
    let black = LedColor { r: 0, g: 0, b: 0 };
    match pattern {
        LedPattern::Off => (seq![LedOp::Frame(black), LedOp::PollChange { rounds: 100, poll_ms: 50 }], LedPattern::Off),
        LedPattern::Solid { color: _, hold_ms } => (
            seq![
                LedOp::Frame(lit),
                LedOp::HoldFor { ms: if hold_ms < 100 { 100 } else { hold_ms }, poll_ms: 10 },
                LedOp::SettleIfUnchanged(black),
            ],
            LedPattern::Off,
        ),
        LedPattern::Blink { color: _ } => (
            seq![
                LedOp::StopIfChanged,
                LedOp::Frame(lit),
                LedOp::Sleep(BLINK_HALF_MS),
                LedOp::StopIfChanged,
                LedOp::Frame(black),
                LedOp::Sleep(BLINK_HALF_MS),
            ],
            pattern,
        ),
    }
}

/// The program the LED thread runs for `pattern`, whose colour shows as
/// `lit` at the configured brightness.
pub fn led_program(pattern: LedPattern, lit: LedColor) -> (p: LedProgram)
    ensures
        (p.ops@, p.after) == spec_led_program(pattern, lit),
{
    let black = LedColor::black();
    let mut ops: Vec<LedOp> = Vec::new();
    match pattern {
        LedPattern::Off => {
            ops.push(LedOp::Frame(black));
            ops.push(LedOp::PollChange { rounds: 100, poll_ms: 50 });
            assert(ops@ =~= spec_led_program(pattern, lit).0);
            LedProgram { ops, after: LedPattern::Off }
        },
        LedPattern::Solid { color: _, hold_ms } => {
            ops.push(LedOp::Frame(lit));
            ops.push(LedOp::HoldFor { ms: if hold_ms < 100 { 100 } else { hold_ms }, poll_ms: 10 });
            ops.push(LedOp::SettleIfUnchanged(black));
            assert(ops@ =~= spec_led_program(pattern, lit).0);
            LedProgram { ops, after: LedPattern::Off }
        },
        LedPattern::Blink { color: _ } => {
            ops.push(LedOp::StopIfChanged);
            ops.push(LedOp::Frame(lit));
            ops.push(LedOp::Sleep(BLINK_HALF_MS));
            ops.push(LedOp::StopIfChanged);
            ops.push(LedOp::Frame(black));
            ops.push(LedOp::Sleep(BLINK_HALF_MS));
            assert(ops@ =~= spec_led_program(pattern, lit).0);
            LedProgram { ops, after: pattern }
        },
    }
}

/// The pattern a settings change sends to a running LED: off when the LED
/// has just been disabled, nothing otherwise.
pub fn pattern_on_config_change(led_enabled: bool, ready: bool) -> (r: Option<LedPattern>)
    ensures
        r == if !led_enabled && ready { Some(LedPattern::Off) } else { None::<LedPattern> },
{
    if !led_enabled && ready {
        Some(LedPattern::Off)
    } else {
        None
    }
}

} // verus!
