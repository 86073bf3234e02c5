//! Infrared remote hardware and behavior settings.

use vstd::prelude::*;

use crate::text::{owned, str_eq, is_blank, trim};

verus! {

/// Settings of the IR subsystem. The factory values suit an Amlogic
/// SM1/G12A board with the transmitter on pin GPIOX_23 and the WS2812
/// LED on GPIOAO_8.
pub struct IrConfig {
    pub enabled: bool,
    /// Receiver to learn from: a device path, or `auto` to pick one.
    pub rx_device: String,
    /// Transmitter kind: `auto`, `lirc`, `gpio` or `none`.
    pub tx_mode: String,
    /// GPIO character device used when transmitting by bit-banging.
    pub tx_gpio_chip: String,
    /// Line on that chip that drives the IR LED.
    pub tx_gpio_line: u32,
    /// Physical address of the transmitter's GPIO bank; 0 turns off
    /// register access and leaves the line requests.
    pub tx_mmap_base: u64,
    /// Byte offset of the bank's output-enable register.
    pub tx_mmap_oen_offset: u32,
    /// Byte offset of the bank's output register.
    pub tx_mmap_out_offset: u32,
    /// The transmitter pin's bit in those registers.
    pub tx_bit: u32,
    pub carrier: u32,
    pub learn_timeout_ms: u64,
    pub led_enabled: bool,
    /// Physical address of the status LED's GPIO bank; 0 means no LED.
    pub led_mmap_base: u64,
    pub led_oen_offset: u32,
    pub led_out_offset: u32,
    pub led_bit: u32,
    /// LED brightness in percent, 0-100.
    pub led_brightness: u32,
}

/// The settings as mathematical values.
pub struct IrConfigView {
    pub enabled: bool,
    pub rx_device: Seq<char>,
    pub tx_mode: Seq<char>,
    pub tx_gpio_chip: Seq<char>,
    pub tx_gpio_line: u32,
    pub tx_mmap_base: u64,
    pub tx_mmap_oen_offset: u32,
    pub tx_mmap_out_offset: u32,
    pub tx_bit: u32,
    pub carrier: u32,
    pub learn_timeout_ms: u64,
    pub led_enabled: bool,
    pub led_mmap_base: u64,
    pub led_oen_offset: u32,
    pub led_out_offset: u32,
    pub led_bit: u32,
    pub led_brightness: u32,
}

impl View for IrConfig {
    type V = IrConfigView;

    open spec fn view(&self) -> IrConfigView {
        IrConfigView {
            enabled: self.enabled,
            rx_device: self.rx_device@,
            tx_mode: self.tx_mode@,
            tx_gpio_chip: self.tx_gpio_chip@,
            tx_gpio_line: self.tx_gpio_line,
            tx_mmap_base: self.tx_mmap_base,
            tx_mmap_oen_offset: self.tx_mmap_oen_offset,
            tx_mmap_out_offset: self.tx_mmap_out_offset,
            tx_bit: self.tx_bit,
            carrier: self.carrier,
            learn_timeout_ms: self.learn_timeout_ms,
            led_enabled: self.led_enabled,
            led_mmap_base: self.led_mmap_base,
            led_oen_offset: self.led_oen_offset,
            led_out_offset: self.led_out_offset,
            led_bit: self.led_bit,
            led_brightness: self.led_brightness,
        }
    }
}

/// `v` limited to `lo..=hi`.
pub open spec fn clamp(v: int, lo: int, hi: int) -> int {
    if v < lo {
        lo
    } else if v > hi {
        hi
    } else {
        v
    }
}

/// One of the transmitter modes the settings accept.
pub open spec fn is_tx_mode(m: Seq<char>) -> bool {
    m == "auto"@ || m == "lirc"@ || m == "gpio"@ || m == "none"@
}

/// The settings after `normalize`: an unknown TX mode becomes `auto`,
/// numbers are limited to their ranges and a blank receiver becomes `auto`.
pub open spec fn normalize_view(v: IrConfigView) -> IrConfigView {
    IrConfigView {
        tx_mode: if is_tx_mode(v.tx_mode) { v.tx_mode } else { "auto"@ },
        tx_gpio_line: if v.tx_gpio_line < 1023 { v.tx_gpio_line } else { 1023 },
        tx_bit: if v.tx_bit < 31 { v.tx_bit } else { 31 },
        led_bit: if v.led_bit < 31 { v.led_bit } else { 31 },
        carrier: clamp(v.carrier as int, 20000, 60000) as u32,
        learn_timeout_ms: clamp(v.learn_timeout_ms as int, 1000, 60000) as u64,
        led_brightness: if v.led_brightness < 100 { v.led_brightness } else { 100 },
        rx_device: if trim(v.rx_device).len() == 0 { "auto"@ } else { v.rx_device },
        ..v
    }
}

/// Settings that `normalize` accepts as they are.
pub open spec fn is_normal(v: IrConfigView) -> bool {
    &&& is_tx_mode(v.tx_mode)
    &&& v.tx_gpio_line <= 1023
    &&& v.tx_bit <= 31
    &&& v.led_bit <= 31
    &&& 20000 <= v.carrier <= 60000
    &&& 1000 <= v.learn_timeout_ms <= 60000
    &&& v.led_brightness <= 100
    &&& trim(v.rx_device).len() > 0
}

/// The factory settings.
pub open spec fn default_view() -> IrConfigView {
    IrConfigView {
        enabled: true,
        rx_device: "auto"@,
        tx_mode: "auto"@,
        tx_gpio_chip: "/dev/gpiochip0"@,
        tx_gpio_line: 23,
        tx_mmap_base: 0xff63_4440,
        tx_mmap_oen_offset: 28,
        tx_mmap_out_offset: 32,
        tx_bit: 23,
        carrier: 38000,
        learn_timeout_ms: 10000,
        led_enabled: true,
        led_mmap_base: 0xff80_0024,
        led_oen_offset: 0,
        led_out_offset: 16,
        led_bit: 8,
        led_brightness: 40,
    }
}

proof fn lemma_auto_not_blank()
    ensures
        trim("auto"@).len() > 0,
{
    reveal_strlit("auto");
    crate::text::lemma_trim_empty("auto"@);
    assert(!crate::text::is_ws("auto"@[0]));
}

impl Default for IrConfig {
    fn default() -> (r: Self)
        ensures
            r@ == default_view(),
    {
        IrConfig {
            enabled: true,
            rx_device: owned("auto"),
            tx_mode: owned("auto"),
            tx_gpio_chip: owned("/dev/gpiochip0"),
            tx_gpio_line: 23,
            // periphs bank: output enable at +28, output at +32
            tx_mmap_base: 0xff63_4440,
            tx_mmap_oen_offset: 28,
            tx_mmap_out_offset: 32,
            tx_bit: 23,
            carrier: 38000,
            learn_timeout_ms: 10000,
            led_enabled: true,
            // AO bank: output enable at +0, output at +16
            led_mmap_base: 0xff80_0024,
            led_oen_offset: 0,
            led_out_offset: 16,
            led_bit: 8,
            led_brightness: 40,
        }
    }
}

impl IrConfig {
    /// Bring every setting into its accepted range.
    pub fn normalize(&mut self)
        ensures
            final(self)@ == normalize_view(old(self)@),
            is_normal(final(self)@),
    {
        let mode = self.tx_mode.as_str();
        if !(str_eq(mode, "auto") || str_eq(mode, "lirc") || str_eq(mode, "gpio") || str_eq(mode, "none")) {
            self.tx_mode = owned("auto");
        }
        if self.tx_gpio_line > 1023 {
            self.tx_gpio_line = 1023;
        }
        if self.tx_bit > 31 {
            self.tx_bit = 31;
        }
        if self.led_bit > 31 {
            self.led_bit = 31;
        }
        if self.carrier < 20000 {
            self.carrier = 20000;
        } else if self.carrier > 60000 {
            self.carrier = 60000;
        }
        if self.learn_timeout_ms < 1000 {
            self.learn_timeout_ms = 1000;
        } else if self.learn_timeout_ms > 60000 {
            self.learn_timeout_ms = 60000;
        }
        if self.led_brightness > 100 {
            self.led_brightness = 100;
        }
        if is_blank(self.rx_device.as_str()) {
            self.rx_device = owned("auto");
        }
        proof {
            lemma_auto_not_blank();
        }
    }
}

/// Normalizing settings a second time changes nothing.
pub proof fn lemma_normalize_idempotent(v: IrConfigView)
    ensures
        normalize_view(normalize_view(v)) == normalize_view(v),
{
    lemma_auto_not_blank();
}

/// Normalized settings are normal, and normal settings are left exactly as
/// they are.
pub proof fn lemma_normalize_fixes_normal(v: IrConfigView)
    ensures
        is_normal(normalize_view(v)),
        is_normal(v) ==> normalize_view(v) == v,
{
    lemma_auto_not_blank();
}

/// Normalizing limits each number to its range, keeps a value already in
/// range, and touches no other setting: the TX line to 1023, the TX and
/// LED bits to 31, the carrier to 20-60 kHz, the learn timeout to 1-60 s,
/// the brightness to 100 %; an unknown TX mode becomes `auto` and a blank
/// receiver becomes `auto`.
pub proof fn lemma_normalize_ranges(v: IrConfigView)
    ensures
        ({
            let n = normalize_view(v);
            &&& n.tx_gpio_line == if v.tx_gpio_line <= 1023 { v.tx_gpio_line } else { 1023 }
            &&& n.tx_bit == if v.tx_bit <= 31 { v.tx_bit } else { 31 }
            &&& n.led_bit == if v.led_bit <= 31 { v.led_bit } else { 31 }
            &&& 20000 <= n.carrier <= 60000
            &&& (20000 <= v.carrier <= 60000 ==> n.carrier == v.carrier)
            &&& (v.carrier < 20000 ==> n.carrier == 20000)
            &&& (v.carrier > 60000 ==> n.carrier == 60000)
            &&& 1000 <= n.learn_timeout_ms <= 60000
            &&& (1000 <= v.learn_timeout_ms <= 60000 ==> n.learn_timeout_ms == v.learn_timeout_ms)
            &&& (v.learn_timeout_ms < 1000 ==> n.learn_timeout_ms == 1000)
            &&& (v.learn_timeout_ms > 60000 ==> n.learn_timeout_ms == 60000)
            &&& n.led_brightness == if v.led_brightness <= 100 { v.led_brightness } else { 100 }
            &&& ((v.tx_mode == "auto"@ || v.tx_mode == "lirc"@ || v.tx_mode == "gpio"@ || v.tx_mode == "none"@)
                ==> n.tx_mode == v.tx_mode)
            &&& (!(v.tx_mode == "auto"@ || v.tx_mode == "lirc"@ || v.tx_mode == "gpio"@ || v.tx_mode == "none"@)
                ==> n.tx_mode == "auto"@)
            &&& (trim(v.rx_device).len() == 0 ==> n.rx_device == "auto"@)
            &&& (trim(v.rx_device).len() > 0 ==> n.rx_device == v.rx_device)
            &&& n.enabled == v.enabled && n.led_enabled == v.led_enabled
            &&& n.tx_gpio_chip == v.tx_gpio_chip && n.tx_mmap_base == v.tx_mmap_base
            &&& n.tx_mmap_oen_offset == v.tx_mmap_oen_offset && n.tx_mmap_out_offset == v.tx_mmap_out_offset
            &&& n.led_mmap_base == v.led_mmap_base && n.led_oen_offset == v.led_oen_offset
            &&& n.led_out_offset == v.led_out_offset
        }),
{
}

/// The factory settings are already normal.
pub proof fn lemma_default_is_normal()
    ensures
        is_normal(default_view()),
        normalize_view(default_view()) == default_view(),
{
    lemma_auto_not_blank();
}

} // verus!
