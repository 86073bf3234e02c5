//! IR transmission decisions: which transmitter to use, what the kernel
//! LIRC device is sent, which pulse train the GPIO fallback modulates, and
//! where the mapped GPIO registers lie.

use vstd::prelude::*;

use crate::config::IrConfig;
use crate::encoder::{encode, spec_encode};
use crate::error::IrError;
use crate::lirc::{lirc_scancode_bytes, spec_lirc_scancode_bytes};
use crate::proto::{known_proto_name, proto_from_name};
use crate::text::{concat3, is_blank, owned, str_eq, trim, trim_str};

verus! {

/// A transmitter choice as values: `(mode, device)`.
pub open spec fn choice_view(c: Option<(String, Option<String>)>) -> Option<(Seq<char>, Option<Seq<char>>)> {
    match c {
        Some((m, d)) => Some((m@, match d { Some(p) => Some(p@), None => None })),
        None => None,
    }
}

/// The transmitter `probe` settles on for `mode`, given whether a kernel
/// TX-capable LIRC device was found and whether the GPIO line opens:
/// `auto` prefers the kernel device, then the GPIO line; `lirc` and `gpio`
/// take only their own kind; `none` and unknown modes take nothing.
pub open spec fn spec_tx_choice(mode: Seq<char>, lirc_device: Option<Seq<char>>, gpio_ok: bool) -> Option<(Seq<char>, Option<Seq<char>>)> {
    if mode == "none"@ {
        None
    } else if (mode == "auto"@ || mode == "lirc"@) && lirc_device is Some {
        Some(("lirc"@, lirc_device))
    } else if mode == "lirc"@ {
        None
    } else if (mode == "auto"@ || mode == "gpio"@) && gpio_ok {
        Some(("gpio"@, None))
    } else {
        None
    }
}

/// The next step of a transmitter probe.
pub enum TxProbe {
    /// Look for a kernel TX-capable LIRC device, then call `after_lirc`.
    ProbeLirc,
    /// Try to open the GPIO line, then call `after_gpio`.
    ProbeGpio,
    /// The probe is over: `(mode, device)` of the transmitter, or none.
    Done(Option<(String, Option<String>)>),
}

/// Whether `mode` looks for a kernel LIRC transmitter.
pub open spec fn wants_lirc(mode: Seq<char>) -> bool {
    mode == "auto"@ || mode == "lirc"@
}

/// A device option as values.
pub open spec fn dev_view(d: Option<String>) -> Option<Seq<char>> {
    match d {
        Some(p) => Some(p@),
        None => None,
    }
}

proof fn lemma_modes_differ()
    ensures
        "auto"@ != "none"@,
        "lirc"@ != "none"@,
        "gpio"@ != "none"@,
        "auto"@ != "lirc"@,
        "gpio"@ != "lirc"@,
        "gpio"@ != "auto"@,
{
    reveal_strlit("auto");
    reveal_strlit("none");
    reveal_strlit("lirc");
    reveal_strlit("gpio");
    assert("auto"@[0] != "none"@[0]);
    assert("lirc"@[0] != "none"@[0]);
    assert("gpio"@[0] != "none"@[0]);
    assert("auto"@[0] != "lirc"@[0]);
    assert("gpio"@[0] != "lirc"@[0]);
    assert("gpio"@[0] != "auto"@[0]);
}

/// What the probe settles on, mode by mode: `none` takes nothing; `auto`
/// and `lirc` take a kernel TX device whenever one is found; without one,
/// `lirc` takes nothing while `auto` falls back like `gpio`; `gpio` takes
/// the GPIO line when it opens; any other mode takes nothing.
pub proof fn lemma_tx_choice(mode: Seq<char>, device: Option<Seq<char>>, gpio_ok: bool)
    ensures
        mode == "none"@ ==> spec_tx_choice(mode, device, gpio_ok) is None,
        (mode == "auto"@ || mode == "lirc"@) && device is Some ==> spec_tx_choice(mode, device, gpio_ok) == Some(
            ("lirc"@, device),
        ),
        mode == "lirc"@ && device is None ==> spec_tx_choice(mode, device, gpio_ok) is None,
        (mode == "gpio"@ || (mode == "auto"@ && device is None)) ==> spec_tx_choice(mode, device, gpio_ok) == if gpio_ok {
            Some(("gpio"@, None::<Seq<char>>))
        } else {
            None
        },
        !(mode == "none"@ || mode == "auto"@ || mode == "lirc"@ || mode == "gpio"@) ==> spec_tx_choice(
            mode,
            device,
            gpio_ok,
        ) is None,
{
    lemma_modes_differ();
}

impl TxProbe {
    /// First step of a probe for `mode`.
    pub fn start(mode: &str) -> (r: TxProbe)
        ensures
            r is ProbeLirc <==> wants_lirc(mode@),
            r is ProbeGpio <==> mode@ == "gpio"@,
            r matches TxProbe::Done(c) ==> c is None && forall|d: Option<Seq<char>>, g: bool|
                spec_tx_choice(mode@, d, g) is None,
    {
        proof {
            lemma_modes_differ();
        }
        if str_eq(mode, "none") {
            return TxProbe::Done(None);
        }
        if str_eq(mode, "auto") || str_eq(mode, "lirc") {
            return TxProbe::ProbeLirc;
        }
        if str_eq(mode, "gpio") {
            return TxProbe::ProbeGpio;
        }
        TxProbe::Done(None)
    }

    /// Step after the kernel device search (`device`) for a mode that
    /// wants one.
    pub fn after_lirc(mode: &str, device: Option<String>) -> (r: TxProbe)
        requires
            wants_lirc(mode@),
        ensures
            r matches TxProbe::Done(c) ==> forall|g: bool| spec_tx_choice(mode@, dev_view(device), g) == choice_view(c),
            r is ProbeGpio ==> device is None && mode@ == "auto"@,
            !(r is ProbeLirc),
            device matches Some(d) ==> (r matches TxProbe::Done(Some((m, Some(d2)))) && m@ == "lirc"@ && d2 == d),
    {
        proof {
            lemma_modes_differ();
        }
        match device {
            Some(dev) => TxProbe::Done(Some((owned("lirc"), Some(dev)))),
            None => {
                if str_eq(mode, "lirc") {
                    TxProbe::Done(None)
                } else {
                    TxProbe::ProbeGpio
                }
            },
        }
    }

    /// Last step, after trying the GPIO line.
    pub fn after_gpio(gpio_ok: bool) -> (r: TxProbe)
        ensures
            gpio_ok ==> (r matches TxProbe::Done(c) && choice_view(c) == Some(("gpio"@, None::<Seq<char>>))),
            !gpio_ok ==> (r matches TxProbe::Done(None)),
    {
        if gpio_ok {
            TxProbe::Done(Some((owned("gpio"), None)))
        } else {
            TxProbe::Done(None)
        }
    }
}

/// How to open the chosen transmitter.
pub enum TxOpen {
    /// Open this kernel LIRC device for writing.
    Lirc(String),
    /// Open the raw GPIO line.
    Gpio,
}

/// Default kernel TX device when the probe names none.
pub open spec fn default_tx_device() -> Seq<char> {
    "/dev/lirc1"@
}

/// How `Transmitter::open` proceeds from a probe result: the kernel device
/// (defaulting to `/dev/lirc1`), the GPIO line, or an error when no
/// transmitter is available.
pub fn open_plan(choice: Option<(String, Option<String>)>) -> (r: Result<TxOpen, IrError>)
    ensures
        match choice_view(choice) {
            Some((m, d)) => if m == "lirc"@ {
                r matches Ok(TxOpen::Lirc(p)) && p@ == match d {
                    Some(dd) => dd,
                    None => default_tx_device(),
                }
            } else {
                r matches Ok(TxOpen::Gpio)
            },
            None => r matches Err(IrError::Internal(msg)) && msg@
                == "no IR transmitter available (enable a gpio-ir-tx device or configure the TX GPIO)"@,
        },
{
    match choice {
        Some((mode, device)) => {
            if str_eq(mode.as_str(), "lirc") {
                match device {
                    Some(d) => Ok(TxOpen::Lirc(d)),
                    None => Ok(TxOpen::Lirc(owned("/dev/lirc1"))),
                }
            } else {
                Ok(TxOpen::Gpio)
            }
        },
        None => Err(
            IrError::Internal(
                owned("no IR transmitter available (enable a gpio-ir-tx device or configure the TX GPIO)"),
            ),
        ),
    }
}

/// The GPIO chip the raw TX fallback opens: the configured chip, trimmed;
/// an error when it is blank.
pub fn tx_gpio_chip_path(config: &IrConfig) -> (r: Result<String, IrError>)
    ensures
        trim(config.tx_gpio_chip@).len() == 0 ==> (r matches Err(IrError::Internal(m)) && m@
            == "TX GPIO chip not configured"@),
        trim(config.tx_gpio_chip@).len() > 0 ==> (r matches Ok(p) && p@ == trim(config.tx_gpio_chip@)),
{
    if is_blank(config.tx_gpio_chip.as_str()) {
        return Err(IrError::Internal(owned("TX GPIO chip not configured")));
    }
    Ok(owned(trim_str(config.tx_gpio_chip.as_str())))
}

/// What is sent to a kernel LIRC transmitter.
pub struct LircSend {
    /// Carrier frequency to set first, if the device can and one is given.
    pub set_carrier: Option<u32>,
    /// The `struct lirc_scancode` to write.
    pub bytes: Vec<u8>,
}

/// The protocol number a name stands for, if it is a known rc-core name.
pub open spec fn spec_proto_number(name: Seq<char>) -> Option<u16> {
    if exists|p: u16| known_proto_name(p) == Some(name) {
        Some(choose|p: u16| known_proto_name(p) == Some(name))
    } else {
        None
    }
}

/// The request for a kernel transmitter: the protocol must be a known
/// rc-core name and the button must have a scancode; the carrier is set
/// only when the device supports it and it is positive.
pub fn lirc_send_plan(proto: &str, scancode: Option<i64>, has_carrier: bool, carrier: i64) -> (r: Result<LircSend, IrError>)
    ensures
        spec_proto_number(proto@) is None ==> (r matches Err(IrError::BadRequest(m)) && m@ == "unknown IR protocol '"@ + proto@ + "'"@),
        spec_proto_number(proto@) is Some && scancode is None ==> (r matches Err(IrError::BadRequest(m)) && m@
            == "button has no scancode"@),
        match (spec_proto_number(proto@), scancode) {
            (Some(p), Some(s)) => r matches Ok(send) && send.bytes@ == spec_lirc_scancode_bytes(p, s as u64)
                && send.set_carrier == if has_carrier && carrier > 0 {
                Some(#[verifier::truncate] (carrier as u32))
            } else {
                None::<u32>
            },
            _ => true,
        },
{
    let rc_proto = match proto_from_name(proto) {
        Some(p) => p,
        None => {
            return Err(IrError::BadRequest(concat3("unknown IR protocol '", proto, "'")));
        },
    };
    proof {
        crate::proto::lemma_proto_name_unique(rc_proto, proto@);
    }
    let sc: u64 = match scancode {
        Some(s) => s as u64,
        None => {
            return Err(IrError::BadRequest(owned("button has no scancode")));
        },
    };
    let set_carrier: Option<u32> = if has_carrier && carrier > 0 {
        Some(#[verifier::truncate] (carrier as u32))
    } else {
        None
    };
    Ok(LircSend { set_carrier, bytes: lirc_scancode_bytes(rc_proto, sc) })
}

/// What the GPIO fallback modulates: the stored raw train when there is a
/// non-empty one, else the userspace encoding of the scancode.
pub open spec fn spec_gpio_pulses(proto: Seq<char>, scancode: Option<i64>, raw: Option<Seq<u32>>) -> Result<Seq<u32>, ()> {
    match raw {
        Some(r) if r.len() > 0 => Ok(r),
        _ => match scancode {
            None => Err(()),
            Some(s) => match spec_encode(proto, s as u64) {
                Some(f) => Ok(f),
                None => Err(()),
            },
        },
    }
}

/// The pulse train the GPIO fallback sends, or why it cannot send.
pub fn gpio_pulses(proto: &str, scancode: Option<i64>, raw: Option<&[u32]>) -> (r: Result<Vec<u32>, IrError>)
    ensures
        r matches Ok(v) ==> spec_gpio_pulses(proto@, scancode, match raw { Some(x) => Some(x@), None => None }) == Ok::<Seq<u32>, ()>(v@),
        r is Err ==> spec_gpio_pulses(proto@, scancode, match raw { Some(x) => Some(x@), None => None }) is Err,
        (match raw { Some(x) => x@.len() == 0, None => true }) && scancode is None ==> (r matches Err(IrError::BadRequest(m))
            && m@ == "button has neither raw data nor a scancode"@),
        (match raw { Some(x) => x@.len() == 0, None => true }) && (scancode matches Some(s) && spec_encode(proto@, s as u64) is None)
            ==> (r matches Err(IrError::BadRequest(m)) && m@ == "protocol '"@ + proto@
            + "' needs a kernel transmitter (gpio-ir-tx); the GPIO fallback only supports NEC"@),
{
    match raw {
        Some(r) => {
            if r.len() > 0 {
                return Ok(vstd::slice::slice_to_vec(r));
            }
        },
        None => {},
    }
    let sc: i64 = match scancode {
        Some(s) => s,
        None => {
            return Err(IrError::BadRequest(owned("button has neither raw data nor a scancode")));
        },
    };
    match encode(proto, sc as u64) {
        Some(pulses) => Ok(pulses),
        None => Err(
            IrError::BadRequest(
                concat3(
                    "protocol '",
                    proto,
                    "' needs a kernel transmitter (gpio-ir-tx); the GPIO fallback only supports NEC",
                ),
            ),
        ),
    }
}

/// Where a GPIO bank's registers lie in a mapped `/dev/mem` page.
pub struct RegLayout {
    /// Page-aligned physical address to map.
    pub page: u64,
    /// Index (in 32-bit words) of the output-enable register in the page.
    pub oen_word: u64,
    /// Index (in 32-bit words) of the data-out register in the page.
    pub out_word: u64,
    /// The pin's bit in both registers.
    pub mask: u32,
}

/// The register layout for a bank at `base` with the given register
/// offsets and pin bit.
pub open spec fn spec_layout(base: u64, oen_offset: u32, out_offset: u32, bit: u32) -> RegLayout
    recommends
        bit < 32,
{
    RegLayout {
        page: base & !0xfffu64,
        oen_word: (((base & 0xfffu64) + oen_offset as u64) / 4) as u64,
        out_word: (((base & 0xfffu64) + out_offset as u64) / 4) as u64,
        mask: (1u32 << bit),
    }
}

fn layout(base: u64, oen_offset: u32, out_offset: u32, bit: u32) -> (r: RegLayout)
    requires
        bit < 32,
    ensures
        r == spec_layout(base, oen_offset, out_offset, bit),
{
    let offset: u64 = base & 0xfff;
    assert(offset <= 0xfff) by (bit_vector)
        requires offset == base & 0xfffu64;
    RegLayout {
        page: base & !0xfffu64,
        oen_word: (offset + oen_offset as u64) / 4,
        out_word: (offset + out_offset as u64) / 4,
        mask: 1u32 << bit,
    }
}

/// The TX bank's register layout (`MmapGpio::open`): an unconfigured base
/// or a bit past 31 is refused.
pub fn tx_register_layout(base: u64, oen_offset: u32, out_offset: u32, bit: u32) -> (r: Result<RegLayout, IrError>)
    ensures
        base == 0 ==> (r matches Err(IrError::Internal(m)) && m@ == "mmap GPIO base not configured"@),
        base != 0 && bit >= 32 ==> (r matches Err(IrError::Internal(m)) && m@ == "mmap GPIO bit out of range"@),
        base != 0 && bit < 32 ==> (r matches Ok(l) && l == spec_layout(base, oen_offset, out_offset, bit)),
{
    if base == 0 {
        return Err(IrError::Internal(owned("mmap GPIO base not configured")));
    }
    if bit >= 32 {
        return Err(IrError::Internal(owned("mmap GPIO bit out of range")));
    }
    Ok(layout(base, oen_offset, out_offset, bit))
}

/// The status LED bank's register layout (`open_backend`): an unconfigured
/// base is refused; the bit is limited to 31.
pub fn led_register_layout(config: &IrConfig) -> (r: Result<RegLayout, IrError>)
    ensures
        config.led_mmap_base == 0 ==> (r matches Err(IrError::Internal(m)) && m@ == "LED mmap base not configured"@),
        config.led_mmap_base != 0 ==> (r matches Ok(l) && l == spec_layout(config.led_mmap_base, config.led_oen_offset,
            config.led_out_offset, if config.led_bit < 31 { config.led_bit } else { 31 })),
{
    if config.led_mmap_base == 0 {
        return Err(IrError::Internal(owned("LED mmap base not configured")));
    }
    let bit: u32 = if config.led_bit < 31 { config.led_bit } else { 31 };
    Ok(layout(config.led_mmap_base, config.led_oen_offset, config.led_out_offset, bit))
}

} // verus!
