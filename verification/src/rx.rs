//! Receiver decisions: which device to learn from, the device node a
//! sysfs entry names, and the learn-capture state machine.

use vstd::prelude::*;

use crate::error::IrError;
use crate::manager::LearnedCode;
use crate::proto::{proto_name, spec_proto_name};
use crate::text::{owned, str_eq, trim, trim_str, is_blank};

verus! {

/// The first scanned device that can report scancodes.
pub open spec fn first_receiver(devices: Seq<(String, bool)>) -> Option<Seq<char>>
    decreases devices.len(),
{
    if devices.len() == 0 {
        None
    } else if devices[0].1 {
        Some(devices[0].0@)
    } else {
        first_receiver(devices.drop_first())
    }
}

/// The receiver device `resolve_device` picks: an explicit request
/// (trimmed), else the first scanned device that can report scancodes.
pub open spec fn spec_resolve_device(requested: Seq<char>, devices: Seq<(String, bool)>) -> Option<Seq<char>> {
    if requested != "auto"@ && trim(requested).len() > 0 {
        Some(trim(requested))
    } else {
        first_receiver(devices)
    }
}

/// Whether resolving `requested` needs the device scan: only for `auto`
/// or a blank setting; an explicit path is taken as given.
pub fn needs_device_scan(requested: &str) -> (r: bool)
    ensures
        r == !(requested@ != "auto"@ && trim(requested@).len() > 0),
        !r ==> forall|d: Seq<(String, bool)>| #[trigger] spec_resolve_device(requested@, d) == Some(trim(requested@)),
{
    str_eq(requested, "auto") || is_blank(requested)
}

/// The device to learn from: the requested path when one is given, else
/// the first entry of the scan (`(path, reports scancodes)`) that reports
/// scancodes.
pub fn resolve_device(requested: &str, devices: &Vec<(String, bool)>) -> (r: Option<String>)
    ensures
        r matches Some(d) ==> spec_resolve_device(requested@, devices@) == Some(d@),
        r is None ==> spec_resolve_device(requested@, devices@) is None,
{
    if !str_eq(requested, "auto") && !is_blank(requested) {
        return Some(owned(trim_str(requested)));
    }
    let mut i: usize = 0;
    assert(devices@.skip(0) =~= devices@);
    while i < devices.len()
        invariant
            i <= devices@.len(),
            first_receiver(devices@) == first_receiver(devices@.skip(i as int)),
            spec_resolve_device(requested@, devices@) == first_receiver(devices@),
        decreases devices@.len() - i,
    {
        assert(devices@.skip(i as int).drop_first() =~= devices@.skip(i + 1));
        assert(devices@.skip(i as int)[0] == devices@[i as int]);
        if devices[i].1 {
            assert(first_receiver(devices@.skip(i as int)) == Some(devices@[i as int].0@));
            let d = devices[i].0.clone();
            return Some(d);
        }
        i = i + 1;
    }
    None
}

/// Length of the first line of `s` (up to, not including, the first `\n`).
pub open spec fn line_end(s: Seq<char>) -> int
    decreases s.len(),
{
    if s.len() == 0 || s[0] == '\n' {
        0
    } else {
        1 + line_end(s.drop_first())
    }
}

/// A line as `str::lines` yields it: a `\r` before the `\n` is dropped.
pub open spec fn line_text(s: Seq<char>) -> Seq<char> {
    let k = line_end(s);
    if k < s.len() && k > 0 && s[k - 1] == '\r' {
        s.take(k - 1)
    } else {
        s.take(k)
    }
}

/// The value of the first `DEVNAME=` line of a sysfs `uevent` text.
pub open spec fn uevent_devname(s: Seq<char>) -> Option<Seq<char>>
    decreases s.len(),
{
    let k = line_end(s);
    let line = line_text(s);
    if line.len() >= 8 && line.take(8) == "DEVNAME="@ {
        Some(line.skip(8))
    } else if k < s.len() {
        proof {
            lemma_line_end_bounds(s);
        }
        uevent_devname(s.skip(k + 1))
    } else {
        None
    }
}

proof fn lemma_line_end(s: Seq<char>, j: int)
    requires
        0 <= j <= s.len(),
        forall|t: int| 0 <= t < j ==> s[t] != '\n',
        j == s.len() || s[j] == '\n',
    ensures
        line_end(s) == j,
        0 <= line_end(s) <= s.len(),
    decreases j,
{
    if j > 0 {
        lemma_line_end(s.drop_first(), j - 1);
    }
}

/// A line ends within the text.
pub proof fn lemma_line_end_bounds(s: Seq<char>)
    ensures
        0 <= line_end(s) <= s.len(),
    decreases s.len(),
{
    if s.len() > 0 && s[0] != '\n' {
        lemma_line_end_bounds(s.drop_first());
    }
}

/// Whether the scan lists `path` as a device that reports scancodes.
pub open spec fn lists_receiver(devices: Seq<(String, bool)>, path: Seq<char>) -> bool {
    exists|i: int| 0 <= i < devices.len() && devices[i].0@ == path && devices[i].1
}

/// The receiver a probe reports: for `auto` or a blank setting, the first
/// scanned device that reports scancodes; for an explicit path, that path
/// (trimmed) only when the scan lists it as reporting scancodes.
pub open spec fn spec_probe_receiver(requested: Seq<char>, devices: Seq<(String, bool)>) -> Option<Seq<char>> {
    if requested != "auto"@ && trim(requested).len() > 0 {
        if lists_receiver(devices, trim(requested)) {
            Some(trim(requested))
        } else {
            None
        }
    } else {
        first_receiver(devices)
    }
}

/// Whether a usable receiver exists (`LircReceiver::probe`), from the scan
/// (`(path, reports scancodes)`): the requested device when it reports
/// scancodes, or the first device that does for `auto`.
pub fn probe_receiver(requested: &str, devices: &Vec<(String, bool)>) -> (r: Option<String>)
    ensures
        r matches Some(d) ==> spec_probe_receiver(requested@, devices@) == Some(d@),
        r is None ==> spec_probe_receiver(requested@, devices@) is None,
{
    if str_eq(requested, "auto") || is_blank(requested) {
        return resolve_device(requested, devices);
    }
    let path = trim_str(requested);
    let mut i: usize = 0;
    while i < devices.len()
        invariant
            i <= devices@.len(),
            path@ == trim(requested@),
            requested@ != "auto"@ && trim(requested@).len() > 0,
            forall|k: int| 0 <= k < i ==> !(devices@[k].0@ == path@ && devices@[k].1),
        decreases devices@.len() - i,
    {
        if devices[i].1 && str_eq(devices[i].0.as_str(), path) {
            assert(devices@[i as int].0@ == trim(requested@) && devices@[i as int].1);
            assert(lists_receiver(devices@, trim(requested@)));
            return Some(owned(path));
        }
        i = i + 1;
    }
    None
}

/// The device node named by a sysfs `uevent` text: `/dev/` followed by its
/// `DEVNAME=` value.
pub fn uevent_device_path(text: &str) -> (r: Option<String>)
    ensures
        r matches Some(p) ==> (uevent_devname(text@) matches Some(name) && p@ == "/dev/"@ + name),
        r is None ==> uevent_devname(text@) is None,
{
    let n: usize = text.unicode_len();
    let mut pos: usize = 0;
    assert(text@.skip(0) =~= text@);
    loop
        invariant
            n == text@.len(),
            pos <= n,
            uevent_devname(text@) == uevent_devname(text@.skip(pos as int)),
        decreases n - pos,
    {
        let ghost rest = text@.skip(pos as int);
        let mut j: usize = pos;
        while j < n && text.get_char(j) != '\n'
            invariant
                n == text@.len(),
                pos <= j <= n,
                rest == text@.skip(pos as int),
                forall|t: int| pos <= t < j ==> text@[t] != '\n',
            decreases n - j,
        {
            j = j + 1;
        }
        proof {
            assert forall|t: int| 0 <= t < j - pos implies rest[t] != '\n' by {
                assert(rest[t] == text@[t + pos]);
            }
            if j < n {
                assert(rest[j - pos] == text@[j as int]);
            }
            lemma_line_end(rest, j - pos);
        }
        let mut end: usize = j;
        if j < n && j > pos && text.get_char(j - 1) == '\r' {
            end = j - 1;
        }
        assert(j < n && j > pos ==> rest[j - pos - 1] == text@[j - 1]);
        assert(line_text(rest) =~= text@.subrange(pos as int, end as int));
        if end - pos >= 8 && str_eq(text.substring_char(pos, pos + 8), "DEVNAME=") {
            assert(line_text(rest).take(8) =~= text@.subrange(pos as int, pos + 8));
            assert(line_text(rest).skip(8) =~= text@.subrange(pos + 8, end as int));
            proof {
                reveal_strlit("/dev/");
            }
            return Some(crate::text::concat2("/dev/", text.substring_char(pos + 8, end)));
        }
        assert(end - pos >= 8 ==> line_text(rest).take(8) =~= text@.subrange(pos as int, pos + 8));
        if j >= n {
            return None;
        }
        assert(rest.skip(j - pos + 1) =~= text@.skip(j + 1));
        pos = j + 1;
    }
}

/// The device path a receiver opens, or the error when none was found.
pub fn receiver_path(resolved: Option<String>) -> (r: Result<String, IrError>)
    ensures
        match resolved {
            Some(p) => r matches Ok(q) && q == p,
            None => r matches Err(IrError::Internal(m)) && m@
                == "no IR receiver found (meson-ir rc-core device with scancode support required)"@,
        },
{
    match resolved {
        Some(p) => Ok(p),
        None => Err(IrError::Internal(owned("no IR receiver found (meson-ir rc-core device with scancode support required)"))),
    }
}

/// An opened receiver must report scancodes.
pub fn receiver_features_check(path: &str, features: u32) -> (r: Result<(), IrError>)
    ensures
        features & crate::lirc::LIRC_CAN_REC_SCANCODE != 0 ==> r is Ok,
        features & crate::lirc::LIRC_CAN_REC_SCANCODE == 0 ==> (r matches Err(IrError::Internal(m)) && m@ == path@
            + " does not support LIRC_MODE_SCANCODE reception"@),
{
    if !crate::lirc::can_receive_scancodes(features) {
        return Err(IrError::Internal(crate::text::concat2(path, " does not support LIRC_MODE_SCANCODE reception")));
    }
    Ok(())
}

/// Listening slice before anything is captured (ns).
pub const CAPTURE_IDLE_SLICE_NS: u64 = 50_000_000;
/// Quiet period that ends a capture once a code is held (ns).
pub const CAPTURE_QUIET_NS: u64 = 250_000_000;
/// Shortest read timeout (ns).
pub const CAPTURE_MIN_READ_NS: u64 = 1_000_000;

/// What happened while capturing one button press.
pub enum CaptureEvent {
    /// The user cancelled the learn session.
    Cancelled,
    /// The learn deadline has passed.
    TimeUp,
    /// A read finished: a decoded `(rc_proto, scancode, flags)`, or `None`
    /// when the read timed out.
    Read(Option<(u16, u64, u16)>),
}

/// What the capture does next.
pub enum CaptureStep {
    /// Keep listening.
    Continue,
    /// The capture is over with this result.
    Finished(Result<LearnedCode, IrError>),
}

/// One learning attempt: it keeps the first decoded code, ignores every
/// later read, and hands the code out once a read times out (the remote
/// has gone quiet).
pub struct Capture {
    pub captured: Option<(u16, u64, u16)>,
}

/// The learned code for a held `(rc_proto, scancode, _)`.
pub open spec fn learned_from(code: LearnedCode, held: (u16, u64, u16)) -> bool {
    code.proto@ == spec_proto_name(held.0) && code.scancode == held.1
}

impl Capture {
    /// A capture that holds nothing yet.
    pub fn new() -> (c: Self)
        ensures
            c.captured is None,
    {
        Capture { captured: None }
    }

    /// How long the next read may wait: the quiet period once a code is
    /// held, else the idle slice; never past the deadline, never under 1 ms.
    pub fn read_timeout_ns(&self, remaining_ns: u64) -> (t: u64)
        ensures
            t == ({
                let slice = if self.captured is Some { CAPTURE_QUIET_NS } else { CAPTURE_IDLE_SLICE_NS };
                let m = if slice < remaining_ns { slice } else { remaining_ns };
                if m < CAPTURE_MIN_READ_NS { CAPTURE_MIN_READ_NS } else { m }
            }),
    {
        let slice: u64 = if self.captured.is_some() { CAPTURE_QUIET_NS } else { CAPTURE_IDLE_SLICE_NS };
        let m: u64 = if slice < remaining_ns { slice } else { remaining_ns };
        if m < CAPTURE_MIN_READ_NS { CAPTURE_MIN_READ_NS } else { m }
    }

    fn held_code(held: (u16, u64, u16)) -> (code: LearnedCode)
        ensures
            learned_from(code, held),
    {
        LearnedCode { proto: proto_name(held.0), scancode: held.1 }
    }

    /// Advance the capture by one event.
    pub fn step(&mut self, event: CaptureEvent) -> (r: CaptureStep)
        ensures
            match event {
                CaptureEvent::Cancelled => {
                    &&& final(self).captured == old(self).captured
                    &&& r matches CaptureStep::Finished(Err(IrError::Conflict(m)))
                    &&& m@ == "learn cancelled"@
                },
                CaptureEvent::TimeUp => {
                    &&& final(self).captured == old(self).captured
                    &&& match old(self).captured {
                        Some(held) => r matches CaptureStep::Finished(Ok(code)) && learned_from(code, held),
                        None => r matches CaptureStep::Finished(Err(IrError::Internal(m))) && m@
                            == "learn timeout: no IR signal captured"@,
                    }
                },
                CaptureEvent::Read(Some(read)) => {
                    &&& r is Continue
                    &&& final(self).captured == match old(self).captured {
                        Some(held) => Some(held),
                        None => Some(read),
                    }
                },
                CaptureEvent::Read(None) => {
                    &&& final(self).captured == old(self).captured
                    &&& match old(self).captured {
                        Some(held) => r matches CaptureStep::Finished(Ok(code)) && learned_from(code, held),
                        None => r is Continue,
                    }
                },
            },
    {
        match event {
            CaptureEvent::Cancelled => CaptureStep::Finished(Err(IrError::Conflict(owned("learn cancelled")))),
            CaptureEvent::TimeUp => match self.captured {
                Some(held) => CaptureStep::Finished(Ok(Self::held_code(held))),
                None => CaptureStep::Finished(
                    Err(IrError::Internal(owned("learn timeout: no IR signal captured"))),
                ),
            },
            CaptureEvent::Read(Some(read)) => {
                if self.captured.is_none() {
                    self.captured = Some(read);
                }
                CaptureStep::Continue
            },
            CaptureEvent::Read(None) => match self.captured {
                Some(held) => CaptureStep::Finished(Ok(Self::held_code(held))),
                None => CaptureStep::Continue,
            },
        }
    }
}

} // verus!
