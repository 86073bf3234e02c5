//! Learn-session, send and hardware-status decisions of the IR manager.

use vstd::prelude::*;

use crate::config::IrConfig;
use crate::error::IrError;
use crate::json::{from_json_u32_array, json_error_text, parse_json_u32_array};
use crate::led::{LedColor, LedPattern};
use crate::store::IrButtonRecord;
use crate::text::{concat2, owned};

verus! {

/// Decoded keypress captured from the receiver.
pub struct LearnedCode {
    pub proto: String,
    pub scancode: u64,
}

/// What the IR hardware can do right now.
pub struct IrHardwareStatus {
    pub rx_available: bool,
    pub rx_device: Option<String>,
    pub tx_available: bool,
    pub tx_mode: String,
    pub tx_device: Option<String>,
    pub led_ready: bool,
    pub learn_active: bool,
}

/// The status report from the receiver probe (`rx`), the transmitter probe
/// (`tx`, `(mode, device)`), the LED and the learn session.
pub fn hardware_status(rx: Option<String>, tx: Option<(String, Option<String>)>, led_ready: bool, learn_active: bool) -> (s: IrHardwareStatus)
    ensures
        s.rx_available == rx is Some,
        s.rx_device == rx,
        s.tx_available == tx is Some,
        s.tx_mode@ == match tx {
            Some((m, _)) => m@,
            None => "none"@,
        },
        s.tx_device == match tx {
            Some((_, d)) => d,
            None => None::<String>,
        },
        s.led_ready == led_ready,
        s.learn_active == learn_active,
{
    let rx_available = rx.is_some();
    let tx_available = tx.is_some();
    let (tx_mode, tx_device) = match tx {
        Some((m, d)) => (m, d),
        None => (owned("none"), None),
    };
    IrHardwareStatus { rx_available, rx_device: rx, tx_available, tx_mode, tx_device, led_ready, learn_active }
}

/// A learn/send progress event for the UI (`SystemEvent::IrLearn`).
pub struct IrLearnEvent {
    pub state: String,
    pub message: Option<String>,
    pub remote_id: Option<i64>,
    pub button_id: Option<i64>,
    pub proto: Option<String>,
    pub scancode: Option<u64>,
}

/// An event that carries only a state and a remote.
pub open spec fn is_bare_event(e: IrLearnEvent, state: Seq<char>, remote_id: Option<i64>) -> bool {
    &&& e.state@ == state
    &&& e.message is None
    &&& e.remote_id == remote_id
    &&& e.button_id is None
    &&& e.proto is None
    &&& e.scancode is None
}

fn bare_event(state: &str, remote_id: Option<i64>) -> (e: IrLearnEvent)
    ensures
        is_bare_event(e, state@, remote_id),
{
    IrLearnEvent { state: owned(state), message: None, remote_id, button_id: None, proto: None, scancode: None }
}

/// Holds the handle of the running learn session, if any; at most one
/// session runs at a time.
pub struct LearnSlot<H> {
    handle: Option<H>,
}

impl<H> LearnSlot<H> {
    /// The handle of the running session.
    pub closed spec fn current(&self) -> Option<H> {
        self.handle
    }

    /// No session is running.
    pub fn new() -> (s: Self)
        ensures
            s.current() is None,
    {
        LearnSlot { handle: None }
    }

    /// Whether a session is running.
    pub fn is_active(&self) -> (r: bool)
        ensures
            r == self.current() is Some,
    {
        self.handle.is_some()
    }

    /// A new session may start only when none is running.
    pub fn check_free(&self) -> (r: Result<(), IrError>)
        ensures
            self.current() is None ==> r is Ok,
            self.current() is Some ==> (r matches Err(IrError::Conflict(m)) && m@ == "a learn session is already running"@),
    {
        if self.handle.is_some() {
            return Err(IrError::Conflict(owned("a learn session is already running")));
        }
        Ok(())
    }

    /// Record the started session.
    pub fn install(&mut self, handle: H)
        ensures
            final(self).current() == Some(handle),
    {
        self.handle = Some(handle);
    }

    /// Cancel the running session: its handle (to signal it), the LED off and
    /// a `cancelled` event; an error when none runs. No session runs after.
    pub fn cancel(&mut self) -> (r: Result<(H, LedPattern, IrLearnEvent), IrError>)
        ensures
            final(self).current() is None,
            match old(self).current() {
                Some(h) => r matches Ok((h2, led, e)) && h2 == h && led == LedPattern::Off && is_bare_event(e, "cancelled"@, None),
                None => r matches Err(IrError::BadRequest(m)) && m@ == "no learn session running"@,
            },
    {
        match self.handle.take() {
            Some(h) => Ok((h, LedPattern::Off, bare_event("cancelled", None))),
            None => Err(IrError::BadRequest(owned("no learn session running"))),
        }
    }

    /// The session ended by itself; no session runs after.
    pub fn finish(&mut self)
        ensures
            final(self).current() is None,
    {
        self.handle = None;
    }
}

/// How long a learn session listens: the configured timeout, at least one
/// second.
pub fn learn_timeout_ms(config: &IrConfig) -> (t: u64)
    ensures
        t == if config.learn_timeout_ms < 1000 { 1000 } else { config.learn_timeout_ms },
{
    if config.learn_timeout_ms < 1000 { 1000 } else { config.learn_timeout_ms }
}

/// LED and event when the receiver cannot be opened for a learn session.
pub fn learn_open_failed(remote_id: i64) -> (r: (LedPattern, IrLearnEvent))
    ensures
        r.0 == LedPattern::solid_spec(LedColor { r: 255, g: 0, b: 0 }, 2000),
        is_bare_event(r.1, "failed"@, Some(remote_id)),
{
    (LedPattern::solid(LedColor::red(), 2000), bare_event("failed", Some(remote_id)))
}

/// LED and event once a learn session listens.
pub fn learn_waiting(remote_id: i64) -> (r: (LedPattern, IrLearnEvent))
    ensures
        r.0 == (LedPattern::Blink { color: LedColor { r: 0, g: 255, b: 0 } }),
        is_bare_event(r.1, "waiting"@, Some(remote_id)),
{
    (LedPattern::blink(LedColor::green()), bare_event("waiting", Some(remote_id)))
}

/// What to do when a capture ends.
pub enum CaptureOutcome {
    /// The user cancelled: nothing more to show.
    Ignore,
    /// The capture failed: show this.
    Report(LedPattern, IrLearnEvent),
    /// Store this code.
    Save(LearnedCode),
}

/// The reaction to a capture result: a cancellation is ignored, another
/// error lights red for 2 s with a `failed` event, a code is stored.
pub fn capture_outcome(remote_id: i64, result: Result<LearnedCode, IrError>) -> (r: CaptureOutcome)
    ensures
        match result {
            Ok(code) => r matches CaptureOutcome::Save(c) && c == code,
            Err(IrError::Conflict(_)) => r is Ignore,
            Err(_) => r matches CaptureOutcome::Report(led, e) && led == LedPattern::solid_spec(
                LedColor { r: 255, g: 0, b: 0 },
                2000,
            ) && is_bare_event(e, "failed"@, Some(remote_id)),
        },
{
    match result {
        Ok(code) => CaptureOutcome::Save(code),
        Err(IrError::Conflict(_)) => CaptureOutcome::Ignore,
        Err(_) => CaptureOutcome::Report(LedPattern::solid(LedColor::red(), 2000), bare_event("failed", Some(remote_id))),
    }
}

/// The scancode column value of a learned code (the bits of the `u64`
/// read as `i64`).
pub fn scancode_column(scancode: u64) -> (c: i64)
    ensures
        c == scancode as i64,
{
    #[verifier::truncate]
    (scancode as i64)
}

/// The reaction to storing a learned code: blue for 2 s with a `saved`
/// event naming the new button, or red for 2 s with a `failed` event.
pub fn save_outcome(remote_id: i64, code: LearnedCode, stored: Result<i64, IrError>) -> (r: (LedPattern, IrLearnEvent))
    ensures
        match stored {
            Ok(button_id) => {
                &&& r.0 == LedPattern::solid_spec(LedColor { r: 0, g: 0, b: 255 }, 2000)
                &&& r.1.state@ == "saved"@
                &&& r.1.message is None
                &&& r.1.remote_id == Some(remote_id)
                &&& r.1.button_id == Some(button_id)
                &&& r.1.proto == Some(code.proto)
                &&& r.1.scancode == Some(code.scancode)
            },
            Err(_) => r.0 == LedPattern::solid_spec(LedColor { r: 255, g: 0, b: 0 }, 2000) && is_bare_event(
                r.1,
                "failed"@,
                Some(remote_id),
            ),
        },
{
    match stored {
        Ok(button_id) => (
            LedPattern::solid(LedColor::blue(), 2000),
            IrLearnEvent {
                state: owned("saved"),
                message: None,
                remote_id: Some(remote_id),
                button_id: Some(button_id),
                proto: Some(code.proto),
                scancode: Some(code.scancode),
            },
        ),
        Err(_) => (LedPattern::solid(LedColor::red(), 2000), bare_event("failed", Some(remote_id))),
    }
}

/// The button to send, or not found.
pub fn button_to_send(button: Option<IrButtonRecord>, button_id: i64) -> (r: Result<IrButtonRecord, IrError>)
    ensures
        match button {
            Some(b) => r matches Ok(b2) && b2 == b,
            None => r matches Err(IrError::NotFound(m)) && m@ == "IR button "@ + crate::text::signed_decimal(
                button_id as int,
            ) + " not found"@,
        },
{
    match button {
        Some(b) => Ok(b),
        None => Err(crate::store::button_not_found(button_id)),
    }
}

/// The stored raw pulse train of a button: none when nothing is stored,
/// the parsed values, or an internal error when the stored text is not a
/// JSON integer array.
pub fn stored_raw_pulses(raw: Option<String>) -> (r: Result<Option<Vec<u32>>, IrError>)
    ensures
        match raw {
            None => r matches Ok(None),
            Some(text) => match parse_json_u32_array(text@) {
                Some(v) => r matches Ok(Some(p)) && p@ == v,
                None => r matches Err(IrError::Internal(m)) && m@.len() >= 21 && m@.take(21) == "corrupt raw IR data: "@,
            },
        },
{
    match raw {
        None => Ok(None),
        Some(text) => match from_json_u32_array(text.as_str()) {
            Ok(v) => Ok(Some(v)),
            Err(e) => {
                let detail = json_error_text(&e);
                let m = concat2("corrupt raw IR data: ", detail.as_str());
                proof {
                    reveal_strlit("corrupt raw IR data: ");
                }
                assert(m@.take(21) =~= "corrupt raw IR data: "@);
                Err(IrError::Internal(m))
            },
        },
    }
}

/// The reaction to a transmission: blue for 400 ms with a `sent` event on
/// success; red for 800 ms and the error otherwise.
pub fn send_outcome(button: &IrButtonRecord, result: Result<(), IrError>) -> (r: (LedPattern, Option<IrLearnEvent>, Result<(), IrError>))
    ensures
        match result {
            Ok(()) => {
                &&& r.0 == LedPattern::solid_spec(LedColor { r: 0, g: 0, b: 255 }, 400)
                &&& r.1 matches Some(e) && e.state@ == "sent"@ && e.message is None && e.remote_id == Some(
                    button.remote_id,
                ) && e.button_id == Some(button.id) && e.proto == Some(button.proto) && e.scancode == match button.scancode {
                    Some(s) => Some(s as u64),
                    None => None::<u64>,
                }
                &&& r.2 is Ok
            },
            Err(err) => {
                &&& r.0 == LedPattern::solid_spec(LedColor { r: 255, g: 0, b: 0 }, 800)
                &&& r.1 is None
                &&& r.2 == Err::<(), IrError>(err)
            },
        },
{
    match result {
        Ok(()) => {
            let scancode: Option<u64> = match button.scancode {
                Some(s) => Some(#[verifier::truncate] (s as u64)),
                None => None,
            };
            let e = IrLearnEvent {
                state: owned("sent"),
                message: None,
                remote_id: Some(button.remote_id),
                button_id: Some(button.id),
                proto: Some(button.proto.clone()),
                scancode,
            };
            (LedPattern::solid(LedColor::blue(), 400), Some(e), Ok(()))
        },
        Err(err) => (LedPattern::solid(LedColor::red(), 800), None, Err(err)),
    }
}

} // verus!
