//! Events that scripts send to the host.
use crate::json::Json;
use crate::text::decimal_text;
use vstd::prelude::*;
use vstd::string::StringExecFns;

verus! {

/// The largest payload of a sent event, in bytes.
pub const MAX_SEND_EVENT_PAYLOAD_BYTES: usize = 262_144;

/// Event emitted by a script via `sendEvent(name, payload)`.
#[derive(Debug, PartialEq, Eq)]
pub struct Event {
    pub name: String,
    pub payload: Json,
}

impl Clone for Event {
    fn clone(&self) -> (event: Self)
        ensures
            event.name@ == self.name@,
            event.payload@ == self.payload@,
    {
        Event { name: self.name.clone(), payload: self.payload.duplicate() }
    }
}

/// Bookkeeping of script-to-host sends: the error that the last one ended in.
#[derive(Debug)]
pub struct Outbox {
    pub last_error: Option<String>,
}

/// The error text for a payload of `size` bytes.
pub open spec fn too_large_text(size: nat) -> Seq<char> {
    "sendEvent payload too large: "@ + crate::text::decimal(size) + " bytes (max "@
        + crate::text::decimal(MAX_SEND_EVENT_PAYLOAD_BYTES as nat) + ")"@
}

impl Outbox {
    /// No send has failed yet.
    pub fn new() -> (outbox: Self)
        ensures
            outbox.last_error is None,
    {
        Outbox { last_error: None }
    }

    /// Starts a send: forgets the last error and refuses a payload that is
    /// too large, which becomes the new error. Returns whether the send goes
    /// on.
    pub fn open_send(&mut self, payload: &str) -> (accepted: bool)
        ensures
            accepted == (vstd::utf8::encode_utf8(payload@).len() <= MAX_SEND_EVENT_PAYLOAD_BYTES),
            match final(self).last_error {
                Some(error) => !accepted && error@ == too_large_text(vstd::utf8::encode_utf8(payload@).len()),
                None => accepted,
            },
    {
        self.last_error = None;
        let size: usize = payload.as_bytes().len();
        if size <= MAX_SEND_EVENT_PAYLOAD_BYTES {
            return true;
        }
        let mut error = "sendEvent payload too large: ".to_owned();
        error.append(decimal_text(size).as_str());
        error.append(" bytes (max ");
        error.append(decimal_text(MAX_SEND_EVENT_PAYLOAD_BYTES).as_str());
        error.append(")");
        self.last_error = Some(error);
        false
    }

    /// Builds the event of an accepted send from the parsed payload. A payload
    /// that does not parse is sent as null, and its parse error is kept.
    pub fn build(&mut self, name: String, parsed: Result<Json, String>) -> (event: Event)
        ensures
            event.name == name,
            match parsed {
                Ok(payload) => event.payload == payload && final(self).last_error == old(
                    self,
                ).last_error,
                Err(error) => event.payload is Null && final(self).last_error == Some(error),
            },
    {
        match parsed {
            Ok(payload) => Event { name, payload },
            Err(error) => {
                self.last_error = Some(error);
                Event { name, payload: Json::Null }
            },
        }
    }

    /// Notes whether the host received the event.
    pub fn report(&mut self, delivered: bool)
        ensures
            if delivered {
                final(self).last_error == old(self).last_error
            } else {
                final(self).last_error matches Some(error) && error@
                    == "sendEvent receiver was dropped"@
            },
    {
        if !delivered {
            self.last_error = Some("sendEvent receiver was dropped".to_owned());
        }
    }

    /// Returns and clears the error of the last send.
    pub fn take_send_event_error(&mut self) -> (error: Option<String>)
        ensures
            error == old(self).last_error,
            final(self).last_error is None,
    {
        self.last_error.take()
    }
}

/// The error for a payload that is too large gives its size and the limit, both in
/// decimal digits.
pub proof fn large_payloads_are_named(size: nat)
    ensures
        too_large_text(size) == "sendEvent payload too large: "@ + crate::text::decimal(size)
            + " bytes (max "@ + crate::text::decimal(262_144) + ")"@,
{
}

} // verus!
