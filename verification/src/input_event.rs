//! The low-level events that a device reports, as the capture stream names them.

use crate::number::{append_decimal, append_signed, decimal, signed_decimal};
use vstd::prelude::*;
use vstd::string::StringExecFns;

verus! {

/// One event of the capture stream with the time and the stream it came at.
#[derive(Clone, Copy, Debug, PartialEq, Eq)]
pub struct InputEventInfo {
    pub timestamp_milliseconds: u32,
    pub event_nr: i32,
    pub event: InputEvent,
}

#[derive(Clone, Copy, Debug, PartialEq, Eq)]
pub enum InputEvent {
    BtnTouch(TouchType),
    AbsMtTrackingId(i32),
    AbsMtSlot(i32),
    AbsMtPosX(i32),
    AbsMtPosY(i32),
    KeyPower(TouchType),
}

#[derive(Clone, Copy, Debug, PartialEq, Eq)]
pub enum TouchType {
    Up,
    Down,
}

impl TouchType {
    /// The text shown for a transition.
    pub open spec fn text(self) -> Seq<char> {
        match self {
            TouchType::Up => "up"@,
            TouchType::Down => "down"@,
        }
    }

    pub fn to_string(&self) -> (r: String)
        ensures
            r@ == self.text(),
    {
        match self {
            TouchType::Up => String::from_str("up"),
            TouchType::Down => String::from_str("down"),
        }
    }
}

impl InputEvent {
    /// The text shown for an event: its kind, and its value in brackets.
    pub open spec fn text(self) -> Seq<char> {
        match self {
            InputEvent::BtnTouch(t) => "Touch ("@ + t.text() + ")"@,
            InputEvent::AbsMtTrackingId(i) => "TrackId("@ + signed_decimal(i as int) + ")"@,
            InputEvent::AbsMtSlot(i) => "Slot("@ + signed_decimal(i as int) + ")"@,
            InputEvent::AbsMtPosX(d) => "PosX("@ + signed_decimal(d as int) + ")"@,
            InputEvent::AbsMtPosY(d) => "PosY("@ + signed_decimal(d as int) + ")"@,
            InputEvent::KeyPower(t) => "Power ("@ + t.text() + ")"@,
        }
    }

    pub fn to_string(&self) -> (r: String)
        ensures
            r@ == self.text(),
    {
        let mut out = String::new();
        match self {
            InputEvent::BtnTouch(t) => {
                out.append("Touch (");
                out.append(t.to_string().as_str());
            },
            InputEvent::AbsMtTrackingId(i) => {
                out.append("TrackId(");
                append_signed(&mut out, *i as i64);
            },
            InputEvent::AbsMtSlot(i) => {
                out.append("Slot(");
                append_signed(&mut out, *i as i64);
            },
            InputEvent::AbsMtPosX(d) => {
                out.append("PosX(");
                append_signed(&mut out, *d as i64);
            },
            InputEvent::AbsMtPosY(d) => {
                out.append("PosY(");
                append_signed(&mut out, *d as i64);
            },
            InputEvent::KeyPower(t) => {
                out.append("Power (");
                out.append(t.to_string().as_str());
            },
        }
        out.append(")");
        assert(out@ =~= self.text());
        out
    }
}

impl InputEventInfo {
    /// The text shown for a captured event: time, stream and event.
    pub open spec fn text(self) -> Seq<char> {
        "["@ + decimal(self.timestamp_milliseconds as nat) + "] ev"@ + signed_decimal(
            self.event_nr as int,
        ) + " - "@ + self.event.text()
    }

    pub fn to_string(&self) -> (r: String)
        ensures
            r@ == self.text(),
    {
        let mut out = String::new();
        out.append("[");
        append_decimal(&mut out, self.timestamp_milliseconds as u64);
        out.append("] ev");
        append_signed(&mut out, self.event_nr as i64);
        out.append(" - ");
        out.append(self.event.to_string().as_str());
        assert(out@ =~= self.text());
        out
    }
}

} // verus!
