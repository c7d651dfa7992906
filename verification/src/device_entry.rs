//! The devices that a capture stream announces.

use vstd::prelude::*;

verus! {

/// A device of the capture stream: its number, the event stream it writes
/// to, and its name. Kept for diagnostics; no action depends on it.
#[derive(Debug, PartialEq, Eq)]
pub struct DeviceEntry {
    pub device_nr: i32,
    pub event_nr: i32,
    pub name: String,
}

/// A device entry, its name as the characters it is made of.
pub struct DeviceEntryView {
    pub device_nr: i32,
    pub event_nr: i32,
    pub name: Seq<char>,
}

impl View for DeviceEntry {
    type V = DeviceEntryView;

    open spec fn view(&self) -> DeviceEntryView {
        DeviceEntryView { device_nr: self.device_nr, event_nr: self.event_nr, name: self.name@ }
    }
}

} // verus!
