//! Reduction of a device's raw input-event stream to taps, swipes and key
//! presses, the text format in which such a recording is kept, and the
//! two controllers that record and replay it.

pub mod channel;
pub mod device_entry;
pub mod input;
pub mod input_event;
pub mod input_event_parser;
pub mod input_event_recorder;
pub mod input_player;
pub mod number;
pub mod playback_laws;
pub mod recording_laws;
pub mod reducer;
pub mod reducer_laws;
pub mod text;
