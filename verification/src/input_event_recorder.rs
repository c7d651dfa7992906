//! Recording: what the background activity makes of each line it reads, and
//! what the controller answers to its owner while the activity runs and once
//! it has ended.

use crate::channel::{poll_once, poll_queue, send_signal, Polled};
use crate::device_entry::{DeviceEntry, DeviceEntryView};
use crate::input::InputWithTimestamp;
use crate::input_event::{InputEvent, InputEventInfo};
use crate::input_event_parser::{
    event_of, input_of, is_known_sub_type, record_of, DeviceWithEvent, LineRecord,
    ParsedGetEventOutput,
};
use crate::reducer::{convert_events_to_input, reduced};
use crate::text::{tokens, Whitespace};
use tokio::sync::mpsc::UnboundedReceiver;
use tokio::sync::oneshot;
use vstd::prelude::*;
use vstd::string::StringExecFns;

verus! {

/// Why no status was read.
#[derive(Clone, Copy, Debug, PartialEq, Eq)]
pub enum ReadNextStatusError {
    /// Nothing has been published since the last read.
    Empty,
    /// The background activity has ended and everything was read.
    Finished,
}

/// Why no result was handed out.
#[derive(Clone, Copy, Debug, PartialEq, Eq)]
pub enum GetResultError {
    NotYetAvailable,
    AlreadyReceived,
    InternalError,
}

/// Why reading the capture stream ended early.
#[derive(Clone, Copy, Debug, PartialEq, Eq)]
pub enum ReadEventsError {
    ProcessAborted,
    ParseError,
}

/// What the background activity publishes.
#[derive(Clone, Copy, Debug, PartialEq, Eq)]
pub enum StatusMessage {
    RecordedInput(InputEventInfo),
    RecordingFinished,
}

/// What has been gathered from the lines read so far.
pub struct Capture {
    /// The device that was announced last and has no name yet.
    pub last_device_with_event: Option<DeviceWithEvent>,
    pub devices: Vec<DeviceEntry>,
    pub inputs: Vec<InputEventInfo>,
}

/// A capture as plain values.
pub struct CaptureModel {
    pub last_device_with_event: Option<DeviceWithEvent>,
    pub devices: Seq<DeviceEntryView>,
    pub inputs: Seq<InputEventInfo>,
}

impl View for Capture {
    type V = CaptureModel;

    open spec fn view(&self) -> CaptureModel {
        CaptureModel {
            last_device_with_event: self.last_device_with_event,
            devices: Seq::new(self.devices@.len(), |i: int| self.devices@[i]@),
            inputs: self.inputs@,
        }
    }
}

impl CaptureModel {
    /// Nothing gathered.
    pub open spec fn empty() -> CaptureModel {
        CaptureModel { last_device_with_event: None, devices: Seq::empty(), inputs: Seq::empty() }
    }

    /// The capture after one more line. An announced device waits for its
    /// name; a name completes the device that waits, and is dropped where
    /// none does; an event is added to the events. A line that says nothing,
    /// or is malformed, leaves the capture as it is.
    pub open spec fn after(self, record: Result<Option<LineRecord>, ()>) -> CaptureModel {
        match record {
            Ok(Some(LineRecord::AddDevice(device))) => CaptureModel {
                last_device_with_event: Some(device),
                ..self
            },
            Ok(Some(LineRecord::Name(name))) => match self.last_device_with_event {
                Some(device) => CaptureModel {
                    last_device_with_event: None,
                    devices: self.devices.push(
                        DeviceEntryView {
                            device_nr: device.device_nr,
                            event_nr: device.event_nr,
                            name,
                        },
                    ),
                    ..self
                },
                None => self,
            },
            Ok(Some(LineRecord::Input(event))) => CaptureModel {
                inputs: self.inputs.push(event),
                ..self
            },
            _ => self,
        }
    }
}

/// What is published for a line: the event that it reports, if it reports one.
pub open spec fn notice_of(record: Result<Option<LineRecord>, ()>) -> Option<StatusMessage> {
    match record {
        Ok(Some(LineRecord::Input(event))) => Some(StatusMessage::RecordedInput(event)),
        _ => None,
    }
}

/// The capture that `start` becomes by a run of lines, read in order.
pub open spec fn capture_after(start: CaptureModel, lines: Seq<Seq<char>>) -> CaptureModel
    decreases lines.len(),
{
    if lines.len() == 0 {
        start
    } else {
        capture_after(start, lines.drop_last()).after(record_of(lines.last()))
    }
}

/// The capture that a run of lines leaves, read in order from nothing.
pub open spec fn capture_of(lines: Seq<Seq<char>>) -> CaptureModel {
    capture_after(CaptureModel::empty(), lines)
}

/// A run of lines read in two parts leaves what the second part makes of
/// what the first part left.
pub proof fn lemma_capture_in_two_parts(start: CaptureModel, a: Seq<Seq<char>>, b: Seq<Seq<char>>)
    ensures
        capture_after(start, a + b) == capture_after(capture_after(start, a), b),
    decreases b.len(),
{
    if b.len() == 0 {
        assert(a + b =~= a);
    } else {
        assert((a + b).drop_last() =~= a + b.drop_last());
        assert((a + b).last() == b.last());
        lemma_capture_in_two_parts(start, a, b.drop_last());
    }
}

/// A line that says nothing, or that cannot be read, is passed over: the
/// capture is what it would be without the line, and so are the events in
/// it, their number and their order, and the actions that they make.
pub proof fn lemma_skipped_line_changes_nothing(
    before: Seq<Seq<char>>,
    line: Seq<char>,
    after: Seq<Seq<char>>,
)
    requires
        record_of(line) is Err || record_of(line) == Ok::<Option<LineRecord>, ()>(None),
    ensures
        capture_of(before.push(line) + after) == capture_of(before + after),
{
    let start = CaptureModel::empty();
    assert(before.push(line).drop_last() =~= before);
    assert(before.push(line).last() == line);
    lemma_capture_in_two_parts(start, before.push(line), after);
    lemma_capture_in_two_parts(start, before, after);
}

/// The report of an event whose sub-type is outside the table, such as a
/// synchronisation report, is passed over, whatever its other fields are.
pub proof fn lemma_unknown_sub_type_is_skipped(line: Seq<char>)
    requires
        tokens(Whitespace::Ascii, line).len() >= 5,
        tokens(Whitespace::Ascii, line)[0] == "["@,
        !is_known_sub_type(tokens(Whitespace::Ascii, line)[4]),
    ensures
        record_of(line) is Err || record_of(line) == Ok::<Option<LineRecord>, ()>(None),
{
    reveal_strlit("[");
    reveal_strlit("add");
    reveal_strlit("name:");
    let t = tokens(Whitespace::Ascii, line);
    assert("["@.len() == 1 && "add"@.len() == 3 && "name:"@.len() == 5);
    assert(record_of(line) == input_of(t));
    if t.len() >= 6 {
        assert(event_of(t[4], t[5]) == Ok::<Option<InputEvent>, ()>(None));
    }
}

/// The result of a recording: the actions of the events that were captured,
/// or nothing where the capture stream could not be read to its end.
pub open spec fn recording_result(
    capture: CaptureModel,
    read: Result<(), ReadEventsError>,
    tap_threshold_distance: u32,
    tap_threshold_ms: u32,
) -> Option<Seq<InputWithTimestamp>> {
    match read {
        Ok(_) => Some(reduced(capture.inputs, tap_threshold_distance, tap_threshold_ms)),
        Err(_) => None,
    }
}

impl Capture {
    /// A capture that has read nothing yet.
    pub fn new() -> (r: Capture)
        ensures
            r@ == CaptureModel::empty(),
    {
        let r = Capture { last_device_with_event: None, devices: Vec::new(), inputs: Vec::new() };
        assert(r@.devices =~= Seq::empty());
        r
    }

    /// Takes in one line of the capture stream and says what is to be
    /// published for it. No line ends the capture: one that cannot be read is
    /// passed over.
    pub fn record_line(&mut self, line: &str) -> (notice: Option<StatusMessage>)
        ensures
            final(self)@ == old(self)@.after(record_of(line@)),
            notice == notice_of(record_of(line@)),
    {
        match ParsedGetEventOutput::try_from_str(line) {
            Ok(Some(ParsedGetEventOutput::AddDevice(device))) => {
                self.last_device_with_event = Some(device);
                assert(self@.devices =~= old(self)@.devices);
                None
            },
            Ok(Some(ParsedGetEventOutput::Name(name))) => {
                match self.last_device_with_event {
                    Some(device) => {
                        self.last_device_with_event = None;
                        self.devices.push(
                            DeviceEntry {
                                device_nr: device.device_nr,
                                event_nr: device.event_nr,
                                name: String::from_str(name),
                            },
                        );
                        assert(self@.devices =~= old(self)@.devices.push(
                            DeviceEntryView {
                                device_nr: device.device_nr,
                                event_nr: device.event_nr,
                                name: name@,
                            },
                        ));
                    },
                    None => {},
                }
                None
            },
            Ok(Some(ParsedGetEventOutput::Input(event))) => {
                self.inputs.push(event);
                assert(self@.devices =~= old(self)@.devices);
                Some(StatusMessage::RecordedInput(event))
            },
            Ok(None) => None,
            Err(_) => None,
        }
    }

    /// Ends the capture. `read` says how reading the stream ended: where it
    /// came to the end of the stream, the events gathered are reduced to
    /// actions, however few they are; where reading failed there is no result.
    pub fn finish(
        &self,
        read: Result<(), ReadEventsError>,
        tap_threshold_distance: u32,
        tap_threshold_ms: u32,
    ) -> (r: Option<Vec<InputWithTimestamp>>)
        ensures
            match recording_result(self@, read, tap_threshold_distance, tap_threshold_ms) {
                Some(actions) => r is Some && r->0@ == actions,
                None => r is None,
            },
    {
        match read {
            Ok(_) => Some(
                convert_events_to_input(
                    self.inputs.as_slice(),
                    tap_threshold_distance,
                    tap_threshold_ms,
                ),
            ),
            Err(_) => None,
        }
    }
}

/// Where a recording stands. A recorder exists from the moment its capture
/// is launched, so it begins as `Running`.
#[derive(Clone, Copy, Debug, PartialEq, Eq)]
pub enum RecorderPhase {
    /// The capture runs.
    Running,
    /// The capture was told to end and its result is awaited.
    Stopping,
    /// The background activity has ended.
    Done,
}

/// What the owner is told about the next status, given what a look into the
/// status channel found.
pub open spec fn status_answer(polled: Polled<StatusMessage>) -> Result<
    StatusMessage,
    ReadNextStatusError,
> {
    match polled {
        Polled::Ready(status) => Ok(status),
        Polled::Empty => Err(ReadNextStatusError::Empty),
        Polled::Closed => Err(ReadNextStatusError::Finished),
    }
}

/// What the owner is told about the result, given what a look into the
/// result channel found: the actions, that they are not there yet, or that
/// the recording has none to give.
pub open spec fn result_answer(polled: Polled<Option<Vec<InputWithTimestamp>>>) -> Result<
    Vec<InputWithTimestamp>,
    GetResultError,
> {
    match polled {
        Polled::Ready(Some(actions)) => Ok(actions),
        Polled::Ready(None) => Err(GetResultError::InternalError),
        Polled::Empty => Err(GetResultError::NotYetAvailable),
        Polled::Closed => Err(GetResultError::InternalError),
    }
}

/// The answer to the owner for what a look into the status channel found.
pub fn answer_status(polled: Polled<StatusMessage>) -> (r: Result<
    StatusMessage,
    ReadNextStatusError,
>)
    ensures
        r == status_answer(polled),
{
    match polled {
        Polled::Ready(status) => Ok(status),
        Polled::Empty => Err(ReadNextStatusError::Empty),
        Polled::Closed => Err(ReadNextStatusError::Finished),
    }
}

/// The answer to the owner for what a look into the result channel found.
pub fn answer_result(polled: Polled<Option<Vec<InputWithTimestamp>>>) -> (r: Result<
    Vec<InputWithTimestamp>,
    GetResultError,
>)
    ensures
        r == result_answer(polled),
{
    match polled {
        Polled::Ready(Some(actions)) => Ok(actions),
        Polled::Ready(None) => Err(GetResultError::InternalError),
        Polled::Empty => Err(GetResultError::NotYetAvailable),
        Polled::Closed => Err(GetResultError::InternalError),
    }
}

/// The controller of a recording: the owner's end of the three channels that
/// lead to the background activity.
pub struct InputRecorder {
    status_recv: UnboundedReceiver<StatusMessage>,
    /// Gone once the capture has been told to end.
    process_kill_send: Option<oneshot::Sender<()>>,
    /// Gone once the result has been handed out.
    result_recv: Option<oneshot::Receiver<Option<Vec<InputWithTimestamp>>>>,
    /// Whether a look into the result channel has shown that the background
    /// activity has ended.
    ended: bool,
}

impl InputRecorder {
    /// Where the recording stands.
    pub closed spec fn phase(&self) -> RecorderPhase {
        if self.ended {
            RecorderPhase::Done
        } else if self.process_kill_send is Some {
            RecorderPhase::Running
        } else {
            RecorderPhase::Stopping
        }
    }

    /// Whether the one result has been taken out of its channel.
    pub closed spec fn result_received(&self) -> bool {
        self.result_recv is None
    }

    /// The controller of a capture that has just been launched. The
    /// background activity holds the other ends of the three channels.
    pub fn new(
        status_recv: UnboundedReceiver<StatusMessage>,
        process_kill_send: oneshot::Sender<()>,
        result_recv: oneshot::Receiver<Option<Vec<InputWithTimestamp>>>,
    ) -> (r: InputRecorder)
        ensures
            r.phase() is Running,
            !r.result_received(),
    {
        InputRecorder {
            status_recv,
            process_kill_send: Some(process_kill_send),
            result_recv: Some(result_recv),
            ended: false,
        }
    }

    /// Asks the recording to end. The first call while the capture runs sends
    /// the signal, and does not wait for the capture to end; every other call
    /// changes nothing.
    pub fn stop(&mut self)
        ensures
            final(self).phase() == if old(self).phase() is Running {
                RecorderPhase::Stopping
            } else {
                old(self).phase()
            },
            final(self).result_received() == old(self).result_received(),
        opens_invariants none
        no_unwind
    {
        let mut killer: Option<oneshot::Sender<()>> = None;
        core::mem::swap(&mut self.process_kill_send, &mut killer);
        match killer {
            Some(killer) => {
                let _ = send_signal(killer);
            },
            None => {},
        }
    }

    /// Whether the capture runs and has not been asked to end.
    pub fn is_running(&self) -> (r: bool)
        ensures
            r == (self.phase() is Running),
    {
        !self.ended && self.process_kill_send.is_some()
    }

    /// The next status that the background activity has published, if there
    /// is one. Never waits, and leaves the recording where it stands.
    pub fn read_next_status(&mut self) -> (r: Result<StatusMessage, ReadNextStatusError>)
        ensures
            final(self).phase() == old(self).phase(),
            final(self).result_received() == old(self).result_received(),
    {
        answer_status(poll_queue(&mut self.status_recv))
    }

    /// Takes note of what a look into the result channel found, and gives
    /// the answer to the owner. Once the result has been received the answer
    /// is `AlreadyReceived` and nothing changes, whatever was found. Before
    /// that the answer is that of `result_answer`; a look that found a
    /// result, good or failed, marks it as received, and one that found a
    /// result or the channel closed shows that the background activity has
    /// ended.
    pub fn receive_result(&mut self, polled: Polled<Option<Vec<InputWithTimestamp>>>) -> (r: Result<
        Vec<InputWithTimestamp>,
        GetResultError,
    >)
        ensures
            r == if old(self).result_received() {
                Err::<Vec<InputWithTimestamp>, GetResultError>(GetResultError::AlreadyReceived)
            } else {
                result_answer(polled)
            },
            final(self).result_received() == (old(self).result_received() || polled is Ready),
            final(self).phase() == if !old(self).result_received() && !(polled is Empty) {
                RecorderPhase::Done
            } else {
                old(self).phase()
            },
    {
        if self.result_recv.is_none() {
            return Err(GetResultError::AlreadyReceived);
        }
        match polled {
            Polled::Ready(_) => {
                self.result_recv = None;
                self.ended = true;
            },
            Polled::Closed => {
                self.ended = true;
            },
            Polled::Empty => {},
        }
        answer_result(polled)
    }

    /// The result of the recording, once: a look into the result channel,
    /// and what `receive_result` makes of it. Before the result is there the
    /// answer is `NotYetAvailable` and nothing changes. When it is there it
    /// is handed out, or `InternalError` where the recording failed, and from
    /// then on every call says `AlreadyReceived`. `InternalError` is also the
    /// answer where the background activity ended without giving a result.
    pub fn try_get_result(&mut self) -> (r: Result<Vec<InputWithTimestamp>, GetResultError>)
        ensures
            (r == Err::<Vec<InputWithTimestamp>, GetResultError>(GetResultError::AlreadyReceived))
                == old(self).result_received(),
            r is Ok ==> final(self).result_received(),
            r is Ok || r == Err::<Vec<InputWithTimestamp>, GetResultError>(
                GetResultError::InternalError,
            ) ==> final(self).phase() is Done,
            old(self).result_received() || r == Err::<Vec<InputWithTimestamp>, GetResultError>(
                GetResultError::NotYetAvailable,
            ) ==> final(self).phase() == old(self).phase() && final(self).result_received()
                == old(self).result_received(),
    {
        let polled = match &mut self.result_recv {
            Some(receiver) => poll_once(receiver),
            None => Polled::Closed,
        };
        self.receive_result(polled)
    }
}

impl Drop for InputRecorder {
    /// A recorder that is let go while its capture runs asks it to end.
    fn drop(&mut self)
        opens_invariants none
        no_unwind
    {
        self.stop();
    }
}

/// What the owner makes of an answer about the result: the actions once
/// they are there, nothing yet while they are awaited, and a failure where
/// the recording has none to give or gave them before.
pub open spec fn progress_of(answer: Result<Vec<InputWithTimestamp>, GetResultError>) -> Result<
    Option<Vec<InputWithTimestamp>>,
    (),
> {
    match answer {
        Ok(actions) => Ok(Some(actions)),
        Err(GetResultError::NotYetAvailable) => Ok(None),
        Err(GetResultError::AlreadyReceived) => Err(()),
        Err(GetResultError::InternalError) => Err(()),
    }
}

/// Tells a recording that is still awaited from one that has ended, well or
/// badly.
pub fn recording_progress(answer: Result<Vec<InputWithTimestamp>, GetResultError>) -> (r: Result<
    Option<Vec<InputWithTimestamp>>,
    (),
>)
    ensures
        r == progress_of(answer),
{
    match answer {
        Ok(actions) => Ok(Some(actions)),
        Err(GetResultError::NotYetAvailable) => Ok(None),
        Err(GetResultError::AlreadyReceived) => Err(()),
        Err(GetResultError::InternalError) => Err(()),
    }
}

} // verus!
