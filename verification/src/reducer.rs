//! From low-level events to actions: one pass over the events that follows a
//! single finger, pairs each touch-down with the touch-up that ends it, and
//! tells a tap from a swipe by how far and how long the finger went.

use crate::input::{Input, InputWithTimestamp, Key, Swipe, Tap};
use crate::input_event::{InputEvent, InputEventInfo, TouchType};
use vstd::prelude::*;

verus! {

/// Milliseconds from `from` to `to` on a clock of 32 bits: their difference
/// where `to` is not the earlier, and the difference modulo 2^32 where it is.
pub open spec fn elapsed(from: u32, to: u32) -> u32 {
    if to >= from {
        (to - from) as u32
    } else {
        (to - from + 0x1_0000_0000) as u32
    }
}

/// The distance between two points, along the axes.
pub open spec fn distance(x0: i32, y0: i32, x1: i32, y1: i32) -> nat {
    (if x1 >= x0 {
        x1 - x0
    } else {
        x0 - x1
    } + if y1 >= y0 {
        y1 - y0
    } else {
        y0 - y1
    }) as nat
}

/// Where and when the finger went down.
#[derive(Clone, Copy, Debug, PartialEq, Eq)]
pub struct DownInput {
    pub x: i32,
    pub y: i32,
    pub time: u32,
}

/// What the pass remembers between two events.
#[derive(Clone, Copy, Debug, PartialEq, Eq)]
pub struct Tracking {
    /// Whether the events that come now speak of slot 0.
    pub is_slot_0_active: bool,
    /// The touch-down that no touch-up has ended yet.
    pub down: Option<DownInput>,
    pub last_x: i32,
    pub last_y: i32,
}

/// The action that a touch makes which went down at `down` and came up at
/// (`x`, `y`) at the time `time`: a swipe where it moved further than
/// `tap_distance` or lasted longer than `tap_ms`, else a tap.
pub open spec fn classify(
    down: DownInput,
    x: i32,
    y: i32,
    time: u32,
    tap_distance: u32,
    tap_ms: u32,
) -> Input {
    if distance(down.x, down.y, x, y) > tap_distance || elapsed(down.time, time) > tap_ms {
        Input::Swipe(
            Swipe { x: [down.x, x], y: [down.y, y], milliseconds: elapsed(down.time, time) },
        )
    } else {
        Input::Tap(Tap { x: down.x, y: down.y })
    }
}

impl Tracking {
    /// Before the first event: slot 0 taken as active, no touch, the finger
    /// at the origin.
    pub open spec fn start() -> Tracking {
        Tracking { is_slot_0_active: true, down: None, last_x: 0, last_y: 0 }
    }

    /// What is remembered after `event`, which came `time` milliseconds
    /// after the first.
    pub open spec fn after(self, event: InputEvent, time: u32) -> Tracking {
        match event {
            InputEvent::AbsMtSlot(slot) => Tracking { is_slot_0_active: slot == 0, ..self },
            InputEvent::AbsMtPosX(x) => if self.is_slot_0_active {
                Tracking { last_x: x, ..self }
            } else {
                self
            },
            InputEvent::AbsMtPosY(y) => if self.is_slot_0_active {
                Tracking { last_y: y, ..self }
            } else {
                self
            },
            InputEvent::BtnTouch(TouchType::Down) => if self.is_slot_0_active && self.down is None {
                Tracking {
                    down: Some(DownInput { x: self.last_x, y: self.last_y, time }),
                    ..self
                }
            } else {
                self
            },
            InputEvent::BtnTouch(TouchType::Up) => if self.is_slot_0_active {
                Tracking { down: None, ..self }
            } else {
                self
            },
            _ => self,
        }
    }

    /// The action that `event` completes, if it completes one: a touch-up on
    /// slot 0 ends the touch that is down, and a power key that goes down is
    /// an action by itself.
    pub open spec fn emits(
        self,
        event: InputEvent,
        time: u32,
        tap_distance: u32,
        tap_ms: u32,
    ) -> Option<InputWithTimestamp> {
        match event {
            InputEvent::BtnTouch(TouchType::Up) => if self.is_slot_0_active && self.down is Some {
                Some(
                    InputWithTimestamp {
                        input: classify(
                            self.down->0,
                            self.last_x,
                            self.last_y,
                            time,
                            tap_distance,
                            tap_ms,
                        ),
                        timestamp_milliseconds: self.down->0.time,
                    },
                )
            } else {
                None
            },
            InputEvent::KeyPower(TouchType::Down) => Some(
                InputWithTimestamp { input: Input::Key(Key::Power), timestamp_milliseconds: time },
            ),
            _ => None,
        }
    }

    pub fn new() -> (r: Tracking)
        ensures
            r == Tracking::start(),
    {
        Tracking { is_slot_0_active: true, down: None, last_x: 0, last_y: 0 }
    }

    /// Takes in one event, which came `time` milliseconds after the first.
    pub fn advance(&mut self, event: InputEvent, time: u32, tap_distance: u32, tap_ms: u32) -> (r:
        Option<InputWithTimestamp>)
        ensures
            *final(self) == old(self).after(event, time),
            r == old(self).emits(event, time, tap_distance, tap_ms),
    {
        match event {
            InputEvent::AbsMtSlot(slot) => {
                self.is_slot_0_active = slot == 0;
                None
            },
            InputEvent::AbsMtPosX(x) => {
                if self.is_slot_0_active {
                    self.last_x = x;
                }
                None
            },
            InputEvent::AbsMtPosY(y) => {
                if self.is_slot_0_active {
                    self.last_y = y;
                }
                None
            },
            InputEvent::BtnTouch(TouchType::Down) => {
                if self.is_slot_0_active && self.down.is_none() {
                    self.down = Some(DownInput { x: self.last_x, y: self.last_y, time });
                }
                None
            },
            InputEvent::BtnTouch(TouchType::Up) => {
                if !self.is_slot_0_active {
                    return None;
                }
                let ended = self.down;
                self.down = None;
                match ended {
                    Some(down) => Some(
                        InputWithTimestamp {
                            input: release(
                                down,
                                self.last_x,
                                self.last_y,
                                time,
                                tap_distance,
                                tap_ms,
                            ),
                            timestamp_milliseconds: down.time,
                        },
                    ),
                    None => None,
                }
            },
            InputEvent::KeyPower(TouchType::Down) => Some(
                InputWithTimestamp { input: Input::Key(Key::Power), timestamp_milliseconds: time },
            ),
            _ => None,
        }
    }
}

/// Milliseconds from `from` to `to` on a clock of 32 bits.
pub fn elapsed_ms(from: u32, to: u32) -> (r: u32)
    ensures
        r == elapsed(from, to),
{
    if to >= from {
        to - from
    } else {
        (to as u64 + 0x1_0000_0000 - from as u64) as u32
    }
}

/// The action of a touch that went down at `down` and came up at (`x`, `y`)
/// at the time `time`.
pub fn release(down: DownInput, x: i32, y: i32, time: u32, tap_distance: u32, tap_ms: u32) -> (r:
    Input)
    ensures
        r == classify(down, x, y, time, tap_distance, tap_ms),
{
    let dx: i64 = if x >= down.x {
        x as i64 - down.x as i64
    } else {
        down.x as i64 - x as i64
    };
    let dy: i64 = if y >= down.y {
        y as i64 - down.y as i64
    } else {
        down.y as i64 - y as i64
    };
    let duration = elapsed_ms(down.time, time);
    if dx + dy > tap_distance as i64 || duration > tap_ms {
        Input::Swipe(Swipe { x: [down.x, x], y: [down.y, y], milliseconds: duration })
    } else {
        Input::Tap(Tap { x: down.x, y: down.y })
    }
}

/// `out` with the action at its end, where there is one.
pub open spec fn with_action(
    out: Seq<InputWithTimestamp>,
    action: Option<InputWithTimestamp>,
) -> Seq<InputWithTimestamp> {
    match action {
        Some(a) => out.push(a),
        None => out,
    }
}

/// What is remembered after the pass has gone from `start` over `events`,
/// the first event of the whole stream having come at `first`.
pub open spec fn tracking_after(start: Tracking, first: u32, events: Seq<InputEventInfo>) -> Tracking
    decreases events.len(),
{
    if events.len() == 0 {
        start
    } else {
        tracking_after(start, first, events.drop_last()).after(
            events.last().event,
            elapsed(first, events.last().timestamp_milliseconds),
        )
    }
}

/// The actions that the pass emits while it goes from `start` over
/// `events`, in the order in which they are completed.
pub open spec fn actions_from(
    start: Tracking,
    first: u32,
    events: Seq<InputEventInfo>,
    tap_distance: u32,
    tap_ms: u32,
) -> Seq<InputWithTimestamp>
    decreases events.len(),
{
    if events.len() == 0 {
        Seq::empty()
    } else {
        with_action(
            actions_from(start, first, events.drop_last(), tap_distance, tap_ms),
            tracking_after(start, first, events.drop_last()).emits(
                events.last().event,
                elapsed(first, events.last().timestamp_milliseconds),
                tap_distance,
                tap_ms,
            ),
        )
    }
}

/// The actions of a stream of events. Times count from the first event.
pub open spec fn reduced(events: Seq<InputEventInfo>, tap_distance: u32, tap_ms: u32) -> Seq<
    InputWithTimestamp,
> {
    if events.len() == 0 {
        Seq::empty()
    } else {
        actions_from(
            Tracking::start(),
            events[0].timestamp_milliseconds,
            events,
            tap_distance,
            tap_ms,
        )
    }
}

/// Reduces the events of a capture, in the order in which they came, to the
/// actions that they make.
pub fn convert_events_to_input(
    inputs: &[InputEventInfo],
    tap_threshold_distance: u32,
    tap_threshold_ms: u32,
) -> (result: Vec<InputWithTimestamp>)
    ensures
        result@ == reduced(inputs@, tap_threshold_distance, tap_threshold_ms),
{
    let mut result: Vec<InputWithTimestamp> = Vec::new();
    if inputs.len() == 0 {
        return result;
    }
    let first_time_stamp = inputs[0].timestamp_milliseconds;
    let mut state = Tracking::new();
    let mut i: usize = 0;
    assert(inputs@.take(0) =~= Seq::<InputEventInfo>::empty());
    while i < inputs.len()
        invariant
            i <= inputs.len(),
            state == tracking_after(Tracking::start(), first_time_stamp, inputs@.take(i as int)),
            result@ == actions_from(
                Tracking::start(),
                first_time_stamp,
                inputs@.take(i as int),
                tap_threshold_distance,
                tap_threshold_ms,
            ),
        decreases inputs.len() - i,
    {
        proof {
            assert(inputs@.take(i + 1).drop_last() =~= inputs@.take(i as int));
            assert(inputs@.take(i + 1).last() == inputs@[i as int]);
        }
        let e = inputs[i];
        let relative_time_stamp = elapsed_ms(first_time_stamp, e.timestamp_milliseconds);
        match state.advance(e.event, relative_time_stamp, tap_threshold_distance, tap_threshold_ms) {
            Some(action) => {
                result.push(action);
            },
            None => {},
        }
        i += 1;
    }
    assert(inputs@.take(i as int) =~= inputs@);
    result
}

} // verus!
