//! What holds of every reduction, whatever the events are.

use crate::input::{Input, InputWithTimestamp, Key};
use crate::input_event::{InputEvent, InputEventInfo, TouchType};
use crate::reducer::{
    actions_from, classify, distance, elapsed, reduced, tracking_after, with_action, DownInput,
    Tracking,
};
use vstd::prelude::*;

verus! {

/// A pass over two runs of events is a pass over the first, and from where
/// that ended a pass over the second.
pub proof fn lemma_pass_in_two_parts(
    start: Tracking,
    first: u32,
    a: Seq<InputEventInfo>,
    b: Seq<InputEventInfo>,
    tap_distance: u32,
    tap_ms: u32,
)
    ensures
        tracking_after(start, first, a + b) == tracking_after(
            tracking_after(start, first, a),
            first,
            b,
        ),
        actions_from(start, first, a + b, tap_distance, tap_ms) == actions_from(
            start,
            first,
            a,
            tap_distance,
            tap_ms,
        ) + actions_from(tracking_after(start, first, a), first, b, tap_distance, tap_ms),
    decreases b.len(),
{
    let middle = tracking_after(start, first, a);
    if b.len() == 0 {
        assert(a + b =~= a);
        assert(actions_from(start, first, a, tap_distance, tap_ms) + Seq::<
            InputWithTimestamp,
        >::empty() =~= actions_from(start, first, a, tap_distance, tap_ms));
    } else {
        lemma_pass_in_two_parts(start, first, a, b.drop_last(), tap_distance, tap_ms);
        assert((a + b).drop_last() =~= a + b.drop_last());
        assert((a + b).last() == b.last());
        let head = actions_from(start, first, a, tap_distance, tap_ms);
        let tail = actions_from(middle, first, b.drop_last(), tap_distance, tap_ms);
        let action = tracking_after(middle, first, b.drop_last()).emits(
            b.last().event,
            elapsed(first, b.last().timestamp_milliseconds),
            tap_distance,
            tap_ms,
        );
        assert(with_action(head + tail, action) =~= head + with_action(tail, action));
    }
}

/// Whether `event`, coming at `time`, neither changes what is remembered nor
/// completes an action.
pub open spec fn is_ignored(
    state: Tracking,
    event: InputEvent,
    time: u32,
    tap_distance: u32,
    tap_ms: u32,
) -> bool {
    state.after(event, time) == state && state.emits(event, time, tap_distance, tap_ms) is None
}

/// An event that is ignored where it stands can be taken out of the stream,
/// unless it is the first: the actions stay the same, in number, order and
/// content.
pub proof fn lemma_ignored_event_changes_nothing(
    before: Seq<InputEventInfo>,
    event: InputEventInfo,
    after: Seq<InputEventInfo>,
    tap_distance: u32,
    tap_ms: u32,
)
    requires
        before.len() > 0,
        is_ignored(
            tracking_after(Tracking::start(), before[0].timestamp_milliseconds, before),
            event.event,
            elapsed(before[0].timestamp_milliseconds, event.timestamp_milliseconds),
            tap_distance,
            tap_ms,
        ),
    ensures
        reduced(before.push(event) + after, tap_distance, tap_ms) == reduced(
            before + after,
            tap_distance,
            tap_ms,
        ),
{
    let first = before[0].timestamp_milliseconds;
    let start = Tracking::start();
    let with = before.push(event);
    assert((with + after)[0] == before[0]);
    assert((before + after)[0] == before[0]);
    assert(with.drop_last() =~= before);
    assert(with.last() == event);
    lemma_pass_in_two_parts(start, first, with, after, tap_distance, tap_ms);
    lemma_pass_in_two_parts(start, first, before, after, tap_distance, tap_ms);
}

/// Positions that arrive while another slot than slot 0 is active do not
/// reach the result.
pub proof fn lemma_other_slots_are_ignored(
    before: Seq<InputEventInfo>,
    event: InputEventInfo,
    after: Seq<InputEventInfo>,
    tap_distance: u32,
    tap_ms: u32,
)
    requires
        before.len() > 0,
        !tracking_after(
            Tracking::start(),
            before[0].timestamp_milliseconds,
            before,
        ).is_slot_0_active,
        event.event is AbsMtPosX || event.event is AbsMtPosY,
    ensures
        reduced(before.push(event) + after, tap_distance, tap_ms) == reduced(
            before + after,
            tap_distance,
            tap_ms,
        ),
{
    lemma_ignored_event_changes_nothing(before, event, after, tap_distance, tap_ms);
}

/// A power key that goes up, a tracking id, or a touch that goes down while
/// one is down already: none of them reaches the result.
pub proof fn lemma_idle_events_are_ignored(
    before: Seq<InputEventInfo>,
    event: InputEventInfo,
    after: Seq<InputEventInfo>,
    tap_distance: u32,
    tap_ms: u32,
)
    requires
        before.len() > 0,
        event.event == InputEvent::KeyPower(TouchType::Up) || event.event is AbsMtTrackingId || (
        event.event == InputEvent::BtnTouch(TouchType::Down) && tracking_after(
            Tracking::start(),
            before[0].timestamp_milliseconds,
            before,
        ).down is Some),
    ensures
        reduced(before.push(event) + after, tap_distance, tap_ms) == reduced(
            before + after,
            tap_distance,
            tap_ms,
        ),
{
    lemma_ignored_event_changes_nothing(before, event, after, tap_distance, tap_ms);
}

/// The time from which a stream that ends with `event` counts: that of its
/// first event.
pub open spec fn time_zero(before: Seq<InputEventInfo>, event: InputEventInfo) -> u32 {
    before.push(event)[0].timestamp_milliseconds
}

/// A power key that goes down is an action at once, whatever came before:
/// the key, at the time of the event counted from the first event.
pub proof fn lemma_power_key_down(
    before: Seq<InputEventInfo>,
    event: InputEventInfo,
    tap_distance: u32,
    tap_ms: u32,
)
    requires
        event.event == InputEvent::KeyPower(TouchType::Down),
    ensures
        reduced(before.push(event), tap_distance, tap_ms) == reduced(
            before,
            tap_distance,
            tap_ms,
        ).push(
            InputWithTimestamp {
                input: Input::Key(Key::Power),
                timestamp_milliseconds: elapsed(
                    time_zero(before, event),
                    event.timestamp_milliseconds,
                ),
            },
        ),
        event.timestamp_milliseconds >= time_zero(before, event) ==> elapsed(
            time_zero(before, event),
            event.timestamp_milliseconds,
        ) == event.timestamp_milliseconds - time_zero(before, event),
{
    let all = before.push(event);
    assert(all.drop_last() =~= before);
    assert(all.last() == event);
    if before.len() == 0 {
        assert(actions_from(
            Tracking::start(),
            event.timestamp_milliseconds,
            before,
            tap_distance,
            tap_ms,
        ) =~= Seq::<InputWithTimestamp>::empty());
    } else {
        assert(all[0] == before[0]);
    }
}

/// A power key that goes up is no action.
pub proof fn lemma_power_key_up(
    before: Seq<InputEventInfo>,
    event: InputEventInfo,
    tap_distance: u32,
    tap_ms: u32,
)
    requires
        event.event == InputEvent::KeyPower(TouchType::Up),
    ensures
        reduced(before.push(event), tap_distance, tap_ms) == reduced(before, tap_distance, tap_ms),
{
    let all = before.push(event);
    assert(all.drop_last() =~= before);
    assert(all.last() == event);
    if before.len() == 0 {
        assert(actions_from(
            Tracking::start(),
            event.timestamp_milliseconds,
            before,
            tap_distance,
            tap_ms,
        ) =~= Seq::<InputWithTimestamp>::empty());
    } else {
        assert(all[0] == before[0]);
    }
}

/// Whether `time` is the time of one of the events, counted from `first`.
pub open spec fn is_time_of_event(time: u32, first: u32, events: Seq<InputEventInfo>) -> bool {
    exists|k: int|
        0 <= k < events.len() && time == elapsed(first, (#[trigger] events[k]).timestamp_milliseconds)
}

proof fn lemma_times_of_a_pass(
    first: u32,
    events: Seq<InputEventInfo>,
    tap_distance: u32,
    tap_ms: u32,
)
    ensures
        tracking_after(Tracking::start(), first, events).down is Some ==> is_time_of_event(
            tracking_after(Tracking::start(), first, events).down->0.time,
            first,
            events,
        ),
        forall|j: int|
            0 <= j < actions_from(Tracking::start(), first, events, tap_distance, tap_ms).len()
                ==> is_time_of_event(
                (#[trigger] actions_from(
                    Tracking::start(),
                    first,
                    events,
                    tap_distance,
                    tap_ms,
                )[j]).timestamp_milliseconds,
                first,
                events,
            ),
    decreases events.len(),
{
    if events.len() > 0 {
        let shorter = events.drop_last();
        let last = events.last();
        let time = elapsed(first, last.timestamp_milliseconds);
        lemma_times_of_a_pass(first, shorter, tap_distance, tap_ms);
        let state = tracking_after(Tracking::start(), first, shorter);
        let out = actions_from(Tracking::start(), first, shorter, tap_distance, tap_ms);
        let all = actions_from(Tracking::start(), first, events, tap_distance, tap_ms);
        assert(events[events.len() - 1] == last);
        assert(is_time_of_event(time, first, events));
        assert forall|t: u32| is_time_of_event(t, first, shorter) implies is_time_of_event(
            t,
            first,
            events,
        ) by {
            let k = choose|k: int|
                0 <= k < shorter.len() && t == elapsed(
                    first,
                    (#[trigger] shorter[k]).timestamp_milliseconds,
                );
            assert(events[k] == shorter[k]);
        }
        assert forall|j: int| 0 <= j < all.len() implies is_time_of_event(
            (#[trigger] all[j]).timestamp_milliseconds,
            first,
            events,
        ) by {
            if j < out.len() {
                assert(all[j] == out[j]);
            }
        }
    }
}

/// Times count from the first event: the first event itself is at time 0,
/// and the time of every action is the time of one of the events less the
/// time of the first.
pub proof fn lemma_times_count_from_first_event(
    events: Seq<InputEventInfo>,
    tap_distance: u32,
    tap_ms: u32,
)
    requires
        events.len() > 0,
    ensures
        elapsed(events[0].timestamp_milliseconds, events[0].timestamp_milliseconds) == 0,
        forall|j: int|
            0 <= j < reduced(events, tap_distance, tap_ms).len() ==> is_time_of_event(
                (#[trigger] reduced(events, tap_distance, tap_ms)[j]).timestamp_milliseconds,
                events[0].timestamp_milliseconds,
                events,
            ),
{
    lemma_times_of_a_pass(events[0].timestamp_milliseconds, events, tap_distance, tap_ms);
}

/// A touch is a tap exactly where it stays within both thresholds: one that
/// moved just `tap_distance` and lasted just `tap_ms` is still a tap.
pub proof fn lemma_tap_within_thresholds(
    down: DownInput,
    x: i32,
    y: i32,
    time: u32,
    tap_distance: u32,
    tap_ms: u32,
)
    ensures
        classify(down, x, y, time, tap_distance, tap_ms) is Tap <==> distance(down.x, down.y, x, y)
            <= tap_distance && elapsed(down.time, time) <= tap_ms,
        classify(down, x, y, time, tap_distance, tap_ms) is Swipe <==> distance(
            down.x,
            down.y,
            x,
            y,
        ) > tap_distance || elapsed(down.time, time) > tap_ms,
{
}

/// While a touch is down, a second touch-down changes nothing: the first
/// stays the one that the next touch-up ends.
pub proof fn lemma_first_down_wins(state: Tracking, time: u32)
    requires
        state.down is Some,
    ensures
        state.after(InputEvent::BtnTouch(TouchType::Down), time) == state,
{
}

} // verus!
