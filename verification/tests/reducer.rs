use android_input_replayer::input::{Input, InputWithTimestamp, Key, Swipe, Tap};
use android_input_replayer::input_event::{InputEvent, InputEventInfo, TouchType};
use android_input_replayer::reducer::{
    convert_events_to_input, elapsed_ms, release, DownInput, Tracking,
};

fn at(t: u32, event: InputEvent) -> InputEventInfo {
    InputEventInfo { timestamp_milliseconds: t, event_nr: 3, event }
}

fn down() -> InputEvent {
    InputEvent::BtnTouch(TouchType::Down)
}

fn up() -> InputEvent {
    InputEvent::BtnTouch(TouchType::Up)
}

fn tap(t: u32, x: i32, y: i32) -> InputWithTimestamp {
    InputWithTimestamp { input: Input::Tap(Tap { x, y }), timestamp_milliseconds: t }
}

fn swipe(t: u32, x0: i32, y0: i32, x1: i32, y1: i32, ms: u32) -> InputWithTimestamp {
    InputWithTimestamp {
        input: Input::Swipe(Swipe { x: [x0, x1], y: [y0, y1], milliseconds: ms }),
        timestamp_milliseconds: t,
    }
}

fn power(t: u32) -> InputWithTimestamp {
    InputWithTimestamp { input: Input::Key(Key::Power), timestamp_milliseconds: t }
}

#[test]
fn no_events_no_actions() {
    assert_eq!(convert_events_to_input(&[], 100, 500), vec![]);
}

#[test]
fn touch_at_both_thresholds_is_a_tap() {
    let events = [
        at(1000, InputEvent::AbsMtPosX(10)),
        at(1000, InputEvent::AbsMtPosY(10)),
        at(1000, down()),
        at(1200, InputEvent::AbsMtPosX(70)),
        at(1300, InputEvent::AbsMtPosY(-30)),
        at(1500, up()),
    ];
    assert_eq!(convert_events_to_input(&events, 100, 500), vec![tap(0, 10, 10)]);
    assert_eq!(
        convert_events_to_input(&events, 99, 500),
        vec![swipe(0, 10, 10, 70, -30, 500)]
    );
    assert_eq!(
        convert_events_to_input(&events, 100, 499),
        vec![swipe(0, 10, 10, 70, -30, 500)]
    );
}

#[test]
fn positions_of_other_slots_are_ignored() {
    let events = [
        at(0, InputEvent::AbsMtSlot(0)),
        at(0, InputEvent::AbsMtPosX(10)),
        at(0, InputEvent::AbsMtPosY(10)),
        at(0, down()),
        at(1, InputEvent::AbsMtSlot(1)),
        at(1, InputEvent::AbsMtPosX(900)),
        at(1, InputEvent::AbsMtPosY(900)),
        at(2, InputEvent::AbsMtSlot(0)),
        at(3, up()),
    ];
    assert_eq!(convert_events_to_input(&events, 100, 500), vec![tap(0, 10, 10)]);
}

#[test]
fn touches_on_other_slots_are_ignored() {
    let events = [
        at(0, InputEvent::AbsMtSlot(2)),
        at(0, down()),
        at(5, up()),
        at(6, InputEvent::AbsMtSlot(0)),
        at(7, up()),
    ];
    assert_eq!(convert_events_to_input(&events, 100, 500), vec![]);
}

#[test]
fn an_up_without_a_down_is_ignored() {
    let events = [
        at(0, InputEvent::AbsMtPosX(3)),
        at(1, up()),
        at(2, InputEvent::AbsMtPosY(4)),
        at(3, down()),
        at(4, up()),
        at(5, up()),
    ];
    assert_eq!(convert_events_to_input(&events, 100, 500), vec![tap(3, 3, 4)]);
    assert_eq!(convert_events_to_input(&[at(9, up())], 100, 500), vec![]);
}

#[test]
fn a_down_without_an_up_is_no_action() {
    let events = [at(0, InputEvent::AbsMtPosX(3)), at(1, down()), at(900, InputEvent::AbsMtPosX(9))];
    assert_eq!(convert_events_to_input(&events, 100, 500), vec![]);
}

#[test]
fn times_count_from_the_first_event() {
    let events = [
        at(31012092, InputEvent::AbsMtTrackingId(7)),
        at(31012100, InputEvent::AbsMtPosX(5)),
        at(31012100, InputEvent::AbsMtPosY(6)),
        at(31012192, down()),
        at(31012200, up()),
        at(31013092, InputEvent::KeyPower(TouchType::Down)),
    ];
    assert_eq!(
        convert_events_to_input(&events, 100, 500),
        vec![tap(100, 5, 6), power(1000)]
    );
}

#[test]
fn power_key_down_is_an_action_and_power_key_up_is_none() {
    let events = [
        at(40, InputEvent::KeyPower(TouchType::Down)),
        at(90, InputEvent::KeyPower(TouchType::Up)),
        at(100, InputEvent::AbsMtSlot(3)),
        at(140, InputEvent::KeyPower(TouchType::Down)),
    ];
    assert_eq!(convert_events_to_input(&events, 100, 500), vec![power(0), power(100)]);
}

#[test]
fn a_second_down_does_not_replace_the_first() {
    let events = [
        at(0, InputEvent::AbsMtPosX(1)),
        at(0, InputEvent::AbsMtPosY(2)),
        at(10, down()),
        at(20, InputEvent::AbsMtPosX(50)),
        at(30, down()),
        at(40, up()),
        at(50, up()),
    ];
    assert_eq!(convert_events_to_input(&events, 100, 500), vec![tap(10, 1, 2)]);
}

#[test]
fn an_action_carries_the_time_of_its_down() {
    let events = [
        at(5, InputEvent::AbsMtPosX(0)),
        at(5, InputEvent::AbsMtPosY(0)),
        at(10, down()),
        at(400, InputEvent::KeyPower(TouchType::Down)),
        at(700, InputEvent::AbsMtPosY(300)),
        at(710, up()),
    ];
    assert_eq!(
        convert_events_to_input(&events, 100, 500),
        vec![power(395), swipe(5, 0, 0, 0, 300, 700)]
    );
}

#[test]
fn distance_is_measured_along_the_axes_without_overflow() {
    let touch = DownInput { x: -2147483648, y: -2147483648, time: 0 };
    assert_eq!(
        release(touch, 2147483647, 2147483647, 0, 4294967295, 0),
        Input::Swipe(Swipe {
            x: [-2147483648, 2147483647],
            y: [-2147483648, 2147483647],
            milliseconds: 0
        })
    );
    let touch = DownInput { x: 0, y: 0, time: 7 };
    assert_eq!(release(touch, 60, -40, 7, 100, 0), Input::Tap(Tap { x: 0, y: 0 }));
    assert_eq!(
        release(touch, 60, -41, 7, 100, 0),
        Input::Swipe(Swipe { x: [0, 60], y: [0, -41], milliseconds: 0 })
    );
}

#[test]
fn the_clock_wraps_at_32_bits() {
    assert_eq!(elapsed_ms(10, 25), 15);
    assert_eq!(elapsed_ms(25, 25), 0);
    assert_eq!(elapsed_ms(4294967295, 4), 5);
    assert_eq!(elapsed_ms(1, 0), 4294967295);
}

#[test]
fn tracking_follows_one_event_after_the_other() {
    let mut state = Tracking::new();
    assert_eq!(
        state,
        Tracking { is_slot_0_active: true, down: None, last_x: 0, last_y: 0 }
    );
    assert_eq!(state.advance(InputEvent::AbsMtPosX(4), 0, 100, 500), None);
    assert_eq!(state.advance(down(), 3, 100, 500), None);
    assert_eq!(state.down, Some(DownInput { x: 4, y: 0, time: 3 }));
    assert_eq!(state.advance(InputEvent::AbsMtSlot(1), 4, 100, 500), None);
    assert_eq!(state.advance(up(), 5, 100, 500), None);
    assert!(state.down.is_some());
    assert_eq!(state.advance(InputEvent::AbsMtSlot(0), 6, 100, 500), None);
    assert_eq!(state.advance(up(), 7, 100, 500), Some(tap(3, 4, 0)));
    assert_eq!(state.down, None);
    assert_eq!(state.advance(up(), 8, 100, 500), None);
}
