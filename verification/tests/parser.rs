use android_input_replayer::input_event::{InputEvent, InputEventInfo, TouchType};
use android_input_replayer::input_event_parser::{
    parse_hex_i32, parse_input_event_name, parse_millis, DeviceWithEvent, ParsedGetEventOutput,
};
use android_input_replayer::number::{parse_i32, parse_u32};
use android_input_replayer::text::{chars_of, is_space_char, split_tokens, Whitespace};

fn chars(s: &str) -> Vec<char> {
    s.chars().collect()
}

fn event_line(line: &str) -> Result<Option<InputEventInfo>, ()> {
    match ParsedGetEventOutput::try_from_str(line) {
        Ok(Some(ParsedGetEventOutput::Input(info))) => Ok(Some(info)),
        Ok(None) => Ok(None),
        Ok(Some(other)) => panic!("no event line: {:?}", other),
        Err(()) => Err(()),
    }
}

#[test]
fn add_device_line_is_read() {
    assert_eq!(
        ParsedGetEventOutput::try_from_str("add device 2: /dev/input/event6"),
        Ok(Some(ParsedGetEventOutput::AddDevice(DeviceWithEvent { device_nr: 2, event_nr: 6 })))
    );
    assert_eq!(
        ParsedGetEventOutput::try_from_str("add device 11: /dev/input/event12\n"),
        Ok(Some(ParsedGetEventOutput::AddDevice(DeviceWithEvent { device_nr: 11, event_nr: 12 })))
    );
}

#[test]
fn malformed_add_device_line_is_a_failure() {
    for line in [
        "add",
        "add device",
        "add device 2:",
        "add gadget 2: /dev/input/event6",
        "add device two: /dev/input/event6",
        "add device 2: /dev/input/mouse6",
        "add device 2: /dev/input/event",
        "add device 2: /dev/input/eventx",
        "add device 2: dev/input/event6",
        "add device 2: /dev/input/event6/more",
        "add device 2: /dev/input/eventevent6",
        "add device 2: /dev/input/6",
    ] {
        assert_eq!(ParsedGetEventOutput::try_from_str(line), Err(()), "{}", line);
    }
}

#[test]
fn name_line_gives_the_name_without_quotes() {
    assert_eq!(
        ParsedGetEventOutput::try_from_str("  name:     \"sec_touchscreen\""),
        Ok(Some(ParsedGetEventOutput::Name("sec_touchscreen")))
    );
    assert_eq!(
        ParsedGetEventOutput::try_from_str("name: \"\"gpio-keys\"\"\"\n"),
        Ok(Some(ParsedGetEventOutput::Name("gpio-keys")))
    );
    assert_eq!(
        ParsedGetEventOutput::try_from_str("name: plain"),
        Ok(Some(ParsedGetEventOutput::Name("plain")))
    );
    assert_eq!(
        ParsedGetEventOutput::try_from_str("name: \"\""),
        Ok(Some(ParsedGetEventOutput::Name("")))
    );
    assert_eq!(
        ParsedGetEventOutput::try_from_str("name: \"tast\u{e4}tur\""),
        Ok(Some(ParsedGetEventOutput::Name("tast\u{e4}tur")))
    );
    assert_eq!(ParsedGetEventOutput::try_from_str("name:"), Err(()));
    assert_eq!(ParsedGetEventOutput::try_from_str("  name:  \t \n"), Err(()));
}

#[test]
fn name_line_gives_a_name_with_spaces_whole() {
    assert_eq!(
        ParsedGetEventOutput::try_from_str("name:     \"my touch screen\""),
        Ok(Some(ParsedGetEventOutput::Name("my touch screen")))
    );
    assert_eq!(
        ParsedGetEventOutput::try_from_str("  name: \"gpio  keys\t(rev 2)\" \r\n"),
        Ok(Some(ParsedGetEventOutput::Name("gpio  keys\t(rev 2)")))
    );
    assert_eq!(
        ParsedGetEventOutput::try_from_str("name: \"left\" and \"right\""),
        Ok(Some(ParsedGetEventOutput::Name("left\" and \"right")))
    );
    assert_eq!(
        ParsedGetEventOutput::try_from_str("name: no quotes at all"),
        Ok(Some(ParsedGetEventOutput::Name("no quotes at all")))
    );
    assert_eq!(
        ParsedGetEventOutput::try_from_str("name: \" inner spaces stay \""),
        Ok(Some(ParsedGetEventOutput::Name(" inner spaces stay ")))
    );
    assert_eq!(
        ParsedGetEventOutput::try_from_str("name: \"\u{a0}\""),
        Ok(Some(ParsedGetEventOutput::Name("\u{a0}")))
    );
}

#[test]
fn event_lines_are_read() {
    assert_eq!(
        event_line("[   31012.092121] /dev/input/event3: EV_ABS       ABS_MT_POSITION_X    000001de"),
        Ok(Some(InputEventInfo {
            timestamp_milliseconds: 31012092,
            event_nr: 3,
            event: InputEvent::AbsMtPosX(0x1de),
        }))
    );
    assert_eq!(
        event_line("[   31012.092121] /dev/input/event3: EV_ABS       ABS_MT_POSITION_Y    00000400"),
        Ok(Some(InputEventInfo {
            timestamp_milliseconds: 31012092,
            event_nr: 3,
            event: InputEvent::AbsMtPosY(1024),
        }))
    );
    assert_eq!(
        event_line("[   31012.092121] /dev/input/event3: EV_KEY       BTN_TOUCH            DOWN"),
        Ok(Some(InputEventInfo {
            timestamp_milliseconds: 31012092,
            event_nr: 3,
            event: InputEvent::BtnTouch(TouchType::Down),
        }))
    );
    assert_eq!(
        event_line("[ 1.5] /dev/input/event0: EV_KEY KEY_POWER UP"),
        Ok(Some(InputEventInfo {
            timestamp_milliseconds: 1500,
            event_nr: 0,
            event: InputEvent::KeyPower(TouchType::Up),
        }))
    );
    assert_eq!(
        event_line("[ 2] /dev/input/event1: EV_ABS ABS_MT_TRACKING_ID ffffffff"),
        Ok(Some(InputEventInfo {
            timestamp_milliseconds: 2000,
            event_nr: 1,
            event: InputEvent::AbsMtTrackingId(-1),
        }))
    );
    assert_eq!(
        event_line("[ 2] /dev/input/event1: EV_ABS ABS_MT_SLOT 00000001 trailing"),
        Ok(Some(InputEventInfo {
            timestamp_milliseconds: 2000,
            event_nr: 1,
            event: InputEvent::AbsMtSlot(1),
        }))
    );
}

#[test]
fn unknown_sub_type_says_nothing() {
    assert_eq!(
        event_line("[   31012.092121] /dev/input/event3: EV_SYN       SYN_REPORT           00000000"),
        Ok(None)
    );
    assert_eq!(
        event_line("[   31012.092121] /dev/input/event3: EV_ABS       ABS_MT_TOUCH_MINOR   00000005"),
        Ok(None)
    );
}

#[test]
fn line_of_no_known_shape_says_nothing() {
    for line in
        ["", "   ", "\n", "could not open /dev/input", "[31012.092121] x", "Name: \"x\"", "adding"]
    {
        assert_eq!(ParsedGetEventOutput::try_from_str(line), Ok(None), "{}", line);
    }
}

#[test]
fn malformed_event_line_is_a_failure() {
    for line in [
        "[",
        "[ 1.0]",
        "[ 1.0] /dev/input/event3:",
        "[ 1.0] /dev/input/event3: EV_KEY",
        "[ 1.0] /dev/input/event3: EV_KEY BTN_TOUCH",
        "[ 1.0] /dev/input/event3: EV_SYN SYN_REPORT",
        "[ one] /dev/input/event3: EV_KEY BTN_TOUCH DOWN",
        "[ 1.0] /dev/input/mouse3: EV_KEY BTN_TOUCH DOWN",
        "[ 1.0] /dev/input/event3: EV_KEY BTN_TOUCH down",
        "[ 1.0] /dev/input/event3: EV_KEY BTN_TOUCH 00000001",
        "[ 1.0] /dev/input/event3: EV_KEY KEY_POWER PRESSED",
        "[ 1.0] /dev/input/event3: EV_ABS ABS_MT_SLOT DOWN",
        "[ 1.0] /dev/input/event3: EV_ABS ABS_MT_SLOT 100000000",
        "[ 1.0] /dev/input/event3: EV_ABS ABS_MT_POSITION_X 0x10",
        "[ 1.0] /dev/input/event3: EV_ABS ABS_MT_POSITION_Y -1",
    ] {
        assert_eq!(ParsedGetEventOutput::try_from_str(line), Err(()), "{}", line);
    }
}

#[test]
fn seconds_become_whole_milliseconds() {
    let cases: [(&str, Option<u32>); 24] = [
        ("0", Some(0)),
        ("1", Some(1000)),
        ("1.", Some(1000)),
        (".5", Some(500)),
        ("0.001", Some(1)),
        ("0.0009", Some(0)),
        ("1.001", Some(1001)),
        ("1.0019999", Some(1001)),
        ("0.029", Some(29)),
        ("31012.092121", Some(31012092)),
        ("0031012.17", Some(31012170)),
        ("+2.25", Some(2250)),
        ("-2.25", Some(0)),
        ("-0", Some(0)),
        ("4294967.295", Some(4294967295)),
        ("4294967.296", Some(4294967295)),
        ("99999999999999999999999999.5", Some(4294967295)),
        ("", None),
        (".", None),
        ("+", None),
        ("1.2.3", None),
        ("1e3", None),
        ("1,5", None),
        ("inf", None),
    ];
    for (text, expected) in cases {
        assert_eq!(parse_millis(&chars(text)), expected, "{}", text);
    }
}

#[test]
fn hexadecimal_values_are_read_as_signed() {
    assert_eq!(parse_hex_i32(&chars("0000013e")), Ok(318));
    assert_eq!(parse_hex_i32(&chars("000001DE")), Ok(478));
    assert_eq!(parse_hex_i32(&chars("7fffffff")), Ok(2147483647));
    assert_eq!(parse_hex_i32(&chars("80000000")), Ok(-2147483648));
    assert_eq!(parse_hex_i32(&chars("ffffffff")), Ok(-1));
    assert_eq!(parse_hex_i32(&chars("+ff")), Ok(255));
    assert_eq!(parse_hex_i32(&chars("00000000000000000001")), Ok(1));
    assert_eq!(parse_hex_i32(&chars("100000000")), Err(()));
    assert_eq!(parse_hex_i32(&chars("")), Err(()));
    assert_eq!(parse_hex_i32(&chars("+")), Err(()));
    assert_eq!(parse_hex_i32(&chars("-1")), Err(()));
    assert_eq!(parse_hex_i32(&chars("12g")), Err(()));
}

#[test]
fn decimal_numbers_are_read() {
    assert_eq!(parse_u32(&chars("0"), 10), Some(0));
    assert_eq!(parse_u32(&chars("4294967295"), 10), Some(4294967295));
    assert_eq!(parse_u32(&chars("4294967296"), 10), None);
    assert_eq!(parse_u32(&chars("+12"), 10), Some(12));
    assert_eq!(parse_u32(&chars("-12"), 10), None);
    assert_eq!(parse_u32(&chars("1a"), 10), None);
    assert_eq!(parse_u32(&chars(""), 10), None);
    assert_eq!(parse_i32(&chars("-2147483648")), Some(-2147483648));
    assert_eq!(parse_i32(&chars("2147483647")), Some(2147483647));
    assert_eq!(parse_i32(&chars("2147483648")), None);
    assert_eq!(parse_i32(&chars("-2147483649")), None);
    assert_eq!(parse_i32(&chars("-")), None);
    assert_eq!(parse_i32(&chars("+-1")), None);
    assert_eq!(parse_i32(&chars("000000000000000000000017")), Some(17));
}

#[test]
fn sub_types_of_the_table_are_told_apart() {
    let ty = chars("EV_ABS");
    assert_eq!(
        parse_input_event_name(&ty, &chars("BTN_TOUCH"), &chars("UP")),
        Ok(Some(InputEvent::BtnTouch(TouchType::Up)))
    );
    assert_eq!(
        parse_input_event_name(&ty, &chars("KEY_POWER"), &chars("DOWN")),
        Ok(Some(InputEvent::KeyPower(TouchType::Down)))
    );
    assert_eq!(
        parse_input_event_name(&ty, &chars("ABS_MT_SLOT"), &chars("00000002")),
        Ok(Some(InputEvent::AbsMtSlot(2)))
    );
    assert_eq!(parse_input_event_name(&ty, &chars("ABS_MT_PRESSURE"), &chars("zz")), Ok(None));
    assert_eq!(parse_input_event_name(&ty, &chars("ABS_MT_SLOT"), &chars("zz")), Err(()));
    assert_eq!(TouchType::from_str("DOWN"), Ok(TouchType::Down));
    assert_eq!(TouchType::from_str("UP"), Ok(TouchType::Up));
    assert_eq!(TouchType::from_str("up"), Err(()));
    assert_eq!(ParsedGetEventOutput::parse_input_event_name(&chars("/dev/input/event3")), Ok(3));
    assert_eq!(ParsedGetEventOutput::parse_input_event_name(&chars("/dev/input/event")), Err(()));
}

#[test]
fn text_is_split_at_ascii_whitespace() {
    let line = " a\tbc \r\n d\u{c}e\u{a0}f ";
    let tokens: Vec<String> = split_tokens(Whitespace::Ascii, &chars_of(line))
        .into_iter()
        .map(|t| t.into_iter().collect())
        .collect();
    let expected: Vec<&str> = line.split_ascii_whitespace().collect();
    assert_eq!(tokens, expected);
    assert_eq!(tokens, vec!["a", "bc", "d", "e\u{a0}f"]);
    assert!(split_tokens(Whitespace::Ascii, &chars_of(" \n\t")).is_empty());
}

#[test]
fn text_is_split_at_unicode_whitespace() {
    let line = "\u{b}a\tbc \u{85}\r\n d\u{c}e\u{a0}f\u{2003}\u{3000}g\u{200b}h ";
    let tokens: Vec<String> = split_tokens(Whitespace::Unicode, &chars_of(line))
        .into_iter()
        .map(|t| t.into_iter().collect())
        .collect();
    let expected: Vec<&str> = line.split_whitespace().collect();
    assert_eq!(tokens, expected);
    assert_eq!(tokens, vec!["a", "bc", "d", "e", "f", "g\u{200b}h"]);
}

#[test]
fn whitespace_is_what_the_standard_says() {
    for code in 0..=0x10ffff_u32 {
        if let Some(c) = char::from_u32(code) {
            assert_eq!(is_space_char(Whitespace::Unicode, c), c.is_whitespace(), "{:x}", code);
            assert_eq!(is_space_char(Whitespace::Ascii, c), c.is_ascii_whitespace(), "{:x}", code);
        }
    }
}

#[test]
fn events_are_shown() {
    let info = InputEventInfo {
        timestamp_milliseconds: 12,
        event_nr: 3,
        event: InputEvent::AbsMtPosX(478),
    };
    assert_eq!(info.to_string(), "[12] ev3 - PosX(478)");
    assert_eq!(InputEvent::AbsMtPosY(-4).to_string(), "PosY(-4)");
    assert_eq!(InputEvent::AbsMtSlot(1).to_string(), "Slot(1)");
    assert_eq!(InputEvent::AbsMtTrackingId(-1).to_string(), "TrackId(-1)");
    assert_eq!(InputEvent::BtnTouch(TouchType::Down).to_string(), "Touch (down)");
    assert_eq!(InputEvent::KeyPower(TouchType::Up).to_string(), "Power (up)");
    assert_eq!(TouchType::Up.to_string(), "up");
}
