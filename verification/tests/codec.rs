use android_input_replayer::input::{
    deser_inputs_fmt, serialize_inputs, serialize_inputs_fmt, Input, InputStrings,
    InputWithTimestamp, Key, Swipe, Tap,
};

fn tap(t: u32, x: i32, y: i32) -> InputWithTimestamp {
    InputWithTimestamp { input: Input::Tap(Tap { x, y }), timestamp_milliseconds: t }
}

fn swipe(t: u32, x0: i32, y0: i32, x1: i32, y1: i32, ms: u32) -> InputWithTimestamp {
    InputWithTimestamp {
        input: Input::Swipe(Swipe { x: [x0, x1], y: [y0, y1], milliseconds: ms }),
        timestamp_milliseconds: t,
    }
}

fn key(t: u32, k: Key) -> InputWithTimestamp {
    InputWithTimestamp { input: Input::Key(k), timestamp_milliseconds: t }
}

#[test]
fn tap_line_has_fixed_width_fields() {
    assert_eq!(tap(12, 10, 20).to_string(), "    12 tap      10   20");
}

#[test]
fn swipe_line_has_fixed_width_fields() {
    assert_eq!(
        swipe(1500, 100, 200, 300, 1400, 250).to_string(),
        "  1500 swipe   100  200  300 1400  250"
    );
}

#[test]
fn key_line_names_the_key_code() {
    assert_eq!(key(0, Key::Power).to_string(), "     0 keyevent KEYCODE_POWER");
    assert_eq!(key(7, Key::Back).to_string(), "     7 keyevent KEYCODE_BACK");
    assert_eq!(key(7, Key::Home).to_string(), "     7 keyevent KEYCODE_HOME");
    assert_eq!(key(7, Key::Menu).to_string(), "     7 keyevent KEYCODE_MENU");
}

#[test]
fn wide_and_negative_numbers_are_not_cut() {
    assert_eq!(
        tap(4_294_967_295, -2_147_483_648, 2_147_483_647).to_string(),
        "4294967295 tap    -2147483648 2147483647"
    );
}

#[test]
fn recording_round_trips() {
    let seq = vec![
        tap(0, 10, 20),
        swipe(50, 1, 2, 300, 400, 120),
        key(200, Key::Power),
        key(200, Key::Menu),
        tap(4_294_967_295, -5, 0),
        swipe(4_294_967_295, -2_147_483_648, 2_147_483_647, 0, -1, 4_294_967_295),
    ];
    let mut text = String::new();
    serialize_inputs_fmt(&seq, &mut text);
    assert_eq!(deser_inputs_fmt(&text), Ok(seq));
}

#[test]
fn bytes_and_text_agree() {
    let seq = vec![tap(0, 10, 20), key(3, Key::Home)];
    let mut text = String::from("# ");
    serialize_inputs_fmt(&seq, &mut text);
    let mut bytes: Vec<u8> = vec![b'#', b' '];
    serialize_inputs(&seq, &mut bytes);
    assert_eq!(bytes, text.as_bytes());
    assert_eq!(text, "#      0 tap      10   20\n     3 keyevent KEYCODE_HOME\n");
}

#[test]
fn empty_recording_is_empty_text() {
    let mut text = String::new();
    serialize_inputs_fmt(&[], &mut text);
    assert_eq!(text, "");
    assert_eq!(deser_inputs_fmt(""), Ok(vec![]));
}

#[test]
fn reading_accepts_any_whitespace() {
    assert_eq!(
        deser_inputs_fmt("5 tap 1 2\n\t 6\tswipe  1 2\t3 4 5 \r\n\n   \n7 keyevent KEYCODE_BACK"),
        Ok(vec![tap(5, 1, 2), swipe(6, 1, 2, 3, 4, 5), key(7, Key::Back)])
    );
}

#[test]
fn malformed_timestamp_fails_the_whole_read() {
    assert_eq!(deser_inputs_fmt("abc tap 1 2"), Err(()));
    assert_eq!(deser_inputs_fmt("1 tap 1 2\nabc tap 1 2\n3 tap 1 2\n"), Err(()));
}

#[test]
fn malformed_fields_fail_the_read() {
    for line in [
        "1",
        "1 tap",
        "1 tap 1",
        "1 tap 1 2 3",
        "1 tap 1 x",
        "1 tap 1 2147483648",
        "1 tap -2147483649 2",
        "4294967296 tap 1 2",
        "-1 tap 1 2",
        "1 swipe 1 2 3 4",
        "1 swipe 1 2 3 4 -5",
        "1 swipe 1 2 3 4 5 6",
        "1 keyevent",
        "1 keyevent KEYCODE_VOLUME",
        "1 keyevent KEYCODE_POWER KEYCODE_POWER",
        "1 press 1 2",
        "1 TAP 1 2",
        "tap 1 2",
    ] {
        assert_eq!(deser_inputs_fmt(line), Err(()), "{}", line);
    }
}

#[test]
fn signs_and_leading_zeros_are_read() {
    assert_eq!(deser_inputs_fmt("+007 tap +1 -0"), Ok(vec![tap(7, 1, 0)]));
    assert_eq!(
        InputWithTimestamp::from_str("  0012 swipe -1 -2 -3 -4 0005 "),
        Ok(swipe(12, -1, -2, -3, -4, 5))
    );
}

#[test]
fn parts_of_a_line_are_read_alone() {
    assert_eq!(Tap::from_str(" 3   4 "), Ok(Tap { x: 3, y: 4 }));
    assert_eq!(Tap::from_str("3"), Err(()));
    assert_eq!(
        Swipe::from_str("1 2 3 4 5"),
        Ok(Swipe { x: [1, 3], y: [2, 4], milliseconds: 5 })
    );
    assert_eq!(Swipe::from_str("1 2 3 4"), Err(()));
    assert_eq!(Key::from_str(" KEYCODE_MENU\n"), Ok(Key::Menu));
    assert_eq!(Key::from_str("keycode_menu"), Err(()));
    assert_eq!(Input::from_str("tap 1 2"), Ok(Input::Tap(Tap { x: 1, y: 2 })));
    assert_eq!(Input::from_str("keyevent KEYCODE_HOME"), Ok(Input::Key(Key::Home)));
    assert_eq!(Input::from_str(""), Err(()));
}

#[test]
fn a_key_is_read_with_any_whitespace_around_it() {
    for (text, key) in [
        ("KEYCODE_POWER", Key::Power),
        ("\u{b}KEYCODE_POWER", Key::Power),
        ("\u{85}KEYCODE_BACK\u{a0}", Key::Back),
        ("\u{2003}\u{3000} \t\r\nKEYCODE_HOME\u{2028}\u{2029}\u{202f}\u{205f}\u{1680}", Key::Home),
        ("  KEYCODE_MENU\u{c}", Key::Menu),
    ] {
        assert_eq!(Key::from_str(text), Ok(key), "{:?}", text);
    }
    for text in [
        "",
        " \u{a0} ",
        "power",
        "KEYCODE_VOLUME_UP",
        "KEYCODE_POWER KEYCODE_POWER",
        "KEYCODE_\u{a0}POWER",
        "\u{200b}KEYCODE_POWER",
        "KEYCODE_POWER\u{feff}",
    ] {
        assert_eq!(Key::from_str(text), Err(()), "{:?}", text);
    }
    for key in [Key::Power, Key::Back, Key::Home, Key::Menu] {
        assert_eq!(Key::from_str(&key.to_string()), Ok(key));
        let padded = format!("\u{b}\u{a0}{}\u{2009}\n", key.to_string());
        assert_eq!(padded.trim(), key.to_string());
        assert_eq!(Key::from_str(&padded), Ok(key));
    }
}

#[test]
fn fields_are_read_with_any_whitespace_around_them() {
    assert_eq!(Tap::from_str("\u{b}3\u{a0} \u{2003}4\u{85}"), Ok(Tap { x: 3, y: 4 }));
    assert_eq!(
        Swipe::from_str("\u{a0}1 2\u{3000}3 \u{b} 4 5\u{2028}"),
        Ok(Swipe { x: [1, 3], y: [2, 4], milliseconds: 5 })
    );
    assert_eq!(
        Input::from_str("\u{2000}keyevent\u{a0} KEYCODE_BACK\u{b}"),
        Ok(Input::Key(Key::Back))
    );
    assert_eq!(
        InputWithTimestamp::from_str("\u{b}7 \u{a0}tap \u{2002}1 \u{85} 2\u{1680}"),
        Ok(tap(7, 1, 2))
    );
    assert_eq!(
        deser_inputs_fmt("\u{a0}5 tap 1 2\u{b}\n\u{2003}\u{85}\n6 keyevent\u{3000}KEYCODE_HOME"),
        Ok(vec![tap(5, 1, 2), key(6, Key::Home)])
    );
    assert_eq!(Tap::from_str("3\u{200b}4"), Err(()));
    assert_eq!(InputWithTimestamp::from_str("7\u{feff} tap 1 2"), Err(()));
}

#[test]
fn parts_of_a_line_are_written_alone() {
    assert_eq!(Tap { x: 3, y: -4 }.to_string(), "   3   -4");
    assert_eq!(
        Swipe { x: [1, 3], y: [2, 4], milliseconds: 5 }.to_string(),
        "   1    2    3    4    5"
    );
    assert_eq!(Key::Menu.to_string(), "KEYCODE_MENU");
    assert_eq!(Input::Tap(Tap { x: 1, y: 2 }).to_string(), "tap       1    2");
    assert_eq!(Input::Key(Key::Home).to_string(), "keyevent KEYCODE_HOME");
}

#[test]
fn command_words_drop_the_padding() {
    assert_eq!(Input::Tap(Tap { x: 1, y: -2 }).command(), vec!["tap", "1", "-2"]);
    assert_eq!(
        Input::Swipe(Swipe { x: [1, 3], y: [2, 4], milliseconds: 5 }).command(),
        vec!["swipe", "1", "2", "3", "4", "5"]
    );
    assert_eq!(Input::Key(Key::Power).command(), vec!["keyevent", "KEYCODE_POWER"]);
    let input = Input::Swipe(Swipe { x: [-10, 3000], y: [2, 4], milliseconds: 99999 });
    let text = input.to_string();
    let split: Vec<&str> = text.split_ascii_whitespace().collect();
    assert_eq!(input.command(), split);
}

#[test]
fn shown_lines_carry_their_index() {
    let shown = InputStrings::from_inputs(&[tap(0, 1, 2), key(5, Key::Power)]);
    assert_eq!(
        shown.0,
        vec!["  0      0 tap       1    2", "  1      5 keyevent KEYCODE_POWER"]
    );
    assert!(InputStrings::from_inputs(&[]).0.is_empty());
}
