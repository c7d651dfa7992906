//! The lines of the capture stream. A line announces a device, names it, or
//! reports one event; whatever else the stream holds is passed over.

use crate::input_event::{InputEvent, InputEventInfo, TouchType};
use crate::number::{
    all_digits, as_signed, at_most, digit_of, digit_value, i32_of, is_negative, number_value,
    parse_i32, parse_u32, read_digits, signed_body, to_signed, u32_of,
};
use crate::text::{
    is_blank, is_space, is_token, lemma_tokens_after_spaces, lemma_tokens_after_word,
    lemma_trim_front_of_blank_start, lemma_trimmed_between, lemma_word_len_is,
    after_first_word, are_token_spans, chars_of, find_char, first_word_end, index_of, is_word,
    lemma_index_of_bounds, lemma_tokens_behind_first, split_spans, tokens, trim_both, trim_end, trimmed, trimmed_end,
    trimmed_span, trimmed_start, Whitespace,
};
use vstd::prelude::*;
use vstd::string::StrSliceExecFns;

verus! {

/// A device of the capture stream and the event stream that it writes to.
#[derive(Clone, Copy, Debug, PartialEq, Eq)]
pub struct DeviceWithEvent {
    pub device_nr: i32,
    pub event_nr: i32,
}

/// What one line of the capture stream says.
#[derive(Clone, Copy, Debug, PartialEq, Eq)]
pub enum ParsedGetEventOutput<'a> {
    AddDevice(DeviceWithEvent),
    Name(&'a str),
    Input(InputEventInfo),
}

/// What one line of the capture stream says, the name as the characters it
/// is made of.
pub enum LineRecord {
    AddDevice(DeviceWithEvent),
    Name(Seq<char>),
    Input(InputEventInfo),
}

impl<'a> View for ParsedGetEventOutput<'a> {
    type V = LineRecord;

    open spec fn view(&self) -> LineRecord {
        match self {
            ParsedGetEventOutput::AddDevice(d) => LineRecord::AddDevice(*d),
            ParsedGetEventOutput::Name(n) => LineRecord::Name(n@),
            ParsedGetEventOutput::Input(i) => LineRecord::Input(*i),
        }
    }
}

/// The number of the event stream that a device path names: the path is
/// `/dev/input/event` and then the number, and has no other form.
pub open spec fn event_number_of(path: Seq<char>) -> Option<i32> {
    let prefix = "/dev/input/event"@;
    if path.len() >= prefix.len() && path.take(prefix.len() as int) == prefix {
        i32_of(path.skip(prefix.len() as int))
    } else {
        None
    }
}

/// The transition that a value names.
pub open spec fn touch_of(value: Seq<char>) -> Option<TouchType> {
    if value == "DOWN"@ {
        Some(TouchType::Down)
    } else if value == "UP"@ {
        Some(TouchType::Up)
    } else {
        None
    }
}

/// The number that a value holds: 32 bits in hexadecimal, read as a signed
/// number.
pub open spec fn hex_i32_of(value: Seq<char>) -> Option<i32> {
    match u32_of(value, 16) {
        Some(u) => Some(as_signed(u)),
        None => None,
    }
}

/// The digit at place `i` of a fraction, zero where the fraction is shorter.
pub open spec fn fraction_digit(fraction: Seq<char>, i: int) -> nat {
    if 0 <= i < fraction.len() {
        digit_of(fraction[i]).unwrap_or(0)
    } else {
        0
    }
}

/// The whole part of an unsigned decimal number: what stands before the point.
pub open spec fn whole_part(body: Seq<char>) -> Seq<char> {
    body.take(index_of(body, '.') as int)
}

/// The fraction of an unsigned decimal number: what follows the point.
pub open spec fn fraction_part(body: Seq<char>) -> Seq<char> {
    if index_of(body, '.') < body.len() {
        body.skip(index_of(body, '.') as int + 1)
    } else {
        Seq::empty()
    }
}

/// The milliseconds in a time given in seconds as a decimal number: an
/// optional sign, digits, and optionally a point and more digits, with a digit
/// on at least one side of the point. The seconds are multiplied by 1000 and
/// what is left of the fraction is cut off. The result stays within `u32`:
/// a negative time gives 0, and one too large gives the largest value.
pub open spec fn millis_of(s: Seq<char>) -> Option<u32> {
    let body = signed_body(s);
    let whole = whole_part(body);
    let fraction = fraction_part(body);
    if whole.len() + fraction.len() == 0 || !all_digits(whole, 10) || !all_digits(fraction, 10) {
        None
    } else if is_negative(s) {
        Some(0)
    } else {
        Some(
            at_most(
                number_value(whole, 10) * 1000 + fraction_digit(fraction, 0) * 100 + fraction_digit(
                    fraction,
                    1,
                ) * 10 + fraction_digit(fraction, 2),
                u32::MAX as nat,
            ) as u32,
        )
    }
}

/// Whether `sub_type` is one of the six sub-types of the table.
pub open spec fn is_known_sub_type(sub_type: Seq<char>) -> bool {
    sub_type == "BTN_TOUCH"@ || sub_type == "ABS_MT_TRACKING_ID"@ || sub_type == "ABS_MT_SLOT"@
        || sub_type == "ABS_MT_POSITION_X"@ || sub_type == "ABS_MT_POSITION_Y"@ || sub_type
        == "KEY_POWER"@
}

/// The event that a sub-type and its value report. A sub-type outside the
/// table reports nothing, which is no failure; a value that does not fit its
/// sub-type is one.
pub open spec fn event_of(sub_type: Seq<char>, value: Seq<char>) -> Result<Option<InputEvent>, ()> {
    if sub_type == "BTN_TOUCH"@ {
        match touch_of(value) {
            Some(t) => Ok(Some(InputEvent::BtnTouch(t))),
            None => Err(()),
        }
    } else if sub_type == "ABS_MT_TRACKING_ID"@ {
        match hex_i32_of(value) {
            Some(v) => Ok(Some(InputEvent::AbsMtTrackingId(v))),
            None => Err(()),
        }
    } else if sub_type == "ABS_MT_SLOT"@ {
        match hex_i32_of(value) {
            Some(v) => Ok(Some(InputEvent::AbsMtSlot(v))),
            None => Err(()),
        }
    } else if sub_type == "ABS_MT_POSITION_X"@ {
        match hex_i32_of(value) {
            Some(v) => Ok(Some(InputEvent::AbsMtPosX(v))),
            None => Err(()),
        }
    } else if sub_type == "ABS_MT_POSITION_Y"@ {
        match hex_i32_of(value) {
            Some(v) => Ok(Some(InputEvent::AbsMtPosY(v))),
            None => Err(()),
        }
    } else if sub_type == "KEY_POWER"@ {
        match touch_of(value) {
            Some(t) => Ok(Some(InputEvent::KeyPower(t))),
            None => Err(()),
        }
    } else {
        Ok(None)
    }
}

/// What a line that begins with `add` says: `add device <n>: <path>`.
pub open spec fn add_device_of(t: Seq<Seq<char>>) -> Result<Option<LineRecord>, ()> {
    if t.len() >= 4 && t[1] == "device"@ && i32_of(trim_end(t[2], ':')) is Some && event_number_of(
        t[3],
    ) is Some {
        Ok(
            Some(
                LineRecord::AddDevice(
                    DeviceWithEvent {
                        device_nr: i32_of(trim_end(t[2], ':'))->0,
                        event_nr: event_number_of(t[3])->0,
                    },
                ),
            ),
        )
    } else {
        Err(())
    }
}

/// What stands on a line behind its first token, without the whitespace at
/// both of its ends.
pub open spec fn rest_of_line(line: Seq<char>) -> Seq<char> {
    trimmed(Whitespace::Ascii, after_first_word(Whitespace::Ascii, line))
}

/// What a line that begins with `name:` says: all that follows on the line,
/// whitespace within it included, without the quotes around it. A line on
/// which nothing follows is a failure.
pub open spec fn name_of(line: Seq<char>) -> Result<Option<LineRecord>, ()> {
    if rest_of_line(line).len() > 0 {
        Ok(Some(LineRecord::Name(trim_both(rest_of_line(line), '"'))))
    } else {
        Err(())
    }
}

/// A line that begins with `name:` gives a name exactly where it has a
/// second token.
pub proof fn lemma_name_needs_a_second_token(line: Seq<char>)
    ensures
        name_of(line) is Ok <==> tokens(Whitespace::Ascii, line).len() >= 2,
{
    lemma_tokens_behind_first(Whitespace::Ascii, line);
}

/// The name of a device is all that its line holds behind `name:`, however
/// many words that is: with whitespace around `name:` and around what
/// follows, the record is what follows without the quotes at its ends.
pub proof fn lemma_name_is_the_rest_of_the_line(
    lead: Seq<char>,
    gap: Seq<char>,
    rest: Seq<char>,
    trail: Seq<char>,
)
    requires
        is_blank(Whitespace::Ascii, lead),
        is_blank(Whitespace::Ascii, gap),
        is_blank(Whitespace::Ascii, trail),
        gap.len() > 0,
        rest.len() > 0,
        !is_space(Whitespace::Ascii, rest[0]),
        !is_space(Whitespace::Ascii, rest.last()),
    ensures
        record_of(lead + "name:"@ + gap + rest + trail) == Ok::<Option<LineRecord>, ()>(
            Some(LineRecord::Name(trim_both(rest, '"'))),
        ),
{
    let kind = Whitespace::Ascii;
    let word = "name:"@;
    reveal_strlit("name:");
    reveal_strlit("add");
    assert(word.len() == 5 && "add"@.len() == 3);
    assert(is_token(kind, word));
    let behind = gap + rest + trail;
    let line = lead + word + behind;
    assert(line =~= lead + word + gap + rest + trail);
    assert(behind[0] == gap[0]);
    lemma_tokens_after_word(kind, word, behind);
    lemma_tokens_after_spaces(kind, lead, word + behind);
    assert(line =~= lead + (word + behind));
    assert(tokens(kind, line)[0] == word);
    assert((word + behind)[0] == word[0]);
    lemma_trim_front_of_blank_start(kind, lead, word + behind);
    let front = word + behind;
    assert forall|i: int| 0 <= i < 5 implies !is_space(kind, #[trigger] front[i]) by {
        assert(front[i] == word[i]);
    }
    assert(front[5] == gap[0]);
    lemma_word_len_is(kind, front, 5);
    assert(front.skip(5) =~= behind);
    assert(after_first_word(kind, line) == behind);
    lemma_trimmed_between(kind, gap, rest, trail);
}

/// What a line that begins with `[` says:
/// `[ <seconds>] <path>: <type> <sub-type> <value>`.
pub open spec fn input_of(t: Seq<Seq<char>>) -> Result<Option<LineRecord>, ()> {
    if t.len() >= 6 && millis_of(trim_end(t[1], ']')) is Some && event_number_of(
        trim_end(t[2], ':'),
    ) is Some {
        match event_of(t[4], t[5]) {
            Ok(Some(event)) => Ok(
                Some(
                    LineRecord::Input(
                        InputEventInfo {
                            timestamp_milliseconds: millis_of(trim_end(t[1], ']'))->0,
                            event_nr: event_number_of(trim_end(t[2], ':'))->0,
                            event,
                        },
                    ),
                ),
            ),
            Ok(None) => Ok(None),
            Err(_) => Err(()),
        }
    } else {
        Err(())
    }
}

/// What a line of the capture stream says. Its first token tells its shape.
/// A line of none of the three shapes says nothing, and so does the report of
/// an event outside the table; a line of one of the shapes whose fields are
/// missing or malformed is a failure.
pub open spec fn record_of(line: Seq<char>) -> Result<Option<LineRecord>, ()> {
    let t = tokens(Whitespace::Ascii, line);
    if t.len() == 0 {
        Ok(None)
    } else if t[0] == "add"@ {
        add_device_of(t)
    } else if t[0] == "name:"@ {
        name_of(line)
    } else if t[0] == "["@ {
        input_of(t)
    } else {
        Ok(None)
    }
}

/// Whether `r` is what the line record `record` stands for.
pub open spec fn is_record<'a>(
    r: Result<Option<ParsedGetEventOutput<'a>>, ()>,
    record: Result<Option<LineRecord>, ()>,
) -> bool {
    match record {
        Ok(Some(rec)) => r is Ok && r->Ok_0 is Some && r->Ok_0->0@ == rec,
        Ok(None) => r is Ok && r->Ok_0 is None,
        Err(_) => r is Err,
    }
}

impl TouchType {
    /// Reads `DOWN` or `UP`.
    pub fn from_chars(value: &[char]) -> (r: Result<TouchType, ()>)
        ensures
            r is Ok == (touch_of(value@) is Some),
            r is Ok ==> r->Ok_0 == touch_of(value@)->0,
    {
        if is_word(value, "DOWN") {
            Ok(TouchType::Down)
        } else if is_word(value, "UP") {
            Ok(TouchType::Up)
        } else {
            Err(())
        }
    }

    /// Reads `DOWN` or `UP`.
    pub fn from_str(s: &str) -> (r: Result<TouchType, ()>)
        ensures
            r is Ok == (touch_of(s@) is Some),
            r is Ok ==> r->Ok_0 == touch_of(s@)->0,
    {
        let chars = chars_of(s);
        TouchType::from_chars(chars.as_slice())
    }
}

/// The digit at place `i` of the fraction `s[from..]`.
fn fraction_place(s: &[char], from: usize, i: usize) -> (d: u64)
    requires
        from <= s.len(),
    ensures
        d as nat == fraction_digit(s@.subrange(from as int, s.len() as int), i as int),
        d < 16,
{
    if i < s.len() - from {
        assert(s@.subrange(from as int, s.len() as int)[i as int] == s@[from + i]);
        match digit_value(s[from + i]) {
            Some(d) => d as u64,
            None => 0,
        }
    } else {
        0
    }
}

/// Reads a time in seconds and gives it in milliseconds.
pub fn parse_millis(s: &[char]) -> (r: Option<u32>)
    ensures
        r == millis_of(s@),
{
    let negative = s.len() > 0 && s[0] == '-';
    let from: usize = if s.len() > 0 && (s[0] == '+' || s[0] == '-') {
        1
    } else {
        0
    };
    let ghost body = signed_body(s@);
    assert(s@.subrange(from as int, s.len() as int) =~= body);
    let dot = find_char(s, from, s.len(), '.');
    let after: usize = if dot < s.len() {
        dot + 1
    } else {
        dot
    };
    let ghost whole = whole_part(body);
    let ghost fraction = fraction_part(body);
    proof {
        lemma_index_of_bounds(body, '.');
        assert(whole =~= s@.subrange(from as int, dot as int));
        assert(fraction =~= s@.subrange(after as int, s.len() as int));
    }
    if dot - from + (s.len() - after) == 0 {
        return None;
    }
    let seconds = match read_digits(s, from, dot, 10, 4_294_968) {
        Some(v) => v,
        None => {
            return None;
        },
    };
    if read_digits(s, after, s.len(), 10, 0).is_none() {
        return None;
    }
    if negative {
        return Some(0);
    }
    let tenths = fraction_place(s, after, 0);
    let hundredths = fraction_place(s, after, 1);
    let thousandths = fraction_place(s, after, 2);
    let part: u64 = tenths * 100 + hundredths * 10 + thousandths;
    let total: u64 = seconds * 1000 + part;
    if total > 0xffff_ffff {
        Some(0xffff_ffff)
    } else {
        Some(total as u32)
    }
}

/// Reads 32 bits in hexadecimal as a signed number.
pub fn parse_hex_i32(s: &[char]) -> (r: Result<i32, ()>)
    ensures
        r is Ok == (hex_i32_of(s@) is Some),
        r is Ok ==> r->Ok_0 == hex_i32_of(s@)->0,
{
    match parse_u32(s, 16) {
        Some(u) => Ok(to_signed(u)),
        None => Err(()),
    }
}

/// Reads the sub-type and the value of an event report. The type of the
/// event is not needed to tell the events of the table apart.
pub fn parse_input_event_name(_ev_type: &[char], ev_sub_type: &[char], ev_value: &[char]) -> (r:
    Result<Option<InputEvent>, ()>)
    ensures
        r == event_of(ev_sub_type@, ev_value@),
{
    if is_word(ev_sub_type, "BTN_TOUCH") {
        match TouchType::from_chars(ev_value) {
            Ok(t) => Ok(Some(InputEvent::BtnTouch(t))),
            Err(_) => Err(()),
        }
    } else if is_word(ev_sub_type, "ABS_MT_TRACKING_ID") {
        match parse_hex_i32(ev_value) {
            Ok(v) => Ok(Some(InputEvent::AbsMtTrackingId(v))),
            Err(_) => Err(()),
        }
    } else if is_word(ev_sub_type, "ABS_MT_SLOT") {
        match parse_hex_i32(ev_value) {
            Ok(v) => Ok(Some(InputEvent::AbsMtSlot(v))),
            Err(_) => Err(()),
        }
    } else if is_word(ev_sub_type, "ABS_MT_POSITION_X") {
        match parse_hex_i32(ev_value) {
            Ok(v) => Ok(Some(InputEvent::AbsMtPosX(v))),
            Err(_) => Err(()),
        }
    } else if is_word(ev_sub_type, "ABS_MT_POSITION_Y") {
        match parse_hex_i32(ev_value) {
            Ok(v) => Ok(Some(InputEvent::AbsMtPosY(v))),
            Err(_) => Err(()),
        }
    } else if is_word(ev_sub_type, "KEY_POWER") {
        match TouchType::from_chars(ev_value) {
            Ok(t) => Ok(Some(InputEvent::KeyPower(t))),
            Err(_) => Err(()),
        }
    } else {
        Ok(None)
    }
}

/// The token at place `i`.
fn token_at<'b>(chars: &'b [char], spans: &Vec<(usize, usize)>, i: usize) -> (r: &'b [char])
    requires
        are_token_spans(Whitespace::Ascii, spans@, chars@),
        i < spans.len(),
    ensures
        r@ == tokens(Whitespace::Ascii, chars@)[i as int],
{
    let (from, to) = spans[i];
    &chars[from..to]
}

/// The token at place `i` without the run of `c` at its end.
fn token_trimmed_at<'b>(chars: &'b [char], spans: &Vec<(usize, usize)>, i: usize, c: char) -> (r:
    &'b [char])
    requires
        are_token_spans(Whitespace::Ascii, spans@, chars@),
        i < spans.len(),
    ensures
        r@ == trim_end(tokens(Whitespace::Ascii, chars@)[i as int], c),
{
    let token = token_at(chars, spans, i);
    let end = trimmed_end(token, 0, c);
    assert(token@.skip(0) =~= token@);
    &token[0..end]
}

impl<'a> ParsedGetEventOutput<'a> {
    /// Reads the number of the event stream from a device path.
    pub fn parse_input_event_name(event_str: &[char]) -> (r: Result<i32, ()>)
        ensures
            r is Ok == (event_number_of(event_str@) is Some),
            r is Ok ==> r->Ok_0 == event_number_of(event_str@)->0,
    {
        let prefix = chars_of("/dev/input/event");
        if event_str.len() < prefix.len() {
            return Err(());
        }
        if !is_word(&event_str[0..prefix.len()], "/dev/input/event") {
            return Err(());
        }
        assert(event_str@.subrange(0, prefix.len() as int) =~= event_str@.take(
            prefix.len() as int,
        ));
        assert(event_str@.subrange(prefix.len() as int, event_str.len() as int)
            =~= event_str@.skip(prefix.len() as int));
        match parse_i32(&event_str[prefix.len()..event_str.len()]) {
            Some(n) => Ok(n),
            None => Err(()),
        }
    }

    /// Reads one line of the capture stream. `Ok(None)` is a line that says
    /// nothing; `Err` is a line of a known shape that is malformed. Neither
    /// ends the stream.
    pub fn try_from_str(s: &'a str) -> (r: Result<Option<Self>, ()>)
        ensures
            is_record(r, record_of(s@)),
    {
        let chars = chars_of(s);
        let spans = split_spans(Whitespace::Ascii, chars.as_slice());
        let ghost t = tokens(Whitespace::Ascii, s@);
        if spans.len() == 0 {
            return Ok(None);
        }
        let first = token_at(chars.as_slice(), &spans, 0);
        if is_word(first, "add") {
            if spans.len() < 4 {
                return Err(());
            }
            if !is_word(token_at(chars.as_slice(), &spans, 1), "device") {
                return Err(());
            }
            let device_nr = match parse_i32(token_trimmed_at(chars.as_slice(), &spans, 2, ':')) {
                Some(n) => n,
                None => {
                    return Err(());
                },
            };
            let event_nr = match Self::parse_input_event_name(
                token_at(chars.as_slice(), &spans, 3),
            ) {
                Ok(n) => n,
                Err(_) => {
                    return Err(());
                },
            };
            Ok(Some(ParsedGetEventOutput::AddDevice(DeviceWithEvent { device_nr, event_nr })))
        } else if is_word(first, "name:") {
            let behind = first_word_end(Whitespace::Ascii, chars.as_slice());
            let (from, to) = trimmed_span(Whitespace::Ascii, chars.as_slice(), behind);
            if from == to {
                return Err(());
            }
            let quoted = &chars.as_slice()[from..to];
            let start = trimmed_start(quoted, '"');
            let end = trimmed_end(quoted, start, '"');
            let name = s.substring_char(from + start, from + end);
            assert(name@ =~= trim_both(rest_of_line(s@), '"')) by {
                assert(quoted@.subrange(start as int, end as int) =~= s@.subrange(
                    from + start,
                    from + end,
                ));
            }
            Ok(Some(ParsedGetEventOutput::Name(name)))
        } else if is_word(first, "[") {
            if spans.len() < 6 {
                return Err(());
            }
            let timestamp_milliseconds = match parse_millis(
                token_trimmed_at(chars.as_slice(), &spans, 1, ']'),
            ) {
                Some(ms) => ms,
                None => {
                    return Err(());
                },
            };
            let event_nr = match Self::parse_input_event_name(
                token_trimmed_at(chars.as_slice(), &spans, 2, ':'),
            ) {
                Ok(n) => n,
                Err(_) => {
                    return Err(());
                },
            };
            let maybe_event = parse_input_event_name(
                token_at(chars.as_slice(), &spans, 3),
                token_at(chars.as_slice(), &spans, 4),
                token_at(chars.as_slice(), &spans, 5),
            );
            match maybe_event {
                Ok(Some(event)) => Ok(
                    Some(
                        ParsedGetEventOutput::Input(
                            InputEventInfo { timestamp_milliseconds, event_nr, event },
                        ),
                    ),
                ),
                Ok(None) => Ok(None),
                Err(_) => Err(()),
            }
        } else {
            Ok(None)
        }
    }
}

} // verus!
