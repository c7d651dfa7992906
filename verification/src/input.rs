//! The actions of a recording and the text format that keeps them: one action
//! per line, its time first, then its kind and the fields of that kind.

use crate::number::{
    append_decimal, append_left_aligned, append_signed, append_signed_field,
    append_unsigned_field, decimal, i32_of, pad_left, pad_right, parse_i32, parse_u32,
    signed_decimal, u32_of,
};
use crate::text::{
    trimmed, trimmed_span, Whitespace,
    chars_of, index_of, is_word, lemma_index_of_bounds, lemma_index_of_is, split_tokens, tokens,
    views,
};
use vstd::prelude::*;
use vstd::string::StringExecFns;

verus! {

/// An action and the time, in milliseconds from the start of the recording,
/// at which it began.
#[derive(Clone, Copy, Debug, PartialEq, Eq)]
pub struct InputWithTimestamp {
    pub input: Input,
    pub timestamp_milliseconds: u32,
}

#[derive(Clone, Copy, Debug, PartialEq, Eq)]
pub enum Input {
    Tap(Tap),
    Swipe(Swipe),
    Key(Key),
}

#[derive(Clone, Copy, Debug, PartialEq, Eq)]
pub struct Tap {
    pub x: i32,
    pub y: i32,
}

/// A touch that moved or lasted: `x[0]`, `y[0]` is where it went down,
/// `x[1]`, `y[1]` where it came up.
#[derive(Clone, Copy, Debug, PartialEq, Eq)]
pub struct Swipe {
    pub x: [i32; 2],
    pub y: [i32; 2],
    pub milliseconds: u32,
}

#[derive(Clone, Copy, Debug, PartialEq, Eq)]
pub enum Key {
    Power,
    Back,
    Home,
    Menu,
}

/// `a`, one space, `b`.
pub open spec fn joined(a: Seq<char>, b: Seq<char>) -> Seq<char> {
    a + seq![' '] + b
}

/// Appending two fields with a space between is appending the two joined.
pub proof fn lemma_joined_appended(before: Seq<char>, a: Seq<char>, b: Seq<char>)
    ensures
        before + a + seq![' '] + b == before + joined(a, b),
{
    assert(before + a + seq![' '] + b =~= before + joined(a, b));
}

impl Key {
    /// The symbolic name of the key code.
    pub open spec fn text(self) -> Seq<char> {
        match self {
            Key::Power => "KEYCODE_POWER"@,
            Key::Back => "KEYCODE_BACK"@,
            Key::Home => "KEYCODE_HOME"@,
            Key::Menu => "KEYCODE_MENU"@,
        }
    }

    /// The key whose symbolic name `name` is.
    pub open spec fn named(name: Seq<char>) -> Option<Key> {
        if name == "KEYCODE_POWER"@ {
            Some(Key::Power)
        } else if name == "KEYCODE_BACK"@ {
            Some(Key::Back)
        } else if name == "KEYCODE_HOME"@ {
            Some(Key::Home)
        } else if name == "KEYCODE_MENU"@ {
            Some(Key::Menu)
        } else {
            None
        }
    }

    /// The key that the fields of a `keyevent` line name: one field, a key
    /// code's symbolic name.
    pub open spec fn of_fields(fields: Seq<Seq<char>>) -> Option<Key> {
        if fields.len() == 1 {
            Key::named(fields[0])
        } else {
            None
        }
    }

    pub fn append_to(&self, out: &mut String)
        ensures
            final(out)@ == old(out)@ + self.text(),
    {
        match self {
            Key::Power => out.append("KEYCODE_POWER"),
            Key::Back => out.append("KEYCODE_BACK"),
            Key::Home => out.append("KEYCODE_HOME"),
            Key::Menu => out.append("KEYCODE_MENU"),
        }
    }

    pub fn to_string(&self) -> (r: String)
        ensures
            r@ == self.text(),
    {
        let mut out = String::new();
        self.append_to(&mut out);
        assert(out@ =~= self.text());
        out
    }

    /// The key that `name` names.
    pub(crate) fn from_name(name: &[char]) -> (r: Option<Key>)
        ensures
            r == Key::named(name@),
    {
        if is_word(name, "KEYCODE_POWER") {
            Some(Key::Power)
        } else if is_word(name, "KEYCODE_BACK") {
            Some(Key::Back)
        } else if is_word(name, "KEYCODE_HOME") {
            Some(Key::Home)
        } else if is_word(name, "KEYCODE_MENU") {
            Some(Key::Menu)
        } else {
            None
        }
    }

    /// Reads the fields `fields[from..]` of a `keyevent` line.
    pub(crate) fn from_tokens(fields: &Vec<Vec<char>>, from: usize) -> (r: Option<Key>)
        requires
            from <= fields.len(),
        ensures
            r == Key::of_fields(views(fields@).skip(from as int)),
    {
        if fields.len() - from != 1 {
            return None;
        }
        assert(views(fields@).skip(from as int)[0] == fields[from as int]@);
        Key::from_name(fields[from].as_slice())
    }

    /// Reads a key code's symbolic name. Whitespace at both ends of the text
    /// is passed over; what is left has to be the name, letter for letter.
    pub fn from_str(s: &str) -> (r: Result<Key, ()>)
        ensures
            r == to_result(Key::named(trimmed(Whitespace::Unicode, s@))),
    {
        let chars = chars_of(s);
        let (from, to) = trimmed_span(Whitespace::Unicode, chars.as_slice(), 0);
        assert(chars@.skip(0) =~= s@);
        option_to_result(Key::from_name(&chars.as_slice()[from..to]))
    }
}

impl Tap {
    /// The two coordinates, each at the right end of four characters.
    pub open spec fn text(self) -> Seq<char> {
        joined(
            pad_left(signed_decimal(self.x as int), 4),
            pad_left(signed_decimal(self.y as int), 4),
        )
    }

    /// The tap that the fields of a `tap` line give: two signed numbers.
    pub open spec fn of_fields(fields: Seq<Seq<char>>) -> Option<Tap> {
        if fields.len() == 2 && i32_of(fields[0]) is Some && i32_of(fields[1]) is Some {
            Some(Tap { x: i32_of(fields[0])->0, y: i32_of(fields[1])->0 })
        } else {
            None
        }
    }

    pub fn append_to(&self, out: &mut String)
        ensures
            final(out)@ == old(out)@ + self.text(),
    {
        append_signed_field(out, self.x, 4);
        out.append(" ");
        append_signed_field(out, self.y, 4);
        proof {
            reveal_strlit(" ");
            assert(" "@ =~= seq![' ']);
            lemma_joined_appended(
                old(out)@,
                pad_left(signed_decimal(self.x as int), 4),
                pad_left(signed_decimal(self.y as int), 4),
            );
        }
    }

    pub fn to_string(&self) -> (r: String)
        ensures
            r@ == self.text(),
    {
        let mut out = String::new();
        self.append_to(&mut out);
        assert(out@ =~= self.text());
        out
    }

    /// Reads the fields `fields[from..]` of a `tap` line.
    pub(crate) fn from_tokens(fields: &Vec<Vec<char>>, from: usize) -> (r: Option<Tap>)
        requires
            from <= fields.len(),
        ensures
            r == Tap::of_fields(views(fields@).skip(from as int)),
    {
        if fields.len() - from != 2 {
            return None;
        }
        let ghost f = views(fields@).skip(from as int);
        assert(f[0] == fields[from as int]@);
        assert(f[1] == fields[from + 1]@);
        let x = match parse_i32(fields[from].as_slice()) {
            Some(x) => x,
            None => {
                return None;
            },
        };
        let y = match parse_i32(fields[from + 1].as_slice()) {
            Some(y) => y,
            None => {
                return None;
            },
        };
        Some(Tap { x, y })
    }

    /// Reads two coordinates separated by whitespace.
    pub fn from_str(s: &str) -> (r: Result<Tap, ()>)
        ensures
            r == to_result(Tap::of_fields(tokens(Whitespace::Unicode, s@))),
    {
        let chars = chars_of(s);
        let fields = split_tokens(Whitespace::Unicode, chars.as_slice());
        assert(views(fields@).skip(0) =~= tokens(Whitespace::Unicode, s@));
        option_to_result(Tap::from_tokens(&fields, 0))
    }
}

impl Swipe {
    /// Start, end and duration, each at the right end of four characters.
    pub open spec fn text(self) -> Seq<char> {
        joined(
            pad_left(signed_decimal(self.x[0] as int), 4),
            joined(
                pad_left(signed_decimal(self.y[0] as int), 4),
                joined(
                    pad_left(signed_decimal(self.x[1] as int), 4),
                    joined(
                        pad_left(signed_decimal(self.y[1] as int), 4),
                        pad_left(decimal(self.milliseconds as nat), 4),
                    ),
                ),
            ),
        )
    }

    /// The swipe that the fields of a `swipe` line give: four signed numbers,
    /// start before end, and the duration.
    pub open spec fn of_fields(fields: Seq<Seq<char>>) -> Option<Swipe> {
        if fields.len() == 5 && i32_of(fields[0]) is Some && i32_of(fields[1]) is Some && i32_of(
            fields[2],
        ) is Some && i32_of(fields[3]) is Some && u32_of(fields[4], 10) is Some {
            Some(
                Swipe {
                    x: [i32_of(fields[0])->0, i32_of(fields[2])->0],
                    y: [i32_of(fields[1])->0, i32_of(fields[3])->0],
                    milliseconds: u32_of(fields[4], 10)->0,
                },
            )
        } else {
            None
        }
    }

    pub fn append_to(&self, out: &mut String)
        ensures
            final(out)@ == old(out)@ + self.text(),
    {
        let ghost x0 = pad_left(signed_decimal(self.x[0] as int), 4);
        let ghost y0 = pad_left(signed_decimal(self.y[0] as int), 4);
        let ghost x1 = pad_left(signed_decimal(self.x[1] as int), 4);
        let ghost y1 = pad_left(signed_decimal(self.y[1] as int), 4);
        let ghost ms = pad_left(decimal(self.milliseconds as nat), 4);
        let ghost sp = seq![' '];
        proof {
            reveal_strlit(" ");
            assert(" "@ =~= sp);
        }
        append_signed_field(out, self.x[0], 4);
        out.append(" ");
        append_signed_field(out, self.y[0], 4);
        out.append(" ");
        append_signed_field(out, self.x[1], 4);
        out.append(" ");
        append_signed_field(out, self.y[1], 4);
        out.append(" ");
        append_unsigned_field(out, self.milliseconds as u64, 4);
        proof {
            let o = old(out)@;
            lemma_joined_appended(o + x0 + sp + y0 + sp + x1 + sp, y1, ms);
            lemma_joined_appended(o + x0 + sp + y0 + sp, x1, joined(y1, ms));
            lemma_joined_appended(o + x0 + sp, y0, joined(x1, joined(y1, ms)));
            lemma_joined_appended(o, x0, joined(y0, joined(x1, joined(y1, ms))));
        }
    }

    pub fn to_string(&self) -> (r: String)
        ensures
            r@ == self.text(),
    {
        let mut out = String::new();
        self.append_to(&mut out);
        assert(out@ =~= self.text());
        out
    }

    /// Reads the fields `fields[from..]` of a `swipe` line.
    pub(crate) fn from_tokens(fields: &Vec<Vec<char>>, from: usize) -> (r: Option<Swipe>)
        requires
            from <= fields.len(),
        ensures
            r == Swipe::of_fields(views(fields@).skip(from as int)),
    {
        if fields.len() - from != 5 {
            return None;
        }
        let ghost f = views(fields@).skip(from as int);
        assert(f[0] == fields[from as int]@);
        assert(f[1] == fields[from + 1]@);
        assert(f[2] == fields[from + 2]@);
        assert(f[3] == fields[from + 3]@);
        assert(f[4] == fields[from + 4]@);
        let x0 = match parse_i32(fields[from].as_slice()) {
            Some(v) => v,
            None => {
                return None;
            },
        };
        let y0 = match parse_i32(fields[from + 1].as_slice()) {
            Some(v) => v,
            None => {
                return None;
            },
        };
        let x1 = match parse_i32(fields[from + 2].as_slice()) {
            Some(v) => v,
            None => {
                return None;
            },
        };
        let y1 = match parse_i32(fields[from + 3].as_slice()) {
            Some(v) => v,
            None => {
                return None;
            },
        };
        let ms = match parse_u32(fields[from + 4].as_slice(), 10) {
            Some(v) => v,
            None => {
                return None;
            },
        };
        Some(Swipe { x: [x0, x1], y: [y0, y1], milliseconds: ms })
    }

    /// Reads five numbers separated by whitespace.
    pub fn from_str(s: &str) -> (r: Result<Swipe, ()>)
        ensures
            r == to_result(Swipe::of_fields(tokens(Whitespace::Unicode, s@))),
    {
        let chars = chars_of(s);
        let fields = split_tokens(Whitespace::Unicode, chars.as_slice());
        assert(views(fields@).skip(0) =~= tokens(Whitespace::Unicode, s@));
        option_to_result(Swipe::from_tokens(&fields, 0))
    }
}

impl Input {
    /// The kind, at the left end of six characters, then the fields. This is
    /// also the command that replays the action.
    pub open spec fn text(self) -> Seq<char> {
        match self {
            Input::Tap(t) => joined(pad_right("tap"@, 6), t.text()),
            Input::Swipe(s) => joined(pad_right("swipe"@, 6), s.text()),
            Input::Key(k) => joined(pad_right("keyevent"@, 6), k.text()),
        }
    }

    /// The action that the tokens of a command give: the kind first, then
    /// exactly the fields of that kind.
    pub open spec fn of_tokens(toks: Seq<Seq<char>>) -> Option<Input> {
        if toks.len() == 0 {
            None
        } else if toks[0] == "tap"@ {
            match Tap::of_fields(toks.skip(1)) {
                Some(t) => Some(Input::Tap(t)),
                None => None,
            }
        } else if toks[0] == "swipe"@ {
            match Swipe::of_fields(toks.skip(1)) {
                Some(s) => Some(Input::Swipe(s)),
                None => None,
            }
        } else if toks[0] == "keyevent"@ {
            match Key::of_fields(toks.skip(1)) {
                Some(k) => Some(Input::Key(k)),
                None => None,
            }
        } else {
            None
        }
    }

    /// The words of the command that replays the action: the kind, then
    /// each field without padding.
    pub open spec fn words(self) -> Seq<Seq<char>> {
        match self {
            Input::Tap(t) => seq![
                "tap"@,
                signed_decimal(t.x as int),
                signed_decimal(t.y as int),
            ],
            Input::Swipe(s) => seq![
                "swipe"@,
                signed_decimal(s.x[0] as int),
                signed_decimal(s.y[0] as int),
                signed_decimal(s.x[1] as int),
                signed_decimal(s.y[1] as int),
                decimal(s.milliseconds as nat),
            ],
            Input::Key(k) => seq!["keyevent"@, k.text()],
        }
    }

    /// The command that replays the action, word by word.
    pub fn command(&self) -> (args: Vec<String>)
        ensures
            args@.len() == self.words().len(),
            forall|i: int| 0 <= i < args@.len() ==> (#[trigger] args@[i])@ == self.words()[i],
    {
        let mut args: Vec<String> = Vec::new();
        match self {
            Input::Tap(t) => {
                args.push(String::from_str("tap"));
                args.push(signed_word(t.x));
                args.push(signed_word(t.y));
            },
            Input::Swipe(s) => {
                args.push(String::from_str("swipe"));
                args.push(signed_word(s.x[0]));
                args.push(signed_word(s.y[0]));
                args.push(signed_word(s.x[1]));
                args.push(signed_word(s.y[1]));
                let mut ms = String::new();
                append_decimal(&mut ms, s.milliseconds as u64);
                assert(ms@ =~= decimal(s.milliseconds as nat));
                args.push(ms);
            },
            Input::Key(k) => {
                args.push(String::from_str("keyevent"));
                args.push(k.to_string());
            },
        }
        args
    }

    pub fn append_to(&self, out: &mut String)
        ensures
            final(out)@ == old(out)@ + self.text(),
    {
        proof {
            reveal_strlit(" ");
            assert(" "@ =~= seq![' ']);
        }
        match self {
            Input::Tap(t) => {
                append_left_aligned(out, "tap", 6);
                out.append(" ");
                t.append_to(out);
                proof {
                    lemma_joined_appended(old(out)@, pad_right("tap"@, 6), t.text());
                }
            },
            Input::Swipe(s) => {
                append_left_aligned(out, "swipe", 6);
                out.append(" ");
                s.append_to(out);
                proof {
                    lemma_joined_appended(old(out)@, pad_right("swipe"@, 6), s.text());
                }
            },
            Input::Key(k) => {
                append_left_aligned(out, "keyevent", 6);
                out.append(" ");
                k.append_to(out);
                proof {
                    lemma_joined_appended(old(out)@, pad_right("keyevent"@, 6), k.text());
                }
            },
        }
    }

    pub fn to_string(&self) -> (r: String)
        ensures
            r@ == self.text(),
    {
        let mut out = String::new();
        self.append_to(&mut out);
        assert(out@ =~= self.text());
        out
    }

    /// Reads the tokens `toks[from..]` of a command.
    pub(crate) fn from_tokens(toks: &Vec<Vec<char>>, from: usize) -> (r: Option<Input>)
        requires
            from <= toks.len(),
        ensures
            r == Input::of_tokens(views(toks@).skip(from as int)),
    {
        if from == toks.len() {
            return None;
        }
        let ghost t = views(toks@).skip(from as int);
        assert(t[0] == toks[from as int]@);
        assert(t.skip(1) =~= views(toks@).skip(from + 1));
        let kind = toks[from].as_slice();
        if is_word(kind, "tap") {
            match Tap::from_tokens(toks, from + 1) {
                Some(t) => Some(Input::Tap(t)),
                None => None,
            }
        } else if is_word(kind, "swipe") {
            match Swipe::from_tokens(toks, from + 1) {
                Some(s) => Some(Input::Swipe(s)),
                None => None,
            }
        } else if is_word(kind, "keyevent") {
            match Key::from_tokens(toks, from + 1) {
                Some(k) => Some(Input::Key(k)),
                None => None,
            }
        } else {
            None
        }
    }

    /// Reads a command: a kind and its fields, separated by whitespace.
    pub fn from_str(s: &str) -> (r: Result<Input, ()>)
        ensures
            r == to_result(Input::of_tokens(tokens(Whitespace::Unicode, s@))),
    {
        let chars = chars_of(s);
        let toks = split_tokens(Whitespace::Unicode, chars.as_slice());
        assert(views(toks@).skip(0) =~= tokens(Whitespace::Unicode, s@));
        option_to_result(Input::from_tokens(&toks, 0))
    }
}

impl InputWithTimestamp {
    /// A line of a recording, without its line end: the time at the right end
    /// of six characters, then the action.
    pub open spec fn text(self) -> Seq<char> {
        joined(pad_left(decimal(self.timestamp_milliseconds as nat), 6), self.input.text())
    }

    /// The timed action that the tokens of a line give: the time first, then
    /// exactly the tokens of one action.
    pub open spec fn of_tokens(toks: Seq<Seq<char>>) -> Option<InputWithTimestamp> {
        if toks.len() > 0 && u32_of(toks[0], 10) is Some && Input::of_tokens(toks.skip(1)) is Some {
            Some(
                InputWithTimestamp {
                    input: Input::of_tokens(toks.skip(1))->0,
                    timestamp_milliseconds: u32_of(toks[0], 10)->0,
                },
            )
        } else {
            None
        }
    }

    pub fn append_to(&self, out: &mut String)
        ensures
            final(out)@ == old(out)@ + self.text(),
    {
        append_unsigned_field(out, self.timestamp_milliseconds as u64, 6);
        out.append(" ");
        self.input.append_to(out);
        proof {
            reveal_strlit(" ");
            assert(" "@ =~= seq![' ']);
            lemma_joined_appended(
                old(out)@,
                pad_left(decimal(self.timestamp_milliseconds as nat), 6),
                self.input.text(),
            );
        }
    }

    pub fn to_string(&self) -> (r: String)
        ensures
            r@ == self.text(),
    {
        let mut out = String::new();
        self.append_to(&mut out);
        assert(out@ =~= self.text());
        out
    }

    /// Reads the tokens of a line.
    pub(crate) fn from_tokens(toks: &Vec<Vec<char>>) -> (r: Option<InputWithTimestamp>)
        ensures
            r == InputWithTimestamp::of_tokens(views(toks@)),
    {
        if toks.len() == 0 {
            return None;
        }
        assert(views(toks@)[0] == toks[0]@);
        let timestamp_milliseconds = match parse_u32(toks[0].as_slice(), 10) {
            Some(t) => t,
            None => {
                return None;
            },
        };
        match Input::from_tokens(toks, 1) {
            Some(input) => Some(InputWithTimestamp { input, timestamp_milliseconds }),
            None => None,
        }
    }

    /// Reads one line of a recording. The fields may be separated, and the
    /// line surrounded, by any amount of whitespace.
    pub fn from_str(s: &str) -> (r: Result<InputWithTimestamp, ()>)
        ensures
            r == to_result(InputWithTimestamp::of_tokens(tokens(Whitespace::Unicode, s@))),
    {
        let chars = chars_of(s);
        let toks = split_tokens(Whitespace::Unicode, chars.as_slice());
        option_to_result(InputWithTimestamp::from_tokens(&toks))
    }
}

/// Length of the first line of `s`, its line end not counted.
pub open spec fn line_len(s: Seq<char>) -> nat {
    index_of(s, '\n')
}

/// What follows the first line of `s` and its line end.
pub open spec fn after_line(s: Seq<char>) -> Seq<char> {
    if line_len(s) < s.len() {
        s.skip(line_len(s) as int + 1)
    } else {
        Seq::empty()
    }
}

/// The text of a recording: each action on a line of its own, in order, each
/// line ended by a line feed.
pub open spec fn recording_text(actions: Seq<InputWithTimestamp>) -> Seq<char>
    decreases actions.len(),
{
    if actions.len() == 0 {
        Seq::empty()
    } else {
        actions[0].text() + seq!['\n'] + recording_text(actions.skip(1))
    }
}

/// `first` in front of what `rest` holds, where it holds anything.
pub open spec fn prepend<T>(first: Seq<T>, rest: Option<Seq<T>>) -> Option<Seq<T>> {
    match rest {
        Some(r) => Some(first + r),
        None => None,
    }
}

/// The recording that a text holds: the timed actions of its lines, in
/// order. The tokens of a line are separated by whitespace as Unicode
/// defines it. A line without a token counts for nothing; any other line has
/// to be a timed action, or the text holds no recording at all.
pub open spec fn recording_of(text: Seq<char>) -> Option<Seq<InputWithTimestamp>>
    decreases text.len(),
    via recording_of_decreases
{
    if text.len() == 0 {
        Some(Seq::empty())
    } else {
        let toks = tokens(Whitespace::Unicode, text.take(line_len(text) as int));
        if toks.len() == 0 {
            recording_of(after_line(text))
        } else {
            match InputWithTimestamp::of_tokens(toks) {
                Some(action) => prepend(seq![action], recording_of(after_line(text))),
                None => None,
            }
        }
    }
}

#[via_fn]
proof fn recording_of_decreases(text: Seq<char>) {
    lemma_index_of_bounds(text, '\n');
}

/// The text of a recording with one more action is the text of the recording,
/// then the line of that action.
pub proof fn lemma_recording_text_push(actions: Seq<InputWithTimestamp>, last: InputWithTimestamp)
    ensures
        recording_text(actions.push(last)) == recording_text(actions) + last.text() + seq!['\n'],
    decreases actions.len(),
{
    let all = actions.push(last);
    let line = last.text() + seq!['\n'];
    if actions.len() == 0 {
        assert(all.skip(1) =~= Seq::<InputWithTimestamp>::empty());
        assert(recording_text(all.skip(1)) =~= Seq::<char>::empty());
        assert(recording_text(actions) =~= Seq::<char>::empty());
        assert(recording_text(all) == all[0].text() + seq!['\n'] + recording_text(all.skip(1)));
        assert(recording_text(all) =~= recording_text(actions) + last.text() + seq!['\n']);
    } else {
        assert(all.skip(1) =~= actions.skip(1).push(last));
        lemma_recording_text_push(actions.skip(1), last);
        let head = actions[0].text() + seq!['\n'];
        let mid = recording_text(actions.skip(1));
        assert(all[0] == actions[0]);
        assert(recording_text(all) == head + (mid + last.text() + seq!['\n']));
        assert(recording_text(actions) == head + mid);
        assert(head + (mid + last.text() + seq!['\n']) =~= head + mid + last.text() + seq!['\n']);
    }
}

/// Writes the recording to `writer` as UTF-8 text, one line per action.
pub fn serialize_inputs(inputs: &[InputWithTimestamp], writer: &mut Vec<u8>)
    ensures
        final(writer)@ == old(writer)@ + vstd::utf8::encode_utf8(recording_text(inputs@)),
{
    let mut text = String::new();
    serialize_inputs_fmt(inputs, &mut text);
    assert(text@ =~= recording_text(inputs@));
    writer.extend_from_slice(text.as_str().as_bytes());
}

/// Writes the recording to `writer`, one line per action.
pub fn serialize_inputs_fmt(inputs: &[InputWithTimestamp], writer: &mut String)
    ensures
        final(writer)@ == old(writer)@ + recording_text(inputs@),
{
    let mut i: usize = 0;
    assert(inputs@.take(0) =~= Seq::<InputWithTimestamp>::empty());
    assert(writer@ =~= old(writer)@ + recording_text(inputs@.take(0)));
    while i < inputs.len()
        invariant
            i <= inputs.len(),
            writer@ == old(writer)@ + recording_text(inputs@.take(i as int)),
        decreases inputs.len() - i,
    {
        proof {
            reveal_strlit("\n");
            lemma_recording_text_push(inputs@.take(i as int), inputs@[i as int]);
            assert(inputs@.take(i + 1) =~= inputs@.take(i as int).push(inputs@[i as int]));
        }
        inputs[i].append_to(writer);
        writer.append("\n");
        i += 1;
        assert(writer@ =~= old(writer)@ + recording_text(inputs@.take(i as int)));
    }
    assert(inputs@.take(i as int) =~= inputs@);
}

/// Reads a recording. Every line that holds anything but whitespace has to
/// be a timed action: one that is not fails the whole read, and nothing of the
/// text is returned.
pub fn deser_inputs_fmt(reader: &str) -> (r: Result<Vec<InputWithTimestamp>, ()>)
    ensures
        match recording_of(reader@) {
            Some(actions) => r is Ok && r->Ok_0@ == actions,
            None => r is Err,
        },
{
    let chars = chars_of(reader);
    let mut res: Vec<InputWithTimestamp> = Vec::new();
    let mut pos: usize = 0;
    assert(chars@.skip(0) =~= chars@);
    assert(res@ + recording_of(chars@)->0 =~= recording_of(chars@)->0);
    while pos < chars.len()
        invariant
            pos <= chars.len(),
            chars@ == reader@,
            recording_of(chars@) == prepend(res@, recording_of(chars@.skip(pos as int))),
        decreases chars.len() - pos,
    {
        let ghost rest = chars@.skip(pos as int);
        let start: usize = pos;
        let mut line: Vec<char> = Vec::new();
        while pos < chars.len() && chars[pos] != '\n'
            invariant
                start <= pos <= chars.len(),
                line@ == chars@.subrange(start as int, pos as int),
                forall|i: int| start <= i < pos ==> #[trigger] chars@[i] != '\n',
            decreases chars.len() - pos,
        {
            line.push(chars[pos]);
            pos += 1;
            assert(line@ =~= chars@.subrange(start as int, pos as int));
        }
        proof {
            let n = (pos - start) as nat;
            assert forall|i: int| 0 <= i < n implies #[trigger] rest[i] != '\n' by {
                assert(rest[i] == chars@[start + i]);
            }
            if n < rest.len() {
                assert(rest[n as int] == chars@[pos as int]);
            }
            lemma_index_of_is(rest, '\n', n);
            assert(rest.take(n as int) =~= line@);
        }
        if pos < chars.len() {
            pos += 1;
            assert(after_line(rest) =~= chars@.skip(pos as int));
        } else {
            assert(after_line(rest) =~= chars@.skip(pos as int));
        }
        let toks = split_tokens(Whitespace::Unicode, line.as_slice());
        if toks.len() > 0 {
            match InputWithTimestamp::from_tokens(&toks) {
                Some(action) => {
                    proof {
                        let tail = recording_of(chars@.skip(pos as int));
                        if tail is Some {
                            assert(res@.push(action) + tail->0 =~= res@ + (seq![action]
                                + tail->0));
                        }
                    }
                    res.push(action);
                },
                None => {
                    return Err(());
                },
            }
        }
    }
    proof {
        assert(chars@.skip(pos as int) =~= Seq::<char>::empty());
        assert(res@ + Seq::<InputWithTimestamp>::empty() =~= res@);
    }
    Ok(res)
}

/// One line of a recording with its place in the recording in front: the
/// index at the right end of three characters, then the line.
pub open spec fn numbered_text(index: nat, action: InputWithTimestamp) -> Seq<char> {
    joined(pad_left(decimal(index), 3), action.text())
}

/// The lines of a recording as they are shown, each with its index.
pub struct InputStrings(pub Vec<String>);

impl InputStrings {
    /// The lines of `inputs` as they are shown, in order.
    pub fn from_inputs(inputs: &[InputWithTimestamp]) -> (r: Self)
        ensures
            r.0@.len() == inputs@.len(),
            forall|i: int|
                0 <= i < inputs@.len() ==> (#[trigger] r.0@[i])@ == numbered_text(
                    i as nat,
                    inputs@[i],
                ),
    {
        let mut res: Vec<String> = Vec::new();
        let mut index: usize = 0;
        while index < inputs.len()
            invariant
                index <= inputs.len(),
                res@.len() == index,
                forall|i: int|
                    0 <= i < index ==> (#[trigger] res@[i])@ == numbered_text(i as nat, inputs@[i]),
            decreases inputs.len() - index,
        {
            let mut line = String::new();
            append_unsigned_field(&mut line, index as u64, 3);
            line.append(" ");
            inputs[index].append_to(&mut line);
            proof {
                reveal_strlit(" ");
                assert(" "@ =~= seq![' ']);
                lemma_joined_appended(
                    Seq::empty(),
                    pad_left(decimal(index as nat), 3),
                    inputs@[index as int].text(),
                );
                assert(line@ =~= Seq::<char>::empty() + numbered_text(
                    index as nat,
                    inputs@[index as int],
                ));
            }
            res.push(line);
            index += 1;
        }
        InputStrings(res)
    }
}

/// Success with the value, or the format error where there is none.
pub open spec fn to_result<T>(o: Option<T>) -> Result<T, ()> {
    match o {
        Some(v) => Ok(v),
        None => Err(()),
    }
}

/// `n` in decimal, as a string of its own.
fn signed_word(n: i32) -> (r: String)
    ensures
        r@ == signed_decimal(n as int),
{
    let mut word = String::new();
    append_signed(&mut word, n as i64);
    assert(word@ =~= signed_decimal(n as int));
    word
}

fn option_to_result<T>(o: Option<T>) -> (r: Result<T, ()>)
    ensures
        r == to_result(o),
{
    match o {
        Some(v) => Ok(v),
        None => Err(()),
    }
}

} // verus!
