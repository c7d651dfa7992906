//! What holds of the text of every recording: what is written can be read
//! back, and a text with a line that is no action holds no recording.

use crate::input::{
    after_line, joined, line_len, recording_of, recording_text, Input,
    InputWithTimestamp, Key, Swipe, Tap,
};
use crate::number::{
    decimal, i32_of, is_digit, lemma_decimal_value, number_value, pad_left, pad_right,
    signed_body, signed_decimal, spaces, u32_of, unsigned_body,
};
use crate::text::{
    lemma_only_token_is_trimmed, lemma_token_has_nothing_to_trim, trimmed, Whitespace,
    index_of, is_space, is_token, lemma_index_of_bounds, lemma_index_of_is,
    lemma_tokens_after_spaces, lemma_tokens_after_word, lemma_tokens_of_word,
    tokens,
};
use vstd::prelude::*;

verus! {

/// The decimal digits of a number hold no whitespace and no line feed.
pub proof fn lemma_decimal_is_token(kind: Whitespace, n: nat)
    ensures
        is_token(kind, decimal(n)),
        forall|i: int| 0 <= i < decimal(n).len() ==> #[trigger] decimal(n)[i] != '\n',
        decimal(n)[0] != '+',
        decimal(n)[0] != '-',
{
    lemma_decimal_value(n);
    let s = decimal(n);
    assert forall|i: int| 0 <= i < s.len() implies !is_space(kind, #[trigger] s[i]) && s[i] != '\n' by {
        assert(is_digit(s[i], 10));
    }
    assert(is_digit(s[0], 10));
}

/// A signed decimal number holds no whitespace and no line feed.
pub proof fn lemma_signed_is_token(kind: Whitespace, n: int)
    ensures
        is_token(kind, signed_decimal(n)),
        forall|i: int|
            0 <= i < signed_decimal(n).len() ==> #[trigger] signed_decimal(n)[i] != '\n',
{
    let s = signed_decimal(n);
    if n < 0 {
        let d = decimal((-n) as nat);
        lemma_decimal_is_token(kind, (-n) as nat);
        assert forall|i: int| 0 <= i < s.len() implies !is_space(kind, #[trigger] s[i]) && s[i]
            != '\n' by {
            if i > 0 {
                assert(s[i] == d[i - 1]);
            }
        }
    } else {
        lemma_decimal_is_token(kind, n as nat);
    }
}

/// An unsigned number written in decimal reads as that number.
pub proof fn lemma_u32_read_back(n: u32)
    ensures
        u32_of(decimal(n as nat), 10) == Some(n),
{
    lemma_decimal_value(n as nat);
    lemma_decimal_is_token(Whitespace::Unicode, n as nat);
    assert(unsigned_body(decimal(n as nat)) == decimal(n as nat));
}

/// A signed number written in decimal reads as that number.
pub proof fn lemma_i32_read_back(n: i32)
    ensures
        i32_of(signed_decimal(n as int)) == Some(n),
{
    let s = signed_decimal(n as int);
    if n < 0 {
        let d = decimal((-n) as nat);
        lemma_decimal_value((-n) as nat);
        assert(s[0] == '-');
        assert(signed_body(s) =~= d);
        assert(number_value(d, 10) == -n);
    } else {
        lemma_decimal_value(n as nat);
        lemma_decimal_is_token(Whitespace::Unicode, n as nat);
        assert(signed_body(s) == s);
    }
}

/// A token at the right end of its field, a space and more text: the token
/// comes first, then the tokens of the rest.
pub proof fn lemma_tokens_right_aligned(kind: Whitespace, w: Seq<char>, width: nat, rest: Seq<char>)
    requires
        is_token(kind, w),
    ensures
        tokens(kind, joined(pad_left(w, width), rest)) == seq![w] + tokens(kind, rest),
{
    let tail = seq![' '] + rest;
    assert(is_space(kind, tail[0]));
    lemma_tokens_after_word(kind, w, tail);
    lemma_tokens_after_spaces(kind, seq![' '], rest);
    if w.len() < width {
        let blank = spaces((width - w.len()) as nat);
        lemma_tokens_after_spaces(kind, blank, w + tail);
        assert(joined(pad_left(w, width), rest) =~= blank + (w + tail));
    } else {
        assert(joined(pad_left(w, width), rest) =~= w + tail);
    }
}

/// A token at the left end of its field, a space and more text: the token
/// comes first, then the tokens of the rest.
pub proof fn lemma_tokens_left_aligned(kind: Whitespace, w: Seq<char>, width: nat, rest: Seq<char>)
    requires
        is_token(kind, w),
    ensures
        tokens(kind, joined(pad_right(w, width), rest)) == seq![w] + tokens(kind, rest),
{
    let blank = if w.len() < width {
        spaces((width - w.len()) as nat) + seq![' ']
    } else {
        seq![' ']
    };
    let tail = blank + rest;
    assert(is_space(kind, tail[0])) by {
        assert(tail[0] == blank[0]);
    }
    lemma_tokens_after_word(kind, w, tail);
    lemma_tokens_after_spaces(kind, blank, rest);
    assert(joined(pad_right(w, width), rest) =~= w + tail);
}

/// A token at the right end of its field is the only token there.
pub proof fn lemma_tokens_last_field(kind: Whitespace, w: Seq<char>, width: nat)
    requires
        is_token(kind, w),
    ensures
        tokens(kind, pad_left(w, width)) == seq![w],
{
    lemma_tokens_of_word(kind, w);
    if w.len() < width {
        lemma_tokens_after_spaces(kind, spaces((width - w.len()) as nat), w);
    }
}

/// A field, padded or not, holds no line feed where what it shows holds none.
pub proof fn lemma_padding_has_no_line_end(w: Seq<char>, width: nat)
    requires
        forall|i: int| 0 <= i < w.len() ==> #[trigger] w[i] != '\n',
    ensures
        forall|i: int| 0 <= i < pad_left(w, width).len() ==> #[trigger] pad_left(w, width)[i] != '\n',
        forall|i: int|
            0 <= i < pad_right(w, width).len() ==> #[trigger] pad_right(w, width)[i] != '\n',
{
    let l = pad_left(w, width);
    let r = pad_right(w, width);
    assert forall|i: int| 0 <= i < l.len() implies #[trigger] l[i] != '\n' by {
        if w.len() < width && i >= width - w.len() {
            assert(l[i] == w[i - (width - w.len())]);
        }
    }
    assert forall|i: int| 0 <= i < r.len() implies #[trigger] r[i] != '\n' by {
        if i < w.len() {
            assert(r[i] == w[i]);
        }
    }
}

/// Two texts without a line feed, joined, hold none.
pub proof fn lemma_joined_has_no_line_end(a: Seq<char>, b: Seq<char>)
    requires
        forall|i: int| 0 <= i < a.len() ==> #[trigger] a[i] != '\n',
        forall|i: int| 0 <= i < b.len() ==> #[trigger] b[i] != '\n',
    ensures
        forall|i: int| 0 <= i < joined(a, b).len() ==> #[trigger] joined(a, b)[i] != '\n',
{
    let j = joined(a, b);
    assert forall|i: int| 0 <= i < j.len() implies #[trigger] j[i] != '\n' by {
        if i < a.len() {
            assert(j[i] == a[i]);
        } else if i > a.len() {
            assert(j[i] == b[i - a.len() - 1]);
        }
    }
}

/// The three kinds and the four key names are tokens, and no two of them
/// are the same.
pub proof fn lemma_words(kind: Whitespace)
    ensures
        is_token(kind, "tap"@),
        is_token(kind, "swipe"@),
        is_token(kind, "keyevent"@),
        is_token(kind, "KEYCODE_POWER"@),
        is_token(kind, "KEYCODE_BACK"@),
        is_token(kind, "KEYCODE_HOME"@),
        is_token(kind, "KEYCODE_MENU"@),
        "tap"@ != "swipe"@,
        "tap"@ != "keyevent"@,
        "swipe"@ != "keyevent"@,
        "KEYCODE_POWER"@ != "KEYCODE_BACK"@,
        "KEYCODE_POWER"@ != "KEYCODE_HOME"@,
        "KEYCODE_POWER"@ != "KEYCODE_MENU"@,
        "KEYCODE_BACK"@ != "KEYCODE_HOME"@,
        "KEYCODE_BACK"@ != "KEYCODE_MENU"@,
        "KEYCODE_HOME"@ != "KEYCODE_MENU"@,
        forall|i: int| 0 <= i < "tap"@.len() ==> #[trigger] "tap"@[i] != '\n',
        forall|i: int| 0 <= i < "swipe"@.len() ==> #[trigger] "swipe"@[i] != '\n',
        forall|i: int| 0 <= i < "keyevent"@.len() ==> #[trigger] "keyevent"@[i] != '\n',
        forall|i: int| 0 <= i < "KEYCODE_POWER"@.len() ==> #[trigger] "KEYCODE_POWER"@[i] != '\n',
        forall|i: int| 0 <= i < "KEYCODE_BACK"@.len() ==> #[trigger] "KEYCODE_BACK"@[i] != '\n',
        forall|i: int| 0 <= i < "KEYCODE_HOME"@.len() ==> #[trigger] "KEYCODE_HOME"@[i] != '\n',
        forall|i: int| 0 <= i < "KEYCODE_MENU"@.len() ==> #[trigger] "KEYCODE_MENU"@[i] != '\n',
{
    reveal_strlit("tap");
    reveal_strlit("swipe");
    reveal_strlit("keyevent");
    reveal_strlit("KEYCODE_POWER");
    reveal_strlit("KEYCODE_BACK");
    reveal_strlit("KEYCODE_HOME");
    reveal_strlit("KEYCODE_MENU");
    assert("KEYCODE_BACK"@[8] == 'B');
    assert("KEYCODE_HOME"@[8] == 'H');
    assert("KEYCODE_MENU"@[8] == 'M');
}

/// The name of a key reads as that key.
pub proof fn lemma_key_read_back(kind: Whitespace, key: Key)
    ensures
        Key::of_fields(tokens(kind, key.text())) == Some(key),
        Key::named(trimmed(kind, key.text())) == Some(key),
        tokens(kind, key.text()) == seq![key.text()],
        is_token(kind, key.text()),
        forall|i: int| 0 <= i < key.text().len() ==> #[trigger] key.text()[i] != '\n',
{
    lemma_words(kind);
    lemma_tokens_of_word(kind, key.text());
    lemma_token_has_nothing_to_trim(kind, key.text());
}

/// A key is read alone as it is read as the field of a line: the one token
/// of the text has to be its name.
pub proof fn lemma_key_alone_is_key_in_line(kind: Whitespace, s: Seq<char>)
    ensures
        Key::named(trimmed(kind, s)) == Key::of_fields(tokens(kind, s)),
{
    lemma_words(kind);
    lemma_only_token_is_trimmed(kind, s, "KEYCODE_POWER"@);
    lemma_only_token_is_trimmed(kind, s, "KEYCODE_BACK"@);
    lemma_only_token_is_trimmed(kind, s, "KEYCODE_HOME"@);
    lemma_only_token_is_trimmed(kind, s, "KEYCODE_MENU"@);
    let t = tokens(kind, s);
    if t.len() == 1 {
        assert(t =~= seq![t[0]]);
    }
}

/// The fields of a tap read as that tap.
pub proof fn lemma_tap_read_back(kind: Whitespace, tap: Tap)
    ensures
        Tap::of_fields(tokens(kind, tap.text())) == Some(tap),
        tokens(kind, tap.text()) == seq![signed_decimal(tap.x as int), signed_decimal(tap.y as int)],
        forall|i: int| 0 <= i < tap.text().len() ==> #[trigger] tap.text()[i] != '\n',
{
    let x = signed_decimal(tap.x as int);
    let y = signed_decimal(tap.y as int);
    lemma_signed_is_token(kind, tap.x as int);
    lemma_signed_is_token(kind, tap.y as int);
    lemma_i32_read_back(tap.x);
    lemma_i32_read_back(tap.y);
    lemma_tokens_last_field(kind, y, 4);
    lemma_tokens_right_aligned(kind, x, 4, pad_left(y, 4));
    assert(tokens(kind, tap.text()) =~= seq![x, y]);
    lemma_padding_has_no_line_end(x, 4);
    lemma_padding_has_no_line_end(y, 4);
    lemma_joined_has_no_line_end(pad_left(x, 4), pad_left(y, 4));
}

/// The fields of a swipe read as that swipe.
pub proof fn lemma_swipe_read_back(kind: Whitespace, swipe: Swipe)
    ensures
        Swipe::of_fields(tokens(kind, swipe.text())) == Some(swipe),
        tokens(kind, swipe.text()) == seq![
            signed_decimal(swipe.x[0] as int),
            signed_decimal(swipe.y[0] as int),
            signed_decimal(swipe.x[1] as int),
            signed_decimal(swipe.y[1] as int),
            decimal(swipe.milliseconds as nat),
        ],
        forall|i: int| 0 <= i < swipe.text().len() ==> #[trigger] swipe.text()[i] != '\n',
{
    broadcast use vstd::array::group_array_axioms;

    let x0 = signed_decimal(swipe.x[0] as int);
    let y0 = signed_decimal(swipe.y[0] as int);
    let x1 = signed_decimal(swipe.x[1] as int);
    let y1 = signed_decimal(swipe.y[1] as int);
    let ms = decimal(swipe.milliseconds as nat);
    lemma_signed_is_token(kind, swipe.x[0] as int);
    lemma_signed_is_token(kind, swipe.y[0] as int);
    lemma_signed_is_token(kind, swipe.x[1] as int);
    lemma_signed_is_token(kind, swipe.y[1] as int);
    lemma_decimal_is_token(kind, swipe.milliseconds as nat);
    lemma_i32_read_back(swipe.x[0]);
    lemma_i32_read_back(swipe.y[0]);
    lemma_i32_read_back(swipe.x[1]);
    lemma_i32_read_back(swipe.y[1]);
    lemma_u32_read_back(swipe.milliseconds);
    let t4 = pad_left(ms, 4);
    let t3 = joined(pad_left(y1, 4), t4);
    let t2 = joined(pad_left(x1, 4), t3);
    let t1 = joined(pad_left(y0, 4), t2);
    lemma_tokens_last_field(kind, ms, 4);
    lemma_tokens_right_aligned(kind, y1, 4, t4);
    lemma_tokens_right_aligned(kind, x1, 4, t3);
    lemma_tokens_right_aligned(kind, y0, 4, t2);
    lemma_tokens_right_aligned(kind, x0, 4, t1);
    assert(tokens(kind, swipe.text()) =~= seq![x0, y0, x1, y1, ms]);
    let back = Swipe::of_fields(tokens(kind, swipe.text()))->0;
    assert(back.x =~= swipe.x);
    assert(back.y =~= swipe.y);
    lemma_padding_has_no_line_end(x0, 4);
    lemma_padding_has_no_line_end(y0, 4);
    lemma_padding_has_no_line_end(x1, 4);
    lemma_padding_has_no_line_end(y1, 4);
    lemma_padding_has_no_line_end(ms, 4);
    lemma_joined_has_no_line_end(pad_left(y1, 4), t4);
    lemma_joined_has_no_line_end(pad_left(x1, 4), t3);
    lemma_joined_has_no_line_end(pad_left(y0, 4), t2);
    lemma_joined_has_no_line_end(pad_left(x0, 4), t1);
}

/// The command of a tap reads as that tap.
proof fn lemma_tap_command(kind: Whitespace, t: Tap)
    ensures
        Input::of_tokens(tokens(kind, Input::Tap(t).text())) == Some(Input::Tap(t)),
        tokens(kind, Input::Tap(t).text()) == Input::Tap(t).words(),
        forall|i: int|
            0 <= i < Input::Tap(t).text().len() ==> #[trigger] Input::Tap(t).text()[i] != '\n',
{
    let input = Input::Tap(t);
    lemma_words(kind);
    lemma_tap_read_back(kind, t);
    lemma_tokens_left_aligned(kind, "tap"@, 6, t.text());
    let toks = tokens(kind, input.text());
    assert(toks.skip(1) =~= tokens(kind, t.text()));
    assert(toks =~= input.words());
    lemma_padding_has_no_line_end("tap"@, 6);
    lemma_joined_has_no_line_end(pad_right("tap"@, 6), t.text());
}

/// The command of a swipe reads as that swipe.
proof fn lemma_swipe_command(kind: Whitespace, s: Swipe)
    ensures
        Input::of_tokens(tokens(kind, Input::Swipe(s).text())) == Some(Input::Swipe(s)),
        tokens(kind, Input::Swipe(s).text()) == Input::Swipe(s).words(),
        forall|i: int|
            0 <= i < Input::Swipe(s).text().len() ==> #[trigger] Input::Swipe(s).text()[i] != '\n',
{
    let input = Input::Swipe(s);
    lemma_words(kind);
    lemma_swipe_read_back(kind, s);
    lemma_tokens_left_aligned(kind, "swipe"@, 6, s.text());
    let toks = tokens(kind, input.text());
    assert(toks.skip(1) =~= tokens(kind, s.text()));
    assert(toks =~= input.words());
    lemma_padding_has_no_line_end("swipe"@, 6);
    lemma_joined_has_no_line_end(pad_right("swipe"@, 6), s.text());
}

/// The command of a key press reads as that key press.
proof fn lemma_key_command(kind: Whitespace, k: Key)
    ensures
        Input::of_tokens(tokens(kind, Input::Key(k).text())) == Some(Input::Key(k)),
        tokens(kind, Input::Key(k).text()) == Input::Key(k).words(),
        forall|i: int|
            0 <= i < Input::Key(k).text().len() ==> #[trigger] Input::Key(k).text()[i] != '\n',
{
    let input = Input::Key(k);
    lemma_words(kind);
    lemma_key_read_back(kind, k);
    lemma_tokens_left_aligned(kind, "keyevent"@, 6, k.text());
    let toks = tokens(kind, input.text());
    assert(toks.skip(1) =~= tokens(kind, k.text()));
    assert(toks =~= input.words());
    lemma_padding_has_no_line_end("keyevent"@, 6);
    lemma_joined_has_no_line_end(pad_right("keyevent"@, 6), k.text());
}

/// The command of an action reads as that action, and split at whitespace
/// of either kind it is the words of the action: the padding of the fields is
/// lost and nothing else.
pub proof fn lemma_input_read_back(kind: Whitespace, input: Input)
    ensures
        Input::of_tokens(tokens(kind, input.text())) == Some(input),
        tokens(kind, input.text()) == input.words(),
        forall|i: int| 0 <= i < input.text().len() ==> #[trigger] input.text()[i] != '\n',
{
    match input {
        Input::Tap(t) => {
            lemma_tap_command(kind, t);
        },
        Input::Swipe(s) => {
            lemma_swipe_command(kind, s);
        },
        Input::Key(k) => {
            lemma_key_command(kind, k);
        },
    }
}

/// The line of a timed action reads as that timed action.
pub proof fn lemma_line_read_back(kind: Whitespace, action: InputWithTimestamp)
    ensures
        InputWithTimestamp::of_tokens(tokens(kind, action.text())) == Some(action),
        tokens(kind, action.text()).len() > 0,
        forall|i: int| 0 <= i < action.text().len() ==> #[trigger] action.text()[i] != '\n',
{
    let time = decimal(action.timestamp_milliseconds as nat);
    lemma_decimal_is_token(kind, action.timestamp_milliseconds as nat);
    lemma_u32_read_back(action.timestamp_milliseconds);
    lemma_input_read_back(kind, action.input);
    lemma_tokens_right_aligned(kind, time, 6, action.input.text());
    let toks = tokens(kind, action.text());
    assert(toks.skip(1) =~= tokens(kind, action.input.text()));
    lemma_padding_has_no_line_end(time, 6);
    lemma_joined_has_no_line_end(pad_left(time, 6), action.input.text());
}

/// Reading the text of a recording gives the recording back: every action,
/// every field of it, in the same order.
pub proof fn lemma_recording_read_back(actions: Seq<InputWithTimestamp>)
    ensures
        recording_of(recording_text(actions)) == Some(actions),
    decreases actions.len(),
{
    if actions.len() == 0 {
        assert(recording_text(actions) =~= Seq::<char>::empty());
    } else {
        let line = actions[0].text();
        let rest = recording_text(actions.skip(1));
        let text = line + seq!['\n'] + rest;
        lemma_line_read_back(Whitespace::Unicode, actions[0]);
        lemma_recording_read_back(actions.skip(1));
        assert forall|i: int| 0 <= i < line.len() implies #[trigger] text[i] != '\n' by {
            assert(text[i] == line[i]);
        }
        assert(text[line.len() as int] == '\n');
        lemma_index_of_is(text, '\n', line.len());
        assert(text.take(line_len(text) as int) =~= line);
        assert(after_line(text) =~= rest);
        assert(seq![actions[0]] + actions.skip(1) =~= actions);
    }
}

/// Whether `text` is made of whole lines: it is empty or ends with a line
/// feed.
pub open spec fn is_whole_lines(text: Seq<char>) -> bool {
    text.len() == 0 || text.last() == '\n'
}

/// One line that is no action spoils the text: whatever stands in the lines
/// before it and after it, the text holds no recording, not even in part.
pub proof fn lemma_malformed_line_fails(before: Seq<char>, line: Seq<char>, after: Seq<char>)
    requires
        is_whole_lines(before),
        forall|i: int| 0 <= i < line.len() ==> #[trigger] line[i] != '\n',
        after.len() == 0 || after[0] == '\n',
        tokens(Whitespace::Unicode, line).len() > 0,
        InputWithTimestamp::of_tokens(tokens(Whitespace::Unicode, line)) is None,
    ensures
        recording_of(before + line + after) is None,
    decreases before.len(),
{
    let text = before + line + after;
    if before.len() == 0 {
        assert(text =~= line + after);
        assert forall|i: int| 0 <= i < line.len() implies #[trigger] text[i] != '\n' by {
            assert(text[i] == line[i]);
        }
        if line.len() < text.len() {
            assert(text[line.len() as int] == after[0]);
        }
        lemma_index_of_is(text, '\n', line.len());
        assert(text.take(line_len(text) as int) =~= line);
        assert(text.len() > 0) by {
            if line.len() == 0 {
                assert(tokens(Whitespace::Unicode, line) =~= Seq::<Seq<char>>::empty());
            }
        }
    } else {
        lemma_index_of_bounds(before, '\n');
        let n = index_of(before, '\n');
        assert(n < before.len()) by {
            if n == before.len() {
                assert(before[before.len() - 1] != '\n');
            }
        }
        assert forall|i: int| 0 <= i < n implies #[trigger] text[i] != '\n' by {
            assert(text[i] == before[i]);
        }
        assert(text[n as int] == before[n as int]);
        lemma_index_of_is(text, '\n', n);
        let rest = after_line(before);
        assert(after_line(text) =~= rest + line + after);
        assert(is_whole_lines(rest)) by {
            if rest.len() > 0 {
                assert(rest.last() == before.last());
            }
        }
        lemma_malformed_line_fails(rest, line, after);
        assert(text.len() > 0);
    }
}

} // verus!
