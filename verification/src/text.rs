//! Characters, whitespace-separated tokens and trimming: the common ground of
//! the two text formats this crate reads and of the one it writes.

use vstd::prelude::*;

verus! {

/// What counts as whitespace: in the capture stream the five ASCII
/// whitespace characters, in a recording every character that Unicode calls
/// white space.
#[derive(Clone, Copy, Debug, PartialEq, Eq)]
pub enum Whitespace {
    Ascii,
    Unicode,
}

/// The five ASCII whitespace characters: space, tab, line feed, form feed
/// and carriage return.
pub open spec fn is_ascii_space(c: char) -> bool {
    c == ' ' || c == '\t' || c == '\n' || c == '\x0C' || c == '\r'
}

/// The characters with the Unicode property White_Space.
pub open spec fn is_unicode_space(c: char) -> bool {
    ('\u{9}' <= c && c <= '\u{d}') || c == ' ' || c == '\u{85}' || c == '\u{a0}' || c
        == '\u{1680}' || ('\u{2000}' <= c && c <= '\u{200a}') || c == '\u{2028}' || c
        == '\u{2029}' || c == '\u{202f}' || c == '\u{205f}' || c == '\u{3000}'
}

/// Whether `c` is whitespace of the given kind.
pub open spec fn is_space(kind: Whitespace, c: char) -> bool {
    match kind {
        Whitespace::Ascii => is_ascii_space(c),
        Whitespace::Unicode => is_unicode_space(c),
    }
}

/// Length of the longest prefix of `s` that holds no whitespace.
pub open spec fn word_len(kind: Whitespace, s: Seq<char>) -> nat
    decreases s.len(),
{
    if s.len() == 0 || is_space(kind, s[0]) {
        0
    } else {
        1 + word_len(kind, s.skip(1))
    }
}

/// The tokens of `s`: its maximal runs of non-whitespace characters, in order.
pub open spec fn tokens(kind: Whitespace, s: Seq<char>) -> Seq<Seq<char>>
    decreases s.len(),
    via tokens_decreases
{
    if s.len() == 0 {
        Seq::empty()
    } else if is_space(kind, s[0]) {
        tokens(kind, s.skip(1))
    } else {
        seq![s.take(word_len(kind, s) as int)] + tokens(kind, s.skip(word_len(kind, s) as int))
    }
}

#[via_fn]
proof fn tokens_decreases(kind: Whitespace, s: Seq<char>) {
    lemma_word_len_bounds(kind, s);
}

/// `s` without the whitespace at its front.
pub open spec fn trim_front(kind: Whitespace, s: Seq<char>) -> Seq<char>
    decreases s.len(),
{
    if s.len() > 0 && is_space(kind, s[0]) {
        trim_front(kind, s.skip(1))
    } else {
        s
    }
}

/// `s` without the whitespace at its end.
pub open spec fn trim_back(kind: Whitespace, s: Seq<char>) -> Seq<char>
    decreases s.len(),
{
    if s.len() > 0 && is_space(kind, s.last()) {
        trim_back(kind, s.drop_last())
    } else {
        s
    }
}

/// `s` without the whitespace at both of its ends.
pub open spec fn trimmed(kind: Whitespace, s: Seq<char>) -> Seq<char> {
    trim_back(kind, trim_front(kind, s))
}

/// What follows the first token of `s`; nothing where `s` has no token.
pub open spec fn after_first_word(kind: Whitespace, s: Seq<char>) -> Seq<char> {
    trim_front(kind, s).skip(word_len(kind, trim_front(kind, s)) as int)
}

/// Number of characters of `s` in front of the first `c`; the length of `s`
/// where it holds no `c`.
pub open spec fn index_of(s: Seq<char>, c: char) -> nat
    decreases s.len(),
{
    if s.len() == 0 || s[0] == c {
        0
    } else {
        1 + index_of(s.skip(1), c)
    }
}

/// `s` without its trailing run of the character `c`.
pub open spec fn trim_end(s: Seq<char>, c: char) -> Seq<char>
    decreases s.len(),
{
    if s.len() > 0 && s.last() == c {
        trim_end(s.drop_last(), c)
    } else {
        s
    }
}

/// `s` without its leading run of the character `c`.
pub open spec fn trim_start(s: Seq<char>, c: char) -> Seq<char>
    decreases s.len(),
{
    if s.len() > 0 && s[0] == c {
        trim_start(s.skip(1), c)
    } else {
        s
    }
}

/// `s` without the runs of `c` at both of its ends.
pub open spec fn trim_both(s: Seq<char>, c: char) -> Seq<char> {
    trim_end(trim_start(s, c), c)
}

/// The views of a vector of character vectors, element by element.
pub open spec fn views(v: Seq<Vec<char>>) -> Seq<Seq<char>> {
    Seq::new(v.len(), |i: int| v[i]@)
}

/// The first word is a run of non-whitespace characters at the front of the
/// text, and ends the text or is followed by whitespace.
pub proof fn lemma_word_len_bounds(kind: Whitespace, s: Seq<char>)
    ensures
        word_len(kind, s) <= s.len(),
        s.len() > 0 && !is_space(kind, s[0]) ==> word_len(kind, s) >= 1,
        forall|i: int| 0 <= i < word_len(kind, s) ==> !is_space(kind, #[trigger] s[i]),
        word_len(kind, s) < s.len() ==> is_space(kind, s[word_len(kind, s) as int]),
    decreases s.len(),
{
    if s.len() == 0 || is_space(kind, s[0]) {
    } else {
        let t = s.skip(1);
        lemma_word_len_bounds(kind, t);
        assert forall|i: int| 0 <= i < word_len(kind, s) implies !is_space(kind, #[trigger] s[i]) by {
            if i > 0 {
                assert(s[i] == t[i - 1]);
            }
        }
        if word_len(kind, s) < s.len() {
            assert(s[word_len(kind, s) as int] == t[word_len(kind, t) as int]);
        }
    }
}

/// A run of `n` non-whitespace characters that ends the text or is followed
/// by whitespace is the first word.
pub proof fn lemma_word_len_is(kind: Whitespace, s: Seq<char>, n: nat)
    requires
        n <= s.len(),
        forall|i: int| 0 <= i < n ==> !is_space(kind, #[trigger] s[i]),
        n < s.len() ==> is_space(kind, s[n as int]),
    ensures
        word_len(kind, s) == n,
    decreases n,
{
    if n == 0 {
    } else {
        let t = s.skip(1);
        assert forall|i: int| 0 <= i < n - 1 implies !is_space(kind, #[trigger] t[i]) by {
            assert(t[i] == s[i + 1]);
        }
        if n - 1 < t.len() {
            assert(t[n - 1] == s[n as int]);
        }
        lemma_word_len_is(kind, t, (n - 1) as nat);
    }
}

/// What stands in front of the first `c` holds no `c`, and ends the text or
/// is followed by `c`.
pub proof fn lemma_index_of_bounds(s: Seq<char>, c: char)
    ensures
        index_of(s, c) <= s.len(),
        forall|i: int| 0 <= i < index_of(s, c) ==> #[trigger] s[i] != c,
        index_of(s, c) < s.len() ==> s[index_of(s, c) as int] == c,
    decreases s.len(),
{
    if s.len() == 0 || s[0] == c {
    } else {
        let t = s.skip(1);
        lemma_index_of_bounds(t, c);
        assert forall|i: int| 0 <= i < index_of(s, c) implies #[trigger] s[i] != c by {
            if i > 0 {
                assert(s[i] == t[i - 1]);
            }
        }
        if index_of(s, c) < s.len() {
            assert(s[index_of(s, c) as int] == t[index_of(t, c) as int]);
        }
    }
}

/// A run of `n` characters other than `c` that ends the text or is followed
/// by `c` is what stands in front of the first `c`.
pub proof fn lemma_index_of_is(s: Seq<char>, c: char, n: nat)
    requires
        n <= s.len(),
        forall|i: int| 0 <= i < n ==> #[trigger] s[i] != c,
        n < s.len() ==> s[n as int] == c,
    ensures
        index_of(s, c) == n,
    decreases n,
{
    if n == 0 {
    } else {
        let t = s.skip(1);
        assert forall|i: int| 0 <= i < n - 1 implies #[trigger] t[i] != c by {
            assert(t[i] == s[i + 1]);
        }
        if n - 1 < t.len() {
            assert(t[n - 1] == s[n as int]);
        }
        lemma_index_of_is(t, c, (n - 1) as nat);
    }
}

/// Whether `w` can be a token: not empty, and free of whitespace.
pub open spec fn is_token(kind: Whitespace, w: Seq<char>) -> bool {
    w.len() > 0 && forall|i: int| 0 <= i < w.len() ==> !is_space(kind, #[trigger] w[i])
}

/// A token has no whitespace at its ends to cut off.
pub proof fn lemma_token_has_nothing_to_trim(kind: Whitespace, w: Seq<char>)
    requires
        is_token(kind, w),
    ensures
        trimmed(kind, w) == w,
{
    assert(!is_space(kind, w[0]));
    assert(!is_space(kind, w[w.len() - 1]));
}

/// Every token of a text is a run of characters that holds no whitespace
/// and is not empty.
pub proof fn lemma_tokens_are_tokens(kind: Whitespace, s: Seq<char>)
    ensures
        forall|i: int| 0 <= i < tokens(kind, s).len() ==> is_token(kind, #[trigger] tokens(kind, s)[i]),
    decreases s.len(),
{
    if s.len() == 0 {
        assert(tokens(kind, s).len() == 0);
    } else if is_space(kind, s[0]) {
        lemma_tokens_are_tokens(kind, s.skip(1));
        assert(tokens(kind, s) == tokens(kind, s.skip(1)));
    } else {
        lemma_word_len_bounds(kind, s);
        let n = word_len(kind, s) as int;
        let first = s.take(n);
        let rest = tokens(kind, s.skip(n));
        lemma_tokens_are_tokens(kind, s.skip(n));
        assert(tokens(kind, s) == seq![first] + rest);
        assert(tokens(kind, s)[0] == first);
        assert forall|i: int| 0 <= i < first.len() implies !is_space(kind, #[trigger] first[i]) by {
            assert(first[i] == s[i]);
        }
        assert forall|i: int| 0 <= i < tokens(kind, s).len() implies is_token(kind, #[trigger] tokens(kind, s)[i]) by {
            if i > 0 {
                assert(tokens(kind, s)[i] == rest[i - 1]);
            }
        }
    }
}

/// Whitespace in front of a text adds no token.
pub proof fn lemma_tokens_after_spaces(kind: Whitespace, blank: Seq<char>, rest: Seq<char>)
    requires
        forall|i: int| 0 <= i < blank.len() ==> is_space(kind, #[trigger] blank[i]),
    ensures
        tokens(kind, blank + rest) == tokens(kind, rest),
    decreases blank.len(),
{
    if blank.len() == 0 {
        assert(blank + rest =~= rest);
    } else {
        let s = blank + rest;
        assert(s[0] == blank[0]);
        assert(s.skip(1) =~= blank.skip(1) + rest);
        assert forall|i: int| 0 <= i < blank.skip(1).len() implies is_space(kind, 
            #[trigger] blank.skip(1)[i],
        ) by {
            assert(blank.skip(1)[i] == blank[i + 1]);
        }
        lemma_tokens_after_spaces(kind, blank.skip(1), rest);
    }
}

/// A token in front of a text that is empty or begins with whitespace is the
/// first token of the whole.
pub proof fn lemma_tokens_after_word(kind: Whitespace, w: Seq<char>, rest: Seq<char>)
    requires
        is_token(kind, w),
        rest.len() == 0 || is_space(kind, rest[0]),
    ensures
        tokens(kind, w + rest) == seq![w] + tokens(kind, rest),
{
    let s = w + rest;
    assert forall|i: int| 0 <= i < w.len() implies !is_space(kind, #[trigger] s[i]) by {
        assert(s[i] == w[i]);
    }
    if w.len() < s.len() {
        assert(s[w.len() as int] == rest[0]);
    }
    lemma_word_len_is(kind, s, w.len());
    assert(s.take(w.len() as int) =~= w);
    assert(s.skip(w.len() as int) =~= rest);
}

/// A token alone is the only token.
pub proof fn lemma_tokens_of_word(kind: Whitespace, w: Seq<char>)
    requires
        is_token(kind, w),
    ensures
        tokens(kind, w) == seq![w],
{
    lemma_tokens_after_word(kind, w, Seq::empty());
    assert(w + Seq::<char>::empty() =~= w);
    assert(seq![w] + Seq::<Seq<char>>::empty() =~= seq![w]);
}

/// What is left once the whitespace at the front is cut off is empty or
/// begins with a character that is no whitespace.
pub proof fn lemma_trim_front_begins(kind: Whitespace, s: Seq<char>)
    ensures
        trim_front(kind, s).len() == 0 || !is_space(kind, trim_front(kind, s)[0]),
    decreases s.len(),
{
    if s.len() > 0 && is_space(kind, s[0]) {
        lemma_trim_front_begins(kind, s.skip(1));
    }
}

/// Whitespace at the front of a text adds no token.
pub proof fn lemma_tokens_trim_front(kind: Whitespace, s: Seq<char>)
    ensures
        tokens(kind, s) == tokens(kind, trim_front(kind, s)),
    decreases s.len(),
{
    if s.len() > 0 && is_space(kind, s[0]) {
        lemma_tokens_trim_front(kind, s.skip(1));
    }
}

/// One whitespace character at the end of a text adds no token.
pub proof fn lemma_tokens_push_space(kind: Whitespace, s: Seq<char>, c: char)
    requires
        is_space(kind, c),
    ensures
        tokens(kind, s.push(c)) == tokens(kind, s),
    decreases s.len(),
{
    let longer = s.push(c);
    if s.len() == 0 {
        assert(longer.skip(1) =~= Seq::<char>::empty());
        assert(tokens(kind, longer) == tokens(kind, longer.skip(1)));
        assert(tokens(kind, longer.skip(1)) =~= Seq::<Seq<char>>::empty());
        assert(tokens(kind, s) =~= Seq::<Seq<char>>::empty());
    } else if is_space(kind, s[0]) {
        assert(longer[0] == s[0]);
        assert(longer.skip(1) =~= s.skip(1).push(c));
        lemma_tokens_push_space(kind, s.skip(1), c);
    } else {
        lemma_word_len_bounds(kind, s);
        let n = word_len(kind, s);
        assert forall|i: int| 0 <= i < n implies !is_space(kind, #[trigger] longer[i]) by {
            assert(longer[i] == s[i]);
        }
        if n < s.len() {
            assert(longer[n as int] == s[n as int]);
        }
        lemma_word_len_is(kind, longer, n);
        assert(longer[0] == s[0]);
        assert(longer.take(n as int) =~= s.take(n as int));
        assert(longer.skip(n as int) =~= s.skip(n as int).push(c));
        lemma_tokens_push_space(kind, s.skip(n as int), c);
    }
}

/// Whitespace at the end of a text adds no token.
pub proof fn lemma_tokens_trim_back(kind: Whitespace, s: Seq<char>)
    ensures
        tokens(kind, s) == tokens(kind, trim_back(kind, s)),
    decreases s.len(),
{
    if s.len() > 0 && is_space(kind, s.last()) {
        lemma_tokens_trim_back(kind, s.drop_last());
        lemma_tokens_push_space(kind, s.drop_last(), s.last());
        assert(s.drop_last().push(s.last()) =~= s);
    }
}

/// The tokens of a text are the tokens of what is left of it once the
/// whitespace at both ends is cut off.
pub proof fn lemma_tokens_of_trimmed(kind: Whitespace, s: Seq<char>)
    ensures
        tokens(kind, s) == tokens(kind, trimmed(kind, s)),
{
    lemma_tokens_trim_front(kind, s);
    lemma_tokens_trim_back(kind, trim_front(kind, s));
}

/// A text without a token is whitespace throughout.
pub proof fn lemma_no_token_is_blank(kind: Whitespace, s: Seq<char>)
    requires
        tokens(kind, s).len() == 0,
    ensures
        forall|i: int| 0 <= i < s.len() ==> is_space(kind, #[trigger] s[i]),
    decreases s.len(),
{
    if s.len() > 0 {
        if is_space(kind, s[0]) {
            lemma_no_token_is_blank(kind, s.skip(1));
            assert forall|i: int| 0 <= i < s.len() implies is_space(kind, #[trigger] s[i]) by {
                if i > 0 {
                    assert(s[i] == s.skip(1)[i - 1]);
                }
            }
        } else {
            lemma_word_len_bounds(kind, s);
            assert(tokens(kind, s).len() >= 1);
        }
    }
}

/// A text has a token exactly where something is left of it once the
/// whitespace at both ends is cut off.
pub proof fn lemma_no_token_is_nothing_left(kind: Whitespace, s: Seq<char>)
    ensures
        tokens(kind, s).len() == 0 <==> trimmed(kind, s).len() == 0,
{
    lemma_tokens_of_trimmed(kind, s);
    lemma_trim_front_begins(kind, s);
    lemma_tokens_trim_front(kind, s);
    let t = trim_front(kind, s);
    if t.len() > 0 {
        lemma_word_len_bounds(kind, t);
        assert(tokens(kind, t).len() >= 1);
        lemma_no_token_is_nothing_left_of_front(kind, t);
    }
}

/// Cutting whitespace off the end of a text that begins with none leaves
/// its first character in place.
proof fn lemma_no_token_is_nothing_left_of_front(kind: Whitespace, t: Seq<char>)
    requires
        t.len() > 0,
        !is_space(kind, t[0]),
    ensures
        trim_back(kind, t).len() > 0,
    decreases t.len(),
{
    if is_space(kind, t.last()) {
        assert(t.len() > 1);
        assert(t.drop_last()[0] == t[0]);
        lemma_no_token_is_nothing_left_of_front(kind, t.drop_last());
    }
}

/// The tokens of a text are its first token and the tokens of what stands
/// behind it, so a text has a second token exactly where something other than
/// whitespace stands behind the first.
pub proof fn lemma_tokens_behind_first(kind: Whitespace, s: Seq<char>)
    ensures
        tokens(kind, s).len() > 0 ==> tokens(kind, s).skip(1) == tokens(
            kind,
            after_first_word(kind, s),
        ),
        tokens(kind, s).len() >= 2 <==> trimmed(kind, after_first_word(kind, s)).len() > 0,
{
    let t = trim_front(kind, s);
    let behind = after_first_word(kind, s);
    lemma_tokens_trim_front(kind, s);
    lemma_trim_front_begins(kind, s);
    lemma_no_token_is_nothing_left(kind, behind);
    if t.len() > 0 {
        lemma_word_len_bounds(kind, t);
        let n = word_len(kind, t) as int;
        assert(tokens(kind, t) == seq![t.take(n)] + tokens(kind, behind));
        assert(tokens(kind, t).skip(1) =~= tokens(kind, behind));
    } else {
        assert(tokens(kind, t).len() == 0);
        assert(behind =~= Seq::<char>::empty());
        assert(trimmed(kind, behind) =~= Seq::<char>::empty());
    }
}

/// Whitespace behind a text that does not end with whitespace is all that is
/// cut off at its end.
pub proof fn lemma_trim_back_of_blank_end(kind: Whitespace, w: Seq<char>, blank: Seq<char>)
    requires
        w.len() == 0 || !is_space(kind, w.last()),
        forall|i: int| 0 <= i < blank.len() ==> is_space(kind, #[trigger] blank[i]),
    ensures
        trim_back(kind, w + blank) == w,
    decreases blank.len(),
{
    let s = w + blank;
    if blank.len() == 0 {
        assert(s =~= w);
    } else {
        assert(s.last() == blank.last());
        assert(s.drop_last() =~= w + blank.drop_last());
        assert forall|i: int| 0 <= i < blank.drop_last().len() implies is_space(
            kind,
            #[trigger] blank.drop_last()[i],
        ) by {
            assert(blank.drop_last()[i] == blank[i]);
        }
        lemma_trim_back_of_blank_end(kind, w, blank.drop_last());
    }
}

/// Whether `s` is whitespace throughout.
pub open spec fn is_blank(kind: Whitespace, s: Seq<char>) -> bool {
    forall|i: int| 0 <= i < s.len() ==> is_space(kind, #[trigger] s[i])
}

/// Whitespace in front of a text that does not begin with whitespace is all
/// that is cut off at its front.
pub proof fn lemma_trim_front_of_blank_start(kind: Whitespace, blank: Seq<char>, w: Seq<char>)
    requires
        is_blank(kind, blank),
        w.len() == 0 || !is_space(kind, w[0]),
    ensures
        trim_front(kind, blank + w) == w,
    decreases blank.len(),
{
    let s = blank + w;
    if blank.len() == 0 {
        assert(s =~= w);
    } else {
        assert(s[0] == blank[0]);
        assert(s.skip(1) =~= blank.skip(1) + w);
        assert forall|i: int| 0 <= i < blank.skip(1).len() implies is_space(
            kind,
            #[trigger] blank.skip(1)[i],
        ) by {
            assert(blank.skip(1)[i] == blank[i + 1]);
        }
        lemma_trim_front_of_blank_start(kind, blank.skip(1), w);
    }
}

/// A text that neither begins nor ends with whitespace is what is left of
/// it, with whitespace put around it, once the whitespace at both ends is cut
/// off.
pub proof fn lemma_trimmed_between(
    kind: Whitespace,
    lead: Seq<char>,
    w: Seq<char>,
    trail: Seq<char>,
)
    requires
        is_blank(kind, lead),
        is_blank(kind, trail),
        w.len() > 0,
        !is_space(kind, w[0]),
        !is_space(kind, w.last()),
    ensures
        trimmed(kind, lead + w + trail) == w,
{
    assert((w + trail)[0] == w[0]);
    lemma_trim_front_of_blank_start(kind, lead, w + trail);
    assert(lead + w + trail =~= lead + (w + trail));
    lemma_trim_back_of_blank_end(kind, w, trail);
}

/// A text has `w` as its only token exactly where `w` is what is left of it
/// once the whitespace at both ends is cut off.
pub proof fn lemma_only_token_is_trimmed(kind: Whitespace, s: Seq<char>, w: Seq<char>)
    requires
        is_token(kind, w),
    ensures
        tokens(kind, s) == seq![w] <==> trimmed(kind, s) == w,
{
    lemma_tokens_of_trimmed(kind, s);
    if trimmed(kind, s) == w {
        lemma_tokens_of_word(kind, w);
    }
    if tokens(kind, s) == seq![w] {
        let t = trim_front(kind, s);
        lemma_tokens_trim_front(kind, s);
        lemma_trim_front_begins(kind, s);
        assert(tokens(kind, t).len() == 1);
        assert(t.len() > 0 && !is_space(kind, t[0]));
        lemma_word_len_bounds(kind, t);
        let n = word_len(kind, t) as int;
        let first = t.take(n);
        let rest = t.skip(n);
        assert(tokens(kind, t) == seq![first] + tokens(kind, rest));
        assert(tokens(kind, t)[0] == first);
        assert(tokens(kind, rest).len() == 0);
        lemma_no_token_is_blank(kind, rest);
        assert(first.last() == t[n - 1]);
        lemma_trim_back_of_blank_end(kind, first, rest);
        assert(first + rest =~= t);
    }
}

/// Whether `c` is whitespace of the given kind.
pub fn is_space_char(kind: Whitespace, c: char) -> (r: bool)
    ensures
        r == is_space(kind, c),
{
    match kind {
        Whitespace::Ascii => c == ' ' || c == '\t' || c == '\n' || c == '\x0C' || c == '\r',
        Whitespace::Unicode => (c >= '\u{9}' && c <= '\u{d}') || c == ' ' || c == '\u{85}' || c
            == '\u{a0}' || c == '\u{1680}' || (c >= '\u{2000}' && c <= '\u{200a}') || c
            == '\u{2028}' || c == '\u{2029}' || c == '\u{202f}' || c == '\u{205f}' || c
            == '\u{3000}',
    }
}

/// The place of `s[from..]` without the whitespace at both of its ends: the
/// index of its first character and the index after its last.
pub(crate) fn trimmed_span(kind: Whitespace, s: &[char], from: usize) -> (span: (usize, usize))
    requires
        from <= s.len(),
    ensures
        from <= span.0 <= span.1 <= s.len(),
        s@.subrange(span.0 as int, span.1 as int) == trimmed(kind, s@.skip(from as int)),
{
    let mut start: usize = from;
    while start < s.len() && is_space_char(kind, s[start])
        invariant
            from <= start <= s.len(),
            trim_front(kind, s@.skip(start as int)) == trim_front(kind, s@.skip(from as int)),
        decreases s.len() - start,
    {
        assert(s@.skip(start as int).skip(1) =~= s@.skip(start + 1));
        start += 1;
    }
    assert(trim_front(kind, s@.skip(start as int)) == s@.skip(start as int));
    let mut end: usize = s.len();
    assert(s@.subrange(start as int, end as int) =~= s@.skip(start as int));
    while end > start && is_space_char(kind, s[end - 1])
        invariant
            start <= end <= s.len(),
            trim_back(kind, s@.subrange(start as int, end as int)) == trim_back(
                kind,
                s@.skip(start as int),
            ),
        decreases end,
    {
        assert(s@.subrange(start as int, end as int).drop_last() =~= s@.subrange(
            start as int,
            end - 1,
        ));
        end -= 1;
    }
    (start, end)
}

/// The index after the first token of `s`; the length of `s` where it has
/// no token.
pub(crate) fn first_word_end(kind: Whitespace, s: &[char]) -> (end: usize)
    ensures
        end <= s.len(),
        s@.skip(end as int) == after_first_word(kind, s@),
{
    let mut start: usize = 0;
    assert(s@.skip(0) =~= s@);
    while start < s.len() && is_space_char(kind, s[start])
        invariant
            start <= s.len(),
            trim_front(kind, s@.skip(start as int)) == trim_front(kind, s@),
        decreases s.len() - start,
    {
        assert(s@.skip(start as int).skip(1) =~= s@.skip(start + 1));
        start += 1;
    }
    let ghost front = s@.skip(start as int);
    assert(trim_front(kind, front) == front);
    let mut end: usize = start;
    while end < s.len() && !is_space_char(kind, s[end])
        invariant
            start <= end <= s.len(),
            forall|i: int| start <= i < end ==> !is_space(kind, #[trigger] s@[i]),
        decreases s.len() - end,
    {
        end += 1;
    }
    proof {
        let n = (end - start) as nat;
        assert forall|i: int| 0 <= i < n implies !is_space(kind, #[trigger] front[i]) by {
            assert(front[i] == s@[start + i]);
        }
        lemma_word_len_is(kind, front, n);
        assert(front.skip(n as int) =~= s@.skip(end as int));
    }
    end
}

/// The characters of a string slice.
pub fn chars_of(s: &str) -> (v: Vec<char>)
    ensures
        v@ == s@,
{
    let mut v: Vec<char> = Vec::new();
    for c in it: s.chars()
        invariant
            it.seq() == s@,
            v@ == it.seq().take(it.index() as int),
    {
        v.push(c);
    }
    v
}

/// Whether `spans` gives, in order, the places of the tokens of `s`: for each
/// token the index of its first character and the index after its last.
pub open spec fn are_token_spans(kind: Whitespace, spans: Seq<(usize, usize)>, s: Seq<char>) -> bool {
    &&& spans.len() == tokens(kind, s).len()
    &&& forall|i: int|
        0 <= i < spans.len() ==> {
            &&& (#[trigger] spans[i]).0 <= spans[i].1 <= s.len()
            &&& s.subrange(spans[i].0 as int, spans[i].1 as int) == tokens(kind, s)[i]
        }
}

/// Finds the tokens of `s`.
pub(crate) fn split_spans(kind: Whitespace, s: &[char]) -> (r: Vec<(usize, usize)>)
    ensures
        are_token_spans(kind, r@, s@),
{
    let mut out: Vec<(usize, usize)> = Vec::new();
    let mut pos: usize = 0;
    assert(s@.skip(0) =~= s@);
    while pos < s.len()
        invariant
            pos <= s.len(),
            out@.len() + tokens(kind, s@.skip(pos as int)).len() == tokens(kind, s@).len(),
            forall|i: int|
                0 <= i < tokens(kind, s@.skip(pos as int)).len() ==> tokens(kind, s@.skip(pos as int))[i]
                    == tokens(kind, s@)[out@.len() + i],
            forall|i: int|
                0 <= i < out@.len() ==> {
                    &&& (#[trigger] out@[i]).0 <= out@[i].1 <= s@.len()
                    &&& s@.subrange(out@[i].0 as int, out@[i].1 as int) == tokens(kind, s@)[i]
                },
        decreases s.len() - pos,
    {
        let ghost rest = s@.skip(pos as int);
        if is_space_char(kind, s[pos]) {
            assert(rest.skip(1) =~= s@.skip(pos + 1));
            pos += 1;
        } else {
            let start: usize = pos;
            while pos < s.len() && !is_space_char(kind, s[pos])
                invariant
                    start <= pos <= s.len(),
                    forall|i: int| start <= i < pos ==> !is_space(kind, #[trigger] s@[i]),
                decreases s.len() - pos,
            {
                pos += 1;
            }
            proof {
                let n = (pos - start) as nat;
                assert forall|i: int| 0 <= i < n implies !is_space(kind, #[trigger] rest[i]) by {
                    assert(rest[i] == s@[start + i]);
                }
                lemma_word_len_is(kind, rest, n);
                assert(rest.take(n as int) =~= s@.subrange(start as int, pos as int));
                assert(rest.skip(n as int) =~= s@.skip(pos as int));
                let after = tokens(kind, s@.skip(pos as int));
                assert(tokens(kind, rest) == seq![rest.take(n as int)] + after);
                assert(tokens(kind, rest)[0] == s@.subrange(start as int, pos as int));
                assert forall|i: int| 0 <= i < after.len() implies after[i] == tokens(kind, s@)[out@.len()
                    + 1 + i] by {
                    assert(after[i] == tokens(kind, rest)[i + 1]);
                }
            }
            out.push((start, pos));
        }
    }
    assert(s@.skip(pos as int) =~= Seq::<char>::empty());
    out
}

/// Splits `s` at whitespace.
pub fn split_tokens(kind: Whitespace, s: &[char]) -> (r: Vec<Vec<char>>)
    ensures
        views(r@) == tokens(kind, s@),
{
    let spans = split_spans(kind, s);
    let mut out: Vec<Vec<char>> = Vec::new();
    let mut k: usize = 0;
    while k < spans.len()
        invariant
            k <= spans.len(),
            are_token_spans(kind, spans@, s@),
            out@.len() == k,
            forall|i: int| 0 <= i < k ==> (#[trigger] out@[i])@ == tokens(kind, s@)[i],
        decreases spans.len() - k,
    {
        let (from, to) = spans[k];
        let mut tok: Vec<char> = Vec::new();
        let mut i: usize = from;
        assert(s@.subrange(from as int, from as int) =~= tok@);
        while i < to
            invariant
                from <= i <= to <= s.len(),
                tok@ == s@.subrange(from as int, i as int),
            decreases to - i,
        {
            tok.push(s[i]);
            i += 1;
            assert(tok@ =~= s@.subrange(from as int, i as int));
        }
        out.push(tok);
        k += 1;
    }
    assert(views(out@) =~= tokens(kind, s@));
    out
}

/// Whether the slice holds exactly the characters of `word`.
pub(crate) fn is_word(tok: &[char], word: &str) -> (r: bool)
    ensures
        r == (tok@ == word@),
{
    let w = chars_of(word);
    if tok.len() != w.len() {
        return false;
    }
    let mut i: usize = 0;
    while i < tok.len()
        invariant
            i <= tok.len(),
            tok.len() == w.len(),
            w@ == word@,
            forall|j: int| 0 <= j < i ==> tok@[j] == w@[j],
        decreases tok.len() - i,
    {
        if tok[i] != w[i] {
            return false;
        }
        i += 1;
    }
    assert(tok@ =~= w@);
    true
}

/// Index of the first `c` in `s[from..to]`, or `to` where there is none.
pub(crate) fn find_char(s: &[char], from: usize, to: usize, c: char) -> (at: usize)
    requires
        from <= to <= s.len(),
    ensures
        from <= at <= to,
        at - from == index_of(s@.subrange(from as int, to as int), c),
{
    let mut at: usize = from;
    while at < to && s[at] != c
        invariant
            from <= at <= to <= s.len(),
            forall|i: int| from <= i < at ==> #[trigger] s@[i] != c,
        decreases to - at,
    {
        at += 1;
    }
    proof {
        let part = s@.subrange(from as int, to as int);
        assert forall|i: int| 0 <= i < at - from implies #[trigger] part[i] != c by {
            assert(part[i] == s@[from + i]);
        }
        lemma_index_of_is(part, c, (at - from) as nat);
    }
    at
}

/// How many characters of `s`, counted from the front, remain once the
/// trailing run of `c` is cut off.
pub(crate) fn trimmed_end(s: &[char], from: usize, c: char) -> (end: usize)
    requires
        from <= s.len(),
    ensures
        from <= end <= s.len(),
        s@.subrange(from as int, end as int) == trim_end(s@.skip(from as int), c),
{
    let mut end: usize = s.len();
    assert(s@.subrange(from as int, end as int) =~= s@.skip(from as int));
    while end > from && s[end - 1] == c
        invariant
            from <= end <= s.len(),
            trim_end(s@.subrange(from as int, end as int), c) == trim_end(s@.skip(from as int), c),
        decreases end,
    {
        assert(s@.subrange(from as int, end as int).drop_last() =~= s@.subrange(
            from as int,
            end - 1,
        ));
        end -= 1;
    }
    end
}

/// Index of the first character of `s` that is not `c`, or the length of `s`.
pub(crate) fn trimmed_start(s: &[char], c: char) -> (start: usize)
    ensures
        start <= s.len(),
        s@.skip(start as int) == trim_start(s@, c),
{
    let mut start: usize = 0;
    assert(s@.skip(0) =~= s@);
    while start < s.len() && s[start] == c
        invariant
            start <= s.len(),
            trim_start(s@.skip(start as int), c) == trim_start(s@, c),
        decreases s.len() - start,
    {
        assert(s@.skip(start as int).skip(1) =~= s@.skip(start + 1));
        start += 1;
    }
    start
}

} // verus!
