//! Numbers as text: what a run of digits is worth, how the integer fields of
//! the two formats are read, and how a number is written.

use vstd::prelude::*;
use vstd::string::StringExecFns;

verus! {

/// The value of `c` as a digit of a radix up to sixteen, letters in either case.
pub open spec fn digit_of(c: char) -> Option<nat> {
    if '0' <= c && c <= '9' {
        Some((c as int - '0' as int) as nat)
    } else if 'a' <= c && c <= 'f' {
        Some((c as int - 'a' as int + 10) as nat)
    } else if 'A' <= c && c <= 'F' {
        Some((c as int - 'A' as int + 10) as nat)
    } else {
        None
    }
}

/// Whether `c` is a digit of the given radix.
pub open spec fn is_digit(c: char, radix: nat) -> bool {
    digit_of(c) is Some && digit_of(c)->0 < radix
}

/// Whether every character of `s` is a digit of the given radix.
pub open spec fn all_digits(s: Seq<char>, radix: nat) -> bool {
    forall|i: int| 0 <= i < s.len() ==> is_digit(#[trigger] s[i], radix)
}

/// The number that the digits of `s` write in the given radix, most
/// significant digit first; zero for the empty sequence.
pub open spec fn number_value(s: Seq<char>, radix: nat) -> nat
    decreases s.len(),
{
    if s.len() == 0 {
        0
    } else {
        number_value(s.drop_last(), radix) * radix + digit_of(s.last()).unwrap_or(0)
    }
}

/// `s` without a leading plus sign.
pub open spec fn unsigned_body(s: Seq<char>) -> Seq<char> {
    if s.len() > 0 && s[0] == '+' {
        s.skip(1)
    } else {
        s
    }
}

/// `s` without a leading plus or minus sign.
pub open spec fn signed_body(s: Seq<char>) -> Seq<char> {
    if s.len() > 0 && (s[0] == '+' || s[0] == '-') {
        s.skip(1)
    } else {
        s
    }
}

/// Whether `s` begins with a minus sign.
pub open spec fn is_negative(s: Seq<char>) -> bool {
    s.len() > 0 && s[0] == '-'
}

/// The unsigned number that `s` writes in the given radix: an optional plus
/// sign, then at least one digit and nothing else, the value within `u32`.
pub open spec fn u32_of(s: Seq<char>, radix: nat) -> Option<u32> {
    let body = unsigned_body(s);
    if body.len() > 0 && all_digits(body, radix) && number_value(body, radix) <= u32::MAX {
        Some(number_value(body, radix) as u32)
    } else {
        None
    }
}

/// The signed decimal number that `s` writes: an optional sign, then at least
/// one digit and nothing else, the value within `i32`.
pub open spec fn i32_of(s: Seq<char>) -> Option<i32> {
    let body = signed_body(s);
    let magnitude = number_value(body, 10);
    if body.len() == 0 || !all_digits(body, 10) {
        None
    } else if is_negative(s) {
        if magnitude <= 0x8000_0000 {
            Some((-magnitude) as i32)
        } else {
            None
        }
    } else {
        if magnitude <= 0x7fff_ffff {
            Some(magnitude as i32)
        } else {
            None
        }
    }
}

/// The 32 bits of `u` read as a two's complement number.
pub open spec fn as_signed(u: u32) -> i32 {
    if u < 0x8000_0000 {
        u as i32
    } else {
        (u - 0x1_0000_0000) as i32
    }
}

/// The smaller of two numbers.
pub open spec fn at_most(a: nat, b: nat) -> nat {
    if a <= b {
        a
    } else {
        b
    }
}

/// The decimal digit for `d`.
pub open spec fn digit_char(d: nat) -> char
    recommends
        d < 10,
{
    if d == 0 {
        '0'
    } else if d == 1 {
        '1'
    } else if d == 2 {
        '2'
    } else if d == 3 {
        '3'
    } else if d == 4 {
        '4'
    } else if d == 5 {
        '5'
    } else if d == 6 {
        '6'
    } else if d == 7 {
        '7'
    } else if d == 8 {
        '8'
    } else {
        '9'
    }
}

/// `n` in decimal, without sign or leading zeros.
pub open spec fn decimal(n: nat) -> Seq<char>
    decreases n,
{
    if n < 10 {
        seq![digit_char(n)]
    } else {
        decimal(n / 10).push(digit_char(n % 10))
    }
}

/// `n` in decimal, with a minus sign where it is negative.
pub open spec fn signed_decimal(n: int) -> Seq<char> {
    if n < 0 {
        seq!['-'] + decimal((-n) as nat)
    } else {
        decimal(n as nat)
    }
}

/// `n` spaces.
pub open spec fn spaces(n: nat) -> Seq<char> {
    Seq::new(n, |i: int| ' ')
}

/// `s` moved to the right end of a field of `width` characters; unchanged
/// where it is longer.
pub open spec fn pad_left(s: Seq<char>, width: nat) -> Seq<char> {
    if s.len() < width {
        spaces((width - s.len()) as nat) + s
    } else {
        s
    }
}

/// `s` at the left end of a field of `width` characters; unchanged where it
/// is longer.
pub open spec fn pad_right(s: Seq<char>, width: nat) -> Seq<char> {
    if s.len() < width {
        s + spaces((width - s.len()) as nat)
    } else {
        s
    }
}

/// One more digit at the end multiplies what stood there by the radix and
/// adds the digit.
pub proof fn lemma_value_push(s: Seq<char>, c: char, radix: nat)
    ensures
        number_value(s.push(c), radix) == number_value(s, radix) * radix + digit_of(c).unwrap_or(
            0,
        ),
{
    assert(s.push(c).drop_last() =~= s);
}

/// The decimal digits of a number are digits, and are worth the number.
pub proof fn lemma_decimal_value(n: nat)
    ensures
        decimal(n).len() >= 1,
        all_digits(decimal(n), 10),
        number_value(decimal(n), 10) == n,
    decreases n,
{
    if n < 10 {
        let s = seq![digit_char(n)];
        assert(s.drop_last() =~= Seq::<char>::empty());
        assert(number_value(s.drop_last(), 10) == 0);
        assert(s.last() == digit_char(n));
    } else {
        lemma_decimal_value(n / 10);
        lemma_value_push(decimal(n / 10), digit_char(n % 10), 10);
        let s = decimal(n);
        assert forall|i: int| 0 <= i < s.len() implies is_digit(#[trigger] s[i], 10) by {
            if i < s.len() - 1 {
                assert(s[i] == decimal(n / 10)[i]);
            }
        }
    }
}

/// The value of `c` as a digit, where it is one of a radix up to sixteen.
pub(crate) fn digit_value(c: char) -> (r: Option<u8>)
    ensures
        r is Some == (digit_of(c) is Some),
        r is Some ==> r->0 as nat == digit_of(c)->0 && r->0 < 16,
{
    if c >= '0' && c <= '9' {
        Some((c as u32 - '0' as u32) as u8)
    } else if c >= 'a' && c <= 'f' {
        Some((c as u32 - 'a' as u32 + 10) as u8)
    } else if c >= 'A' && c <= 'F' {
        Some((c as u32 - 'A' as u32 + 10) as u8)
    } else {
        None
    }
}

/// Reads `s[from..to]` as digits of the given radix. The result is the
/// number they write, or `limit` where that is less; nothing where one of the
/// characters is no digit.
pub(crate) fn read_digits(s: &[char], from: usize, to: usize, radix: u8, limit: u64) -> (r: Option<u64>)
    requires
        from <= to <= s.len(),
        1 <= radix <= 16,
        limit <= 0x1_0000_0000_0000,
    ensures
        r is Some == all_digits(s@.subrange(from as int, to as int), radix as nat),
        r is Some ==> r->0 as nat == at_most(
            number_value(s@.subrange(from as int, to as int), radix as nat),
            limit as nat,
        ),
{
    let mut acc: u64 = 0;
    let mut i: usize = from;
    assert(s@.subrange(from as int, from as int) =~= Seq::<char>::empty());
    while i < to
        invariant
            from <= i <= to <= s.len(),
            1 <= radix <= 16,
            limit <= 0x1_0000_0000_0000,
            all_digits(s@.subrange(from as int, i as int), radix as nat),
            acc as nat == at_most(
                number_value(s@.subrange(from as int, i as int), radix as nat),
                limit as nat,
            ),
        decreases to - i,
    {
        let ghost before = s@.subrange(from as int, i as int);
        let ghost after = s@.subrange(from as int, i + 1);
        proof {
            assert(after =~= before.push(s@[i as int]));
            lemma_value_push(before, s@[i as int], radix as nat);
        }
        match digit_value(s[i]) {
            Some(d) => {
                if d >= radix {
                    proof {
                        let whole = s@.subrange(from as int, to as int);
                        assert(whole[i - from] == s@[i as int]);
                    }
                    return None;
                }
                let ghost v = number_value(before, radix as nat);
                assert(acc * radix + d <= 0x10_0000_0000_0000 + 16) by (nonlinear_arith)
                    requires
                        acc <= 0x1_0000_0000_0000,
                        radix <= 16,
                        d < 16,
                ;
                let next: u64 = acc * (radix as u64) + (d as u64);
                proof {
                    if v > limit {
                        assert(v * radix + d >= v) by (nonlinear_arith)
                            requires
                                radix >= 1,
                                d >= 0,
                                v >= 0,
                        ;
                        assert(limit * radix + d >= limit) by (nonlinear_arith)
                            requires
                                radix >= 1,
                                d >= 0,
                                limit >= 0,
                        ;
                    }
                    assert forall|j: int| 0 <= j < after.len() implies is_digit(
                        #[trigger] after[j],
                        radix as nat,
                    ) by {
                        if j < before.len() {
                            assert(after[j] == before[j]);
                        }
                    }
                }
                acc = if next > limit {
                    limit
                } else {
                    next
                };
                i += 1;
            },
            None => {
                proof {
                    let whole = s@.subrange(from as int, to as int);
                    assert(whole[i - from] == s@[i as int]);
                }
                return None;
            },
        }
    }
    Some(acc)
}

/// Reads an unsigned number of the given radix as `u32_of` defines it.
pub fn parse_u32(s: &[char], radix: u8) -> (r: Option<u32>)
    requires
        2 <= radix <= 16,
    ensures
        r == u32_of(s@, radix as nat),
{
    let from: usize = if s.len() > 0 && s[0] == '+' {
        1
    } else {
        0
    };
    proof {
        assert(s@.subrange(from as int, s.len() as int) =~= unsigned_body(s@));
    }
    if from == s.len() {
        return None;
    }
    match read_digits(s, from, s.len(), radix, 0x1_0000_0000) {
        Some(v) => {
            if v <= 0xffff_ffff {
                Some(v as u32)
            } else {
                None
            }
        },
        None => None,
    }
}

/// Reads a signed decimal number as `i32_of` defines it.
pub fn parse_i32(s: &[char]) -> (r: Option<i32>)
    ensures
        r == i32_of(s@),
{
    let negative = s.len() > 0 && s[0] == '-';
    let from: usize = if s.len() > 0 && (s[0] == '+' || s[0] == '-') {
        1
    } else {
        0
    };
    proof {
        assert(s@.subrange(from as int, s.len() as int) =~= signed_body(s@));
    }
    if from == s.len() {
        return None;
    }
    match read_digits(s, from, s.len(), 10, 0x1_0000_0000) {
        Some(v) => {
            if negative {
                if v <= 0x8000_0000 {
                    Some((0 - (v as i64)) as i32)
                } else {
                    None
                }
            } else {
                if v <= 0x7fff_ffff {
                    Some(v as i32)
                } else {
                    None
                }
            }
        },
        None => None,
    }
}

/// The 32 bits of `u` as a signed number.
pub(crate) fn to_signed(u: u32) -> (r: i32)
    ensures
        r == as_signed(u),
{
    if u < 0x8000_0000 {
        u as i32
    } else {
        (u as i64 - 0x1_0000_0000) as i32
    }
}

/// Appends the decimal digit `d`.
pub(crate) fn append_digit(out: &mut String, d: u8)
    requires
        d < 10,
    ensures
        final(out)@ == old(out)@.push(digit_char(d as nat)),
{
    proof {
        reveal_strlit("0");
        reveal_strlit("1");
        reveal_strlit("2");
        reveal_strlit("3");
        reveal_strlit("4");
        reveal_strlit("5");
        reveal_strlit("6");
        reveal_strlit("7");
        reveal_strlit("8");
        reveal_strlit("9");
    }
    let digit: &str = if d == 0 {
        "0"
    } else if d == 1 {
        "1"
    } else if d == 2 {
        "2"
    } else if d == 3 {
        "3"
    } else if d == 4 {
        "4"
    } else if d == 5 {
        "5"
    } else if d == 6 {
        "6"
    } else if d == 7 {
        "7"
    } else if d == 8 {
        "8"
    } else {
        "9"
    };
    assert(digit@ =~= seq![digit_char(d as nat)]);
    out.append(digit);
    assert(out@ =~= old(out)@.push(digit_char(d as nat)));
}

/// Appends `n` in decimal.
pub(crate) fn append_decimal(out: &mut String, n: u64)
    ensures
        final(out)@ == old(out)@ + decimal(n as nat),
    decreases n,
{
    if n >= 10 {
        append_decimal(out, n / 10);
    }
    append_digit(out, (n % 10) as u8);
    assert(out@ =~= old(out)@ + decimal(n as nat));
}

/// Appends `n` in decimal, with a minus sign where it is negative.
pub(crate) fn append_signed(out: &mut String, n: i64)
    requires
        n > i64::MIN,
    ensures
        final(out)@ == old(out)@ + signed_decimal(n as int),
{
    if n < 0 {
        proof {
            reveal_strlit("-");
        }
        out.append("-");
        append_decimal(out, (0 - n) as u64);
        assert(out@ =~= old(out)@ + signed_decimal(n as int));
    } else {
        append_decimal(out, n as u64);
    }
}

/// Appends `n` spaces.
pub(crate) fn append_spaces(out: &mut String, n: usize)
    ensures
        final(out)@ == old(out)@ + spaces(n as nat),
{
    let mut i: usize = 0;
    assert(out@ =~= old(out)@ + spaces(0));
    while i < n
        invariant
            i <= n,
            out@ == old(out)@ + spaces(i as nat),
        decreases n - i,
    {
        proof {
            reveal_strlit(" ");
        }
        out.append(" ");
        i += 1;
        assert(out@ =~= old(out)@ + spaces(i as nat));
    }
}

/// Appends `field` at the right end of `width` characters.
pub(crate) fn append_right_aligned(out: &mut String, field: &str, width: usize)
    ensures
        final(out)@ == old(out)@ + pad_left(field@, width as nat),
{
    let len = field.unicode_len();
    if len < width {
        append_spaces(out, width - len);
    }
    out.append(field);
    assert(out@ =~= old(out)@ + pad_left(field@, width as nat));
}

/// Appends `field` at the left end of `width` characters.
pub(crate) fn append_left_aligned(out: &mut String, field: &str, width: usize)
    ensures
        final(out)@ == old(out)@ + pad_right(field@, width as nat),
{
    let len = field.unicode_len();
    out.append(field);
    if len < width {
        append_spaces(out, width - len);
    }
    assert(out@ =~= old(out)@ + pad_right(field@, width as nat));
}

/// Appends `n` in decimal at the right end of `width` characters.
pub(crate) fn append_unsigned_field(out: &mut String, n: u64, width: usize)
    ensures
        final(out)@ == old(out)@ + pad_left(decimal(n as nat), width as nat),
{
    let mut digits = String::new();
    append_decimal(&mut digits, n);
    assert(digits@ =~= decimal(n as nat));
    append_right_aligned(out, digits.as_str(), width);
}

/// Appends `n` in decimal, with its sign where it is negative, at the right
/// end of `width` characters.
pub(crate) fn append_signed_field(out: &mut String, n: i32, width: usize)
    ensures
        final(out)@ == old(out)@ + pad_left(signed_decimal(n as int), width as nat),
{
    let mut digits = String::new();
    append_signed(&mut digits, n as i64);
    assert(digits@ =~= signed_decimal(n as int));
    append_right_aligned(out, digits.as_str(), width);
}

} // verus!
