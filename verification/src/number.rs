//! Whole numbers written in decimal.

use vstd::prelude::*;

use crate::text::chars_of;

verus! {

/// The character that writes a digit down.
pub open spec fn digit(d: nat) -> char {
    (48 + d) as char
}

pub open spec fn is_digit(c: char) -> bool {
    '0' <= c <= '9'
}

/// What a digit stands for.
pub open spec fn digit_value(c: char) -> nat {
    (c as int - 48) as nat
}

/// A natural number in decimal, without leading zeros.
pub open spec fn decimal(n: nat) -> Seq<char>
    decreases n,
{
    if n < 10 {
        seq![digit(n)]
    } else {
        decimal(n / 10).push(digit(n % 10))
    }
}

/// An integer in decimal.
pub open spec fn integer(v: int) -> Seq<char> {
    if v < 0 {
        seq!['-'] + decimal((-v) as nat)
    } else {
        decimal(v as nat)
    }
}

fn append_decimal(out: &mut String, n: u128)
    ensures
        final(out)@ == old(out)@ + decimal(n as nat),
    decreases n,
{
    if n >= 10 {
        append_decimal(out, n / 10);
    }
    let d: u8 = (n % 10) as u8;
    out.push((48 + d) as char);
    assert(out@ =~= old(out)@ + decimal(n as nat));
}

/// A natural number in decimal.
pub fn to_decimal(n: u128) -> (text: String)
    ensures
        text@ == decimal(n as nat),
{
    let mut text = String::new();
    append_decimal(&mut text, n);
    assert(text@ =~= decimal(n as nat));
    text
}

/// An integer in decimal.
pub fn to_integer(v: i64) -> (text: String)
    ensures
        text@ == integer(v as int),
{
    if v < 0 {
        let mut text = String::new();
        text.push('-');
        let size: i128 = -(v as i128);
        append_decimal(&mut text, size as u128);
        assert(text@ =~= integer(v as int));
        text
    } else {
        to_decimal(v as u128)
    }
}

/// Whether a text is one digit or more, and nothing else.
pub open spec fn is_digits(text: Seq<char>) -> bool {
    text.len() > 0 && forall|i: int| 0 <= i < text.len() ==> is_digit(#[trigger] text[i])
}

/// What a run of digits stands for.
pub open spec fn digits_value(text: Seq<char>) -> nat
    decreases text.len(),
{
    if text.len() == 0 {
        0
    } else {
        digits_value(text.drop_last()) * 10 + digit_value(text.last())
    }
}

/// The natural number that a text writes down: digits, after a `+` or not.
pub open spec fn read_natural(text: Seq<char>) -> Option<nat> {
    let body = if text.len() > 0 && text[0] == '+' {
        text.drop_first()
    } else {
        text
    };
    if is_digits(body) {
        Some(digits_value(body))
    } else {
        None
    }
}

/// The integer that a text writes down: digits, after a sign or not.
pub open spec fn read_integer(text: Seq<char>) -> Option<int> {
    if text.len() > 0 && text[0] == '-' {
        if is_digits(text.drop_first()) {
            Some(-(digits_value(text.drop_first()) as int))
        } else {
            None
        }
    } else {
        match read_natural(text) {
            Some(n) => Some(n as int),
            None => None,
        }
    }
}

/// The value of the digits from `from` on, where it stays within `limit`.
fn read_digits(chars: &Vec<char>, from: usize, limit: u128) -> (value: Option<u128>)
    requires
        from <= chars@.len(),
        limit <= 0xffff_ffff_ffff_ffff,
    ensures
        ({
            let body = chars@.skip(from as int);
            match value {
                Some(v) => is_digits(body) && digits_value(body) == v && v <= limit,
                None => !(is_digits(body) && digits_value(body) <= limit),
            }
        }),
{
    let ghost body = chars@.skip(from as int);
    if from == chars.len() {
        return None;
    }
    let mut value: u128 = 0;
    let mut over: bool = false;
    let mut i: usize = from;
    assert(body.take(0) =~= Seq::<char>::empty());
    while i < chars.len()
        invariant
            from <= i <= chars@.len(),
            body == chars@.skip(from as int),
            limit <= 0xffff_ffff_ffff_ffff,
            forall|j: int| 0 <= j < i - from ==> is_digit(#[trigger] body[j]),
            over ==> digits_value(body.take(i - from)) > limit,
            !over ==> digits_value(body.take(i - from)) == value && value <= limit,
        decreases chars@.len() - i,
    {
        let c = chars[i];
        assert(body[i - from] == c);
        if !('0' <= c && c <= '9') {
            return None;
        }
        assert(body.take(i + 1 - from).drop_last() =~= body.take(i - from));
        assert(body.take(i + 1 - from).last() == c);
        if !over {
            value = value * 10 + (c as u32 - 48) as u128;
            if value > limit {
                over = true;
            }
        }
        i += 1;
    }
    assert(body.take(i - from) =~= body);
    if over {
        None
    } else {
        Some(value)
    }
}

/// The `usize` that a text writes down, if it writes one down.
pub fn parse_usize(text: &str) -> (value: Option<usize>)
    ensures
        value == (match read_natural(text@) {
            Some(n) if n <= usize::MAX => Some(n as usize),
            _ => None,
        }),
{
    let chars = chars_of(text);
    assert(chars@.skip(0) =~= chars@);
    let from: usize = if chars.len() > 0 && chars[0] == '+' {
        assert(chars@.skip(1) =~= chars@.drop_first());
        1
    } else {
        0
    };
    match read_digits(&chars, from, usize::MAX as u128) {
        Some(v) => Some(v as usize),
        None => None,
    }
}

/// The `i64` that a text writes down, if it writes one down.
pub fn parse_i64(text: &str) -> (value: Option<i64>)
    ensures
        value == (match read_integer(text@) {
            Some(v) if i64::MIN <= v <= i64::MAX => Some(v as i64),
            _ => None,
        }),
{
    let chars = chars_of(text);
    assert(chars@.skip(0) =~= chars@);
    assert(chars@.len() > 0 ==> chars@.skip(1) =~= chars@.drop_first());
    if chars.len() > 0 && chars[0] == '-' {
        match read_digits(&chars, 1, 0x8000_0000_0000_0000) {
            Some(v) => Some((-(v as i128)) as i64),
            None => None,
        }
    } else {
        let from: usize = if chars.len() > 0 && chars[0] == '+' {
            1
        } else {
            0
        };
        match read_digits(&chars, from, 0x7fff_ffff_ffff_ffff) {
            Some(v) => Some(v as i64),
            None => None,
        }
    }
}

/// A natural number reads back from its decimal.
pub proof fn decimal_reads_back(n: nat)
    ensures
        read_natural(decimal(n)) == Some(n),
        read_integer(decimal(n)) == Some(n as int),
        is_digits(decimal(n)),
        digits_value(decimal(n)) == n,
    decreases n,
{
    if n < 10 {
        assert(decimal(n).drop_last() =~= Seq::<char>::empty());
        assert(digits_value(decimal(n)) == digits_value(decimal(n).drop_last()) * 10 + digit_value(
            decimal(n).last(),
        ));
    } else {
        decimal_reads_back(n / 10);
        assert(decimal(n).drop_last() =~= decimal(n / 10));
    }
}

/// An integer reads back from its decimal.
pub proof fn integer_reads_back(v: int)
    ensures
        read_integer(integer(v)) == Some(v),
{
    if v < 0 {
        decimal_reads_back((-v) as nat);
        assert(integer(v).drop_first() =~= decimal((-v) as nat));
    } else {
        decimal_reads_back(v as nat);
    }
}

/// A number is written digit by digit in base ten, and a negative one behind a
/// sign.
pub proof fn numbers_are_written_in_base_ten(n: nat, d: nat)
    requires
        d < 10,
    ensures
        decimal(d) == seq![('0' as int + d) as char],
        n > 0 ==> decimal(n * 10 + d) == decimal(n).push(('0' as int + d) as char),
        n > 0 ==> integer(-(n as int)) == seq!['-'] + decimal(n),
        integer(n as int) == decimal(n),
{
    assert((n * 10 + d) / 10 == n && (n * 10 + d) % 10 == d);
}

/// A text is read as a natural number only where it is made of digits, at least
/// one, with a plus before them or not. Each digit counts by its place in base ten,
/// and a minus before digits makes them negative.
pub proof fn digits_are_read_by_their_place(text: Seq<char>, d: nat)
    requires
        d < 10,
    ensures
        read_natural(text) is Some ==> text.len() > 0 && (forall|i: int|
            0 < i < text.len() ==> '0' <= #[trigger] text[i] <= '9') && (('0' <= text[0] <= '9') || (
        text[0] == '+' && text.len() > 1)),
        read_natural(seq![('0' as int + d) as char]) == Some(d),
        (read_natural(text) matches Some(n) ==> read_natural(text.push(('0' as int + d) as char))
            == Some(n * 10 + d)),
        (read_natural(text) matches Some(n) ==> read_integer(text) == Some(n as int)),
        (read_natural(text) matches Some(n) ==> (text[0] != '+' ==> read_integer(seq!['-'] + text)
            == Some(-(n as int)))),
        text.len() > 0 && text[0] != '-' && read_natural(text) is None ==> read_integer(text)
            is None,
{
    let c = ('0' as int + d) as char;
    assert(seq![c].drop_last() =~= Seq::empty());
    assert(digits_value(seq![c].drop_last()) == 0);
    if let Some(n) = read_natural(text) {
        let body = if text[0] == '+' {
            text.drop_first()
        } else {
            text
        };
        assert forall|i: int| 0 < i < text.len() implies '0' <= #[trigger] text[i] <= '9' by {
            if text[0] == '+' {
                assert(text[i] == body[i - 1]);
            }
        }
        let longer = body.push(c);
        assert(longer.drop_last() =~= body);
        assert(text[0] == '+' ==> text.push(c).drop_first() =~= longer);
        assert(is_digits(longer)) by {
            assert forall|i: int| 0 <= i < longer.len() implies is_digit(#[trigger] longer[i]) by {
                if i < body.len() {
                    assert(longer[i] == body[i]);
                }
            }
        }
        assert((seq!['-'] + text).drop_first() =~= text);
    }
}

} // verus!
