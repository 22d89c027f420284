//! Base64 in the alphabet that is safe in URLs, without padding.

use vstd::prelude::*;

verus! {

/// The character that stands for six bits.
pub open spec fn symbol(v: int) -> char {
    if v < 26 {
        (65 + v) as char
    } else if v < 52 {
        (71 + v) as char
    } else if v < 62 {
        (v - 4) as char
    } else if v == 62 {
        '-'
    } else {
        '_'
    }
}

/// The first three of a run of bytes, with zeros for those that are not there.
pub open spec fn first_three(bytes: Seq<u8>) -> (int, int, int) {
    (
        bytes[0] as int,
        if bytes.len() > 1 {
            bytes[1] as int
        } else {
            0
        },
        if bytes.len() > 2 {
            bytes[2] as int
        } else {
            0
        },
    )
}

/// The text that a run of bytes is written as: four characters for each three
/// bytes, and two or three for the one or two that are left at the end.
pub open spec fn encoded(bytes: Seq<u8>) -> Seq<char>
    decreases bytes.len(),
{
    if bytes.len() == 0 {
        Seq::empty()
    } else {
        let (b0, b1, b2) = first_three(bytes);
        let first = symbol(b0 / 4);
        let second = symbol((b0 % 4) * 16 + b1 / 16);
        let third = symbol((b1 % 16) * 4 + b2 / 64);
        let fourth = symbol(b2 % 64);
        if bytes.len() == 1 {
            seq![first, second]
        } else if bytes.len() == 2 {
            seq![first, second, third]
        } else {
            seq![first, second, third, fourth] + encoded(bytes.skip(3))
        }
    }
}

fn to_symbol(v: u8) -> (c: char)
    requires
        v < 64,
    ensures
        c == symbol(v as int),
{
    if v < 26 {
        (65 + v) as char
    } else if v < 52 {
        (71 + v) as char
    } else if v < 62 {
        (v - 4) as char
    } else if v == 62 {
        '-'
    } else {
        '_'
    }
}

/// The text that a run of bytes is written as.
pub fn base64_url_encode(input: &[u8]) -> (out: String)
    ensures
        out@ == encoded(input@),
{
    let mut out = String::new();
    let mut i: usize = 0;
    assert(input@.skip(0) =~= input@);
    while i < input.len()
        invariant
            i <= input@.len(),
            encoded(input@) == out@ + encoded(input@.skip(i as int)),
        decreases input@.len() - i,
    {
        let ghost rest = input@.skip(i as int);
        let ghost so_far = out@;
        let left: usize = input.len() - i;
        let b0: u8 = input[i];
        let b1: u8 = if left > 1 {
            input[i + 1]
        } else {
            0
        };
        let b2: u8 = if left > 2 {
            input[i + 2]
        } else {
            0
        };
        out.push(to_symbol(b0 / 4));
        out.push(to_symbol((b0 % 4) * 16 + b1 / 16));
        if left > 1 {
            out.push(to_symbol((b1 % 16) * 4 + b2 / 64));
        }
        if left > 2 {
            out.push(to_symbol(b2 % 64));
            assert(rest.skip(3) =~= input@.skip(i + 3));
            assert(out@ + encoded(rest.skip(3)) =~= so_far + encoded(rest));
            i += 3;
        } else {
            assert(input@.skip(input@.len() as int) =~= Seq::<u8>::empty());
            assert(out@ =~= so_far + encoded(rest));
            i = input.len();
            assert(out@ + encoded(input@.skip(i as int)) =~= out@);
        }
    }
    assert(input@.skip(i as int) =~= Seq::<u8>::empty());
    assert(out@ + encoded(input@.skip(i as int)) =~= out@);
    out
}

/// The six bits that a character of the alphabet stands for.
pub open spec fn symbol_value(c: char) -> int {
    if 'A' <= c <= 'Z' {
        c as int - 65
    } else if 'a' <= c <= 'z' {
        c as int - 71
    } else if '0' <= c <= '9' {
        c as int + 4
    } else if c == '-' {
        62
    } else {
        63
    }
}

/// The bytes that a text in this form stands for.
pub open spec fn decoded(text: Seq<char>) -> Seq<u8>
    decreases text.len(),
{
    if text.len() < 2 {
        Seq::empty()
    } else {
        let v0 = symbol_value(text[0]);
        let v1 = symbol_value(text[1]);
        let b0 = (v0 * 4 + v1 / 16) as u8;
        if text.len() == 2 {
            seq![b0]
        } else {
            let v2 = symbol_value(text[2]);
            let b1 = ((v1 % 16) * 16 + v2 / 4) as u8;
            if text.len() == 3 {
                seq![b0, b1]
            } else {
                let v3 = symbol_value(text[3]);
                let b2 = ((v2 % 4) * 64 + v3) as u8;
                seq![b0, b1, b2] + decoded(text.skip(4))
            }
        }
    }
}

/// The alphabet: letters, digits, `-` and `_`.
pub open spec fn in_alphabet(c: char) -> bool {
    'A' <= c <= 'Z' || 'a' <= c <= 'z' || '0' <= c <= '9' || c == '-' || c == '_'
}

proof fn symbol_reads_back(v: int)
    requires
        0 <= v < 64,
    ensures
        symbol_value(symbol(v)) == v,
        in_alphabet(symbol(v)),
{
}

proof fn symbols_read_back(bytes: Seq<u8>)
    ensures
        ({
            let (b0, b1, b2) = first_three(bytes);
            &&& symbol_value(symbol(b0 / 4)) == b0 / 4
            &&& symbol_value(symbol((b0 % 4) * 16 + b1 / 16)) == (b0 % 4) * 16 + b1 / 16
            &&& symbol_value(symbol((b1 % 16) * 4 + b2 / 64)) == (b1 % 16) * 4 + b2 / 64
            &&& symbol_value(symbol(b2 % 64)) == b2 % 64
            &&& in_alphabet(symbol(b0 / 4))
            &&& in_alphabet(symbol((b0 % 4) * 16 + b1 / 16))
            &&& in_alphabet(symbol((b1 % 16) * 4 + b2 / 64))
            &&& in_alphabet(symbol(b2 % 64))
        }),
{
    let (b0, b1, b2) = first_three(bytes);
    symbol_reads_back(b0 / 4);
    symbol_reads_back((b0 % 4) * 16 + b1 / 16);
    symbol_reads_back((b1 % 16) * 4 + b2 / 64);
    symbol_reads_back(b2 % 64);
}

/// The bytes come back from their encoding.
pub proof fn encoding_reads_back(bytes: Seq<u8>)
    ensures
        decoded(encoded(bytes)) == bytes,
    decreases bytes.len(),
{
    if bytes.len() > 0 {
        symbols_read_back(bytes);
        if bytes.len() > 2 {
            encoding_reads_back(bytes.skip(3));
            assert(encoded(bytes).skip(4) =~= encoded(bytes.skip(3)));
            assert(decoded(encoded(bytes)) =~= bytes);
        } else {
            assert(decoded(encoded(bytes)) =~= bytes);
        }
    } else {
        assert(decoded(encoded(bytes)) =~= bytes);
    }
}

/// Different bytes are never written as the same text.
pub proof fn encoding_is_injective(left: Seq<u8>, right: Seq<u8>)
    requires
        encoded(left) == encoded(right),
    ensures
        left == right,
{
    encoding_reads_back(left);
    encoding_reads_back(right);
}

/// An encoding holds characters of the alphabet only, so no padding, and four
/// thirds as many of them as there are bytes, rounded up.
pub proof fn encoding_is_unpadded(bytes: Seq<u8>)
    ensures
        forall|i: int| 0 <= i < encoded(bytes).len() ==> in_alphabet(#[trigger] encoded(bytes)[i]),
        encoded(bytes).len() == (4 * bytes.len() + 2) / 3,
    decreases bytes.len(),
{
    if bytes.len() > 0 {
        symbols_read_back(bytes);
        if bytes.len() > 2 {
            encoding_is_unpadded(bytes.skip(3));
        }
    }
}

/// The alphabet is that of URLs: capitals, small letters, digits, `-` and `_`, in
/// this order.
pub proof fn the_alphabet_is_that_of_urls(v: int)
    ensures
        0 <= v < 26 ==> symbol(v) as int == 'A' as int + v,
        26 <= v < 52 ==> symbol(v) as int == 'a' as int + (v - 26),
        52 <= v < 62 ==> symbol(v) as int == '0' as int + (v - 52),
        symbol(62) == '-',
        symbol(63) == '_',
{
}

/// Four characters carry three bytes, the high bits first.
pub proof fn four_characters_carry_three_bytes(bytes: Seq<u8>)
    requires
        bytes.len() >= 3,
    ensures
        ({
            let text = encoded(bytes);
            &&& symbol_value(text[0]) * 262144 + symbol_value(text[1]) * 4096 + symbol_value(
                text[2],
            ) * 64 + symbol_value(text[3]) == bytes[0] * 65536 + bytes[1] * 256 + bytes[2]
            &&& text.skip(4) == encoded(bytes.skip(3))
        }),
{
    symbols_read_back(bytes);
    assert(encoded(bytes).skip(4) =~= encoded(bytes.skip(3)));
}

/// One or two bytes that are left at the end are carried by two or three
/// characters, the bits that are not there being zero.
pub proof fn the_last_bytes_are_filled_with_zeros(bytes: Seq<u8>)
    ensures
        bytes.len() == 1 ==> encoded(bytes).len() == 2 && symbol_value(encoded(bytes)[0]) * 64
            + symbol_value(encoded(bytes)[1]) == bytes[0] * 16,
        bytes.len() == 2 ==> encoded(bytes).len() == 3 && symbol_value(encoded(bytes)[0]) * 4096
            + symbol_value(encoded(bytes)[1]) * 64 + symbol_value(encoded(bytes)[2]) == (bytes[0]
            * 256 + bytes[1]) * 4,
{
    symbols_read_back(bytes);
}

} // verus!
