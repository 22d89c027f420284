//! Values in a form body or in the path of a URL.

use vstd::prelude::*;
use vstd::string::*;

use crate::text::{a_mark_begins_a_piece, pieces};

verus! {

/// The bytes that stand for themselves: ASCII letters and digits, and `-`, `_`,
/// `.` and `~`.
pub open spec fn is_plain(b: u8) -> bool {
    ||| 65 <= b <= 90
    ||| 97 <= b <= 122
    ||| 48 <= b <= 57
    ||| b == 45
    ||| b == 95
    ||| b == 46
    ||| b == 126
}

/// A digit of base sixteen, with capitals.
pub open spec fn hex(v: int) -> char {
    if v < 10 {
        (48 + v) as char
    } else {
        (55 + v) as char
    }
}

/// How one byte is written.
pub open spec fn escaped_byte(b: u8) -> Seq<char> {
    if is_plain(b) {
        seq![b as char]
    } else {
        seq!['%', hex(b as int / 16), hex(b as int % 16)]
    }
}

/// How a run of bytes is written.
pub open spec fn escaped_bytes(bytes: Seq<u8>) -> Seq<char>
    decreases bytes.len(),
{
    if bytes.len() == 0 {
        Seq::empty()
    } else {
        escaped_byte(bytes[0]) + escaped_bytes(bytes.drop_first())
    }
}

/// How a text is written, byte by byte of its UTF-8.
pub open spec fn escaped(text: Seq<char>) -> Seq<char> {
    escaped_bytes(vstd::utf8::encode_utf8(text))
}

fn to_hex(v: u8) -> (c: char)
    requires
        v < 16,
    ensures
        c == hex(v as int),
{
    if v < 10 {
        (48 + v) as char
    } else {
        (55 + v) as char
    }
}

/// A text written so that nothing in it can end the value that it is.
pub fn percent_encode(text: &str) -> (out: String)
    ensures
        out@ == escaped(text@),
{
    let bytes = text.as_bytes();
    let mut out = String::new();
    let mut i: usize = 0;
    assert(bytes@.skip(0) =~= bytes@);
    while i < bytes.len()
        invariant
            i <= bytes@.len(),
            escaped_bytes(bytes@) == out@ + escaped_bytes(bytes@.skip(i as int)),
        decreases bytes@.len() - i,
    {
        let ghost so_far = out@;
        let ghost rest = bytes@.skip(i as int);
        let b: u8 = bytes[i];
        if (65 <= b && b <= 90) || (97 <= b && b <= 122) || (48 <= b && b <= 57) || b == 45 || b
            == 95 || b == 46 || b == 126 {
            out.push(b as char);
        } else {
            out.push('%');
            out.push(to_hex(b / 16));
            out.push(to_hex(b % 16));
        }
        assert(rest.drop_first() =~= bytes@.skip(i + 1));
        assert(out@ =~= so_far + escaped_byte(b));
        assert(out@ + escaped_bytes(rest.drop_first()) =~= so_far + escaped_bytes(rest));
        i += 1;
    }
    assert(bytes@.skip(i as int) =~= Seq::<u8>::empty());
    assert(out@ + escaped_bytes(bytes@.skip(i as int)) =~= out@);
    out
}

/// What a digit of base sixteen stands for.
pub open spec fn hex_value(c: char) -> int {
    if '0' <= c <= '9' {
        c as int - 48
    } else {
        c as int - 55
    }
}

/// The bytes that a written value stands for.
pub open spec fn unescaped(text: Seq<char>) -> Seq<u8>
    decreases text.len(),
{
    if text.len() == 0 {
        Seq::empty()
    } else if text[0] == '%' && text.len() >= 3 {
        seq![(hex_value(text[1]) * 16 + hex_value(text[2])) as u8] + unescaped(text.skip(3))
    } else {
        seq![text[0] as u8] + unescaped(text.skip(1))
    }
}

/// The bytes come back from what they are written as.
pub proof fn escaping_reads_back(bytes: Seq<u8>)
    ensures
        unescaped(escaped_bytes(bytes)) == bytes,
    decreases bytes.len(),
{
    let out = escaped_bytes(bytes);
    if bytes.len() > 0 {
        let b = bytes[0];
        let rest = escaped_bytes(bytes.drop_first());
        escaping_reads_back(bytes.drop_first());
        if is_plain(b) {
            assert(out.skip(1) =~= rest);
            assert(out[0] == b as char);
        } else {
            assert(out.skip(3) =~= rest);
            assert(out[0] == '%' && out[1] == hex(b as int / 16) && out[2] == hex(b as int % 16));
        }
        assert(unescaped(out) =~= bytes);
    } else {
        assert(unescaped(out) =~= bytes);
    }
}

/// The characters that a written value can hold.
pub open spec fn is_safe(c: char) -> bool {
    ||| 'A' <= c <= 'Z'
    ||| 'a' <= c <= 'z'
    ||| '0' <= c <= '9'
    ||| c == '-'
    ||| c == '_'
    ||| c == '.'
    ||| c == '~'
    ||| c == '%'
}

proof fn escaped_bytes_are_safe(bytes: Seq<u8>)
    ensures
        forall|i: int|
            0 <= i < escaped_bytes(bytes).len() ==> is_safe(#[trigger] escaped_bytes(bytes)[i]),
    decreases bytes.len(),
{
    if bytes.len() > 0 {
        escaped_bytes_are_safe(bytes.drop_first());
        let head = escaped_byte(bytes[0]);
        let rest = escaped_bytes(bytes.drop_first());
        assert forall|i: int| 0 <= i < escaped_bytes(bytes).len() implies is_safe(
            #[trigger] escaped_bytes(bytes)[i],
        ) by {
            if i >= head.len() {
                assert(escaped_bytes(bytes)[i] == rest[i - head.len()]);
            } else {
                assert(escaped_bytes(bytes)[i] == head[i]);
            }
        }
    }
}

/// Whatever a text holds, written as a value it holds nothing but letters,
/// digits, `-`, `_`, `.`, `~` and `%`: no `&` and no `=`, so it cannot begin
/// another parameter of a form, and no `/`, `?` or `#`, so it cannot leave its
/// place in a path.
pub proof fn a_value_stays_one_value(text: Seq<char>)
    ensures
        forall|i: int| 0 <= i < escaped(text).len() ==> is_safe(#[trigger] escaped(text)[i]),
        !escaped(text).contains('&'),
        !escaped(text).contains('='),
        !escaped(text).contains('/'),
        !escaped(text).contains('?'),
        !escaped(text).contains('#'),
{
    escaped_bytes_are_safe(vstd::utf8::encode_utf8(text));
}

/// A parameter of a form, its name and its value, holds no `&` where the name
/// holds none.
pub proof fn a_parameter_holds_no_mark(name: Seq<char>, value: Seq<char>)
    requires
        !name.contains('&'),
    ensures
        !(name + escaped(value)).contains('&'),
{
    a_value_stays_one_value(value);
    let parameter = name + escaped(value);
    assert forall|i: int| 0 <= i < parameter.len() implies parameter[i] != '&' by {
        if i < name.len() {
            assert(parameter[i] == name[i]);
        } else {
            assert(parameter[i] == escaped(value)[i - name.len()]);
        }
    }
}

/// A parameter that is put behind a form, after an `&`, is a piece of its own
/// there. `opening` is the `&` and the parameter's name.
pub proof fn a_parameter_begins_a_piece(
    form: Seq<char>,
    opening: Seq<char>,
    name: Seq<char>,
    value: Seq<char>,
)
    requires
        opening =~= seq!['&'] + name,
        !name.contains('&'),
    ensures
        pieces(form + opening + escaped(value), '&') == pieces(form, '&').push(
            name + escaped(value),
        ),
{
    a_parameter_holds_no_mark(name, value);
    a_mark_begins_a_piece(form, '&', name + escaped(value));
    assert(form + opening + escaped(value) =~= form + seq!['&'] + (name + escaped(value)));
}

/// Different texts are never written as the same value.
pub proof fn escaping_is_injective(left: Seq<char>, right: Seq<char>)
    requires
        escaped(left) == escaped(right),
    ensures
        left == right,
{
    escaping_reads_back(vstd::utf8::encode_utf8(left));
    escaping_reads_back(vstd::utf8::encode_utf8(right));
    vstd::utf8::encode_utf8_decode_utf8(left);
    vstd::utf8::encode_utf8_decode_utf8(right);
}

/// A byte is written as URLs have it: letters, digits, `-`, `.`, `_` and `~` as
/// themselves, every other as `%` and two digits of base sixteen, with capitals.
pub proof fn a_byte_is_written_as_urls_have_it(b: u8, rest: Seq<u8>)
    ensures
        ({
            let plain = ('A' as u8 <= b <= 'Z' as u8) || ('a' as u8 <= b <= 'z' as u8) || ('0' as u8
                <= b <= '9' as u8) || b == '-' as u8 || b == '.' as u8 || b == '_' as u8 || b
                == '~' as u8;
            let digit = |v: int|
                if v < 10 {
                    ('0' as int + v) as char
                } else {
                    ('A' as int + (v - 10)) as char
                };
            &&& plain ==> escaped_byte(b) == seq![b as char]
            &&& !plain ==> escaped_byte(b) == seq!['%', digit(b as int / 16), digit(b as int % 16)]
        }),
        escaped_bytes(seq![b] + rest) == escaped_byte(b) + escaped_bytes(rest),
        escaped_bytes(Seq::empty()).len() == 0,
{
    assert((seq![b] + rest).drop_first() =~= rest);
}

/// A text is written byte by byte of its UTF-8, and these bytes read back.
pub proof fn a_text_reads_back_as_its_bytes(text: Seq<char>)
    ensures
        escaped(text) == escaped_bytes(vstd::utf8::encode_utf8(text)),
        unescaped(escaped(text)) == vstd::utf8::encode_utf8(text),
{
    escaping_reads_back(vstd::utf8::encode_utf8(text));
}

} // verus!
