use irodori_bigquery::base64::base64_url_encode;
use irodori_bigquery::form::percent_encode;
use irodori_bigquery::number::{parse_i64, parse_usize, to_decimal, to_integer};
use irodori_bigquery::order::precedes;
use irodori_bigquery::text::{
    eq_ignore_ascii_case, join, split, starts_after_space, trim, whitespace, without,
};

#[test]
fn encodes_base64_url_without_padding() {
    assert_eq!(base64_url_encode(b"abc"), "YWJj");
    assert_eq!(base64_url_encode(b"ab"), "YWI");
}

#[test]
fn encodes_base64_url_with_every_remainder_and_the_url_alphabet() {
    assert_eq!(base64_url_encode(b""), "");
    assert_eq!(base64_url_encode(b"a"), "YQ");
    assert_eq!(base64_url_encode(&[0xfb, 0xff, 0xfe]), "-__-");
    assert_eq!(base64_url_encode(&[0, 0, 0, 0]), "AAAAAA");
    assert_eq!(
        base64_url_encode(br#"{"alg":"RS256","typ":"JWT"}"#),
        "eyJhbGciOiJSUzI1NiIsInR5cCI6IkpXVCJ9"
    );
}

#[test]
fn an_encoding_has_no_padding_and_differs_for_different_bytes() {
    let mut seen: Vec<String> = Vec::new();
    for length in 0..40usize {
        let bytes: Vec<u8> = (0..length).map(|i| (i * 37 + length) as u8).collect();
        let text = base64_url_encode(&bytes);
        assert_eq!(text.len(), (4 * length + 2) / 3);
        assert!(text.chars().all(|c| c.is_ascii_alphanumeric() || c == '-' || c == '_'));
        assert!(!seen.contains(&text));
        seen.push(text);
    }
}

#[test]
fn form_encoding_protects_the_grant_body() {
    // A refresh token or a service account email in a form body must not be
    // able to introduce another parameter.
    assert_eq!(percent_encode("a&b=c"), "a%26b%3Dc");
    assert_eq!(
        percent_encode("svc@project.iam.gserviceaccount.com"),
        "svc%40project.iam.gserviceaccount.com"
    );
    assert_eq!(percent_encode("plain-Token_1.0~"), "plain-Token_1.0~");
}

#[test]
fn form_encoding_goes_by_the_bytes_of_utf8() {
    assert_eq!(percent_encode(""), "");
    assert_eq!(percent_encode("é"), "%C3%A9");
    assert_eq!(percent_encode("/ ?#+%\n"), "%2F%20%3F%23%2B%25%0A");
    assert_ne!(percent_encode("a b"), percent_encode("a+b"));
}

#[test]
fn white_space_is_what_std_takes_it_to_be() {
    for code in 0..=0x10ffffu32 {
        if let Some(c) = char::from_u32(code) {
            assert_eq!(whitespace(c), c.is_whitespace(), "{code:x}");
        }
    }
}

#[test]
fn texts_are_trimmed_on_both_sides() {
    for text in ["", "   ", " a b ", "\t\u{a0}x\u{3000}\n", "plain", "x "] {
        assert_eq!(trim(text), text.trim());
    }
    assert!(starts_after_space(" \n {\"a\":1}", '{'));
    assert!(!starts_after_space(" \n x{", '{'));
    assert!(!starts_after_space("   ", '{'));
}

#[test]
fn texts_are_split_joined_and_compared_as_std_does() {
    for text in ["", ",", "a", "a,b", ",a,,b,"] {
        let expected: Vec<String> = text.split(',').map(str::to_string).collect();
        assert_eq!(split(text, ','), expected);
        assert_eq!(join(&expected, ","), text);
    }
    let three = vec!["a".to_string(), "".to_string(), "c".to_string()];
    assert_eq!(join(&three, ", "), "a, , c");
    assert_eq!(join(&Vec::new(), ", "), "");
    assert_eq!(without("`a`b`", '`'), "ab");
    for (left, right) in [("YES", "yes"), ("Yes", "no"), ("É", "é"), ("a", "aa"), ("[", "{")] {
        assert_eq!(eq_ignore_ascii_case(left, right), left.eq_ignore_ascii_case(right));
    }
}

#[test]
fn numbers_are_written_and_read_as_std_does() {
    for n in [0u128, 7, 10, 10_000, u64::MAX as u128, u128::MAX] {
        assert_eq!(to_decimal(n), n.to_string());
    }
    for v in [0i64, -1, 42, i64::MIN, i64::MAX] {
        assert_eq!(to_integer(v), v.to_string());
        assert_eq!(parse_i64(&to_integer(v)), Some(v));
    }
    for text in [
        "", "+", "-", "0", "007", "+5", "-5", "--5", "1x", " 1", "１",
        "18446744073709551615", "18446744073709551616", "99999999999999999999999999",
        "9223372036854775807", "9223372036854775808", "-9223372036854775808",
        "-9223372036854775809", "-0",
    ] {
        assert_eq!(parse_usize(text), text.parse::<usize>().ok(), "{text}");
        assert_eq!(parse_i64(text), text.parse::<i64>().ok(), "{text}");
    }
}

#[test]
fn names_are_ordered_as_std_orders_them() {
    let names = ["", "A", "Z", "a", "aa", "ab", "b", "z", "é", "日", "😀"];
    for left in names {
        for right in names {
            assert_eq!(precedes(left, right), left < right, "{left} {right}");
        }
    }
}
