use gim::decimal::Decimal;
use gim::metric::MetricValue;
use gim::text::{
    push_all, push_i64, push_padded, push_str, push_u128, push_u64, rank, same_chars,
    to_chars, to_lower, to_lower_char, to_text, to_upper, to_upper_char, Rank,
};

fn chars(s: &str) -> Vec<char> {
    s.chars().collect()
}

#[test]
fn strings_and_their_characters() {
    for s in ["", "a", "hello world", "h\u{e9}llo \u{1f600}", "\n\t\0"] {
        assert_eq!(to_chars(s), chars(s));
        assert_eq!(to_text(&chars(s)), s);
        assert_eq!(to_text(&to_chars(s)), s);
    }
}

#[test]
fn appending() {
    let mut out = chars("ab");
    push_all(&mut out, &chars("cd"));
    push_str(&mut out, "\u{e9}f");
    push_all(&mut out, &vec![]);
    push_str(&mut out, "");
    assert_eq!(to_text(&out), "abcd\u{e9}f");
}

#[test]
fn numerals() {
    let mut out: Vec<char> = Vec::new();
    push_u64(&mut out, 0);
    out.push(' ');
    push_u64(&mut out, 7);
    out.push(' ');
    push_u64(&mut out, 10);
    out.push(' ');
    push_u64(&mut out, 1_234_567_890);
    out.push(' ');
    push_u64(&mut out, u64::MAX);
    out.push(' ');
    push_u128(&mut out, u128::MAX);
    assert_eq!(
        to_text(&out),
        "0 7 10 1234567890 18446744073709551615 340282366920938463463374607431768211455"
    );
    for d in 0u64..10 {
        let mut digit: Vec<char> = Vec::new();
        push_u64(&mut digit, d);
        assert_eq!(digit, vec![char::from(b'0' + d as u8)]);
    }
}

#[test]
fn signed_numerals() {
    for v in [0i64, 1, -1, 9, -10, 100, -12345, i64::MAX, i64::MIN, i64::MIN + 1] {
        let mut out: Vec<char> = Vec::new();
        push_i64(&mut out, v);
        assert_eq!(to_text(&out), v.to_string());
    }
}

#[test]
fn padded_numerals() {
    let cases: [(u64, usize, &str); 8] = [
        (0, 0, ""),
        (5, 0, ""),
        (0, 1, "0"),
        (5, 3, "005"),
        (123, 3, "123"),
        (123, 9, "000000123"),
        (1234, 2, "34"),
        (999_999_999, 9, "999999999"),
    ];
    for (n, width, expected) in cases {
        let mut out: Vec<char> = Vec::new();
        push_padded(&mut out, n, width);
        assert_eq!(to_text(&out), expected);
    }
}

#[test]
fn letters_change_case_and_nothing_else_does() {
    assert_eq!(to_text(&to_upper(&chars("cpu"))), "CPU");
    assert_eq!(to_text(&to_upper(&chars("Mem_0ry az{`"))), "MEM_0RY AZ{`");
    assert_eq!(to_text(&to_lower(&chars("Light_CYAN AZ[@"))), "light_cyan az[@");
    assert_eq!(to_text(&to_upper(&chars("h\u{e9}llo \u{df}"))), "H\u{e9}LLO \u{df}");
    assert_eq!(to_text(&to_lower(&chars("\u{c9}COLE \u{212a}"))), "\u{c9}cole \u{212a}");
    for c in '\0'..='\u{ff}' {
        let upper = if c.is_ascii() { c.to_ascii_uppercase() } else { c };
        let lower = if c.is_ascii() { c.to_ascii_lowercase() } else { c };
        assert_eq!(to_upper_char(c), upper);
        assert_eq!(to_lower_char(c), lower);
    }
}

#[test]
fn texts_are_ordered_like_strings() {
    let words = ["", "a", "A", "ab", "abc", "b", "ba", "Z", "z", "\u{e9}", "\u{1f600}", "a\u{e9}", "10", "9"];
    for a in words {
        for b in words {
            let expected = match a.cmp(b) {
                std::cmp::Ordering::Less => Rank::Before,
                std::cmp::Ordering::Equal => Rank::Same,
                std::cmp::Ordering::Greater => Rank::After,
            };
            assert_eq!(rank(&chars(a), &chars(b)), expected, "{:?} {:?}", a, b);
            assert_eq!(same_chars(&chars(a), &chars(b)), a == b);
        }
    }
}

#[test]
fn values_from_plain_values() {
    assert!(matches!(MetricValue::from(-3i64), MetricValue::Integer(-3)));
    assert!(matches!(MetricValue::from(true), MetricValue::Boolean(true)));
    assert!(matches!(
        MetricValue::from(Decimal::Finite(5)),
        MetricValue::Float(Decimal::Finite(5))
    ));
    match MetricValue::from("text") {
        MetricValue::String(s) => assert_eq!(s, "text"),
        other => panic!("{:?}", other),
    }
    match MetricValue::from("owned".to_string()) {
        MetricValue::String(s) => assert_eq!(s, "owned"),
        other => panic!("{:?}", other),
    }
    let value: MetricValue = 7i64.into();
    assert!(matches!(value, MetricValue::Integer(7)));
}
