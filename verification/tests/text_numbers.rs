use roof_control_hub::decimal::{
    format_signed, format_unsigned, is_float_literal_exec, parse_i32, parse_u32, parse_u64,
    parse_u8,
};
use roof_control_hub::text::{
    contains_str, split_chars, split_once_chars, split_words, starts_with_str, to_chars,
    trim_str, Sep,
};

fn chars(s: &str) -> Vec<char> {
    s.chars().collect()
}

fn text(v: &[char]) -> String {
    v.iter().collect()
}

const SAMPLES: [&str; 12] = [
    "",
    " ",
    "abc",
    "  a b  ",
    "\t\r\n x\u{a0}",
    "\u{3000}mid\u{2003}dle\u{85}",
    "a,,b,",
    ",",
    "x\u{b}y",
    "é  ü",
    "mode  steering\tauto",
    "\u{1680}",
];

#[test]
fn trim_matches_str_trim() {
    for s in SAMPLES {
        assert_eq!(text(&trim_str(s)), s.trim(), "{s:?}");
    }
}

#[test]
fn splitting_matches_std() {
    for s in SAMPLES {
        let v = chars(s);
        let words: Vec<String> = split_words(&v, &Sep::Whitespace).iter().map(|w| text(w)).collect();
        assert_eq!(words, s.split_whitespace().collect::<Vec<_>>(), "{s:?}");
        let ascii: Vec<String> =
            split_words(&v, &Sep::AsciiWhitespace).iter().map(|w| text(w)).collect();
        assert_eq!(ascii, s.split_ascii_whitespace().collect::<Vec<_>>(), "{s:?}");
        let commas: Vec<String> = split_chars(&v, &Sep::Char(',')).iter().map(|w| text(w)).collect();
        assert_eq!(commas, s.split(',').collect::<Vec<_>>(), "{s:?}");
        let once = split_once_chars(&v, ',').map(|(a, b)| (text(&a), text(&b)));
        assert_eq!(once, s.split_once(',').map(|(a, b)| (a.to_string(), b.to_string())));
    }
}

#[test]
fn prefixes_and_substrings() {
    assert!(starts_with_str(&chars("pwm-a 1"), "pwm-a "));
    assert!(!starts_with_str(&chars("pwm"), "pwm-a "));
    assert!(contains_str(&chars("timestamp_us"), "time"));
    assert!(contains_str(&chars("abc"), ""));
    assert!(!contains_str(&chars("tim"), "time"));
    assert_eq!(to_chars("héllo"), chars("héllo"));
}

#[test]
fn integers_parse_as_std_parses_them() {
    let inputs = [
        "0", "+0", "-0", "42", "+42", "-42", "007", "", "+", "-", " 1", "1 ", "1_000", "2147483647",
        "2147483648", "-2147483648", "-2147483649", "4294967295", "4294967296", "255", "256",
        "18446744073709551615", "18446744073709551616", "١٢", "1e3", "0x10",
    ];
    for s in inputs {
        let v = chars(s);
        assert_eq!(parse_i32(&v), s.parse::<i32>().ok(), "i32 {s:?}");
        assert_eq!(parse_u32(&v), s.parse::<u32>().ok(), "u32 {s:?}");
        assert_eq!(parse_u64(&v), s.parse::<u64>().ok(), "u64 {s:?}");
        assert_eq!(parse_u8(&v), s.parse::<u8>().ok(), "u8 {s:?}");
    }
}

#[test]
fn float_literals_are_those_f32_accepts() {
    let inputs = [
        "0", "1", "-1", "+1", "1.", ".5", ".", "-.5", "+.", "1e5", "1E5", "1e+5", "1e-5", "1e",
        "1e+", "e5", ".e5", "1.5e3", "inf", "-inf", "+Infinity", "INF", "infinit", "nan", "NaN",
        "-nan", "+NAN", "", " 1", "1 ", "1_0", "0x1p3", "1.2.3", "--1", "3.4e39", "1e-400",
        "00.00", "9999999999999999999999999", "١",
    ];
    for s in inputs {
        assert_eq!(is_float_literal_exec(&chars(s)), s.parse::<f32>().is_ok(), "{s:?}");
    }
}

#[test]
fn decimal_formatting_matches_to_string() {
    for n in [0u128, 9, 10, 99, 100, 4294967295, u64::MAX as u128, u128::MAX] {
        assert_eq!(format_unsigned(n), n.to_string());
    }
    for n in [0i64, -1, 1, -10, i32::MIN as i64, i64::MIN, i64::MAX] {
        assert_eq!(format_signed(n), n.to_string());
    }
}
