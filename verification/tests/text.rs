use helioscope::number::{is_digit_char, is_float_text, parse_u32};
use helioscope::pattern::like_match;
use helioscope::text::{
    bytes_eq, bytes_le, contains, fold_char, range_ends_with, range_is, split_bounds, starts_with,
    str_eq, str_le, tail_is_word, to_chars, u64_to_string, zero_padded,
};

fn chars(s: &str) -> Vec<char> {
    s.chars().collect()
}

fn like(pattern: &str, text: &str) -> bool {
    like_match(&chars(pattern), &chars(text))
}

#[test]
fn numbers_are_written_in_decimal() {
    assert_eq!(u64_to_string(0), "0");
    assert_eq!(u64_to_string(7), "7");
    assert_eq!(u64_to_string(10), "10");
    assert_eq!(u64_to_string(1234567890), "1234567890");
    assert_eq!(u64_to_string(u64::MAX), "18446744073709551615");
    let mut n: u64 = 0;
    while n < 1200 {
        assert_eq!(u64_to_string(n), n.to_string());
        n += 1;
    }
}

#[test]
fn numbers_are_padded_to_a_width() {
    assert_eq!(zero_padded(7, 2), "07");
    assert_eq!(zero_padded(7, 1), "7");
    assert_eq!(zero_padded(7, 0), "7");
    assert_eq!(zero_padded(0, 4), "0000");
    assert_eq!(zero_padded(12345, 4), "12345");
    assert_eq!(zero_padded(2024, 4), "2024");
}

#[test]
fn unsigned_numerals_are_read() {
    let read = |s: &str| parse_u32(&chars(s), 0, s.chars().count());
    assert_eq!(read("0"), Some(0));
    assert_eq!(read("42"), Some(42));
    assert_eq!(read("+42"), Some(42));
    assert_eq!(read("0042"), Some(42));
    assert_eq!(read("4294967295"), Some(u32::MAX));
    assert_eq!(read("4294967296"), None);
    assert_eq!(read("99999999999999999999999999"), None);
    assert_eq!(read(""), None);
    assert_eq!(read("+"), None);
    assert_eq!(read("-1"), None);
    assert_eq!(read("++1"), None);
    assert_eq!(read("1 "), None);
    assert_eq!(read(" 1"), None);
    assert_eq!(read("1_0"), None);
    assert_eq!(read("\u{661}"), None);
    for s in ["0", "42", "+42", "0042", "4294967295", "4294967296", "", "+", "-1", "1e3", "0x10"] {
        assert_eq!(read(s), s.parse::<u32>().ok(), "{:?}", s);
    }
    assert_eq!(parse_u32(&chars("ab12cd"), 2, 4), Some(12));
    assert_eq!(parse_u32(&chars("ab12cd"), 2, 2), None);
    assert_eq!(parse_u32(&chars("ab12cd"), 1, 4), None);
}

#[test]
fn float_texts_are_told_from_other_texts() {
    let samples = [
        "0", "1", "-1", "+1", "1.5", "1.", ".5", "-.5", "+.5e-3", "1e5", "1E5", "1e+5", "1e-5",
        "1.e5", "12.5", "8589934592", "1e400", "0.0000001", "inf", "INF", "Inf", "-inf", "+inf",
        "infinity", "Infinity", "-INFINITY", "nan", "NaN", "-nan", "+NAN", "", "+", "-", ".",
        "-.", "e5", ".e5", "1e", "1e+", "1e-", "1e5.", "1e5e5", "1.5.5", "1,5", " 1", "1 ", "1_0",
        "0x10", "infinit", "infinityy", "in", "na", "nane", "1f", "++1", "--1", "+-1", "1+",
        "a lot", "\u{661}", "1e\u{661}", "five", "50.0", "99.9", "100",
    ];
    for text in samples {
        assert_eq!(is_float_text(&chars(text)), text.parse::<f64>().is_ok(), "{:?}", text);
    }
    assert!(is_float_text(&chars("12.5")));
    assert!(!is_float_text(&chars("twelve")));
}

#[test]
fn digits_are_ascii_digits() {
    assert!(is_digit_char('0'));
    assert!(is_digit_char('9'));
    assert!(!is_digit_char('/'));
    assert!(!is_digit_char(':'));
    assert!(!is_digit_char('a'));
    assert!(!is_digit_char('\u{661}'));
}

#[test]
fn patterns_match_as_like_does() {
    assert!(like("", ""));
    assert!(!like("", "a"));
    assert!(like("%", ""));
    assert!(like("%", "anything"));
    assert!(like("%%", ""));
    assert!(!like("_", ""));
    assert!(like("_", "a"));
    assert!(like("_", "\u{e9}"));
    assert!(!like("_", "ab"));
    assert!(like("abc", "abc"));
    assert!(like("abc", "ABC"));
    assert!(like("ABC", "abc"));
    assert!(!like("abc", "abd"));
    assert!(!like("abc", "ab"));
    assert!(!like("ab", "abc"));
    assert!(!like("\u{e9}", "\u{c9}"));
    assert!(like("\u{e9}", "\u{e9}"));
    assert!(like("a%", "abc"));
    assert!(like("%c", "abc"));
    assert!(like("a%c", "ac"));
    assert!(like("a%c", "abbbc"));
    assert!(!like("a%c", "abbbd"));
    assert!(like("%b%", "abc"));
    assert!(!like("%d%", "abc"));
    assert!(like("a_c", "abc"));
    assert!(!like("a_c", "ac"));
    assert!(like("%a%a%a%", "banana"));
    assert!(!like("%a%a%a%a%", "banana"));
    assert!(like("cpu_core_%_usage_percent", "cpu_core_0_usage_percent"));
    assert!(like("cpu_core_%_usage_percent", "cpu_core_11_usage_percent"));
    assert!(like("cpu_core_%_usage_percent", "cpu-core-0-usage-percent"));
    assert!(!like("cpu_core_%_usage_percent", "cpu_core_0_frequency_mhz"));
    assert!(like("memory_used_bytes", "memory_used_bytes"));
    assert!(like("memory_used_bytes", "memory.used.bytes"));
    assert!(!like("memory_used_bytes", "memory_total_bytes"));
    assert!(like("temperature_sensor_%_celsius", "temperature_sensor_3_celsius"));
    assert!(like("@[`{", "@[`{"));
    assert!(!like("@", "`"));
    assert!(!like("[", "{"));
}

#[test]
fn texts_are_compared_byte_by_byte() {
    assert!(str_eq("", ""));
    assert!(str_eq("abc", "abc"));
    assert!(!str_eq("abc", "abd"));
    assert!(!str_eq("abc", "ab"));
    assert!(!str_eq("abc", "ABC"));
    assert!(bytes_eq(b"ab", b"ab"));
    assert!(!bytes_eq(b"ab", b"a"));
    assert!(str_le("", ""));
    assert!(str_le("", "a"));
    assert!(!str_le("a", ""));
    assert!(str_le("a", "a"));
    assert!(str_le("a", "b"));
    assert!(!str_le("b", "a"));
    assert!(str_le("a", "ab"));
    assert!(!str_le("ab", "a"));
    assert!(str_le("Z", "a"));
    assert!(str_le("n10", "n2"));
    assert!(str_le("2024-12-08T10:30:00.5Z", "2024-12-08T10:30:00Z"));
    assert!(str_le("z", "\u{e9}"));
    assert!(!bytes_le(&[0xff], &[0x00]));
    for (a, b) in [("", "a"), ("a", "b"), ("ab", "b"), ("n1", "n10"), ("\u{e9}", "\u{4e2d}")] {
        assert_eq!(str_le(a, b), a <= b);
        assert_eq!(str_le(b, a), b <= a);
    }
}

#[test]
fn texts_are_searched() {
    assert_eq!(to_chars("h\u{e9}llo"), vec!['h', '\u{e9}', 'l', 'l', 'o']);
    assert!(to_chars("").is_empty());
    assert!(starts_with(&chars("cpu_core_1"), &chars("cpu_core_")));
    assert!(starts_with(&chars("cpu"), &chars("")));
    assert!(starts_with(&chars("cpu"), &chars("cpu")));
    assert!(!starts_with(&chars("cp"), &chars("cpu")));
    assert!(!starts_with(&chars("xcpu"), &chars("cpu")));
    assert!(contains(&chars("my_cpu_metric"), &chars("cpu")));
    assert!(contains(&chars("cpu"), &chars("cpu")));
    assert!(contains(&chars("cpu"), &chars("")));
    assert!(contains(&chars(""), &chars("")));
    assert!(contains(&chars("xxcpu"), &chars("cpu")));
    assert!(!contains(&chars("cp"), &chars("cpu")));
    assert!(!contains(&chars("c_p_u"), &chars("cpu")));
    assert!(!contains(&chars("CPU"), &chars("cpu")));
    assert_eq!(fold_char('A'), 'a' as u32);
    assert_eq!(fold_char('Z'), 'z' as u32);
    assert_eq!(fold_char('a'), 'a' as u32);
    assert_eq!(fold_char('@'), '@' as u32);
    assert_eq!(fold_char('['), '[' as u32);
    assert_eq!(fold_char('\u{c9}'), 0xc9);
    assert!(tail_is_word(&chars("-INF"), 1, "inf"));
    assert!(tail_is_word(&chars("nan"), 0, "NAN"));
    assert!(!tail_is_word(&chars("nan"), 0, "na"));
    assert!(!tail_is_word(&chars("nan"), 1, "nan"));
    assert!(tail_is_word(&chars("x"), 1, ""));
    assert!(range_is(&chars("a/cpu.svg"), 2, 9, &chars("cpu.svg")));
    assert!(!range_is(&chars("a/cpu.svg"), 2, 8, &chars("cpu.svg")));
    assert!(range_ends_with(&chars("a/cpu.svg"), 2, 9, &chars(".svg")));
    assert!(!range_ends_with(&chars("a/cpu.svg"), 2, 8, &chars(".svg")));
    assert!(!range_ends_with(&chars("a/svg"), 2, 5, &chars(".svg")));
    assert!(range_ends_with(&chars("abc"), 1, 1, &chars("")));
}

#[test]
fn texts_are_split_at_a_separator() {
    let parts = |s: &str, sep: char| -> Vec<String> {
        let all = chars(s);
        split_bounds(&all, sep).iter().map(|(from, to)| all[*from..*to].iter().collect()).collect()
    };
    assert_eq!(parts("", '/'), vec![""]);
    assert_eq!(parts("abc", '/'), vec!["abc"]);
    assert_eq!(parts("/ui/node/n1", '/'), vec!["", "ui", "node", "n1"]);
    assert_eq!(parts("a//b/", '/'), vec!["a", "", "b", ""]);
    assert_eq!(parts("/", '/'), vec!["", ""]);
    for s in ["", "a", "/", "a/b", "/a/b/", "//", "\u{e9}/\u{e9}"] {
        let expected: Vec<String> = s.split('/').map(|p| p.to_string()).collect();
        assert_eq!(parts(s, '/'), expected);
    }
}
