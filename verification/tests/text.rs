use devhaven::command::is_ascii_alphanumeric;
use devhaven::fields::{number_chars, parse_decimal, split_lines, split_on, unsigned_chars};
use devhaven::text::{
    chars_of, contains_text, ends_with, find_text, is_whitespace_char, next_token, remove_char,
    replace_char, starts_with, str_eq, string_of, strip_leading, strip_prefix, strip_trailing,
    text_of, text_precedes, to_ascii_lower, to_ascii_lowercase, trim_slice, trim_start_slice,
};

fn chars(s: &str) -> Vec<char> {
    s.chars().collect()
}

fn text(c: &[char]) -> String {
    c.iter().collect()
}

const SAMPLES: [&str; 12] = [
    "",
    " ",
    "plain",
    "  lead",
    "trail \t\n",
    " \u{a0}both\u{3000} ",
    "a  b\tc",
    "\u{2003}wide\u{2003}",
    "中文 text",
    "line\r\n",
    "\u{85}next\u{85}",
    "x\u{200b}y",
];

#[test]
fn white_space_is_what_std_calls_white_space() {
    for code in 0..=0x10FFFFu32 {
        if let Some(c) = char::from_u32(code) {
            assert_eq!(is_whitespace_char(c), c.is_whitespace(), "U+{code:04X}");
        }
    }
}

#[test]
fn ascii_classes_agree_with_std() {
    for code in 0..=0x2FFu32 {
        if let Some(c) = char::from_u32(code) {
            assert_eq!(is_ascii_alphanumeric(c), c.is_ascii_alphanumeric());
            assert_eq!(to_ascii_lower(c), c.to_ascii_lowercase());
        }
    }
    assert_eq!(text(&to_ascii_lowercase(&chars("MiXeD ÄÖ 123"))), "mixed ÄÖ 123");
}

#[test]
fn conversions_keep_the_text() {
    for sample in SAMPLES {
        assert_eq!(chars_of(sample), chars(sample));
        assert_eq!(string_of(&chars(sample)), sample);
        assert_eq!(text_of(sample), sample);
    }
    assert!(str_eq("a", "a"));
    assert!(!str_eq("a", "A"));
    assert!(!str_eq("a", "ab"));
}

#[test]
fn trimming_agrees_with_std() {
    for sample in SAMPLES {
        let c = chars(sample);
        assert_eq!(text(trim_slice(&c)), sample.trim());
        assert_eq!(text(trim_start_slice(&c)), sample.trim_start());
        assert_eq!(text(strip_trailing(&c, '\n')), sample.trim_end_matches('\n'));
        assert_eq!(text(strip_leading(&c, ' ')), sample.trim_start_matches(' '));
        assert_eq!(text(&remove_char(&c, ' ')), sample.replace(' ', ""));
        assert_eq!(text(&replace_char(&c, ' ', '_')), sample.replace(' ', "_"));
    }
}

#[test]
fn words_agree_with_std() {
    for sample in SAMPLES {
        let c = chars(sample);
        let mut words = Vec::new();
        let mut from = 0;
        while let Some((a, b)) = next_token(&c, from) {
            words.push(text(&c[a..b]));
            from = b;
        }
        let expected: Vec<String> = sample.split_whitespace().map(|w| w.to_string()).collect();
        assert_eq!(words, expected);
    }
}

#[test]
fn prefixes_and_searches_agree_with_std() {
    let patterns = ["", " ", "a", "ab", "text", "中", "e\r", "zz"];
    for sample in SAMPLES.iter().chain(["abab", "aab", "text"].iter()) {
        let c = chars(sample);
        for pattern in patterns {
            assert_eq!(starts_with(&c, pattern), sample.starts_with(pattern));
            assert_eq!(ends_with(&c, pattern), sample.ends_with(pattern));
            assert_eq!(contains_text(&c, pattern), sample.contains(pattern));
            assert_eq!(
                strip_prefix(&c, pattern).map(text),
                sample.strip_prefix(pattern).map(|rest| rest.to_string())
            );
            let found = find_text(&c, &chars(pattern), 0);
            let expected = sample.find(pattern).map(|at| sample[..at].chars().count());
            assert_eq!(found, expected);
        }
    }
    assert_eq!(find_text(&chars("abcabc"), &chars("bc"), 2), Some(4));
    assert_eq!(find_text(&chars("abc"), &chars("bc"), 3), None);
}

#[test]
fn order_of_texts_agrees_with_std() {
    let samples = ["", "a", "A", "ab", "b", "aa", "中", "é", "\u{10000}", "\u{ffff}", "a\0"];
    for left in samples {
        for right in samples {
            assert_eq!(text_precedes(&chars(left), &chars(right)), left <= right, "{left:?} {right:?}");
        }
    }
}

#[test]
fn lines_and_fields_agree_with_std() {
    let samples = ["", "\n", "a", "a\n", "a\nb", "a\r\nb\r\n", "\r\n\r\n", "a\r", "a\rb\n", "\n\na\n\n", "a\r\r\n"];
    for sample in samples {
        let lines: Vec<String> = split_lines(&chars(sample)).iter().map(|l| text(l)).collect();
        let expected: Vec<String> = sample.lines().map(|l| l.to_string()).collect();
        assert_eq!(lines, expected, "{sample:?}");
        let fields: Vec<String> = split_on(&chars(sample), '\n').iter().map(|l| text(l)).collect();
        let expected: Vec<String> = sample.split('\n').map(|l| l.to_string()).collect();
        assert_eq!(fields, expected, "{sample:?}");
    }
}

#[test]
fn numbers_are_read_as_std_reads_them() {
    let samples = [
        "", "0", "7", "+7", "-7", "-0", "+", "-", "007", " 7", "7 ", "1_0", "65535", "65536",
        "2147483647", "2147483648", "-2147483648", "-2147483649", "9223372036854775807",
        "9223372036854775808", "-9223372036854775807", "99999999999999999999", "٣", "1e3",
        "++1", "+-1",
    ];
    for sample in samples {
        let c = chars(sample);
        assert_eq!(
            parse_decimal(&c, 0, 0xFFFF),
            sample.parse::<u16>().ok().map(i64::from),
            "{sample:?} as u16"
        );
        assert_eq!(
            parse_decimal(&c, i32::MIN as i64, i32::MAX as i64),
            sample.parse::<i32>().ok().map(i64::from),
            "{sample:?} as i32"
        );
        assert_eq!(
            parse_decimal(&c, i64::MIN + 1, i64::MAX),
            sample.parse::<i64>().ok(),
            "{sample:?} as i64"
        );
    }
}

#[test]
fn numbers_are_written_as_std_writes_them() {
    for value in [0i64, 1, 9, 10, 11, 99, 100, 12345, -1, -10, i64::MAX, i64::MIN, i64::MIN + 1] {
        assert_eq!(text(&number_chars(value)), value.to_string());
    }
    for value in [0u64, 5, 10, 65535, u64::MAX] {
        assert_eq!(text(&unsigned_chars(value)), value.to_string());
    }
}
