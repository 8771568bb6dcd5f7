use ghcc::text::{
    contains, decimal_text, is_empty, is_whitespace, join, lines, pad_left, pad_right,
    parse_number, same_text, starts_with, trim,
};

const SAMPLES: [&str; 16] = [
    "",
    " ",
    "\n",
    "\r\n",
    "a",
    " a ",
    "\u{a0}a\u{3000}",
    "a\nb",
    "a\nb\n",
    "a\r\nb\r\n",
    "a\r",
    "a\n\nb",
    "\ta b\t",
    "äöü\n€\r\n𝄞",
    "\u{200b}a\u{200b}",
    "a\rb\n\r\nc",
];

#[test]
fn white_space_is_that_of_unicode() {
    for code in 0..=0x10_ffffu32 {
        if let Some(c) = char::from_u32(code) {
            assert_eq!(is_whitespace(c), c.is_whitespace(), "{:x}", code);
        }
    }
}

#[test]
fn trimming_takes_white_space_off_both_ends() {
    for s in SAMPLES {
        assert_eq!(trim(s), s.trim());
    }
}

#[test]
fn lines_end_with_a_line_feed() {
    for s in SAMPLES {
        assert_eq!(lines(s), s.lines().collect::<Vec<&str>>());
    }
}

#[test]
fn texts_are_searched_for_texts() {
    for s in SAMPLES {
        for p in SAMPLES {
            assert_eq!(contains(s, p), s.contains(p));
            assert_eq!(starts_with(s, p), s.starts_with(p));
            assert_eq!(same_text(s, p), s == p);
        }
        assert_eq!(is_empty(s), s.is_empty());
    }
    assert!(contains("aab", "ab"));
    assert!(!contains("aab", "ba"));
}

#[test]
fn numbers_are_written_in_decimal() {
    for n in [0, 7, 9, 10, 99, 100, 128_000, u64::MAX] {
        assert_eq!(decimal_text(n), n.to_string());
    }
}

#[test]
fn numbers_are_read_as_the_machine_can_hold_them() {
    for s in [
        "0", "7", "007", "+7", "42", "18446744073709551615", "18446744073709551616",
        "18446744073709551620", "99999999999999999999999", "", "+", "-1", "++1", "1a", "a", " 1",
        "1 ", "1.0", "٣",
    ] {
        assert_eq!(parse_number(s), s.parse::<usize>().ok(), "{}", s);
    }
}

#[test]
fn a_number_is_read_back() {
    for n in [0u64, 1, 9, 10, 4711] {
        assert_eq!(parse_number(&decimal_text(n)), Some(n as usize));
    }
}

#[test]
fn blanks_fill_up_to_a_width() {
    for s in ["", "a", "äö", "abcdef"] {
        assert_eq!(pad_right(s, 4), format!("{:<4}", s));
        assert_eq!(pad_left(s, 4), format!("{:>4}", s));
    }
}

#[test]
fn parts_are_joined() {
    let parts = |v: &[&str]| v.iter().map(|s| s.to_string()).collect::<Vec<String>>();
    assert_eq!(join(&parts(&[]), ", "), "");
    assert_eq!(join(&parts(&["a"]), ", "), "a");
    assert_eq!(join(&parts(&["a", "", "b"]), ", "), "a, , b");
}
