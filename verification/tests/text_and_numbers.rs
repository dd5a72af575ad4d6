use openclaw_launcher::numbers::{decimal_text, parse_u32};
use openclaw_launcher::text::{
    contains, eq_ignore_ascii_case, first_line, is_white_space, read_output, same_text,
    to_ascii_lowercase, trim, trim_end_slashes,
};

const SAMPLES: [&str; 14] = [
    "",
    " ",
    "a",
    " a ",
    "\u{a0}x\u{2003}",
    "a b",
    "line\nnext",
    "line\r\nnext",
    "line\r",
    "\n",
    "\r\n",
    "//a//",
    "ÀBC xyz",
    "\u{200b}zero width\u{200b}",
];

#[test]
fn white_space_is_what_std_says() {
    for code in 0..=0x10ffffu32 {
        if let Some(c) = char::from_u32(code) {
            assert_eq!(is_white_space(c), c.is_whitespace());
        }
    }
}

#[test]
fn text_functions_agree_with_std() {
    for s in SAMPLES {
        assert_eq!(trim(s), s.trim());
        assert_eq!(trim_end_slashes(s), s.trim_end_matches('/'));
        assert_eq!(to_ascii_lowercase(s), s.to_ascii_lowercase());
        assert_eq!(first_line(s).as_deref(), s.lines().next());
        for t in SAMPLES {
            assert_eq!(contains(s, t), s.contains(t));
            assert_eq!(same_text(s, t), s == t);
            assert_eq!(eq_ignore_ascii_case(s, t), s.eq_ignore_ascii_case(t));
        }
    }
    assert!(contains("aab", "ab"));
    assert!(!contains("aab", "ba"));
    assert!(eq_ignore_ascii_case("UNDEFINED", "undefined"));
}

#[test]
fn output_is_decoded() {
    assert_eq!(read_output("plain ü".as_bytes()), "plain ü");
    assert_eq!(read_output(&[b'a', 0xff, b'b']), "a\u{fffd}b");
    assert_eq!(read_output(&[]), "");
}

#[test]
fn numerals_are_written() {
    assert_eq!(decimal_text(0), "0");
    assert_eq!(decimal_text(7), "7");
    assert_eq!(decimal_text(10), "10");
    assert_eq!(decimal_text(18789), "18789");
    assert_eq!(decimal_text(u32::MAX), "4294967295");
}

#[test]
fn numerals_are_read() {
    for s in [
        "", "0", "+0", "-0", "+", "-", "12", "+12", "++12", "012", "0000000000000012", "12 ", " 12",
        "1_2", "4294967295", "4294967296", "9999999999", "99999999999999999999", "٣", "12a",
    ] {
        assert_eq!(parse_u32(s), s.parse::<u32>().ok());
    }
}

#[test]
fn numerals_read_back() {
    for n in [0, 1, 9, 10, 99, 100, 4711, 65535, u32::MAX - 1, u32::MAX] {
        assert_eq!(parse_u32(&decimal_text(n)), Some(n));
    }
}
