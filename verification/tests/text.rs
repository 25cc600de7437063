use hpd::text::{
    contains, ends_with, join, lines, parse_i32, parse_unsigned, push_dec, push_padded,
    push_repeated, push_signed_dec, replace, same_ignoring_ascii_case, split_whitespace,
    strip_prefix, take_digits, to_ascii_lowercase, trim, trim_end,
};

const SAMPLES: [&str; 24] = [
    "",
    " ",
    "abc",
    "  abc  ",
    "\t\n abc def\r\n",
    "a\nb\r\nc",
    "a\n\nb\n",
    "\r\n",
    "\n\r",
    "a\rb",
    "\u{a0}x\u{2003}y\u{3000}",
    "\u{85}x\u{1680}",
    "x\u{200b}",
    "\u{feff}x",
    "\u{b}x\u{c}",
    "0: 600Mhz *\n1: 1200Mhz",
    "+12",
    "-12",
    "007",
    "4294967295",
    "4294967296",
    "18446744073709551616",
    "ÀÉ straße İ",
    "🎮 🌡️",
];

#[test]
fn white_space_is_what_unicode_says() {
    for s in SAMPLES {
        assert_eq!(trim(s), s.trim(), "{s:?}");
        assert_eq!(trim_end(s), s.trim_end(), "{s:?}");
        let words: Vec<String> = s.split_whitespace().map(String::from).collect();
        assert_eq!(split_whitespace(s), words, "{s:?}");
    }
    for c in '\0'..=char::MAX {
        let s = c.to_string();
        assert_eq!(trim(&s).is_empty(), c.is_whitespace(), "{c:?}");
    }
}

#[test]
fn lines_end_where_they_should() {
    for s in SAMPLES {
        let expected: Vec<String> = s.lines().map(String::from).collect();
        assert_eq!(lines(s), expected, "{s:?}");
    }
}

#[test]
fn numbers_are_read_strictly() {
    for s in SAMPLES {
        assert_eq!(parse_unsigned(s, u64::MAX), s.parse::<u64>().ok(), "{s:?}");
        assert_eq!(
            parse_unsigned(s, u32::MAX as u64),
            s.parse::<u32>().ok().map(u64::from),
            "{s:?}"
        );
        assert_eq!(parse_i32(s), s.parse::<i32>().ok(), "{s:?}");
    }
    for s in ["+", "-", "+-1", "-0", "+0", "2147483647", "2147483648", "-2147483648", "-2147483649"] {
        assert_eq!(parse_i32(s), s.parse::<i32>().ok(), "{s:?}");
        assert_eq!(parse_unsigned(s, 255), s.parse::<u8>().ok().map(u64::from), "{s:?}");
    }
    assert_eq!(take_digits("600Mhz"), "600");
    assert_eq!(take_digits("Mhz"), "");
}

#[test]
fn numbers_are_written_in_decimal() {
    for n in [0, 7, 10, 99, 100, u64::MAX] {
        let mut s = "n=".to_string();
        push_dec(&mut s, n);
        assert_eq!(s, format!("n={n}"));
    }
    for i in [0, -1, 1, -100, i64::MAX, i64::MIN + 1] {
        let mut s = String::new();
        push_signed_dec(&mut s, i);
        assert_eq!(s, i.to_string());
    }
}

#[test]
fn parts_are_found() {
    for s in SAMPLES {
        for part in ["", "a", "abc", "\n", "x", "Mhz", " *", "é"] {
            assert_eq!(contains(s, part), s.contains(part), "{s:?} {part:?}");
            assert_eq!(ends_with(s, part), s.ends_with(part), "{s:?} {part:?}");
            assert_eq!(strip_prefix(s, part), s.strip_prefix(part), "{s:?} {part:?}");
        }
    }
}

#[test]
fn letters_are_folded_within_ascii() {
    for s in SAMPLES {
        assert_eq!(to_ascii_lowercase(s), s.to_ascii_lowercase(), "{s:?}");
    }
    assert!(same_ignoring_ascii_case("LENOVO", "Lenovo"));
    assert!(!same_ignoring_ascii_case("É", "é"));
}

#[test]
fn texts_are_put_together() {
    let parts = vec!["a".to_string(), "".to_string(), "c".to_string()];
    assert_eq!(join(&parts, ", "), "a, , c");
    assert_eq!(join(&Vec::new(), ", "), "");
    assert_eq!(replace("hhd@.service", "@.service", "@*.service"), "hhd@*.service");
    assert_eq!(replace("aaa", "aa", "b"), "ba");
    let mut s = String::new();
    push_repeated(&mut s, "ab", 3);
    push_padded(&mut s, "7", 3);
    push_padded(&mut s, "1234", 3);
    assert_eq!(s, "ababab  71234");
}
