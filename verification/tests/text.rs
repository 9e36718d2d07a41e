use nicocast_v2::text::{
    chars_of, contains, decode, find, lines, parse_unsigned, push_decimal, push_hex, same,
    same_ignoring_case, space, starts_with, text_of, trim,
};

/// Texts with all kinds of line ends, white space and wide characters.
const SAMPLES: [&str; 14] = [
    "",
    "a",
    "\n",
    "\r\n",
    "a\r",
    "a\r\r\nb",
    "a\nb\r\n\r\nc",
    " \t x y \u{a0}\r\n",
    "\u{3000}",
    "häß\u{2028}lich\n",
    "\r\n\r\n",
    "x\r\n\r\ny\r\n\r\n",
    "€😀",
    "\u{feff}a\u{feff}",
];

/// The string that a function on characters makes of `s`.
fn through(s: &str, f: fn(&[char]) -> Vec<char>) -> String {
    text_of(&f(&chars_of(s)))
}

#[test]
fn white_space_is_that_of_std() {
    for code in 0..=0x10_ffffu32 {
        if let Some(c) = char::from_u32(code) {
            assert_eq!(space(c), c.is_whitespace(), "{code:x}");
        }
    }
}

#[test]
fn texts_are_cut_as_std_cuts_them() {
    for s in SAMPLES {
        assert_eq!(text_of(&chars_of(s)), s);
        assert_eq!(through(s, trim), s.trim());
        let ours: Vec<String> = lines(&chars_of(s)).iter().map(|l| text_of(l)).collect();
        let theirs: Vec<&str> = s.lines().collect();
        assert_eq!(ours, theirs, "{s:?}");
    }
}

#[test]
fn texts_are_searched_as_std_searches_them() {
    for s in SAMPLES {
        for t in SAMPLES {
            assert_eq!(contains(s, t), s.contains(t), "{s:?} {t:?}");
            assert_eq!(starts_with(s, t), s.starts_with(t), "{s:?} {t:?}");
            assert_eq!(same(s, t), s == t);
            assert_eq!(same_ignoring_case(s, t), s.eq_ignore_ascii_case(t));
            let at = find(&chars_of(s), &chars_of(t));
            let byte = s.find(t);
            assert_eq!(at, byte.map(|b| s[..b].chars().count()));
        }
    }
    assert!(same_ignoring_case("Content-LENGTH", "content-length"));
    assert!(!same_ignoring_case("É", "é"));
}

#[test]
fn bytes_are_decoded_as_std_decodes_them() {
    for s in SAMPLES {
        assert_eq!(decode(s.as_bytes()), s);
    }
    for bad in [&b"\xff"[..], b"a\xc3", b"\xed\xa0\x80", b"\xc0\x80"] {
        assert_eq!(decode(bad), "");
    }
}

#[test]
fn numbers_are_written_as_std_writes_them() {
    for n in [0u64, 7, 9, 10, 99, 100, 65535, 10_000_000_000, u64::MAX] {
        let mut out = "n=".to_owned();
        push_decimal(&mut out, n);
        assert_eq!(out, format!("n={n}"));
        let mut out = String::new();
        push_hex(&mut out, n, 16);
        assert_eq!(out, format!("{n:016x}"));
    }
    let mut out = String::new();
    push_hex(&mut out, 0xabc, 2);
    assert_eq!(out, "bc");
}

#[test]
fn numbers_are_read_as_std_reads_them() {
    for s in ["", "+", "0", "007", "+5", "-0", "++1", "1a", "65535", "65536", "99999", "1 ", "٣"] {
        let ours = parse_unsigned(&chars_of(s), u64::from(u16::MAX));
        let theirs = s.parse::<u16>().ok().map(u64::from);
        assert_eq!(ours, theirs, "{s:?}");
    }
    for s in ["18446744073709551615", "18446744073709551616", "99999999999999999999999"] {
        assert_eq!(parse_unsigned(&chars_of(s), u64::MAX), s.parse::<u64>().ok());
    }
}
