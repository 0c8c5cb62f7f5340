use haproxy_stats::lines::read_lines;
use haproxy_stats::text::{
    chars_eq, parse_count, replace_first, signed_to_string, space, split_first, str_eq,
    to_chars, trim, unsigned_to_string,
};

#[test]
fn texts_are_taken_apart_by_character() {
    let chars = to_chars("h\u{e9}llo");
    assert_eq!(chars, vec!['h', '\u{e9}', 'l', 'l', 'o']);
    assert!(to_chars("").is_empty());
}

#[test]
fn texts_are_compared_by_their_characters() {
    assert!(str_eq("", ""));
    assert!(str_eq("type", "type"));
    assert!(!str_eq("type", "typ"));
    assert!(!str_eq("type", "typo"));
    assert!(!str_eq("Type", "type"));
    assert!(chars_eq(&['a', 'b'], &['a', 'b']));
    assert!(!chars_eq(&['a', 'b'], &['b', 'a']));
    assert!(!chars_eq(&['a'], &[]));
}

#[test]
fn white_space_is_what_unicode_says() {
    for c in [
        '\t', '\n', '\u{b}', '\u{c}', '\r', ' ', '\u{85}', '\u{a0}', '\u{1680}', '\u{2000}',
        '\u{2005}', '\u{200a}', '\u{2028}', '\u{2029}', '\u{202f}', '\u{205f}', '\u{3000}',
    ] {
        assert!(space(c), "{:?}", c);
    }
    for c in ['a', '0', '\u{8}', '\u{e}', '\u{1f}', '!', '\u{200b}', '\u{2060}', '\u{feff}', '\u{84}'] {
        assert!(!space(c), "{:?}", c);
    }
    // the same characters as the standard library's
    for code in 0u32..0x3100 {
        if let Some(c) = char::from_u32(code) {
            assert_eq!(space(c), c.is_whitespace(), "{:x}", code);
        }
    }
}

#[test]
fn trim_removes_white_space_at_both_ends_only() {
    assert_eq!(trim(""), "");
    assert_eq!(trim("   "), "");
    assert_eq!(trim("a"), "a");
    assert_eq!(trim(" pxname"), "pxname");
    assert_eq!(trim("svname \t"), "svname");
    assert_eq!(trim("\u{a0} a b \u{3000}\n"), "a b");
    for s in ["", " ", " a", "a ", " a b ", "\t\u{2003}x\u{2003}\t", "a\u{200b} "] {
        assert_eq!(trim(s), s.trim(), "{:?}", s);
    }
}

#[test]
fn split_is_at_the_first_occurrence() {
    let pair = |a: &str, b: &str| (a.to_string(), b.to_string());
    assert_eq!(split_first("a=b", "="), pair("a", "b"));
    assert_eq!(split_first("a=b=c", "="), pair("a", "b=c"));
    assert_eq!(split_first("abc", "="), pair("abc", ""));
    assert_eq!(split_first("", "="), pair("", ""));
    assert_eq!(split_first("=", "="), pair("", ""));
    assert_eq!(split_first("a=", "="), pair("a", ""));
    assert_eq!(split_first("=b", "="), pair("", "b"));
    assert_eq!(split_first("Name: HAProxy", ": "), pair("Name", "HAProxy"));
    assert_eq!(split_first("a:b: c: d", ": "), pair("a:b", "c: d"));
    assert_eq!(split_first("a:", ": "), pair("a:", ""));
    assert_eq!(split_first("a: ", ": "), pair("a", ""));
    assert_eq!(split_first("::  x", ": "), pair(":", " x"));
    // the empty pattern stands at the very start
    assert_eq!(split_first("ab", ""), pair("", "ab"));
    assert_eq!(split_first("", ""), pair("", ""));
    // a pattern longer than the text
    assert_eq!(split_first("a", "ab"), pair("a", ""));
}

#[test]
fn replace_stops_at_its_limit() {
    assert_eq!(replace_first("2022/01/14", '/', '-', 3), "2022-01-14");
    assert_eq!(replace_first("1/2/3/4/5", '/', '-', 3), "1-2-3-4/5");
    assert_eq!(replace_first("1/2/3/4/5", '/', '-', 0), "1/2/3/4/5");
    assert_eq!(replace_first("////", '/', '-', 1), "-///");
    assert_eq!(replace_first("", '/', '-', 3), "");
    assert_eq!(replace_first("abc", '/', '-', 3), "abc");
    for s in ["a/b", "/", "a//b///c", "no"] {
        assert_eq!(replace_first(s, '/', '-', 3), s.replacen('/', "-", 3));
    }
}

#[test]
fn counters_are_read_in_decimal_or_after_0x_in_hexadecimal() {
    assert_eq!(parse_count("0"), Some(0));
    assert_eq!(parse_count("12"), Some(12));
    assert_eq!(parse_count("262124"), Some(262124));
    assert_eq!(parse_count("+12"), Some(12));
    assert_eq!(parse_count("0012"), Some(12));
    assert_eq!(parse_count("0x10"), Some(16));
    assert_eq!(parse_count("0xff"), Some(255));
    assert_eq!(parse_count("0xFf"), Some(255));
    assert_eq!(parse_count("0x+a"), Some(10));
    assert_eq!(parse_count("0x0"), Some(0));
    assert_eq!(parse_count("18446744073709551615"), Some(usize::MAX));
    assert_eq!(parse_count("0xffffffffffffffff"), Some(usize::MAX));
    for bad in [
        "", "+", "-", "-1", "-0", "1-", "++1", "1 ", " 1", "1.0", "1e3", "a", "ff", "0x", "0x+",
        "0xg", "0X10", "x10", "+0x10", "18446744073709551616", "99999999999999999999999",
        "0x10000000000000000", "\u{661}",
    ] {
        assert_eq!(parse_count(bad), None, "{:?}", bad);
    }
}

#[test]
fn numbers_are_written_in_decimal() {
    assert_eq!(unsigned_to_string(0), "0");
    assert_eq!(unsigned_to_string(7), "7");
    assert_eq!(unsigned_to_string(10), "10");
    assert_eq!(unsigned_to_string(1203), "1203");
    assert_eq!(unsigned_to_string(u64::MAX), "18446744073709551615");
    assert_eq!(signed_to_string(0), "0");
    assert_eq!(signed_to_string(42), "42");
    assert_eq!(signed_to_string(-1), "-1");
    assert_eq!(signed_to_string(-120), "-120");
    assert_eq!(signed_to_string(i64::MAX), "9223372036854775807");
    assert_eq!(signed_to_string(i64::MIN), "-9223372036854775808");
    for n in [1u64, 9, 99, 100, 101, 65535, 4294967296] {
        assert_eq!(unsigned_to_string(n), n.to_string());
        assert_eq!(parse_count(&unsigned_to_string(n)), Some(n as usize));
    }
}

#[test]
fn lines_end_at_line_feeds() {
    let lines = |bytes: &[u8]| read_lines(bytes).unwrap();
    assert_eq!(lines(b""), Vec::<String>::new());
    assert_eq!(lines(b"a"), vec!["a"]);
    assert_eq!(lines(b"a\n"), vec!["a"]);
    assert_eq!(lines(b"a\nb"), vec!["a", "b"]);
    assert_eq!(lines(b"a\r\nb\r\n"), vec!["a", "b"]);
    assert_eq!(lines(b"\n"), vec![""]);
    assert_eq!(lines(b"\n\n"), vec!["", ""]);
    assert_eq!(lines(b"\r\n"), vec![""]);
    assert_eq!(lines(b"a\n\nb\n"), vec!["a", "", "b"]);
    assert_eq!(lines(b"a\rb\n"), vec!["a\rb"]);
    assert_eq!(lines(b"a\r"), vec!["a\r"]);
    assert_eq!(lines("h\u{e9}\n\u{4e2d}".as_bytes()), vec!["h\u{e9}", "\u{4e2d}"]);
    assert_eq!(read_lines(b"ok\n\xe4\xb8\nok"), Err(1));
    assert_eq!(read_lines(b"\x80"), Err(0));
    assert_eq!(read_lines(b"a\nb\nc\xed\xa0\x80"), Err(2));
    for text in ["a\nb\n", "x\r\ny", "\n\nz", "one"] {
        let expected: Vec<String> = text.lines().map(|l| l.to_string()).collect();
        assert_eq!(lines(text.as_bytes()), expected);
    }
}
