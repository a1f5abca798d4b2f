use schmfy_server::text::{
    char_of_digit, chars_of, digit_of, is_space, push_decimal, same_text, scan_number, trim,
};

#[test]
fn digits_are_read_and_written() {
    for d in 0u8..=9 {
        let c = char_of_digit(d);
        assert_eq!(c, (b'0' + d) as char);
        assert_eq!(digit_of(c), Some(d));
    }
    assert_eq!(digit_of('/'), None);
    assert_eq!(digit_of(':'), None);
    assert_eq!(digit_of('a'), None);
    assert_eq!(digit_of('\u{0661}'), None);
    assert_eq!(digit_of('\u{ff11}'), None);
}

#[test]
fn whitespace_is_what_unicode_calls_white_space() {
    let mut c = 0u32;
    while c <= 0x10FFFF {
        if let Some(ch) = char::from_u32(c) {
            assert_eq!(is_space(ch), ch.is_whitespace(), "U+{:04X}", c);
        }
        c += 1;
    }
}

#[test]
fn whitespace_code_points() {
    for c in ['\t', '\n', '\u{b}', '\u{c}', '\r', ' ', '\u{85}', '\u{a0}', '\u{1680}', '\u{2000}',
        '\u{200a}', '\u{2028}', '\u{2029}', '\u{202f}', '\u{205f}', '\u{3000}']
    {
        assert!(is_space(c));
    }
    for c in ['\u{8}', '\u{e}', '\u{1f}', '!', '0', 'a', '\u{200b}', '\u{180e}', '\u{feff}'] {
        assert!(!is_space(c));
    }
}

#[test]
fn trim_removes_surrounding_whitespace_only() {
    assert_eq!(trim(" 9090 "), "9090");
    assert_eq!(trim("9090"), "9090");
    assert_eq!(trim("\t\n 90 90 \r\n"), "90 90");
    assert_eq!(trim(""), "");
    assert_eq!(trim("   "), "");
    assert_eq!(trim("\u{3000}x\u{a0}"), "x");
    assert_eq!(trim("  \u{e9}t\u{e9}  "), "\u{e9}t\u{e9}");
    assert_eq!(trim("a"), "a");
    assert_eq!(trim(" a"), "a");
    assert_eq!(trim("a "), "a");
}

#[test]
fn trim_agrees_with_the_standard_library() {
    let samples = [
        "", " ", "  ", "a", " a", "a ", " a ", "\ta b\n", "\u{2003}x y\u{2003}", "\u{200b} x",
        "x\u{feff}", "  multi\nline  \n", "\u{1680}\u{85}z\u{2028}\u{2029}", "no-space",
    ];
    for s in samples {
        assert_eq!(trim(s), s.trim(), "{:?}", s);
    }
}

#[test]
fn chars_of_keeps_every_character() {
    assert_eq!(chars_of(""), Vec::<char>::new());
    assert_eq!(chars_of("a.b"), vec!['a', '.', 'b']);
    assert_eq!(chars_of("\u{e9}\u{1f600}z"), vec!['\u{e9}', '\u{1f600}', 'z']);
}

#[test]
fn same_text_compares_characters() {
    assert!(same_text("", ""));
    assert!(same_text("/schmfy", "/schmfy"));
    assert!(!same_text("/schmfy", "/schmfy/"));
    assert!(!same_text("/schmfy", "/schmfz"));
    assert!(!same_text("/", ""));
    assert!(!same_text("abc", "abd"));
    assert!(!same_text("abc", "xbc"));
}

#[test]
fn scan_number_reads_the_run_of_digits() {
    let chars = chars_of("123.45");
    assert_eq!(scan_number(&chars, 0, 255), (3, Some(123)));
    assert_eq!(scan_number(&chars, 1, 255), (3, Some(23)));
    assert_eq!(scan_number(&chars, 3, 255), (3, Some(0)));
    assert_eq!(scan_number(&chars, 4, 255), (6, Some(45)));
    assert_eq!(scan_number(&chars, 6, 255), (6, Some(0)));
    assert_eq!(scan_number(&chars, 0, 122), (3, None));
    assert_eq!(scan_number(&chars, 0, 123), (3, Some(123)));
}

#[test]
fn scan_number_reports_what_exceeds_the_limit() {
    let chars = chars_of("65536");
    assert_eq!(scan_number(&chars, 0, 65535), (5, None));
    let chars = chars_of("65535x");
    assert_eq!(scan_number(&chars, 0, 65535), (5, Some(65535)));
    let chars = chars_of("99999999999999999999999999999999999999");
    assert_eq!(scan_number(&chars, 0, 65535), (38, None));
    let chars = chars_of("0000000000000000000000000000000000000080");
    assert_eq!(scan_number(&chars, 0, 65535), (40, Some(80)));
    let chars = chars_of("2560");
    assert_eq!(scan_number(&chars, 0, 255), (4, None));
}

#[test]
fn push_decimal_writes_the_shortest_numeral() {
    for n in [0u16, 1, 9, 10, 11, 99, 100, 101, 255, 256, 999, 1000, 8000, 9090, 65535] {
        let mut out = String::from("port ");
        push_decimal(&mut out, n);
        assert_eq!(out, format!("port {}", n));
    }
}

#[test]
fn push_decimal_writes_every_number_as_the_standard_library_does() {
    let mut n = 0u16;
    loop {
        let mut out = String::new();
        push_decimal(&mut out, n);
        assert_eq!(out, n.to_string());
        if n == u16::MAX {
            break;
        }
        n += 1;
    }
}
