use newgrounds_audio_downloader::text::{
    chars_of, decimal_of, is_float_text, parse_u64, remove_commas, same_text, trim,
    white_space,
};

fn chars(s: &str) -> Vec<char> {
    s.chars().collect()
}

fn text(v: &[char]) -> String {
    v.iter().collect()
}

#[test]
fn characters_of_a_string() {
    let s = "K-391 – Summertime ♪";
    let v = chars_of(s);
    assert_eq!(v, chars(s));
    assert!(chars_of("").is_empty());
}

#[test]
fn same_text_compares_whole_texts() {
    assert!(same_text(&chars("Listens"), "Listens"));
    assert!(!same_text(&chars("Listen"), "Listens"));
    assert!(!same_text(&chars("listens"), "Listens"));
    assert!(same_text(&[], ""));
}

#[test]
fn commas_are_removed() {
    assert_eq!(text(&remove_commas(&chars("1,234,567"))), "1234567");
    assert_eq!(text(&remove_commas(&chars(",,a,b,,"))), "ab");
    assert_eq!(text(&remove_commas(&chars("no commas"))), "no commas");
}

#[test]
fn u64_parsing_follows_std() {
    let cases = [
        "0", "1234", "+5", "", "+", "-1", "-0", "18446744073709551615", "18446744073709551616",
        "12a", " 1", "1 ", "007", "++1", "١٢",
    ];
    for case in cases {
        assert_eq!(parse_u64(&chars(case)), case.parse::<u64>().ok(), "{case:?}");
    }
    assert_eq!(parse_u64(&chars("1234")), Some(1234));
    assert_eq!(parse_u64(&chars("+5")), Some(5));
    assert_eq!(parse_u64(&chars("18446744073709551615")), Some(u64::MAX));
    assert_eq!(parse_u64(&chars("18446744073709551616")), None);
    assert_eq!(parse_u64(&chars("")), None);
}

#[test]
fn decimal_spelling() {
    assert_eq!(text(&decimal_of(0)), "0");
    assert_eq!(text(&decimal_of(7)), "7");
    assert_eq!(text(&decimal_of(1234)), "1234");
    assert_eq!(text(&decimal_of(u64::MAX)), u64::MAX.to_string());
}

#[test]
fn decimal_spelling_reads_back() {
    for n in [0u64, 9, 10, 99, 100, 429941, u64::MAX - 1, u64::MAX] {
        assert_eq!(parse_u64(&decimal_of(n)), Some(n));
    }
}

#[test]
fn white_space_is_unicode_white_space() {
    for c in ['\t', '\n', '\u{b}', '\u{c}', '\r', ' ', '\u{85}', '\u{a0}', '\u{1680}', '\u{2000}', '\u{200a}', '\u{2028}', '\u{2029}', '\u{202f}', '\u{205f}', '\u{3000}'] {
        assert!(white_space(c), "{c:?}");
    }
    for c in ['a', '0', '\u{200b}', '\u{feff}', '\u{180e}', '_'] {
        assert!(!white_space(c), "{c:?}");
    }
    for code in 0u32..0x3100 {
        if let Some(c) = char::from_u32(code) {
            assert_eq!(white_space(c), c.is_whitespace(), "{code:#x}");
        }
    }
}

#[test]
fn trim_removes_outer_whitespace() {
    assert_eq!(text(&trim(&chars("  Waiting for 3 more votes \n"))), "Waiting for 3 more votes");
    assert_eq!(text(&trim(&chars("\u{3000}x y\u{a0}"))), "x y");
    assert_eq!(text(&trim(&chars(" \t\n"))), "");
    assert_eq!(text(&trim(&chars(""))), "");
    for s in ["a", " a", "a ", " a b ", "\n\nx\n", "\u{2028}\u{2029}"] {
        assert_eq!(text(&trim(&chars(s))), s.trim(), "{s:?}");
    }
}

#[test]
fn trim_twice_is_trim_once() {
    for s in ["  a  ", "b", "", "  ", "\u{85}c\u{85}"] {
        let once = trim(&chars(s));
        assert_eq!(trim(&once), once);
    }
}

#[test]
fn float_literals_follow_std() {
    let cases = [
        "3.5", "4.12", "0", "10", "inf", "-Infinity", "+INF", "NaN", "nan", "-nan", "1e5", "1E+5",
        "2.5e-3", ".5", "5.", ".", "", "e5", "1e", "1e+", "1.2.3", "+", "-", "infinit", " 1", "1 ",
        "1_0", "0x10", "4.12 / 5.00", "Waiting for 2 more votes", "1,234", "١", "+.5e7", "-.e1",
        "infinityy", "inF", "1.5E", "00.00",
    ];
    for case in cases {
        assert_eq!(is_float_text(&chars(case)), case.parse::<f64>().is_ok(), "{case:?}");
    }
    assert!(is_float_text(&chars("4.12")));
    assert!(!is_float_text(&chars("4.12 / 5.00")));
}
