use zigzag::bytes::{lossy, to_text};
use zigzag::text::{
    chars_of, is_text, is_whitespace, parse_number, rsplit_once, same, split, split_once,
    split_whitespace, string_of, strip_prefix, text_before, to_ascii_lowercase, to_decimal,
    to_signed_decimal, trim, trim_end, CharClass,
};

const SAMPLES: [&str; 14] = [
    "",
    " ",
    "a",
    " a ",
    "a:b",
    ":a:b:",
    "::",
    "\u{2003}x\u{3000}y\u{85}",
    "GET  /p\tHTTP/1.1\r\n",
    "k=v&w&&",
    "&",
    "\u{e9}\u{1f600}:\u{feff}",
    "Content-LENGTH: 7",
    "a\nb\r\n",
];

fn text(chars: &[char]) -> String {
    chars.iter().collect()
}

#[test]
fn white_space_is_that_of_unicode() {
    for c in (0..=0x10ffff).filter_map(char::from_u32) {
        assert_eq!(is_whitespace(c), c.is_whitespace());
    }
}

#[test]
fn scanning_agrees_with_the_string_methods() {
    for sample in SAMPLES {
        let chars = chars_of(sample);
        assert_eq!(chars, sample.chars().collect::<Vec<char>>());
        assert_eq!(string_of(&chars), sample);
        assert_eq!(text(trim(&chars, CharClass::Space)), sample.trim());
        assert_eq!(text(trim_end(&chars, CharClass::Space)), sample.trim_end());
        assert_eq!(
            split_whitespace(&chars),
            sample.split_whitespace().collect::<Vec<&str>>()
        );
        assert_eq!(to_ascii_lowercase(&chars), sample.to_ascii_lowercase());
        for c in [':', '&', 'a', ' '] {
            assert_eq!(
                split_once(&chars, c).map(|(a, b)| (text(a), text(b))),
                sample
                    .split_once(c)
                    .map(|(a, b)| (a.to_owned(), b.to_owned()))
            );
            assert_eq!(
                rsplit_once(&chars, c).map(|(a, b)| (text(a), text(b))),
                sample
                    .rsplit_once(c)
                    .map(|(a, b)| (a.to_owned(), b.to_owned()))
            );
            assert_eq!(split(&chars, c), sample.split(c).collect::<Vec<&str>>());
            assert_eq!(
                text(text_before(&chars, c)),
                sample.split(c).next().unwrap_or("")
            );
            assert_eq!(
                text(trim(&chars, CharClass::Only(c))),
                sample.trim_matches(c)
            );
        }
        for prefix in ["", "a", ":", "GET ", "a:b:c"] {
            assert_eq!(
                strip_prefix(&chars, prefix).map(text),
                sample.strip_prefix(prefix).map(str::to_owned)
            );
        }
        for other in SAMPLES {
            assert_eq!(same(sample, other), sample == other);
            assert_eq!(is_text(&chars, other), sample == other);
        }
    }
}

#[test]
fn numbers_read_as_the_standard_parser_reads_them() {
    for sample in [
        "", "0", "7", "+7", "+", "++7", "-7", "-0", "007", "65535", "65536", "255", "256", "1x",
        " 1", "18446744073709551615", "18446744073709551616", "99999999999999999999999", "\u{662}",
        "00000000000000000000000000000001",
    ] {
        let chars = chars_of(sample);
        assert_eq!(parse_number(&chars, u64::MAX), sample.parse::<u64>().ok());
        assert_eq!(
            parse_number(&chars, 65535),
            sample.parse::<u16>().ok().map(u64::from)
        );
        assert_eq!(
            parse_number(&chars, 255),
            sample.parse::<u8>().ok().map(u64::from)
        );
    }
    assert_eq!(parse_number(&['9'], 5), None);
    assert_eq!(parse_number(&['5'], 5), Some(5));
}

#[test]
fn numbers_are_written_in_decimal() {
    for n in [0, 9, 10, 99, 100, 1000, 8765, u64::MAX] {
        assert_eq!(to_decimal(n), n.to_string());
        assert_eq!(parse_number(&chars_of(&to_decimal(n)), u64::MAX), Some(n));
    }
    for n in [0, 1, -1, 127, -10, i32::MAX, i32::MIN] {
        assert_eq!(to_signed_decimal(n), n.to_string());
    }
}

#[test]
fn bytes_are_read_as_utf8() {
    assert_eq!(
        to_text("a\u{e9}\u{1f600}".as_bytes().to_vec()),
        Some("a\u{e9}\u{1f600}".to_owned())
    );
    assert_eq!(to_text(Vec::new()), Some(String::new()));
    for bad in [&b"\xff"[..], b"a\xc3", b"\xed\xa0\x80", b"\xc0\x80"] {
        assert_eq!(to_text(bad.to_vec()), None);
        assert!(lossy(bad).contains('\u{fffd}'));
    }
    assert_eq!(lossy("a\u{e9}".as_bytes()), "a\u{e9}");
    assert_eq!(lossy(b"Hello \xF0\x90\x80World"), "Hello \u{fffd}World");
}
