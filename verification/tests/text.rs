use sda_agent::text::{
    byte_len, char_index, chars_of, contains, decimal, digit_value, ends_with, find, is_whitespace, lines,
    octet_pieces, parse_number, pieces, push_number, rfind_char, signed_decimal, split_once, starts_with,
    string_of, to_ascii_lower, trim, trim_char, trim_end, trim_end_char, trim_start, words,
};

const SAMPLES: [&str; 12] = [
    "",
    " ",
    "a",
    "  a b\tc \n",
    "one\ntwo\r\nthree",
    "one\n\n",
    "\r\n",
    "\r",
    "gr\u{fc}n \u{2003}x\u{a0}",
    "k: v: w",
    ",,a,",
    "\u{1f600}\u{85}end",
];

fn owned(v: Vec<&[char]>) -> Vec<String> {
    v.iter().map(|p| p.iter().collect()).collect()
}

#[test]
fn white_space_is_what_unicode_says() {
    for u in 0..0x11_0000u32 {
        if let Some(c) = char::from_u32(u) {
            assert_eq!(is_whitespace(c), c.is_whitespace(), "{:?}", c);
        }
    }
}

#[test]
fn texts_are_split_as_std_splits_them() {
    for s in SAMPLES {
        let v = chars_of(s);
        assert_eq!(string_of(&v), s);
        assert_eq!(owned(lines(&v)), s.lines().collect::<Vec<_>>());
        assert_eq!(owned(words(&v)), s.split_whitespace().collect::<Vec<_>>());
        assert_eq!(owned(pieces(&v, ',')), s.split(',').collect::<Vec<_>>());
        assert_eq!(
            split_once(&v, ':').map(|(a, b)| (string_of(a), string_of(b))),
            s.split_once(':').map(|(a, b)| (a.to_string(), b.to_string()))
        );
    }
    assert_eq!(octet_pieces(b"a\0b\0", 0), vec![&b"a"[..], &b"b"[..], &b""[..]]);
}

#[test]
fn texts_are_trimmed_as_std_trims_them() {
    for s in SAMPLES {
        let v = chars_of(s);
        assert_eq!(string_of(trim(&v)), s.trim());
        assert_eq!(string_of(trim_start(&v)), s.trim_start());
        assert_eq!(string_of(trim_end(&v)), s.trim_end());
        assert_eq!(string_of(trim_end_char(&v, ',')), s.trim_end_matches(','));
        assert_eq!(string_of(trim_char(&v, ',')), s.trim_matches(','));
        assert_eq!(string_of(&to_ascii_lower(&v)), s.to_ascii_lowercase());
    }
}

#[test]
fn texts_are_searched_as_std_searches_them() {
    for s in SAMPLES {
        let v = chars_of(s);
        assert_eq!(byte_len(&v), s.len() as u128);
        for p in ["", "a", "one", "\u{fc}n", "d", " b"] {
            assert_eq!(starts_with(&v, p), s.starts_with(p));
            assert_eq!(ends_with(&v, p), s.ends_with(p));
            assert_eq!(contains(&v, p), s.contains(p));
            let at = find(&v, p).map(|i| string_of(&v[..i]).len());
            assert_eq!(at, s.find(p));
        }
        let at = rfind_char(&v, 'e').map(|i| string_of(&v[..i]).len());
        assert_eq!(at, s.rfind('e'));
    }
    let v = chars_of("a\u{fc}b");
    assert_eq!(char_index(&v, 0), Some(0));
    assert_eq!(char_index(&v, 1), Some(1));
    assert_eq!(char_index(&v, 2), None);
    assert_eq!(char_index(&v, 3), Some(2));
    assert_eq!(char_index(&v, 4), Some(3));
    assert_eq!(char_index(&v, 5), None);
}

#[test]
fn numbers_are_read_as_std_reads_them() {
    for s in ["", "+", "-", "0", "+7", "-0", "007", "4294967295", "4294967296", "1_0", " 1", "ff", "Fg"] {
        let v = chars_of(s);
        assert_eq!(
            parse_number(&v, 10, u32::MAX as u64).map(|n| n as u32),
            s.parse::<u32>().ok(),
            "{:?}",
            s
        );
        assert_eq!(
            parse_number(&v, 16, u64::MAX),
            u64::from_str_radix(s, 16).ok(),
            "{:?}",
            s
        );
    }
    let most = chars_of("18446744073709551615");
    assert_eq!(parse_number(&most, 10, u64::MAX), Some(u64::MAX));
    let more = chars_of("18446744073709551616");
    assert_eq!(parse_number(&more, 10, u64::MAX), None);
    for c in ['0', '9', 'a', 'f', 'g', 'A', '-', '\u{660}'] {
        assert_eq!(digit_value(c, 16), c.to_digit(16).map(|d| d as u64));
    }
}

#[test]
fn numbers_are_written_as_std_writes_them() {
    for n in [0u64, 9, 10, 12345, u64::MAX] {
        assert_eq!(decimal(n), n.to_string());
        let mut s = "0x".to_string();
        push_number(&mut s, n as u128, 16);
        assert_eq!(s, format!("{:#x}", n));
    }
    for n in [0i64, -1, 42, i64::MIN, i64::MAX] {
        assert_eq!(signed_decimal(n), n.to_string());
    }
    let mut s = String::new();
    push_number(&mut s, u128::MAX, 10);
    assert_eq!(s, u128::MAX.to_string());
}
