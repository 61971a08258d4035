use nvim_vadre::number::{
    parse_i64, parse_unsigned, parse_usize, signed_text, unsigned_text, IntError,
};
use nvim_vadre::str_map::{less, StrMap};
use nvim_vadre::text::{
    chars_of, has_part, has_prefix, has_suffix, join_texts, last_position, part_at, position, same,
    split_text, string_of, text_after_last, to_ascii_uppercase, without_char, without_first,
};
use nvim_vadre::whitespace::{split_whitespace, trim, trim_end, trim_start};

fn strings(list: &[&str]) -> Vec<String> {
    list.iter().map(|s| s.to_string()).collect()
}

#[test]
fn texts_are_split_as_std_splits_them() {
    let cases = [
        ("", "="),
        ("a", "="),
        ("=", "="),
        ("a=b", "="),
        ("a=b=", "="),
        ("==", "="),
        ("aaa", "aa"),
        ("one - two - three", " - "),
        ("○ ⬤ ○", " "),
        ("line\r\nline\r\n", "\r\n"),
    ];
    for (text, separator) in cases {
        let expected: Vec<String> = text.split(separator).map(|s| s.to_string()).collect();
        assert_eq!(split_text(text, separator), expected);
        // What was split joins to what it was.
        assert_eq!(join_texts(&expected, separator), text);
        // No part holds the separator.
        for part in split_text(text, separator) {
            assert!(!has_part(&part, separator));
        }
    }
    assert_eq!(join_texts(&strings(&[]), ", "), "");
    assert_eq!(join_texts(&strings(&["a", "b", ""]), ", "), "a, b, ");
}

#[test]
fn starts_ends_and_parts_are_found() {
    for text in ["", "-", "--env", "-t=", "-t=go", "○", "Vadre (1) - Logs"] {
        for part in ["", "-", "--", "-t=", "Logs", "○", "Vadre (1) - Logs and more"] {
            assert_eq!(has_prefix(text, part), text.starts_with(part));
            assert_eq!(has_suffix(text, part), text.ends_with(part));
            assert_eq!(has_part(text, part), text.contains(part));
            assert_eq!(same(text, part), text == part);
        }
    }
}

#[test]
fn positions_count_characters() {
    let chars = chars_of("⬤ab⬤ab");
    assert_eq!(chars.len(), 6);
    assert!(part_at(&chars, &chars_of("ab"), 1));
    assert!(!part_at(&chars, &chars_of("ab"), 2));
    assert!(!part_at(&chars, &chars_of("ab"), 6));
    assert_eq!(position(&chars, &chars_of("ab"), 0), Some(1));
    assert_eq!(position(&chars, &chars_of("ab"), 2), Some(4));
    assert_eq!(position(&chars, &chars_of("ab"), 5), None);
    assert_eq!(last_position(&chars, &chars_of("ab")), Some(4));
    assert_eq!(last_position(&chars, &chars_of("x")), None);
    assert_eq!(string_of(&chars, 1, 4), "ab⬤");
    assert_eq!(without_first("⬤ab", 1), "ab");
    assert_eq!(without_char("\"1\"2\"", '"'), "12");
    assert_eq!(text_after_last("a - b - c", " - "), "c");
    assert_eq!(text_after_last("abc", " - "), "abc");
    assert_eq!(to_ascii_uppercase("debug ä"), "DEBUG ä");
}

#[test]
fn white_space_is_what_std_takes_for_it() {
    let cases = [
        "",
        "   ",
        " a ",
        "\ta b\r\n",
        "\u{a0}x\u{2003}",
        "no space",
        "x\u{3000}y \u{85}",
        "\u{200b}zero width\u{200b}",
    ];
    for text in cases {
        assert_eq!(trim_end(text), text.trim_end());
        assert_eq!(trim_start(text), text.trim_start());
        assert_eq!(trim(text), text.trim());
        let expected: Vec<String> = text.split_whitespace().map(|s| s.to_string()).collect();
        assert_eq!(split_whitespace(text), expected);
    }
}

#[test]
fn numbers_are_read_as_std_reads_them() {
    let cases = [
        "",
        "+",
        "-",
        "0",
        "-0",
        "+7",
        "007",
        "42",
        "-42",
        "4 2",
        "4a",
        "--4",
        "+-4",
        "9223372036854775807",
        "9223372036854775808",
        "-9223372036854775808",
        "-9223372036854775809",
        "18446744073709551615",
        "18446744073709551616",
        "99999999999999999999999",
        "٣",
    ];
    for text in cases {
        match (parse_i64(text), text.parse::<i64>()) {
            (Ok(n), Ok(m)) => assert_eq!(n, m),
            (Err(e), Err(f)) => assert_eq!(e.message(), f.to_string()),
            (a, b) => panic!("{:?} {:?} {:?}", text, a, b),
        }
        match (parse_usize(text), text.parse::<usize>()) {
            (Ok(n), Ok(m)) => assert_eq!(n, m),
            (Err(e), Err(f)) => assert_eq!(e.message(), f.to_string()),
            (a, b) => panic!("{:?} {:?} {:?}", text, a, b),
        }
        match (parse_unsigned(text, u64::from(u16::MAX)), text.parse::<u16>()) {
            (Ok(n), Ok(m)) => assert_eq!(n, u64::from(m)),
            (Err(e), Err(f)) => assert_eq!(e.message(), f.to_string()),
            (a, b) => panic!("{:?} {:?} {:?}", text, a, b),
        }
    }
}

#[test]
fn every_reason_why_a_text_is_no_number() {
    assert_eq!(parse_i64(""), Err(IntError::Empty));
    assert_eq!(parse_i64("x"), Err(IntError::InvalidDigit));
    assert_eq!(parse_i64("9223372036854775808"), Err(IntError::PosOverflow));
    assert_eq!(parse_i64("-9223372036854775809"), Err(IntError::NegOverflow));
}

#[test]
fn numbers_are_written_and_read_back() {
    for n in [0, 1, 9, 10, 12345, u64::MAX] {
        assert_eq!(unsigned_text(n), n.to_string());
        assert_eq!(parse_unsigned(&unsigned_text(n), u64::MAX), Ok(n));
    }
    for n in [0, 7, -7, i64::MAX, i64::MIN] {
        assert_eq!(signed_text(n), n.to_string());
        assert_eq!(parse_i64(&signed_text(n)), Ok(n));
    }
    assert_ne!(unsigned_text(1), unsigned_text(10));
}

#[test]
fn texts_are_ordered_as_std_orders_them() {
    let all = ["", "a", "ab", "b", "B", "○", "⬤", "\u{10ffff}", "\u{ffff}"];
    for a in all {
        for b in all {
            assert_eq!(less(a, b), a < b);
        }
    }
}

#[test]
fn a_map_keeps_its_keys_in_order() {
    let mut map: StrMap<u32> = StrMap::new();
    for (i, k) in ["b", "a", "c", "a"].iter().enumerate() {
        map.insert(k.to_string(), i as u32);
    }
    let keys: Vec<&str> = map.entries.iter().map(|e| e.0.as_str()).collect();
    assert_eq!(keys, vec!["a", "b", "c"]);
    assert_eq!(map.get("a"), Some(&3));
    assert_eq!(map.get("d"), None);
    assert_eq!(map.find("c"), Some(2));
    assert_eq!(map.remove("b"), Some(0));
    assert_eq!(map.remove("b"), None);
    assert_eq!(map.entries.len(), 2);
}

#[test]
fn whitespace_beyond_ascii_is_trimmed() {
    let wide = [
        0x85, 0xA0, 0x1680, 0x2000, 0x2001, 0x2002, 0x2003, 0x2004, 0x2005, 0x2006, 0x2007, 0x2008,
        0x2009, 0x200A, 0x2028, 0x2029, 0x202F, 0x205F, 0x3000,
    ];
    for n in 0..0x4000u32 {
        let text = char::from_u32(n).unwrap().to_string();
        let white = n == 0x20 || (0x9..=0xD).contains(&n) || wide.contains(&n);
        assert_eq!(trim(&text).is_empty(), white, "{:x}", n);
    }
}
