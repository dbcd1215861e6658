use spur::clock::{start_of_hour, Instant};
use spur::plainmap::{PlainMap, PlainSet};
use spur::strmap::StrMap;
use spur::text::{parse_i32, parse_u32};
use spur::uuids::fresh_token;
use spur::words::{lines, trim_text, words};

#[test]
fn whitespace_outside_ascii_parts_words() {
    assert_eq!(words(" a\u{a0}b\tc\u{2003}"), vec!["a", "b", "c"]);
    assert_eq!(trim_text("\u{3000} x y \n"), "x y");
    assert_eq!(words("a\u{200b}b"), vec!["a\u{200b}b"]);
}

#[test]
fn lines_end_at_newlines() {
    assert_eq!(lines("a\nb\r\n\nc"), vec!["a", "b", "", "c"]);
    assert!(lines("").is_empty());
    assert_eq!(lines("a\n"), vec!["a"]);
}

#[test]
fn numbers_are_read_whole() {
    assert_eq!(parse_u32("4294967295").ok(), Some(u32::MAX));
    assert_eq!(parse_u32("+7").ok(), Some(7));
    assert!(parse_u32("4294967296").is_err());
    assert!(parse_u32("").is_err());
    assert!(parse_u32("-1").is_err());
    assert_eq!(parse_i32("-2147483648"), Some(i32::MIN));
    assert!(parse_i32("-").is_none());
}

#[test]
fn tokens_are_version_four_identifiers() {
    let token = fresh_token();
    assert_eq!(token.len(), 36);
    assert_eq!(token.as_bytes()[14], b'4');
    assert_ne!(token, fresh_token());
}

#[test]
fn hours_begin_at_whole_hours() {
    assert_eq!(start_of_hour(Instant { secs: 7_199, nanos: 9 }), 3_600);
    assert_eq!(start_of_hour(Instant { secs: -1, nanos: 0 }), -3_600);
}

#[test]
fn maps_hold_the_last_value_of_a_key() {
    let mut map = StrMap::new();
    map.insert("a".into(), "1".into());
    map.insert("b".into(), "2".into());
    map.insert("a".into(), "3".into());
    assert_eq!(map.len(), 2);
    assert_eq!(map.get("a").map(String::as_str), Some("3"));
    let mut other = map.clone();
    assert!(map.same_as(&other));
    other.remove("b");
    assert!(other.contained_in(&map));
    assert!(!map.contained_in(&other));

    let mut numbers: PlainMap<u32, String> = PlainMap::new();
    numbers.insert(1, "one".into());
    numbers.insert(1, "uno".into());
    assert_eq!(numbers.get(&1).map(String::as_str), Some("uno"));
    numbers.remove(&1);
    assert_eq!(numbers.len(), 0);
    let mut set: PlainSet<u32> = PlainSet::new();
    set.insert(4);
    set.insert(4);
    assert_eq!(set.len(), 1);
    assert!(set.contains(&4));
}

#[test]
fn white_space_is_what_unicode_says() {
    let spaces = [
        0x9, 0xa, 0xb, 0xc, 0xd, 0x20, 0x85, 0xa0, 0x1680, 0x2000, 0x2001, 0x2002, 0x2003, 0x2004,
        0x2005, 0x2006, 0x2007, 0x2008, 0x2009, 0x200a, 0x2028, 0x2029, 0x202f, 0x205f, 0x3000,
    ];
    assert_eq!(spaces.len(), 25);
    for n in 0..=0x10ffffu32 {
        if let Some(c) = char::from_u32(n) {
            assert_eq!(trim_text(&c.to_string()).is_empty(), spaces.contains(&n), "{n:#x}");
        }
    }
}
