use openssh::decimal::{decimal_string, parse_u16, write_decimal};
use openssh::strings::{first_char_index, last_char_index, starts_with};
use openssh::text::{char_is_whitespace, chars_of, contains_chars, find_in, string_of, trim_bounds};

#[test]
fn decimal_numerals() {
    assert_eq!(decimal_string(0), "0");
    assert_eq!(decimal_string(7), "7");
    assert_eq!(decimal_string(2222), "2222");
    assert_eq!(decimal_string(u64::MAX), "18446744073709551615");
    let mut s = String::from("p=");
    write_decimal(&mut s, 65535);
    assert_eq!(s, "p=65535");
}

#[test]
fn parses_ports_as_rust_does() {
    for s in ["0", "22", "+22", "0022", "65535", "", "+", "-1", "65536", "2a", " 22", "99999999999"] {
        assert_eq!(parse_u16(s), s.parse::<u16>().ok(), "{:?}", s);
    }
}

#[test]
fn decimal_round_trip() {
    for n in [0u16, 1, 9, 10, 255, 2222, 65535] {
        assert_eq!(parse_u16(&decimal_string(n as u64)), Some(n));
    }
}

#[test]
fn char_searches() {
    assert_eq!(first_char_index("a@b@c", '@'), Some(1));
    assert_eq!(last_char_index("a:b:c", ':'), Some(3));
    assert_eq!(first_char_index("abc", '@'), None);
    assert_eq!(last_char_index("", ':'), None);
    assert_eq!(first_char_index("é@", '@'), Some(1));
    assert!(starts_with("ssh://x", "ssh://"));
    assert!(!starts_with("ssh:/", "ssh://"));
}

#[test]
fn whitespace_and_search() {
    assert!(char_is_whitespace(' '));
    assert!(char_is_whitespace('\u{2028}'));
    assert!(char_is_whitespace('\u{85}'));
    assert!(!char_is_whitespace('x'));
    assert!(!char_is_whitespace('\u{200b}'));
    let v = chars_of("  hi there \n");
    assert_eq!(trim_bounds(&v, 0, v.len()), (2, 10));
    assert_eq!(find_in(&v, &chars_of("there")), Some(5));
    assert_eq!(find_in(&v, &chars_of("nope")), None);
    assert!(contains_chars(&v, &chars_of("hi")));
    assert_eq!(string_of(&chars_of("añb")), "añb");
}
