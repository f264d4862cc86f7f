use haxby::errors::VmErrorReason;
use haxby::strings::{
    ascii_uppercase, bytes, chars, contains, encoding, from_bytes, get_at, has_prefix, has_suffix, lines, lowercase,
    replace, split, string_len, trim, trim_head, trim_tail, uppercase, white_space, new_with_bytes, StringFromBytes,
};

#[test]
fn prefixes_suffixes_and_containment() {
    assert!(has_prefix("hello world", "hello"));
    assert!(!has_prefix("hello", "hello world"));
    assert!(has_prefix("abc", ""));
    assert!(has_suffix("hello world", "world"));
    assert!(!has_suffix("world", "hello world"));
    assert!(contains("a needle in a haystack", "needle"));
    assert!(!contains("haystack", "needle"));
    assert!(contains("", ""));
}

#[test]
fn split_matches_str_split() {
    assert_eq!(split("a,b,,c", ","), vec!["a", "b", "", "c"]);
    assert_eq!(split("abc", ""), vec!["", "a", "b", "c", ""]);
    assert_eq!(split("", ","), vec![""]);
    assert_eq!(split("aaa", "aa"), vec!["", "a"]);
    assert_eq!(split("x--y--", "--"), vec!["x", "y", ""]);
}

#[test]
fn replace_matches_str_replace() {
    assert_eq!(replace("one two two", "two", "2"), "one 2 2");
    assert_eq!(replace("abc", "", "-"), "-a-b-c-");
    assert_eq!(replace("aaaa", "aa", "b"), "bb");
    assert_eq!(replace("same", "m", "m"), "same");
    assert_eq!(replace("nothing", "x", "y"), "nothing");
}

#[test]
fn characters_and_bytes() {
    assert_eq!(chars("añb"), vec!["a", "ñ", "b"]);
    assert!(chars("").is_empty());
    assert_eq!(bytes("añ"), vec![97, 195, 177]);
    assert_eq!(string_len("añb"), 3);
    assert_eq!(string_len(""), 0);
}

#[test]
fn encoding_of_the_first_character() {
    assert!(matches!(encoding("A"), Ok(65)));
    assert!(matches!(encoding("€uro"), Ok(8364)));
    assert!(matches!(encoding(""), Err(VmErrorReason::UnexpectedType)));
}

#[test]
fn indexing_characters() {
    assert!(matches!(get_at("héllo", 1), Ok(ref s) if s == "é"));
    assert!(matches!(get_at("abc", 3), Err(VmErrorReason::IndexOutOfBounds(3))));
    assert!(matches!(get_at("abc", -1), Err(VmErrorReason::IndexOutOfBounds(i)) if i == usize::MAX));
}

#[test]
fn strings_from_byte_values() {
    assert_eq!(from_bytes(&[104, 105]), Some("hi".to_owned()));
    assert_eq!(from_bytes(&[195, 177]), Some("ñ".to_owned()));
    assert_eq!(from_bytes(&[104 + 256, 105 - 512]), Some("hi".to_owned()));
    assert_eq!(from_bytes(&[0xff, 0xfe]), None);
    assert_eq!(from_bytes(&[]), Some(String::new()));
}

#[test]
fn trimming() {
    assert_eq!(trim_head("  \t x y \n"), "x y \n");
    assert_eq!(trim_tail("  \t x y \n"), "  \t x y");
    assert_eq!(trim("\u{3000} x \u{a0}"), "x");
    assert_eq!(trim("   "), "");
    assert!(white_space('\u{2028}'));
    assert!(!white_space('x'));
}

#[test]
fn case_mapping() {
    assert_eq!(uppercase("straße"), "STRASSE");
    assert_eq!(lowercase("ÀB"), "àb");
    assert_eq!(ascii_uppercase("flaky ñ"), "FLAKY ñ");
}

#[test]
fn lines_match_str_lines() {
    assert_eq!(lines("a\nb\r\nc"), vec!["a", "b", "c"]);
    assert_eq!(lines("a\n\nb\n"), vec!["a", "", "b"]);
    assert_eq!(lines("x\r"), vec!["x\r"]);
    assert!(lines("").is_empty());
    assert_eq!(lines("\n"), vec![""]);
}

#[test]
fn strings_from_list_items() {
    let items = [Some(104i64), Some(105), Some(0x1_21)];
    assert!(matches!(new_with_bytes(&items, Some(true)), Ok(StringFromBytes::Text(ref s)) if s == "hi!"));
    assert!(matches!(new_with_bytes(&[Some(104), None], Some(true)), Err(VmErrorReason::UnexpectedType)));
    assert!(matches!(
        new_with_bytes(&[Some(0xff)], Some(true)),
        Ok(StringFromBytes::EncodingError { ref msg }) if msg == "invalid utf8"
    ));
    assert!(matches!(
        new_with_bytes(&[Some(0xff)], None),
        Err(VmErrorReason::NoSuchIdentifier(ref s)) if s == "EncodingError"
    ));
    assert!(matches!(new_with_bytes(&[Some(0xff)], Some(false)), Err(VmErrorReason::UnexpectedVmState)));
}
