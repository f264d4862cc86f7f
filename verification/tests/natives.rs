use haxby::builtins::{alloc_native, exit_status, extract_arg, sleep_duration, NativeDefault, RustNativeValueKind};
use haxby::char_classes::CharTest;
use haxby::errors::VmErrorReason;
use haxby::files::{common_ancestor, open_options_from_int, OpenFlags, FILE_MODE_APPEND, FILE_MODE_NEED_NEW, FILE_MODE_READ, FILE_MODE_TRUNCATE, FILE_MODE_WRITE};
use haxby::network::{request_headers, response_from_parts, HeaderItem};
use haxby::opcodes::BuiltinTypeId;
use haxby::regex_ops::CompiledRegex;

#[test]
fn open_modes() {
    assert_eq!(
        open_options_from_int(FILE_MODE_READ),
        OpenFlags { read: true, write: false, append: false, truncate: false, create: false, create_new: false }
    );
    assert_eq!(
        open_options_from_int(FILE_MODE_WRITE | FILE_MODE_TRUNCATE),
        OpenFlags { read: false, write: true, append: false, truncate: true, create: true, create_new: false }
    );
    assert_eq!(
        open_options_from_int(FILE_MODE_APPEND | FILE_MODE_NEED_NEW),
        OpenFlags { read: false, write: false, append: true, truncate: false, create: false, create_new: true }
    );
    assert_eq!(
        open_options_from_int(FILE_MODE_TRUNCATE | FILE_MODE_NEED_NEW),
        OpenFlags { read: false, write: false, append: false, truncate: false, create: false, create_new: false }
    );
}

#[test]
fn common_ancestors() {
    assert_eq!(common_ancestor("/a/b/c", "/a/b/d/e"), Some("/a/b".to_owned()));
    assert_eq!(common_ancestor("/a/b", "/a/b/c"), Some("/a/b".to_owned()));
    assert_eq!(common_ancestor("/x/y", "/a"), Some("/".to_owned()));
    assert_eq!(common_ancestor("x/y", "z"), Some("".to_owned()));
}

#[test]
fn headers_and_responses() {
    let items = vec![
        HeaderItem::List(vec![Some("Accept".to_owned()), Some("text/plain".to_owned())]),
        HeaderItem::List(vec![Some("X".to_owned())]),
        HeaderItem::List(vec![Some("Y".to_owned()), None]),
        HeaderItem::Other,
        HeaderItem::List(vec![Some("User-Agent".to_owned()), Some("aria".to_owned())]),
    ];
    assert_eq!(
        request_headers(&items),
        vec![("Accept".to_owned(), "text/plain".to_owned()), ("User-Agent".to_owned(), "aria".to_owned())]
    );
    let r = response_from_parts(200, vec![("a".to_owned(), Some("1".to_owned())), ("b".to_owned(), None)], Some("body".to_owned())).unwrap();
    assert_eq!(r.status_code, 200);
    assert_eq!(r.headers, vec![("a".to_owned(), "1".to_owned()), ("b".to_owned(), "<err>".to_owned())]);
    assert_eq!(r.content, "body");
    assert!(matches!(response_from_parts(404, vec![], None), Err(ref m) if m == "content is not a valid String"));
}

#[test]
fn native_kinds() {
    assert_eq!(RustNativeValueKind::Boolean.kind_name(), "Bool");
    assert_eq!(RustNativeValueKind::Type.kind_name(), "Type");
    assert!(RustNativeValueKind::String.is_builtin_type());
    assert!(!RustNativeValueKind::List.is_builtin_type());
    assert_eq!(RustNativeValueKind::Integer.get_builtin_type_id(), Some(BuiltinTypeId::Int));
    assert_eq!(RustNativeValueKind::List.get_builtin_type_id(), None);
    assert!(matches!(alloc_native(RustNativeValueKind::Integer), Ok(NativeDefault::Integer(0))));
    assert!(matches!(alloc_native(RustNativeValueKind::List), Ok(NativeDefault::EmptyList)));
    assert!(matches!(alloc_native(RustNativeValueKind::Type), Err(VmErrorReason::UnexpectedType)));
}

#[test]
fn sleep_and_exit() {
    assert!(matches!(sleep_duration(250), Ok(250)));
    assert!(matches!(sleep_duration(0), Ok(0)));
    assert!(matches!(sleep_duration(-1), Err(VmErrorReason::OperationFailed(ref m)) if m == "cannot sleep < 0 milliseconds"));
    assert_eq!(exit_status(3), 3);
    assert_eq!(exit_status(-1), -1);
    assert_eq!(exit_status(1 << 32), 0);
}

#[test]
fn arguments_come_off_the_stack() {
    let mut stack = vec![1i64, -2];
    assert!(matches!(extract_arg(&mut stack, |x: i64| if x < 0 { Some(x) } else { None }), Ok(-2)));
    assert!(matches!(extract_arg(&mut stack, |x: i64| if x < 0 { Some(x) } else { None }), Err(VmErrorReason::UnexpectedType)));
    assert!(stack.is_empty());
    assert!(matches!(extract_arg(&mut stack, |x: i64| Some(x)), Err(VmErrorReason::EmptyStack)));
}

#[test]
fn character_tests() {
    assert!(CharTest::LowercaseLetter.check_first("ábc"));
    assert!(!CharTest::LowercaseLetter.check_first("Abc"));
    assert!(CharTest::UppercaseLetter.check_first("Ωmega"));
    assert!(CharTest::Digit.check_first("٣"));
    assert!(CharTest::Digit.check_first("½"));
    assert!(!CharTest::Digit.check_first("x1"));
    assert!(CharTest::Whitespace.check_first("\u{a0}x"));
    assert_eq!(CharTest::Digit.name(), "is_digit");
    assert_eq!(CharTest::Whitespace.name(), "is_whitespace");
}

#[test]
fn regular_expressions() {
    let re = CompiledRegex::new(r"\d+").unwrap();
    assert_eq!(re.pattern(), r"\d+");
    assert!(re.any_match("a1"));
    assert!(!re.any_match("abc"));
    let ms = re.matches("x12yé345");
    assert_eq!(ms.len(), 2);
    assert_eq!((ms[0].start, ms[0].len, ms[0].value.as_str()), (1, 2, "12"));
    assert_eq!((ms[1].start, ms[1].len, ms[1].value.as_str()), (6, 3, "345"));
    assert_eq!(re.replace("a1b22", "#"), "a#b#");
    let groups = CompiledRegex::new(r"(\w+)@(\w+)").unwrap();
    assert_eq!(groups.replace("me@host", "$2 at $1"), "host at me");
    assert_eq!(groups.first_group("x me@host"), Some("me".to_owned()));
    assert_eq!(re.replace("none", "#"), "none");
    assert!(CompiledRegex::new("(unclosed").is_err());
}

#[test]
fn regex_matches_come_in_order_without_overlap() {
    let re = CompiledRegex::new("a+|b").unwrap();
    let ms = re.matches("aabaaab");
    let spans: Vec<(i64, i64)> = ms.iter().map(|m| (m.start, m.len)).collect();
    assert_eq!(spans, vec![(0, 2), (2, 1), (3, 3), (6, 1)]);
    for w in ms.windows(2) {
        assert!(w[0].start + w[0].len <= w[1].start);
    }
}
