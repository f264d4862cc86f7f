use haxby::builtin_enums::{maybe_enum, PayloadType};
use haxby::errors::{ExceptionPayload, VmErrorReason, RUNTIME_ERR_CASE_INDEX_OUT_OF_BOUNDS_IDX, RUNTIME_ERR_CASE_MISMATCHED_ARGC_IDX};
use haxby::mixins::Mixins;
use haxby::runtime_error::runtime_error_enum;
use haxby::shape::Shapes;
use haxby::exception::{exception_from_builtins, exception_from_error, Backtrace, SourcePointer, VmException};
use haxby::symbol::Interner;

fn at(start: usize) -> SourcePointer {
    SourcePointer { buffer: 1, start, stop: start + 4 }
}

#[test]
fn throwing_twice_at_the_same_place_records_it_once() {
    let e = VmException::from_value(3i64).thrown_at(at(10)).thrown_at(at(10));
    assert_eq!(e.value, 3);
    assert_eq!(e.backtrace.entries(), &[at(10)]);
}

#[test]
fn throwing_elsewhere_appends_the_place() {
    let e = VmException::from_value_and_loc("x", Some(at(1))).thrown_at(at(2)).thrown_at(at(2));
    assert_eq!(e.backtrace.entries(), &[at(1), at(2), at(2)]);
    assert_eq!(e.backtrace.first_entry(), Some(at(1)));
    assert_eq!(e.backtrace.len(), 3);
}

#[test]
fn no_place_no_backtrace() {
    let e = VmException::from_value_and_loc(0u8, None);
    assert_eq!(e.backtrace.len(), 0);
    assert_eq!(e.backtrace.first_entry(), None);
    let mut bt = Backtrace::new();
    bt.push(at(5));
    assert_eq!(bt.entries(), &[at(5)]);
}

#[test]
fn an_error_becomes_an_exception_thrown_where_it_arose() {
    let globals = Interner::new_empty();
    let r = exception_from_error(VmErrorReason::IndexOutOfBounds(4), Some(at(7)), &globals);
    let e = r.unwrap();
    assert_eq!(e.value.case, RUNTIME_ERR_CASE_INDEX_OUT_OF_BOUNDS_IDX);
    assert!(matches!(e.value.payload, ExceptionPayload::Integer(4)));
    assert_eq!(e.backtrace.entries(), &[at(7)]);
    let r = exception_from_error(VmErrorReason::EmptyStack, Some(at(7)), &globals);
    assert!(matches!(r, Err(VmErrorReason::EmptyStack)));
}

#[test]
fn errors_become_values_of_the_runtime_error_enum() {
    let mut g = Interner::new_empty();
    let mut shapes = Shapes::new();
    let rt = runtime_error_enum(&mut g, &mut shapes);
    let table: Mixins<PayloadType> = Mixins::new();
    let e = exception_from_builtins(VmErrorReason::MismatchedArgumentCount(2, 3), Some(at(4)), &mut g, &shapes, Some(&rt), &table)
        .unwrap();
    assert_eq!(e.value.get_case_index(), RUNTIME_ERR_CASE_MISMATCHED_ARGC_IDX);
    assert!(matches!(e.value.get_payload(), Some(ExceptionPayload::ArgcMismatch { expected: 2, actual: 3 })));
    assert_eq!(e.backtrace.entries(), &[at(4)]);
    let e = exception_from_builtins(VmErrorReason::DivisionByZero, None, &mut g, &shapes, Some(&rt), &table).unwrap();
    assert!(e.value.get_payload().is_none());
    assert!(matches!(
        exception_from_builtins(VmErrorReason::EmptyStack, None, &mut g, &shapes, Some(&rt), &table),
        Err(VmErrorReason::EmptyStack)
    ));
}

#[test]
fn without_the_enum_the_error_comes_back() {
    let mut g = Interner::new_empty();
    let mut shapes = Shapes::new();
    let table: Mixins<PayloadType> = Mixins::new();
    assert!(matches!(
        exception_from_builtins(VmErrorReason::IndexOutOfBounds(3), None, &mut g, &shapes, None, &table),
        Err(VmErrorReason::IndexOutOfBounds(3))
    ));
    let maybe = maybe_enum(&mut g, &mut shapes);
    assert!(matches!(
        exception_from_builtins(VmErrorReason::MismatchedArgumentCount(1, 0), None, &mut g, &shapes, Some(&maybe), &table),
        Err(VmErrorReason::MismatchedArgumentCount(1, 0))
    ));
    assert!(g.lookup("ArgcMismatch").is_some());
    assert!(matches!(
        exception_from_builtins(VmErrorReason::UnexpectedType, None, &mut g, &shapes, Some(&maybe), &table),
        Err(VmErrorReason::UnexpectedType)
    ));
}
