use haxby::bc_reader::DecodeError;
use haxby::builtin_enums::{maybe_enum, result_enum, unit_enum, value_of_case, PayloadType};
use haxby::errors::{
    exception_from_vm_error, AttributeError, ExceptionPayload, SymbolKind, VmErrorReason,
    RUNTIME_ERR_CASE_INDEX_OUT_OF_BOUNDS_IDX, RUNTIME_ERR_CASE_MISMATCHED_ARGC_IDX, RUNTIME_ERR_CASE_NO_SUCH_CASE_IDX,
    RUNTIME_ERR_CASE_NO_SUCH_IDENTIFIER_IDX, RUNTIME_ERR_CASE_UNEXPECTED_TYPE_IDX,
};
use haxby::mixins::Mixins;
use haxby::runtime_error::runtime_error_enum;
use haxby::shape::Shapes;
use haxby::symbol::{Interner, Symbol};

#[test]
fn attribute_errors_become_vm_errors() {
    assert!(matches!(AttributeError::NoSuchAttribute.to_vm_error_reason("size"), VmErrorReason::NoSuchIdentifier(ref s) if s == "size"));
    assert!(matches!(AttributeError::InvalidFunctionBinding.to_vm_error_reason("x"), VmErrorReason::InvalidBinding));
    assert!(matches!(AttributeError::ValueHasNoAttributes.to_vm_error_reason("x"), VmErrorReason::UnexpectedType));
}

#[test]
fn errors_become_runtime_error_values() {
    let mut g = Interner::new_empty();
    let sym = g.intern("field").unwrap();
    let v = exception_from_vm_error(VmErrorReason::IndexOutOfBounds(4), &g).unwrap();
    assert_eq!(v.case, RUNTIME_ERR_CASE_INDEX_OUT_OF_BOUNDS_IDX);
    assert!(matches!(v.payload, ExceptionPayload::Integer(4)));
    let v = exception_from_vm_error(VmErrorReason::MismatchedArgumentCount(2, 3), &g).unwrap();
    assert_eq!(v.case, RUNTIME_ERR_CASE_MISMATCHED_ARGC_IDX);
    assert!(matches!(v.payload, ExceptionPayload::ArgcMismatch { expected: 2, actual: 3 }));
    let v = exception_from_vm_error(VmErrorReason::NoSuchSymbol(sym.0, SymbolKind::Case), &g).unwrap();
    assert_eq!(v.case, RUNTIME_ERR_CASE_NO_SUCH_CASE_IDX);
    assert!(matches!(v.payload, ExceptionPayload::Text(ref s) if s == "field"));
    let v = exception_from_vm_error(VmErrorReason::NoSuchSymbol(sym.0, SymbolKind::Identifier), &g).unwrap();
    assert_eq!(v.case, RUNTIME_ERR_CASE_NO_SUCH_IDENTIFIER_IDX);
    assert!(matches!(exception_from_vm_error(VmErrorReason::NoSuchSymbol(99, SymbolKind::Case), &g), Err(VmErrorReason::NoSuchSymbol(99, SymbolKind::Case))));
    let v = exception_from_vm_error(VmErrorReason::UnexpectedType, &g).unwrap();
    assert_eq!(v.case, RUNTIME_ERR_CASE_UNEXPECTED_TYPE_IDX);
    assert!(matches!(v.payload, ExceptionPayload::Empty));
    assert!(matches!(exception_from_vm_error(VmErrorReason::EmptyStack, &g), Err(VmErrorReason::EmptyStack)));
    assert!(matches!(
        exception_from_vm_error(VmErrorReason::BytecodeDecodeError(DecodeError::EndOfStream), &g),
        Err(VmErrorReason::BytecodeDecodeError(DecodeError::EndOfStream))
    ));
}

#[test]
fn the_runtime_error_enum() {
    let mut g = Interner::new_empty();
    let mut shapes = Shapes::new();
    let e = runtime_error_enum(&mut g, &mut shapes);
    assert_eq!(e.name(), "RuntimeError");
    let names = [
        "DivisionByZero", "EnumWithoutPayload", "IndexOutOfBounds", "MismatchedArgumentCount",
        "NoSuchCase", "NoSuchIdentifier", "OperationFailed", "UnexpectedType",
    ];
    for (i, n) in names.iter().enumerate() {
        let sym = g.lookup(n).unwrap();
        assert_eq!(e.get_idx_of_case_by_symbol(&shapes, sym), Some(i));
        let case = e.get_case_by_idx(i).unwrap();
        assert_eq!(case.payload_type.is_some(), (2..=6).contains(&i));
    }
    assert_eq!(e.get_case_by_idx(3).unwrap().payload_type, Some(PayloadType::ArgcMismatch));
    let v = exception_from_vm_error(VmErrorReason::OperationFailed("boom".to_owned()), &g).unwrap();
    assert!(e.make_value(v.case, Some(v.payload)).is_some());
    let argc = g.lookup("ArgcMismatch").unwrap();
    let no_mixins: Mixins<PayloadType> = Mixins::new();
    assert_eq!(e.load_named_value(&shapes, &no_mixins, argc), Some(&PayloadType::ArgcMismatch));
    assert_eq!(e.load_named_value(&shapes, &no_mixins, g.lookup("NoSuchCase").unwrap()), None);
}

#[test]
fn builtin_enum_values() {
    let mut g = Interner::new_empty();
    let mut shapes = Shapes::new();
    let maybe = maybe_enum(&mut g, &mut shapes);
    let result = result_enum(&mut g, &mut shapes);
    let unit = unit_enum(&mut g, &mut shapes);
    let some = value_of_case(&maybe, &shapes, &g, "Some", Some(5i64)).unwrap();
    assert_eq!(some.get_case_index(), 0);
    assert_eq!(some.get_payload(), Some(&5));
    let none = value_of_case::<i64>(&maybe, &shapes, &g, "None", None).unwrap();
    assert_eq!(none.get_case_index(), 1);
    let err = value_of_case(&result, &shapes, &g, "Err", Some("bad")).unwrap();
    assert_eq!(err.get_case_index(), 1);
    let u = value_of_case::<i64>(&unit, &shapes, &g, "unit", None).unwrap();
    assert_eq!(u.get_case_index(), 0);
    assert!(matches!(value_of_case::<i64>(&maybe, &shapes, &g, "Nothing", None), Err(VmErrorReason::NoSuchCase(ref s)) if s == "Nothing"));
    assert!(matches!(value_of_case::<i64>(&maybe, &shapes, &g, "Ok", None), Err(VmErrorReason::NoSuchCase(_))));
    assert!(matches!(value_of_case::<i64>(&maybe, &shapes, &g, "Some", None), Err(VmErrorReason::UnexpectedVmState)));
    assert_eq!(g.resolve(Symbol(0)), Some("Some"));
}
