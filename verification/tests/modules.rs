use haxby::compiled::{CompiledCodeObject, CompiledModule, ConstantValue, ConstantValues, LineTable};
use haxby::errors::VmErrorReason;
use haxby::opcodes::{Opcode, OPCODE_CALL, OPCODE_READ_ATTRIBUTE, OPCODE_RETURN, OPCODE_WRITE_ATTRIBUTE, OPCODE_WRITE_ATTRIBUTE_SYMBOL};
use haxby::operators::{
    after_forward, after_reverse, attempt_of_call, attempt_of_comparison, equals_after_forward, equals_after_reverse,
    AfterForward, EqualsStep, MethodCall, OperatorAttempt, OperatorOutcome,
};
use haxby::runtime_module::{
    compiled_code_object_to_runtime_code_object, load_module_constants, replace_attribute_access_with_interned,
    ModuleValues, RuntimeConstant,
};
use haxby::symbol::{Interner, Symbol};

fn module_with(body: Vec<u8>) -> CompiledModule {
    CompiledModule {
        constants: ConstantValues {
            values: vec![
                ConstantValue::String("width".to_owned()),
                ConstantValue::Integer(3),
                ConstantValue::CompiledCodeObject(CompiledCodeObject {
                    name: "f".to_owned(),
                    body,
                    required_argc: 0,
                    default_argc: 0,
                    frame_size: 1,
                    line_table: LineTable { entries: vec![(0, "f.aria:1".to_owned())] },
                }),
            ],
        },
    }
}

#[test]
fn attribute_names_are_interned() {
    let cm = module_with(vec![]);
    let mut g = Interner::new_empty();
    g.intern("other").unwrap();
    let mut ops = vec![Opcode::ReadAttribute(0), Opcode::Call(0), Opcode::WriteAttribute(0)];
    assert!(replace_attribute_access_with_interned(&mut g, &cm, &mut ops).is_ok());
    assert_eq!(ops, vec![Opcode::ReadAttributeSymbol(1), Opcode::Call(0), Opcode::WriteAttributeSymbol(1)]);
    assert_eq!(g.resolve(Symbol(1)), Some("width"));
    let mut bad = vec![Opcode::ReadAttributeSymbol(0)];
    assert!(matches!(replace_attribute_access_with_interned(&mut g, &cm, &mut bad), Err(VmErrorReason::UnexpectedVmState)));
}

#[test]
fn code_objects_and_constants_load() {
    let body = vec![OPCODE_READ_ATTRIBUTE, 0, 0, OPCODE_CALL, 1, OPCODE_WRITE_ATTRIBUTE, 0, 0, OPCODE_RETURN];
    let cm = module_with(body);
    let mut g = Interner::new_empty();
    let consts = load_module_constants(&mut g, &cm).unwrap();
    assert_eq!(consts.len(), 3);
    assert!(matches!(consts[0], RuntimeConstant::String(ref s) if s == "width"));
    assert!(matches!(consts[1], RuntimeConstant::Integer(3)));
    match &consts[2] {
        RuntimeConstant::CodeObject(co) => {
            assert_eq!(co.name, "f");
            assert_eq!(co.frame_size, 1);
            assert_eq!(co.line_table.get(0), Some("f.aria:1"));
            assert_eq!(co.body, vec![Opcode::ReadAttributeSymbol(0), Opcode::Call(1), Opcode::WriteAttributeSymbol(0), Opcode::Return]);
        }
        _ => panic!("expected a code object"),
    }
    let bad = module_with(vec![OPCODE_WRITE_ATTRIBUTE_SYMBOL, 0, 0, 0, 0]);
    let mut g = Interner::new_empty();
    assert!(matches!(load_module_constants(&mut g, &bad), Err(VmErrorReason::UnexpectedVmState)));
    let truncated = module_with(vec![OPCODE_CALL]);
    match &truncated.constants.values[2] {
        ConstantValue::CompiledCodeObject(cco) => {
            assert!(matches!(
                compiled_code_object_to_runtime_code_object(&mut g, &truncated, cco),
                Err(VmErrorReason::BytecodeDecodeError(haxby::bc_reader::DecodeError::InsufficientData))
            ));
        }
        _ => panic!("expected a code object"),
    }
}

#[test]
fn named_values() {
    let mut m: ModuleValues<i64, &'static str> = ModuleValues::new();
    m.store_named_value("x", 1, "Any");
    assert_eq!(m.load_named_value("x"), Some(&1));
    m.typedef_named_value("y", "Int", 0);
    assert_eq!(m.load_named_value("y"), Some(&0));
    let isa = |ty: &&'static str, v: &i64| *ty == "Any" || *v >= 0;
    assert!(m.store_typechecked_named_value("y", 5, &isa).is_ok());
    assert_eq!(m.load_named_value("y"), Some(&5));
    assert!(matches!(m.store_typechecked_named_value("y", -5, &isa), Err(VmErrorReason::UnexpectedType)));
    assert_eq!(m.load_named_value("y"), Some(&5));
    assert!(matches!(m.store_typechecked_named_value("z", 1, &isa), Err(VmErrorReason::NoSuchIdentifier(ref s)) if s == "z"));
    m.store_named_value("y", -7, "Any");
    assert_eq!(m.load_named_value("y"), Some(&-7));
    assert!(m.contains("x"));
    let mut names = m.list_named_values();
    names.sort();
    assert_eq!(names, vec!["x", "y"]);
    assert_eq!(m.named_values_of_this().len(), 2);

    let mut other: ModuleValues<i64, &'static str> = ModuleValues::new();
    other.store_named_value("x", 10, "Any");
    other.typedef_named_value("w", "Int", 0);
    let mut target: ModuleValues<i64, &'static str> = ModuleValues::new();
    assert!(target.lift_all_symbols_from_other(&other, &0, &isa).is_ok());
    assert_eq!(target.load_named_value("x"), Some(&10));
    assert_eq!(target.load_named_value("w"), Some(&0));
}

#[test]
fn operator_dispatch() {
    assert!(matches!(after_forward(Some(OperatorAttempt::Returned(3)), false), AfterForward::Finish(OperatorOutcome::Returned(3))));
    assert!(matches!(after_forward::<i64>(Some(OperatorAttempt::NeedTryReverse), true), AfterForward::Finish(OperatorOutcome::UnexpectedType)));
    assert!(matches!(after_forward::<i64>(None, false), AfterForward::TryReverse));
    assert!(matches!(after_forward::<i64>(Some(OperatorAttempt::Exception), false), AfterForward::Finish(OperatorOutcome::Exception)));
    assert!(matches!(after_reverse::<i64>(None), OperatorOutcome::UnexpectedType));
    assert!(matches!(after_reverse(Some(OperatorAttempt::Returned(1))), OperatorOutcome::Returned(1)));
    assert_eq!(equals_after_forward(Some(OperatorAttempt::Returned(false)), true), EqualsStep::Answer(false));
    assert_eq!(equals_after_forward(Some(OperatorAttempt::Error), false), EqualsStep::UseBuiltin);
    assert_eq!(equals_after_forward(None, false), EqualsStep::TryReverse);
    assert_eq!(equals_after_forward(None, true), EqualsStep::UseBuiltin);
    assert_eq!(equals_after_reverse(Some(OperatorAttempt::Exception)), EqualsStep::UseBuiltin);
    assert!(matches!(attempt_of_call::<i64>(MethodCall::Raised { unimplemented: true }), OperatorAttempt::NeedTryReverse));
    assert!(matches!(attempt_of_call::<i64>(MethodCall::Raised { unimplemented: false }), OperatorAttempt::Exception));
    assert!(matches!(attempt_of_comparison(MethodCall::Returned(None)), OperatorAttempt::NeedTryReverse));
    assert!(matches!(attempt_of_comparison(MethodCall::Returned(Some(true))), OperatorAttempt::Returned(true)));
    assert!(matches!(attempt_of_comparison(MethodCall::Failed), OperatorAttempt::Error));
}
