use haxby::globals::{GlobalValue, VmGlobals};
use haxby::opcodes::BuiltinTypeId;

#[test]
fn builtins_are_found_by_name() {
    let mut g: VmGlobals<u32, &'static str> = VmGlobals::new();
    assert!(!g.contains("print"));
    g.insert_builtin("print", "prints");
    g.insert("Maybe", GlobalValue::Type(7));
    assert!(g.contains("print"));
    match g.load_named_value("print") {
        Some(GlobalValue::Function(f)) => assert_eq!(*f, "prints"),
        _ => panic!("print is not a function"),
    }
    assert!(g.load_named_value("println").is_none());
    assert_eq!(g.get_builtin_type_by_name("Maybe"), Some(&7));
    assert_eq!(g.get_builtin_type_by_name("print"), None);
    assert_eq!(g.get_builtin_type_by_name("Result"), None);
}

#[test]
fn builtin_types_are_found_by_id() {
    let mut g: VmGlobals<u32, ()> = VmGlobals::new();
    g.insert("Int", GlobalValue::Type(2));
    g.insert("RuntimeError", GlobalValue::Type(11));
    assert_eq!(g.get_builtin_type_by_id(BuiltinTypeId::Int), Some(&2));
    assert_eq!(g.get_builtin_type_by_id(BuiltinTypeId::RuntimeError), Some(&11));
    assert_eq!(g.get_builtin_type_by_id(BuiltinTypeId::Float), None);
}
