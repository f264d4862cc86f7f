use haxby::attributes::{
    has_attribute, list_attributes, read_attribute, val_or_bound_func, write_attribute_target, AttributeHolder,
    AttributeValue, Lookup, WriteTarget,
};
use haxby::errors::AttributeError;
use haxby::symbol::{Interner, Symbol};

fn method(v: u32) -> Lookup<u32> {
    Lookup::Function { value: v, type_method: false }
}

fn type_method(v: u32) -> Lookup<u32> {
    Lookup::Function { value: v, type_method: true }
}

#[test]
fn binding_a_method_of_values() {
    assert!(matches!(val_or_bound_func(method(4)), Ok(AttributeValue::Bound(4))));
    assert!(matches!(val_or_bound_func(Lookup::Plain(5u32)), Ok(AttributeValue::Plain(5))));
    assert!(matches!(val_or_bound_func(type_method(6)), Err(AttributeError::InvalidFunctionBinding)));
    assert!(matches!(val_or_bound_func(Lookup::<u32>::Missing), Err(AttributeError::NoSuchAttribute)));
}

#[test]
fn objects_prefer_their_own_attributes() {
    let r = read_attribute(AttributeHolder::Object, Lookup::Plain(1u32), method(2));
    assert!(matches!(r, Ok(AttributeValue::Plain(1))));
    let r = read_attribute(AttributeHolder::Object, method(1u32), method(2));
    assert!(matches!(r, Ok(AttributeValue::Plain(1))));
    let r = read_attribute(AttributeHolder::Object, Lookup::Missing, method(2u32));
    assert!(matches!(r, Ok(AttributeValue::Bound(2))));
    let r = read_attribute(AttributeHolder::Object, Lookup::Missing, type_method(2u32));
    assert!(matches!(r, Err(AttributeError::InvalidFunctionBinding)));
    let r = read_attribute::<u32>(AttributeHolder::Object, Lookup::Missing, Lookup::Missing);
    assert!(matches!(r, Err(AttributeError::NoSuchAttribute)));
}

#[test]
fn builtin_values_bind_what_they_find() {
    let r = read_attribute(AttributeHolder::BuiltinValue, method(3u32), method(9));
    assert!(matches!(r, Ok(AttributeValue::Bound(3))));
    let r = read_attribute(AttributeHolder::BuiltinValue, Lookup::Missing, method(9u32));
    assert!(matches!(r, Ok(AttributeValue::Bound(9))));
    let r = read_attribute(AttributeHolder::List, Lookup::Missing, Lookup::Plain(7u32));
    assert!(matches!(r, Ok(AttributeValue::Plain(7))));
}

#[test]
fn modules_types_and_others() {
    let r = read_attribute(AttributeHolder::Module { name_known: true }, method(1u32), Lookup::Missing);
    assert!(matches!(r, Ok(AttributeValue::Plain(1))));
    let r = read_attribute(AttributeHolder::Module { name_known: false }, method(1u32), Lookup::Missing);
    assert!(matches!(r, Err(AttributeError::ValueHasNoAttributes)));
    let r = read_attribute(AttributeHolder::Type, type_method(8u32), Lookup::Missing);
    assert!(matches!(r, Ok(AttributeValue::Bound(8))));
    let r = read_attribute(AttributeHolder::Type, method(8u32), Lookup::Missing);
    assert!(matches!(r, Err(AttributeError::InvalidFunctionBinding)));
    let r = read_attribute(AttributeHolder::EnumValue, method(5u32), Lookup::Missing);
    assert!(matches!(r, Ok(AttributeValue::Bound(5))));
    let r = read_attribute(AttributeHolder::Other, Lookup::Plain(5u32), Lookup::Plain(5));
    assert!(matches!(r, Err(AttributeError::ValueHasNoAttributes)));
}

#[test]
fn has_attribute_needs_a_known_symbol() {
    assert!(has_attribute(true, AttributeHolder::Mixin, Lookup::Plain(1u32), Lookup::Missing));
    assert!(!has_attribute(false, AttributeHolder::Mixin, Lookup::Plain(1u32), Lookup::Missing));
    assert!(!has_attribute::<u32>(true, AttributeHolder::Mixin, Lookup::Missing, Lookup::Missing));
}

#[test]
fn where_writes_go() {
    assert_eq!(write_attribute_target(AttributeHolder::Module { name_known: true }, false), Ok(WriteTarget::ModuleTable));
    assert_eq!(write_attribute_target(AttributeHolder::Module { name_known: false }, false), Err(AttributeError::ValueHasNoAttributes));
    assert_eq!(write_attribute_target(AttributeHolder::Object, true), Ok(WriteTarget::AttributeStore));
    assert_eq!(write_attribute_target(AttributeHolder::EnumValue, false), Err(AttributeError::ValueHasNoAttributes));
}

#[test]
fn listing_names_each_once() {
    let mut globals = Interner::new_empty();
    let a = globals.intern("alpha").unwrap();
    let b = globals.intern("beta").unwrap();
    let nameless = Symbol(99);
    let mut names = list_attributes(&globals, &[a, b, a], &[b, nameless]);
    names.sort();
    assert_eq!(names, vec!["alpha".to_owned(), "beta".to_owned()]);
    assert!(list_attributes(&globals, &[], &[nameless]).is_empty());
}
