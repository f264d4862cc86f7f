use haxby::enumeration::{Enum, EnumCase};
use haxby::list::{capacity_for, length_value, List};
use haxby::errors::VmErrorReason;
use haxby::mixins::Mixins;
use haxby::object::ObjectBox;
use haxby::shape::{ShapeId, Shapes, SlotId, EMPTY_SHAPE_INDEX};
use haxby::symbol::{InternError, Interner, Symbol, INTERNED_ATTR_MSG, INTERNED_CASE_BOUNDED, INTERNED_OP_IMPL_CALL, BUILTIN_SYMBOL_COUNT};

#[test]
fn interning_gives_stable_symbols() {
    let mut i = Interner::new_empty();
    let a = i.intern("alpha").unwrap();
    let b = i.intern("beta").unwrap();
    assert_eq!(a, Symbol(0));
    assert_eq!(b, Symbol(1));
    assert_eq!(i.intern("alpha"), Ok(a));
    assert_eq!(i.lookup("beta"), Some(b));
    assert_eq!(i.lookup("gamma"), None);
    assert_eq!(i.resolve(a), Some("alpha"));
    assert_eq!(i.resolve(Symbol(9)), None);
    assert_eq!(i.len(), 2);
    let _ = InternError::TooManySymbols;
}

#[test]
fn a_new_interner_holds_the_builtin_names() {
    let i = Interner::default();
    assert_eq!(i.len(), BUILTIN_SYMBOL_COUNT);
    assert_eq!(i.resolve(Symbol(INTERNED_OP_IMPL_CALL)), Some("_op_impl_call"));
    assert_eq!(i.resolve(Symbol(INTERNED_ATTR_MSG)), Some("msg"));
    assert_eq!(i.resolve(Symbol(INTERNED_CASE_BOUNDED)), Some("Bounded"));
    assert_eq!(i.lookup("prettyprint"), Some(Symbol(29)));
}

#[test]
fn shapes_share_transitions() {
    let mut shapes = Shapes::new();
    let empty = ShapeId(EMPTY_SHAPE_INDEX);
    let (s1, slot_a) = shapes.transition(empty, Symbol(7));
    let (s2, slot_b) = shapes.transition(s1, Symbol(8));
    assert_eq!(slot_a, SlotId(0));
    assert_eq!(slot_b, SlotId(1));
    assert_eq!(shapes.transition(empty, Symbol(7)), (s1, SlotId(0)));
    assert_eq!(shapes.transition(s2, Symbol(7)), (s2, SlotId(0)));
    assert_eq!(shapes.len(), 3);
    assert_eq!(shapes.resolve_slot(s2, Symbol(8)), Some(SlotId(1)));
    assert_eq!(shapes.resolve_slot(s1, Symbol(8)), None);
    assert_eq!(shapes.resolve_symbol(s2, SlotId(0)), Some(Symbol(7)));
    assert_eq!(shapes.slots_of(s2), Some(vec![Symbol(7), Symbol(8)]));
}

#[test]
fn objects_read_what_was_written() {
    let mut shapes = Shapes::new();
    let mut obj: ObjectBox<i64> = ObjectBox::new();
    obj.write(&mut shapes, Symbol(1), 10);
    obj.write(&mut shapes, Symbol(2), 20);
    obj.write(&mut shapes, Symbol(1), 11);
    assert_eq!(obj.read(&shapes, Symbol(1)), Some(&11));
    assert_eq!(obj.read(&shapes, Symbol(2)), Some(&20));
    assert_eq!(obj.read(&shapes, Symbol(3)), None);
    assert!(obj.contains(&shapes, Symbol(2)));
    assert_eq!(obj.list_attributes(&shapes), vec![Symbol(1), Symbol(2)]);
    let (v, sid, slot) = obj.resolve_to_slot(&shapes, Symbol(2)).unwrap();
    assert_eq!(*v, 20);
    assert_eq!(obj.read_slot(slot, sid), Some(&20));
    assert_eq!(obj.read_slot(slot, ShapeId(EMPTY_SHAPE_INDEX)), None);
}

#[test]
fn list_indexing_rules() {
    let mut l: List<i64> = List::new();
    assert!(l.is_empty());
    assert!(l.set_at(0, 5).is_ok());
    assert!(l.set_at(1, 6).is_ok());
    assert!(l.set_at(0, 7).is_ok());
    assert!(matches!(l.set_at(5, 8), Err(VmErrorReason::IndexOutOfBounds(5))));
    assert_eq!(l.len(), 2);
    assert_eq!(length_value(&l), 2);
    assert_eq!(l.get_at(0), Some(7));
    assert_eq!(l.get_at(2), None);
    assert!(matches!(l.read_index(Some(1)), Ok(6)));
    assert!(matches!(l.read_index(Some(-1)), Err(VmErrorReason::IndexOutOfBounds(i)) if i == usize::MAX));
    assert!(matches!(l.read_index(None), Err(VmErrorReason::UnexpectedType)));
    assert!(l.write_index(Some(2), 9).is_ok());
    assert!(matches!(l.write_index(None, 1), Err(VmErrorReason::UnexpectedType)));
    assert!(matches!(l.drop_last(), Ok(9)));
    l.pop();
    l.pop();
    assert!(matches!(l.drop_last(), Err(VmErrorReason::IndexOutOfBounds(0))));
    let copy = List::from(&[1i64, 2, 3]);
    assert_eq!(copy.get_at(2), Some(3));
    assert_eq!(capacity_for(-3), 0);
    assert_eq!(capacity_for(12), 12);
    let mut with_room: List<i64> = List::new_with_capacity(4);
    with_room.append(1);
    assert_eq!(with_room.len(), 1);
}

#[test]
fn enum_cases_are_found_by_name() {
    let mut shapes = Shapes::new();
    let mut e: Enum<u8> = Enum::new("Color");
    assert_eq!(e.add_case(&mut shapes, EnumCase { name: Symbol(3), payload_type: None }), 0);
    assert_eq!(e.add_case(&mut shapes, EnumCase { name: Symbol(4), payload_type: Some(1) }), 1);
    assert_eq!(e.add_case(&mut shapes, EnumCase { name: Symbol(3), payload_type: Some(2) }), 0);
    assert_eq!(e.name(), "Color");
    assert_eq!(e.get_idx_of_case_by_symbol(&shapes, Symbol(4)), Some(1));
    assert_eq!(e.get_idx_of_case_by_symbol(&shapes, Symbol(5)), None);
    assert_eq!(e.get_case_by_idx(0).unwrap().payload_type, Some(2));
    assert!(e.get_case_by_idx(2).is_none());
    let v = e.make_value(1, Some("payload")).unwrap();
    assert_eq!(v.get_case_index(), 1);
    assert_eq!(v.get_payload(), Some(&"payload"));
    assert!(e.make_value::<i64>(1, None).is_none());
    assert!(e.make_value::<i64>(7, None).is_none());
    let cases = [EnumCase { name: Symbol(10), payload_type: None }, EnumCase { name: Symbol(11), payload_type: None }];
    let e2: Enum<u8> = Enum::new_with_cases("Pair", &cases, &mut shapes);
    assert_eq!(e2.get_idx_of_case_by_symbol(&shapes, Symbol(11)), Some(1));
}

#[test]
fn enum_attributes_and_mixins() {
    let mut shapes = Shapes::new();
    let mut table: Mixins<u8> = Mixins::new();
    let m = table.create("Printable");
    table.write_entry(&mut shapes, m, Symbol(20), 7);
    let mut e: Enum<u8> = Enum::new("Color");
    e.add_case(&mut shapes, EnumCase { name: Symbol(3), payload_type: None });
    e.store_named_value(&mut shapes, Symbol(21), 9);
    assert_eq!(e.load_named_value(&shapes, &table, Symbol(21)), Some(&9));
    assert_eq!(e.load_named_value(&shapes, &table, Symbol(20)), None);
    assert!(!e.isa_mixin(&table, m));
    e.include_mixin(m);
    assert!(e.isa_mixin(&table, m));
    assert_eq!(e.load_named_value(&shapes, &table, Symbol(20)), Some(&7));
    e.store_named_value(&mut shapes, Symbol(20), 1);
    assert_eq!(e.load_named_value(&shapes, &table, Symbol(20)), Some(&1));
    assert_eq!(e.get_idx_of_case_by_symbol(&shapes, Symbol(3)), Some(0));
}

#[test]
fn extracting_fields_of_an_object() {
    let mut shapes = Shapes::new();
    let mut b: ObjectBox<i64> = ObjectBox::new();
    b.write(&mut shapes, Symbol(4), 12);
    assert!(matches!(b.extract_field(&shapes, Symbol(4), |v: &i64| if *v > 0 { Some(*v * 2) } else { None }), Ok(24)));
    assert!(matches!(
        b.extract_field(&shapes, Symbol(4), |_: &i64| None::<i64>),
        Err(VmErrorReason::UnexpectedType)
    ));
    assert!(matches!(
        b.extract_field(&shapes, Symbol(9), |v: &i64| Some(*v)),
        Err(VmErrorReason::NoSuchIdentifier(ref s)) if s == "Symbol(9)"
    ));
}
