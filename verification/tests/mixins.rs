use haxby::mixins::{MixinIncluder, Mixins};
use haxby::shape::Shapes;
use haxby::symbol::Symbol;

const GREET: Symbol = Symbol(7);
const SIZE: Symbol = Symbol(8);
const COLOR: Symbol = Symbol(9);

#[test]
fn a_mixin_is_itself_and_what_it_includes() {
    let mut table: Mixins<i64> = Mixins::new();
    let a = table.create("A");
    let b = table.create("B");
    let c = table.create("C");
    assert_eq!(table.name(b), "B");
    assert!(table.isa_mixin(a, a));
    assert!(!table.isa_mixin(a, b));
    table.include_mixin(a, b);
    table.include_mixin(b, c);
    assert!(table.isa_mixin(a, b));
    assert!(table.isa_mixin(a, c));
    assert!(!table.isa_mixin(c, a));
    assert_eq!(table.len(), 3);
}

#[test]
fn inclusions_that_loop_still_answer() {
    let mut table: Mixins<i64> = Mixins::new();
    let a = table.create("A");
    let b = table.create("B");
    let c = table.create("C");
    table.include_mixin(a, b);
    table.include_mixin(b, a);
    assert!(table.isa_mixin(b, a));
    assert!(!table.isa_mixin(a, c));
    let mut shapes = Shapes::new();
    assert_eq!(table.load_named_value(&shapes, a, GREET), None);
    table.write_entry(&mut shapes, b, GREET, 5);
    assert_eq!(table.load_named_value(&shapes, a, GREET), Some(&5));
}

#[test]
fn own_values_win_then_the_last_inclusion() {
    let mut shapes = Shapes::new();
    let mut table: Mixins<i64> = Mixins::new();
    let top = table.create("Top");
    let first = table.create("First");
    let second = table.create("Second");
    table.write_entry(&mut shapes, first, GREET, 1);
    table.write_entry(&mut shapes, second, GREET, 2);
    table.write_entry(&mut shapes, first, SIZE, 10);
    table.include_mixin(top, first);
    table.include_mixin(top, second);
    assert_eq!(table.load_named_value(&shapes, top, GREET), Some(&2));
    assert_eq!(table.load_named_value(&shapes, top, SIZE), Some(&10));
    assert_eq!(table.load_named_value(&shapes, top, COLOR), None);
    table.write_entry(&mut shapes, top, GREET, 0);
    assert_eq!(table.load_named_value(&shapes, top, GREET), Some(&0));
    assert_eq!(table.named_values(&shapes, top), vec![GREET]);
}

#[test]
fn listing_attributes_through_inclusions() {
    let mut shapes = Shapes::new();
    let mut table: Mixins<i64> = Mixins::new();
    let top = table.create("Top");
    let inner = table.create("Inner");
    table.write_entry(&mut shapes, top, GREET, 1);
    table.write_entry(&mut shapes, inner, GREET, 2);
    table.write_entry(&mut shapes, inner, COLOR, 3);
    table.include_mixin(top, inner);
    let mut names = table.list_attributes(&shapes, top);
    names.sort_by_key(|s| s.0);
    assert_eq!(names, vec![GREET, COLOR]);
}

#[test]
fn an_includer_of_a_type() {
    let mut shapes = Shapes::new();
    let mut table: Mixins<i64> = Mixins::new();
    let m = table.create("M");
    let n = table.create("N");
    table.write_entry(&mut shapes, m, SIZE, 4);
    let mut includer = MixinIncluder::new();
    assert!(!includer.contains(&table, m));
    includer.push(m);
    assert!(includer.contains(&table, m));
    assert!(!includer.contains(&table, n));
    assert_eq!(includer.load_named_value(&table, &shapes, SIZE), Some(&4));
    assert_eq!(includer.load_named_value(&table, &shapes, GREET), None);
    assert_eq!(includer.list_attributes(&table, &shapes), vec![SIZE]);
}
