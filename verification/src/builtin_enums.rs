//! The builtin enumerations of the virtual machine (`Maybe`, `Result`, `Unit`)
//! and the values made of their cases.
use crate::enumeration::{case_index_spec, case_names, Enum, EnumCase, EnumValue};
use crate::errors::VmErrorReason;
use crate::shape::{Shapes, MAX_SHAPES};
use crate::symbol::{intern_spec, resolve_spec, symbol_of, valid_names, Interner, Symbol, MAX_SYMBOLS};
use vstd::prelude::*;

verus! {

/// The type that the payload of a builtin enumeration's case must have.
#[derive(Clone, Copy, Debug, PartialEq, Eq, Structural)]
pub enum PayloadType {
    Any,
    Int,
    String,
    ArgcMismatch,
}

/// Interns `s`, which cannot fail while the interner has room.
pub(crate) fn intern_with_room(interner: &mut Interner, s: &str) -> (r: Symbol)
    requires
        old(interner).names().len() < MAX_SYMBOLS,
    ensures
        final(interner).names().len() <= old(interner).names().len() + 1,
        resolve_spec(final(interner).names(), r) == Some(s@),
        symbol_of(final(interner).names(), s@) == Some(r),
        final(interner).names() == intern_spec(old(interner).names(), s@).0,
        forall|sym: Symbol| #[trigger] resolve_spec(old(interner).names(), sym) is Some ==> resolve_spec(
            final(interner).names(),
            sym,
        ) == resolve_spec(old(interner).names(), sym),
{
    let ghost names = interner.names();
    let res = interner.intern(s);
    proof {
        crate::symbol::lemma_intern_then_resolve(names, s@);
        if symbol_of(names, s@) is None && names.len() < MAX_SYMBOLS {
            let n2 = names.push(s@);
            assert forall|i: int, j: int| 0 <= i < n2.len() && 0 <= j < n2.len() && i != j implies n2[i] != n2[j] by {
                if i == names.len() as int {
                    assert(n2[j] == names[j]);
                } else if j == names.len() as int {
                    assert(n2[i] == names[i]);
                }
            }
            crate::symbol::lemma_symbol_of_at(n2, s@, names.len() as int);
        }
    }
    match res {
        Ok(sym) => sym,
        Err(_) => {
            proof {
                assert(false);
            }
            Symbol(0)
        },
    }
}

/// Builds an enumeration named `enum_name` with the cases of `table` in order,
/// each named by its text, interned in `interner`, and taking its payload type.
pub fn enum_with_cases(interner: &mut Interner, shapes: &mut Shapes, enum_name: &str, table: &[(&'static str, Option<PayloadType>)]) -> (r: Enum<PayloadType>)
    requires
        forall|a: int, b: int| 0 <= a < table@.len() && 0 <= b < table@.len() && a != b ==> (#[trigger] table@[a]).0@
            != (#[trigger] table@[b]).0@,
        old(interner).names().len() + table@.len() <= MAX_SYMBOLS,
        old(shapes).slot_table().len() + table@.len() < MAX_SHAPES,
    ensures
        r.consistent_with(final(shapes)),
        r.name_spec() == enum_name@,
        r.cases().len() == table@.len(),
        forall|i: int| 0 <= i < table@.len() ==> resolve_spec(final(interner).names(), #[trigger] r.cases()[i].name)
            == Some(table@[i].0@),
        forall|i: int| 0 <= i < table@.len() ==> #[trigger] r.cases()[i].payload_type == table@[i].1,
        forall|sym: Symbol| #[trigger] resolve_spec(old(interner).names(), sym) is Some ==> resolve_spec(
            final(interner).names(),
            sym,
        ) == resolve_spec(old(interner).names(), sym),
        final(interner).names().len() <= old(interner).names().len() + table@.len(),
        final(shapes).slot_table().len() <= old(shapes).slot_table().len() + table@.len(),
{
    let mut e: Enum<PayloadType> = Enum::new(enum_name);
    shapes.check_wf();
    proof {
        assert(case_names(e.cases()) =~= Seq::<Symbol>::empty());
        assert(shapes.slot_table()[0] =~= Seq::<Symbol>::empty());
    }
    let n = table.len();
    let mut i: usize = 0;
    while i < n
        invariant
            i <= n,
            n == table@.len(),
            forall|a: int, b: int| 0 <= a < table@.len() && 0 <= b < table@.len() && a != b ==> (#[trigger] table@[a]).0@
                != (#[trigger] table@[b]).0@,
            e.consistent_with(shapes),
            e.name_spec() == enum_name@,
            e.cases().len() == i,
            interner.names().len() <= old(interner).names().len() + i,
            old(interner).names().len() + n <= MAX_SYMBOLS,
            shapes.slot_table().len() <= old(shapes).slot_table().len() + i,
            old(shapes).slot_table().len() + n < MAX_SHAPES,
            forall|j: int| 0 <= j < i ==> resolve_spec(interner.names(), #[trigger] e.cases()[j].name) == Some(table@[j].0@),
            forall|j: int| 0 <= j < i ==> #[trigger] e.cases()[j].payload_type == table@[j].1,
            forall|sym: Symbol| #[trigger] resolve_spec(old(interner).names(), sym) is Some ==> resolve_spec(
                interner.names(),
                sym,
            ) == resolve_spec(old(interner).names(), sym),
        decreases n - i,
    {
        let (name, payload_type) = table[i];
        let ghost before = e.cases();
        let ghost names_before = interner.names();
        let sym = intern_with_room(interner, name);
        proof {
            assert forall|j: int| 0 <= j < i implies resolve_spec(interner.names(), #[trigger] before[j].name)
                == Some(table@[j].0@) by {
                assert(resolve_spec(names_before, before[j].name) is Some);
            }
            if case_index_spec(before, sym) is Some {
                let names = case_names(before);
                let k = choose|k: int| 0 <= k < names.len() && names[k] == sym;
                assert(0 <= k < names.len() && names[k] == sym);
                assert(before[k].name == sym);
                assert(table@[k].0@ != table@[i as int].0@);
            }
        }
        shapes.check_wf();
        e.add_case(shapes, EnumCase { name: sym, payload_type });
        proof {
            assert(e.cases() == before.push(EnumCase { name: sym, payload_type }));
        }
        i += 1;
    }
    e
}

/// Builds the `Maybe` enumeration: `Some` with a payload of any type, then
/// `None` without one.
pub fn maybe_enum(interner: &mut Interner, shapes: &mut Shapes) -> (r: Enum<PayloadType>)
    requires
        old(interner).names().len() + 2 <= MAX_SYMBOLS,
        old(shapes).slot_table().len() + 2 < MAX_SHAPES,
    ensures
        r.consistent_with(final(shapes)),
        r.name_spec() == "Maybe"@,
        r.cases().len() == 2,
        resolve_spec(final(interner).names(), r.cases()[0].name) == Some("Some"@),
        resolve_spec(final(interner).names(), r.cases()[1].name) == Some("None"@),
        r.cases()[0].payload_type == Some(PayloadType::Any),
        r.cases()[1].payload_type is None,
{
    let table: Vec<(&'static str, Option<PayloadType>)> = vec![("Some", Some(PayloadType::Any)), ("None", None)];
    proof {
        reveal_strlit("Some");
        reveal_strlit("None");
        assert(table@[0].0@ != table@[1].0@) by {
            assert(table@[0].0@[0] != table@[1].0@[0]);
        }
    }
    enum_with_cases(interner, shapes, "Maybe", table.as_slice())
}

/// Builds the `Result` enumeration: `Ok` and `Err`, each with a payload of any
/// type.
pub fn result_enum(interner: &mut Interner, shapes: &mut Shapes) -> (r: Enum<PayloadType>)
    requires
        old(interner).names().len() + 2 <= MAX_SYMBOLS,
        old(shapes).slot_table().len() + 2 < MAX_SHAPES,
    ensures
        r.consistent_with(final(shapes)),
        r.name_spec() == "Result"@,
        r.cases().len() == 2,
        resolve_spec(final(interner).names(), r.cases()[0].name) == Some("Ok"@),
        resolve_spec(final(interner).names(), r.cases()[1].name) == Some("Err"@),
        r.cases()[0].payload_type == Some(PayloadType::Any),
        r.cases()[1].payload_type == Some(PayloadType::Any),
{
    let table: Vec<(&'static str, Option<PayloadType>)> = vec![("Ok", Some(PayloadType::Any)), ("Err", Some(PayloadType::Any))];
    proof {
        reveal_strlit("Ok");
        reveal_strlit("Err");
        assert(table@[0].0@ != table@[1].0@) by {
            assert(table@[0].0@.len() != table@[1].0@.len());
        }
    }
    enum_with_cases(interner, shapes, "Result", table.as_slice())
}

/// Builds the `Unit` enumeration: the one case `unit`, without a payload.
pub fn unit_enum(interner: &mut Interner, shapes: &mut Shapes) -> (r: Enum<PayloadType>)
    requires
        old(interner).names().len() + 1 <= MAX_SYMBOLS,
        old(shapes).slot_table().len() + 1 < MAX_SHAPES,
    ensures
        r.consistent_with(final(shapes)),
        r.name_spec() == "Unit"@,
        r.cases().len() == 1,
        resolve_spec(final(interner).names(), r.cases()[0].name) == Some("unit"@),
        r.cases()[0].payload_type is None,
{
    let table: Vec<(&'static str, Option<PayloadType>)> = vec![("unit", None)];
    enum_with_cases(interner, shapes, "Unit", table.as_slice())
}

/// The index of the case named `case_name` among `cases`, the names taken
/// from `names`.
pub open spec fn case_named(names: Seq<Seq<char>>, cases: Seq<EnumCase<PayloadType>>, case_name: Seq<char>) -> Option<int> {
    match symbol_of(names, case_name) {
        Some(sym) => case_index_spec(cases, sym),
        None => None,
    }
}

/// The value of the case named `case_name` of `e` carrying `payload` (as the
/// virtual machine makes `Some(x)`, `Ok(x)`, `Err(x)`, `None` and `unit`): a
/// missing case is reported by name, and a case that does not take the
/// payload given is an inconsistent state of the machine.
pub fn value_of_case<P>(e: &Enum<PayloadType>, shapes: &Shapes, interner: &Interner, case_name: &str, payload: Option<P>) -> (r: Result<EnumValue<P, PayloadType>, VmErrorReason>)
    requires
        e.consistent_with(shapes),
    ensures
        case_named(interner.names(), e.cases(), case_name@) is None ==> (r matches Err(VmErrorReason::NoSuchCase(s)) && s@
            == case_name@),
        case_named(interner.names(), e.cases(), case_name@) matches Some(i) ==> ((e.cases()[i].payload_type is Some
            <==> payload is Some) ==> (r matches Ok(v) && v.case_index() == i && v.payload_spec() == payload)),
        case_named(interner.names(), e.cases(), case_name@) matches Some(i) ==> (!(e.cases()[i].payload_type is Some
            <==> payload is Some) ==> (r matches Err(err) && err is UnexpectedVmState)),
{
    let sym = match interner.lookup(case_name) {
        Some(sym) => sym,
        None => {
            return Err(VmErrorReason::NoSuchCase(case_name.to_owned()));
        },
    };
    let idx = match e.get_idx_of_case_by_symbol(shapes, sym) {
        Some(idx) => idx,
        None => {
            return Err(VmErrorReason::NoSuchCase(case_name.to_owned()));
        },
    };
    proof {
        let names = case_names(e.cases());
        let k = choose|k: int| 0 <= k < names.len() && names[k] == sym;
        assert(0 <= k < names.len());
    }
    match e.make_value(idx, payload) {
        Some(v) => Ok(v),
        None => Err(VmErrorReason::UnexpectedVmState),
    }
}

/// In an interner whose names are valid, the symbol that resolves to a name is
/// the symbol of that name.
proof fn lemma_resolved_symbol(names: Seq<Seq<char>>, sym: Symbol, s: Seq<char>)
    requires
        valid_names(names),
        resolve_spec(names, sym) == Some(s),
    ensures
        symbol_of(names, s) == Some(sym),
{
    crate::symbol::lemma_symbol_of_at(names, s, sym.0 as int);
}

/// Once `Maybe` is built, `Some` with a payload and `None` without one can
/// always be made: the cases are found by name at indices 0 and 1.
pub proof fn lemma_maybe_values_exist(names: Seq<Seq<char>>, cases: Seq<EnumCase<PayloadType>>)
    requires
        valid_names(names),
        cases.len() == 2,
        resolve_spec(names, cases[0].name) == Some("Some"@),
        resolve_spec(names, cases[1].name) == Some("None"@),
        crate::shape::distinct_symbols(case_names(cases)),
    ensures
        case_named(names, cases, "Some"@) == Some(0int),
        case_named(names, cases, "None"@) == Some(1int),
{
    lemma_resolved_symbol(names, cases[0].name, "Some"@);
    lemma_resolved_symbol(names, cases[1].name, "None"@);
    crate::enumeration::lemma_case_index_at(cases, 0);
    crate::enumeration::lemma_case_index_at(cases, 1);
}

/// Once `Result` is built, `Ok` and `Err` with a payload can always be made:
/// the cases are found by name at indices 0 and 1.
pub proof fn lemma_result_values_exist(names: Seq<Seq<char>>, cases: Seq<EnumCase<PayloadType>>)
    requires
        valid_names(names),
        cases.len() == 2,
        resolve_spec(names, cases[0].name) == Some("Ok"@),
        resolve_spec(names, cases[1].name) == Some("Err"@),
        crate::shape::distinct_symbols(case_names(cases)),
    ensures
        case_named(names, cases, "Ok"@) == Some(0int),
        case_named(names, cases, "Err"@) == Some(1int),
{
    lemma_resolved_symbol(names, cases[0].name, "Ok"@);
    lemma_resolved_symbol(names, cases[1].name, "Err"@);
    crate::enumeration::lemma_case_index_at(cases, 0);
    crate::enumeration::lemma_case_index_at(cases, 1);
}

} // verus!
