//! The `RuntimeError` enum that programs see errors of the virtual machine as.
use crate::builtin_enums::{enum_with_cases, intern_with_room, PayloadType};
use crate::enumeration::{Enum, EnumCase};
use crate::errors::{exception_outcome, RuntimeErrorValue, VmErrorReason, RUNTIME_ERR_CASE_COUNT};
use crate::shape::{Shapes, MAX_SHAPES};
use crate::symbol::{resolve_spec, symbol_of, Interner, MAX_SYMBOLS};
use vstd::prelude::*;

verus! {

/// The name of `RuntimeError` case `i`.
pub open spec fn runtime_error_case_name(i: int) -> Seq<char> {
    if i == 0 {
        "DivisionByZero"@
    } else if i == 1 {
        "EnumWithoutPayload"@
    } else if i == 2 {
        "IndexOutOfBounds"@
    } else if i == 3 {
        "MismatchedArgumentCount"@
    } else if i == 4 {
        "NoSuchCase"@
    } else if i == 5 {
        "NoSuchIdentifier"@
    } else if i == 6 {
        "OperationFailed"@
    } else {
        "UnexpectedType"@
    }
}

/// The payload type of `RuntimeError` case `i`, if it takes a payload.
pub open spec fn runtime_error_case_payload(i: int) -> Option<PayloadType> {
    if i == 2 {
        Some(PayloadType::Int)
    } else if i == 3 {
        Some(PayloadType::ArgcMismatch)
    } else if 4 <= i <= 6 {
        Some(PayloadType::String)
    } else {
        None
    }
}

proof fn lemma_case_names_distinct(i: int, j: int)
    requires
        0 <= i < 8,
        0 <= j < 8,
        i != j,
    ensures
        runtime_error_case_name(i) != runtime_error_case_name(j),
{
    reveal_strlit("DivisionByZero");
    reveal_strlit("EnumWithoutPayload");
    reveal_strlit("IndexOutOfBounds");
    reveal_strlit("MismatchedArgumentCount");
    reveal_strlit("NoSuchCase");
    reveal_strlit("NoSuchIdentifier");
    reveal_strlit("OperationFailed");
    reveal_strlit("UnexpectedType");
    let a = runtime_error_case_name(i);
    let b = runtime_error_case_name(j);
    assert(a.len() != b.len() || a[0] != b[0]);
}

fn case_entry(i: usize) -> (r: (&'static str, Option<PayloadType>))
    requires
        i < 8,
    ensures
        r.0@ == runtime_error_case_name(i as int),
        r.1 == runtime_error_case_payload(i as int),
{
    if i == 0 {
        ("DivisionByZero", None)
    } else if i == 1 {
        ("EnumWithoutPayload", None)
    } else if i == 2 {
        ("IndexOutOfBounds", Some(PayloadType::Int))
    } else if i == 3 {
        ("MismatchedArgumentCount", Some(PayloadType::ArgcMismatch))
    } else if i == 4 {
        ("NoSuchCase", Some(PayloadType::String))
    } else if i == 5 {
        ("NoSuchIdentifier", Some(PayloadType::String))
    } else if i == 6 {
        ("OperationFailed", Some(PayloadType::String))
    } else {
        ("UnexpectedType", None)
    }
}

/// Builds the `RuntimeError` enum: its cases in index order, each named in
/// `interner` and each taking the payload that errors of its kind carry; and
/// its attribute `ArgcMismatch`, the struct type that the payload of a
/// mismatched argument count has.
pub fn runtime_error_enum(interner: &mut Interner, shapes: &mut Shapes) -> (r: Enum<PayloadType>)
    requires
        old(interner).names().len() + 9 <= MAX_SYMBOLS,
        old(shapes).slot_table().len() + 9 < MAX_SHAPES,
    ensures
        symbol_of(final(interner).names(), "ArgcMismatch"@) matches Some(sym) && r.entry_value(
            final(shapes).slot_table(),
            sym,
        ) == Some(PayloadType::ArgcMismatch),
        r.consistent_with(final(shapes)),
        r.name_spec() == "RuntimeError"@,
        r.cases().len() == RUNTIME_ERR_CASE_COUNT,
        forall|i: int| 0 <= i < 8 ==> resolve_spec(final(interner).names(), #[trigger] r.cases()[i].name)
            == Some(runtime_error_case_name(i)),
        forall|i: int| 0 <= i < 8 ==> #[trigger] r.cases()[i].payload_type == runtime_error_case_payload(i),
{
    let mut table: Vec<(&'static str, Option<PayloadType>)> = Vec::new();
    let mut i: usize = 0;
    while i < 8
        invariant
            i <= 8,
            table@.len() == i,
            forall|j: int| 0 <= j < i ==> (#[trigger] table@[j]).0@ == runtime_error_case_name(j) && table@[j].1
                == runtime_error_case_payload(j),
        decreases 8 - i,
    {
        table.push(case_entry(i));
        i += 1;
    }
    proof {
        assert forall|a: int, b: int| 0 <= a < table@.len() && 0 <= b < table@.len() && a != b implies (#[trigger] table@[a]).0@
            != (#[trigger] table@[b]).0@ by {
            lemma_case_names_distinct(a, b);
        }
    }
    let mut e = enum_with_cases(interner, shapes, "RuntimeError", table.as_slice());
    let ghost names_mid = interner.names();
    let argc_mismatch = intern_with_room(interner, "ArgcMismatch");
    proof {
        assert forall|i: int| 0 <= i < 8 implies resolve_spec(interner.names(), #[trigger] e.cases()[i].name)
            == Some(runtime_error_case_name(i)) by {
            assert(resolve_spec(names_mid, e.cases()[i].name) is Some);
        }
    }
    shapes.check_wf();
    let ghost st = shapes.slot_table();
    let ghost tt = shapes.transition_table();
    let ghost es = e.entry_shape();
    let ghost ev = e.entry_values();
    e.store_named_value(shapes, argc_mismatch, PayloadType::ArgcMismatch);
    proof {
        crate::object::lemma_write_then_read(st, tt, es, ev, argc_mismatch, PayloadType::ArgcMismatch, argc_mismatch);
    }
    e
}

/// Every `RuntimeError` value that an error becomes can be made as a value of
/// the enum that `runtime_error_enum` builds: its case exists and takes a
/// payload exactly when the value carries one.
pub proof fn lemma_exception_is_enum_value(
    err: VmErrorReason,
    names: Seq<Seq<char>>,
    r: Result<RuntimeErrorValue, VmErrorReason>,
    cases: Seq<EnumCase<PayloadType>>,
)
    requires
        exception_outcome(err, names, r),
        cases.len() == RUNTIME_ERR_CASE_COUNT,
        forall|i: int| 0 <= i < 8 ==> #[trigger] cases[i].payload_type == runtime_error_case_payload(i),
    ensures
        r matches Ok(v) ==> v.case < cases.len() && (cases[v.case as int].payload_type is Some <==> !(
        v.payload is Empty)),
{
    crate::errors::lemma_exception_fits_case(err, names, r);
    if let Ok(v) = r {
        assert(cases[v.case as int].payload_type == runtime_error_case_payload(v.case as int));
    }
}

} // verus!
