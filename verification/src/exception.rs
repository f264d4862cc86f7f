//! Exceptions in flight: the value thrown and the places it passed through.
use crate::builtin_enums::{intern_with_room, PayloadType};
use crate::enumeration::{Enum, EnumValue};
use crate::errors::{
    exception_from_vm_error, exception_outcome, runtime_error_case_has_payload, same_reason, ExceptionPayload,
    RuntimeErrorValue, SymbolKind, VmErrorReason, RUNTIME_ERR_CASE_DIVISION_BY_ZERO_IDX,
    RUNTIME_ERR_CASE_ENUM_WITHOUT_PAYLOAD_IDX, RUNTIME_ERR_CASE_INDEX_OUT_OF_BOUNDS_IDX,
    RUNTIME_ERR_CASE_MISMATCHED_ARGC_IDX, RUNTIME_ERR_CASE_NO_SUCH_CASE_IDX, RUNTIME_ERR_CASE_NO_SUCH_IDENTIFIER_IDX,
    RUNTIME_ERR_CASE_OPERATION_FAILED_IDX, RUNTIME_ERR_CASE_UNEXPECTED_TYPE_IDX,
};
use crate::mixins::Mixins;
use crate::shape::{SlotTable, Shapes};
use crate::symbol::{intern_spec, symbol_of, Interner, Symbol, MAX_SYMBOLS};
use vstd::prelude::*;

verus! {

/// A place in the source: the buffer it is in and the span it covers.
#[derive(Clone, Copy, Debug, PartialEq, Eq, Structural)]
pub struct SourcePointer {
    pub buffer: u32,
    pub start: usize,
    pub stop: usize,
}

/// The places an exception was thrown at or passed through, first to last.
pub struct Backtrace {
    entries: Vec<SourcePointer>,
}

impl View for Backtrace {
    type V = Seq<SourcePointer>;

    closed spec fn view(&self) -> Seq<SourcePointer> {
        self.entries@
    }
}

impl Backtrace {
    /// A backtrace with no place in it.
    pub fn new() -> (r: Backtrace)
        ensures
            r@ == Seq::<SourcePointer>::empty(),
    {
        Backtrace { entries: Vec::new() }
    }

    /// The number of places.
    pub fn len(&self) -> (r: usize)
        ensures
            r == self@.len(),
    {
        self.entries.len()
    }

    /// The first place, if there is one.
    pub fn first_entry(&self) -> (r: Option<SourcePointer>)
        ensures
            self@.len() == 0 ==> r is None,
            self@.len() > 0 ==> r == Some(self@[0]),
    {
        if self.entries.len() == 0 {
            None
        } else {
            Some(self.entries[0])
        }
    }

    /// Adds a place after all the others.
    pub fn push(&mut self, loc: SourcePointer)
        ensures
            final(self)@ == old(self)@.push(loc),
    {
        self.entries.push(loc);
    }

    /// The places, first to last.
    pub fn entries(&self) -> (r: &[SourcePointer])
        ensures
            r@ == self@,
    {
        self.entries.as_slice()
    }
}

/// The backtrace after an exception is thrown at `loc`: a backtrace that is
/// `loc` alone stays as it is, any other gets `loc` added at its end.
pub open spec fn thrown_at_spec(bt: Seq<SourcePointer>, loc: SourcePointer) -> Seq<SourcePointer> {
    if bt.len() == 1 && bt[0] == loc {
        bt
    } else {
        bt.push(loc)
    }
}

/// A value thrown, with the places it passed through.
pub struct VmException<V> {
    pub value: V,
    pub backtrace: Backtrace,
}

impl<V> VmException<V> {
    /// An exception of `value` that was thrown nowhere yet.
    pub fn from_value(value: V) -> (r: VmException<V>)
        ensures
            r.value == value,
            r.backtrace@ == Seq::<SourcePointer>::empty(),
    {
        VmException { value, backtrace: Backtrace::new() }
    }

    /// An exception of `value`, thrown at `loc` where there is one.
    pub fn from_value_and_loc(value: V, loc: Option<SourcePointer>) -> (r: VmException<V>)
        ensures
            r.value == value,
            loc is None ==> r.backtrace@ == Seq::<SourcePointer>::empty(),
            loc matches Some(l) ==> r.backtrace@ == seq![l],
    {
        let this = VmException::from_value(value);
        match loc {
            Some(l) => this.thrown_at(l),
            None => this,
        }
    }

    /// The exception, thrown (again) at `loc`.
    pub fn thrown_at(self, loc: SourcePointer) -> (r: VmException<V>)
        ensures
            r.value == self.value,
            r.backtrace@ == thrown_at_spec(self.backtrace@, loc),
    {
        let same_place = match self.backtrace.first_entry() {
            Some(first) => self.backtrace.len() == 1 && first == loc,
            None => false,
        };
        if same_place {
            self
        } else {
            let mut bt = self.backtrace;
            bt.push(loc);
            VmException { value: self.value, backtrace: bt }
        }
    }
}

/// The exception that error `err`, raised at `loc`, becomes: a `RuntimeError`
/// value thrown at `loc`, or the error itself where no case stands for it.
pub fn exception_from_error(err: VmErrorReason, loc: Option<SourcePointer>, globals: &Interner) -> (r: Result<
    VmException<RuntimeErrorValue>,
    VmErrorReason,
>)
    ensures
        exception_outcome(
            err,
            globals.names(),
            match r {
                Ok(e) => Ok(e.value),
                Err(e) => Err(e),
            },
        ),
        r matches Ok(e) ==> (loc is None ==> e.backtrace@ == Seq::<SourcePointer>::empty()) && (loc matches Some(l)
            ==> e.backtrace@ == seq![l]),
{
    match exception_from_vm_error(err, globals) {
        Ok(v) => Ok(VmException::from_value_and_loc(v, loc)),
        Err(e) => Err(e),
    }
}

/// The `RuntimeError` case that error `err` becomes, with `names` the
/// interned names; `None` for an error that no case stands for, and for a
/// missing symbol that has no name.
pub open spec fn error_case(err: VmErrorReason, names: Seq<Seq<char>>) -> Option<usize> {
    match err {
        VmErrorReason::DivisionByZero => Some(RUNTIME_ERR_CASE_DIVISION_BY_ZERO_IDX),
        VmErrorReason::EnumWithoutPayload => Some(RUNTIME_ERR_CASE_ENUM_WITHOUT_PAYLOAD_IDX),
        VmErrorReason::IndexOutOfBounds(_) => Some(RUNTIME_ERR_CASE_INDEX_OUT_OF_BOUNDS_IDX),
        VmErrorReason::MismatchedArgumentCount(_, _) => Some(RUNTIME_ERR_CASE_MISMATCHED_ARGC_IDX),
        VmErrorReason::NoSuchCase(_) => Some(RUNTIME_ERR_CASE_NO_SUCH_CASE_IDX),
        VmErrorReason::NoSuchIdentifier(_) => Some(RUNTIME_ERR_CASE_NO_SUCH_IDENTIFIER_IDX),
        VmErrorReason::NoSuchSymbol(n, kind) => if (n as int) < names.len() {
            Some(
                match kind {
                    SymbolKind::Identifier => RUNTIME_ERR_CASE_NO_SUCH_IDENTIFIER_IDX,
                    SymbolKind::Case => RUNTIME_ERR_CASE_NO_SUCH_CASE_IDX,
                },
            )
        } else {
            None
        },
        VmErrorReason::OperationFailed(_) => Some(RUNTIME_ERR_CASE_OPERATION_FAILED_IDX),
        VmErrorReason::UnexpectedType => Some(RUNTIME_ERR_CASE_UNEXPECTED_TYPE_IDX),
        _ => None,
    }
}

/// What an enumeration gives for attribute `sym`: its own, else that of the
/// mixins it includes, the one included last first.
pub open spec fn enum_attribute(en: Enum<PayloadType>, st: SlotTable, table: Mixins<PayloadType>, sym: Symbol) -> Option<PayloadType> {
    match en.entry_value(st, sym) {
        Some(v) => Some(v),
        None => table.lookup_list(st, en.included(), en.included().len() as int, sym, table.len_spec()),
    }
}

/// The payload that an enumeration value carries for an exception payload.
pub open spec fn payload_value(p: ExceptionPayload) -> Option<ExceptionPayload> {
    match p {
        ExceptionPayload::Empty => None,
        _ => Some(p),
    }
}

/// The exception payload that an enumeration value's payload stands for.
pub open spec fn payload_or_empty(p: Option<ExceptionPayload>) -> ExceptionPayload {
    match p {
        Some(q) => q,
        None => ExceptionPayload::Empty,
    }
}

/// Whether error `err` becomes a value of the `RuntimeError` enum `en`: a
/// case stands for it; for a mismatched argument count, the enum gives the
/// `ArgcMismatch` struct under `argc` (the symbol of that name); and the
/// enum has the case, taking a payload exactly when the error carries one.
pub open spec fn exception_value_made(
    err: VmErrorReason,
    names: Seq<Seq<char>>,
    en: Enum<PayloadType>,
    st: SlotTable,
    table: Mixins<PayloadType>,
    argc: Symbol,
) -> bool {
    match error_case(err, names) {
        None => false,
        Some(c) => {
            &&& c == RUNTIME_ERR_CASE_MISMATCHED_ARGC_IDX ==> enum_attribute(en, st, table, argc) == Some(
                PayloadType::ArgcMismatch,
            )
            &&& c < en.cases().len()
            &&& (en.cases()[c as int].payload_type is Some <==> runtime_error_case_has_payload(c))
        },
    }
}

/// An error with the same reason and details as `err`.
fn same_error(err: &VmErrorReason) -> (r: VmErrorReason)
    ensures
        same_reason(r, *err),
{
    match err {
        VmErrorReason::BytecodeDecodeError(e) => VmErrorReason::BytecodeDecodeError(*e),
        VmErrorReason::DivisionByZero => VmErrorReason::DivisionByZero,
        VmErrorReason::EmptyStack => VmErrorReason::EmptyStack,
        VmErrorReason::EnumWithoutPayload => VmErrorReason::EnumWithoutPayload,
        VmErrorReason::IndexOutOfBounds(i) => VmErrorReason::IndexOutOfBounds(*i),
        VmErrorReason::InvalidBinding => VmErrorReason::InvalidBinding,
        VmErrorReason::MismatchedArgumentCount(a, b) => VmErrorReason::MismatchedArgumentCount(*a, *b),
        VmErrorReason::NoSuchCase(s) => VmErrorReason::NoSuchCase(s.clone()),
        VmErrorReason::NoSuchIdentifier(s) => VmErrorReason::NoSuchIdentifier(s.clone()),
        VmErrorReason::NoSuchSymbol(n, k) => VmErrorReason::NoSuchSymbol(*n, *k),
        VmErrorReason::OperationFailed(s) => VmErrorReason::OperationFailed(s.clone()),
        VmErrorReason::UnexpectedType => VmErrorReason::UnexpectedType,
        VmErrorReason::UnexpectedVmState => VmErrorReason::UnexpectedVmState,
    }
}

/// The exception that error `err`, raised at `loc`, becomes, given the
/// builtins: `rt_err` is the `RuntimeError` enum where the builtins hold one,
/// and `table` the mixins it may include. The exception is a value of that
/// enum, of the error's case and carrying its details, thrown at `loc`. The
/// error comes back unchanged where the builtins hold no such enum, no case
/// stands for the error, the enum lacks the `ArgcMismatch` struct that a
/// mismatched argument count needs, or the enum has no fitting case. A
/// mismatched argument count interns the name `ArgcMismatch`.
pub fn exception_from_builtins(
    err: VmErrorReason,
    loc: Option<SourcePointer>,
    globals: &mut Interner,
    shapes: &Shapes,
    rt_err: Option<&Enum<PayloadType>>,
    table: &Mixins<PayloadType>,
) -> (r: Result<VmException<EnumValue<ExceptionPayload, PayloadType>>, VmErrorReason>)
    requires
        old(globals).names().len() < MAX_SYMBOLS,
    ensures
        rt_err is Some && error_case(err, old(globals).names()) == Some(RUNTIME_ERR_CASE_MISMATCHED_ARGC_IDX)
            ==> final(globals).names() == intern_spec(old(globals).names(), "ArgcMismatch"@).0,
        !(rt_err is Some && error_case(err, old(globals).names()) == Some(RUNTIME_ERR_CASE_MISMATCHED_ARGC_IDX))
            ==> final(globals).names() == old(globals).names(),
        r matches Err(e) ==> same_reason(e, err),
        r is Ok <==> (rt_err matches Some(en) && exception_value_made(
            err,
            old(globals).names(),
            *en,
            shapes.slot_table(),
            *table,
            symbol_of(final(globals).names(), "ArgcMismatch"@)->Some_0,
        )),
        r matches Ok(x) ==> {
            &&& rt_err matches Some(en) && x.value.container_enum() == *en
            &&& exception_outcome(
                err,
                old(globals).names(),
                Ok(
                    (RuntimeErrorValue {
                        case: x.value.case_index() as usize,
                        payload: payload_or_empty(x.value.payload_spec()),
                    }),
                ),
            )
            &&& loc is None ==> x.backtrace@ == Seq::<SourcePointer>::empty()
            &&& loc matches Some(l) ==> x.backtrace@ == seq![l]
        },
{
    let rt = match rt_err {
        Some(e) => e,
        None => {
            return Err(err);
        },
    };
    let keep = same_error(&err);
    let ghost e0 = err;
    let ghost names0 = globals.names();
    let v = match exception_from_vm_error(err, globals) {
        Ok(v) => v,
        Err(e) => {
            return Err(e);
        },
    };
    proof {
        crate::errors::lemma_exception_fits_case(e0, names0, Ok(v));
        assert(error_case(e0, names0) == Some(v.case));
    }
    if v.case == RUNTIME_ERR_CASE_MISMATCHED_ARGC_IDX {
        let sym = intern_with_room(globals, "ArgcMismatch");
        let found = rt.load_named_value(shapes, table, sym);
        let fits = match found {
            Some(PayloadType::ArgcMismatch) => true,
            _ => false,
        };
        if !fits {
            return Err(keep);
        }
    }
    let ghost case = v.case;
    let ghost payload0 = v.payload;
    let payload = match v.payload {
        ExceptionPayload::Empty => None,
        p => Some(p),
    };
    match rt.make_value(v.case, payload) {
        Some(ev) => {
            proof {
                assert(payload_or_empty(ev.payload_spec()) == payload0);
            }
            Ok(VmException::from_value_and_loc(ev, loc))
        },
        None => Err(keep),
    }
}

/// Throwing an exception at a place keeps every place it passed through
/// before; unless its backtrace is that one place alone, the place is added
/// at the end, whatever the backtrace's length.
pub proof fn lemma_thrown_at_appends(bt: Seq<SourcePointer>, loc: SourcePointer)
    ensures
        thrown_at_spec(bt, loc).subrange(0, bt.len() as int) == bt,
        !(bt.len() == 1 && bt[0] == loc) ==> thrown_at_spec(bt, loc).len() == bt.len() + 1 && thrown_at_spec(
            bt,
            loc,
        ).last() == loc,
        bt.len() == 1 && bt[0] == loc ==> thrown_at_spec(bt, loc) == bt,
{
    assert(bt.push(loc).subrange(0, bt.len() as int) =~= bt);
    assert(bt.subrange(0, bt.len() as int) =~= bt);
}

/// Throwing an exception again at the one place it was thrown at adds nothing
/// to its backtrace; throwing it anywhere else adds that place at the end.
pub proof fn lemma_rethrow_at_same_place(loc: SourcePointer, other: SourcePointer)
    ensures
        thrown_at_spec(thrown_at_spec(Seq::empty(), loc), loc) == seq![loc],
        other != loc ==> thrown_at_spec(thrown_at_spec(Seq::empty(), loc), other) == seq![loc, other],
{
    assert(Seq::<SourcePointer>::empty().push(loc) =~= seq![loc]);
    assert(seq![loc].push(other) =~= seq![loc, other]);
}

} // verus!
