//! Errors of the virtual machine, and the exceptions that the `RuntimeError`
//! enum carries for them.
use crate::bc_reader::DecodeError;
use crate::symbol::{resolve_spec, Interner, Symbol};
use vstd::prelude::*;

verus! {

/// Whether a missing symbol named an identifier or an enum case.
#[derive(Clone, Copy, Debug, PartialEq, Eq, Structural)]
pub enum SymbolKind {
    Identifier,
    Case,
}

/// Why an operation of the virtual machine failed.
#[derive(Debug)]
pub enum VmErrorReason {
    BytecodeDecodeError(DecodeError),
    DivisionByZero,
    EmptyStack,
    EnumWithoutPayload,
    IndexOutOfBounds(usize),
    InvalidBinding,
    MismatchedArgumentCount(usize, usize),
    NoSuchCase(String),
    NoSuchIdentifier(String),
    NoSuchSymbol(u32, SymbolKind),
    OperationFailed(String),
    UnexpectedType,
    UnexpectedVmState,
}

/// Why reading an attribute failed.
#[derive(Clone, Copy, Debug, PartialEq, Eq, Structural)]
pub enum AttributeError {
    NoSuchAttribute,
    InvalidFunctionBinding,
    ValueHasNoAttributes,
}

impl AttributeError {
    /// The error that a failed read of attribute `name` raises.
    pub fn to_vm_error_reason(&self, name: &str) -> (r: VmErrorReason)
        ensures
            *self == AttributeError::NoSuchAttribute ==> (r matches VmErrorReason::NoSuchIdentifier(s) && s@ == name@),
            *self == AttributeError::InvalidFunctionBinding ==> r is InvalidBinding,
            *self == AttributeError::ValueHasNoAttributes ==> r is UnexpectedType,
    {
        match self {
            AttributeError::NoSuchAttribute => VmErrorReason::NoSuchIdentifier(name.to_owned()),
            AttributeError::InvalidFunctionBinding => VmErrorReason::InvalidBinding,
            AttributeError::ValueHasNoAttributes => VmErrorReason::UnexpectedType,
        }
    }
}

/// The cases of the `RuntimeError` enum, by index.
pub const RUNTIME_ERR_CASE_DIVISION_BY_ZERO_IDX: usize = 0;
pub const RUNTIME_ERR_CASE_ENUM_WITHOUT_PAYLOAD_IDX: usize = 1;
pub const RUNTIME_ERR_CASE_INDEX_OUT_OF_BOUNDS_IDX: usize = 2;
pub const RUNTIME_ERR_CASE_MISMATCHED_ARGC_IDX: usize = 3;
pub const RUNTIME_ERR_CASE_NO_SUCH_CASE_IDX: usize = 4;
pub const RUNTIME_ERR_CASE_NO_SUCH_IDENTIFIER_IDX: usize = 5;
pub const RUNTIME_ERR_CASE_OPERATION_FAILED_IDX: usize = 6;
pub const RUNTIME_ERR_CASE_UNEXPECTED_TYPE_IDX: usize = 7;

/// The number of cases of the `RuntimeError` enum.
pub const RUNTIME_ERR_CASE_COUNT: usize = 8;

/// The payload of a `RuntimeError` value.
#[derive(Debug)]
pub enum ExceptionPayload {
    /// The case carries nothing.
    Empty,
    /// An integer, such as an index.
    Integer(i64),
    /// A name or a message.
    Text(String),
    /// An `ArgcMismatch` object with its `expected` and `actual` attributes.
    ArgcMismatch { expected: i64, actual: i64 },
}

/// A value of the `RuntimeError` enum: its case and its payload.
#[derive(Debug)]
pub struct RuntimeErrorValue {
    pub case: usize,
    pub payload: ExceptionPayload,
}

/// Whether the `RuntimeError` case `case` carries a payload.
pub open spec fn runtime_error_case_has_payload(case: usize) -> bool {
    case == RUNTIME_ERR_CASE_INDEX_OUT_OF_BOUNDS_IDX || case == RUNTIME_ERR_CASE_MISMATCHED_ARGC_IDX
        || case == RUNTIME_ERR_CASE_NO_SUCH_CASE_IDX || case == RUNTIME_ERR_CASE_NO_SUCH_IDENTIFIER_IDX
        || case == RUNTIME_ERR_CASE_OPERATION_FAILED_IDX
}

/// Whether two errors are the same reason with the same details.
pub open spec fn same_reason(a: VmErrorReason, b: VmErrorReason) -> bool {
    match (a, b) {
        (VmErrorReason::BytecodeDecodeError(x), VmErrorReason::BytecodeDecodeError(y)) => x == y,
        (VmErrorReason::DivisionByZero, VmErrorReason::DivisionByZero) => true,
        (VmErrorReason::EmptyStack, VmErrorReason::EmptyStack) => true,
        (VmErrorReason::EnumWithoutPayload, VmErrorReason::EnumWithoutPayload) => true,
        (VmErrorReason::IndexOutOfBounds(x), VmErrorReason::IndexOutOfBounds(y)) => x == y,
        (VmErrorReason::InvalidBinding, VmErrorReason::InvalidBinding) => true,
        (VmErrorReason::MismatchedArgumentCount(x1, x2), VmErrorReason::MismatchedArgumentCount(y1, y2)) => x1 == y1 && x2 == y2,
        (VmErrorReason::NoSuchCase(x), VmErrorReason::NoSuchCase(y)) => x@ == y@,
        (VmErrorReason::NoSuchIdentifier(x), VmErrorReason::NoSuchIdentifier(y)) => x@ == y@,
        (VmErrorReason::NoSuchSymbol(x, k), VmErrorReason::NoSuchSymbol(y, l)) => x == y && k == l,
        (VmErrorReason::OperationFailed(x), VmErrorReason::OperationFailed(y)) => x@ == y@,
        (VmErrorReason::UnexpectedType, VmErrorReason::UnexpectedType) => true,
        (VmErrorReason::UnexpectedVmState, VmErrorReason::UnexpectedVmState) => true,
        _ => false,
    }
}

/// Whether `v` is the `RuntimeError` value of case `case` carrying text `t`.
pub open spec fn is_text_exception(v: RuntimeErrorValue, case: usize, t: Seq<char>) -> bool {
    v.case == case && (v.payload matches ExceptionPayload::Text(x) && x@ == t)
}

/// Whether `r` is what converting error `err` into a `RuntimeError` value
/// gives, with `names` the interned names: each reason that has a case becomes
/// a value of that case carrying the reason's details; a missing symbol is
/// named through the interner; any other error comes back unchanged.
pub open spec fn exception_outcome(err: VmErrorReason, names: Seq<Seq<char>>, r: Result<RuntimeErrorValue, VmErrorReason>) -> bool {
    match err {
        VmErrorReason::DivisionByZero => (r matches Ok(v) && v.case == RUNTIME_ERR_CASE_DIVISION_BY_ZERO_IDX
            && v.payload is Empty),
        VmErrorReason::EnumWithoutPayload => (r matches Ok(v) && v.case == RUNTIME_ERR_CASE_ENUM_WITHOUT_PAYLOAD_IDX
            && v.payload is Empty),
        VmErrorReason::IndexOutOfBounds(idx) => (r matches Ok(v) && v.case == RUNTIME_ERR_CASE_INDEX_OUT_OF_BOUNDS_IDX
            && v.payload == ExceptionPayload::Integer(idx as i64)),
        VmErrorReason::MismatchedArgumentCount(e, a) => (r matches Ok(v) && v.case == RUNTIME_ERR_CASE_MISMATCHED_ARGC_IDX
            && v.payload == ExceptionPayload::ArgcMismatch { expected: e as i64, actual: a as i64 }),
        VmErrorReason::NoSuchCase(s) => (r matches Ok(v) && is_text_exception(v, RUNTIME_ERR_CASE_NO_SUCH_CASE_IDX, s@)),
        VmErrorReason::NoSuchIdentifier(s) => (r matches Ok(v) && is_text_exception(v, RUNTIME_ERR_CASE_NO_SUCH_IDENTIFIER_IDX, s@)),
        VmErrorReason::NoSuchSymbol(n, kind) => if (n as int) < names.len() {
            r matches Ok(v) && is_text_exception(
                v,
                match kind {
                    SymbolKind::Identifier => RUNTIME_ERR_CASE_NO_SUCH_IDENTIFIER_IDX,
                    SymbolKind::Case => RUNTIME_ERR_CASE_NO_SUCH_CASE_IDX,
                },
                names[n as int],
            )
        } else {
            r matches Err(e) && same_reason(e, err)
        },
        VmErrorReason::OperationFailed(s) => (r matches Ok(v) && is_text_exception(v, RUNTIME_ERR_CASE_OPERATION_FAILED_IDX, s@)),
        VmErrorReason::UnexpectedType => (r matches Ok(v) && v.case == RUNTIME_ERR_CASE_UNEXPECTED_TYPE_IDX
            && v.payload is Empty),
        _ => (r matches Err(e) && same_reason(e, err)),
    }
}

/// Converts an error into the `RuntimeError` value that the program sees,
/// returning the error itself when no case stands for it.
pub fn exception_from_vm_error(err: VmErrorReason, globals: &Interner) -> (r: Result<RuntimeErrorValue, VmErrorReason>)
    ensures
        exception_outcome(err, globals.names(), r),
{
    match err {
        VmErrorReason::DivisionByZero => Ok(RuntimeErrorValue { case: RUNTIME_ERR_CASE_DIVISION_BY_ZERO_IDX, payload: ExceptionPayload::Empty }),
        VmErrorReason::EnumWithoutPayload => Ok(RuntimeErrorValue { case: RUNTIME_ERR_CASE_ENUM_WITHOUT_PAYLOAD_IDX, payload: ExceptionPayload::Empty }),
        VmErrorReason::IndexOutOfBounds(idx) => Ok(RuntimeErrorValue { case: RUNTIME_ERR_CASE_INDEX_OUT_OF_BOUNDS_IDX, payload: ExceptionPayload::Integer(idx as i64) }),
        VmErrorReason::MismatchedArgumentCount(expected, actual) => Ok(RuntimeErrorValue {
            case: RUNTIME_ERR_CASE_MISMATCHED_ARGC_IDX,
            payload: ExceptionPayload::ArgcMismatch { expected: expected as i64, actual: actual as i64 },
        }),
        VmErrorReason::NoSuchCase(s) => Ok(RuntimeErrorValue { case: RUNTIME_ERR_CASE_NO_SUCH_CASE_IDX, payload: ExceptionPayload::Text(s) }),
        VmErrorReason::NoSuchIdentifier(s) => Ok(RuntimeErrorValue { case: RUNTIME_ERR_CASE_NO_SUCH_IDENTIFIER_IDX, payload: ExceptionPayload::Text(s) }),
        VmErrorReason::NoSuchSymbol(n, kind) => {
            match globals.resolve(Symbol(n)) {
                Some(name_for_sym) => Ok(RuntimeErrorValue {
                    case: match kind {
                        SymbolKind::Identifier => RUNTIME_ERR_CASE_NO_SUCH_IDENTIFIER_IDX,
                        SymbolKind::Case => RUNTIME_ERR_CASE_NO_SUCH_CASE_IDX,
                    },
                    payload: ExceptionPayload::Text(name_for_sym.to_owned()),
                }),
                None => Err(VmErrorReason::NoSuchSymbol(n, kind)),
            }
        },
        VmErrorReason::OperationFailed(s) => Ok(RuntimeErrorValue { case: RUNTIME_ERR_CASE_OPERATION_FAILED_IDX, payload: ExceptionPayload::Text(s) }),
        VmErrorReason::UnexpectedType => Ok(RuntimeErrorValue { case: RUNTIME_ERR_CASE_UNEXPECTED_TYPE_IDX, payload: ExceptionPayload::Empty }),
        VmErrorReason::BytecodeDecodeError(e) => Err(VmErrorReason::BytecodeDecodeError(e)),
        VmErrorReason::EmptyStack => Err(VmErrorReason::EmptyStack),
        VmErrorReason::InvalidBinding => Err(VmErrorReason::InvalidBinding),
        VmErrorReason::UnexpectedVmState => Err(VmErrorReason::UnexpectedVmState),
    }
}

/// Every `RuntimeError` value that an error becomes names one of the enum's
/// cases and carries a payload exactly when that case has one.
pub proof fn lemma_exception_fits_case(err: VmErrorReason, names: Seq<Seq<char>>, r: Result<RuntimeErrorValue, VmErrorReason>)
    requires
        exception_outcome(err, names, r),
    ensures
        r matches Ok(v) ==> v.case < RUNTIME_ERR_CASE_COUNT && (runtime_error_case_has_payload(v.case) <==> !(v.payload is Empty)),
{
}

} // verus!
