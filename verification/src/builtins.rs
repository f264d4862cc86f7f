//! Decisions of builtin functions and types of the virtual machine that do not
//! depend on the running program: the native value kinds, what `alloc` gives
//! for each, and the checks of `sleep_ms` and `exit`.
use crate::errors::VmErrorReason;
use crate::opcodes::BuiltinTypeId;
use vstd::prelude::*;

verus! {

/// The kinds of values that the virtual machine implements natively.
#[derive(Clone, Copy, Debug, PartialEq, Eq, Structural)]
pub enum RustNativeValueKind {
    Boolean,
    Integer,
    Float,
    List,
    String,
    Type,
}

/// The name a native kind is shown by.
pub open spec fn native_kind_name(k: RustNativeValueKind) -> Seq<char> {
    match k {
        RustNativeValueKind::Boolean => "Bool"@,
        RustNativeValueKind::Integer => "Int"@,
        RustNativeValueKind::Float => "Float"@,
        RustNativeValueKind::List => "List"@,
        RustNativeValueKind::String => "String"@,
        RustNativeValueKind::Type => "Type"@,
    }
}

/// The builtin value type that values of a native kind carry: booleans,
/// integers, floats and strings do; lists and types do not.
pub open spec fn native_kind_type_id(k: RustNativeValueKind) -> Option<BuiltinTypeId> {
    match k {
        RustNativeValueKind::Boolean => Some(BuiltinTypeId::Bool),
        RustNativeValueKind::Integer => Some(BuiltinTypeId::Int),
        RustNativeValueKind::Float => Some(BuiltinTypeId::Float),
        RustNativeValueKind::String => Some(BuiltinTypeId::String),
        RustNativeValueKind::List => None,
        RustNativeValueKind::Type => None,
    }
}

impl RustNativeValueKind {
    /// The name the kind is shown by.
    pub fn kind_name(&self) -> (r: &'static str)
        ensures
            r@ == native_kind_name(*self),
    {
        match self {
            RustNativeValueKind::Boolean => "Bool",
            RustNativeValueKind::Integer => "Int",
            RustNativeValueKind::Float => "Float",
            RustNativeValueKind::List => "List",
            RustNativeValueKind::String => "String",
            RustNativeValueKind::Type => "Type",
        }
    }

    /// Whether values of this kind are of a builtin value type: a boolean,
    /// an integer, a float or a string.
    pub fn is_builtin_type(&self) -> (r: bool)
        ensures
            r == (native_kind_type_id(*self) is Some),
    {
        match self {
            RustNativeValueKind::Boolean | RustNativeValueKind::Integer | RustNativeValueKind::Float
            | RustNativeValueKind::String => true,
            RustNativeValueKind::List | RustNativeValueKind::Type => false,
        }
    }

    /// The builtin type that values of this kind belong to, for the kinds
    /// whose values carry one.
    pub fn get_builtin_type_id(&self) -> (r: Option<BuiltinTypeId>)
        ensures
            r == native_kind_type_id(*self),
    {
        match self {
            RustNativeValueKind::Boolean => Some(BuiltinTypeId::Bool),
            RustNativeValueKind::Integer => Some(BuiltinTypeId::Int),
            RustNativeValueKind::Float => Some(BuiltinTypeId::Float),
            RustNativeValueKind::String => Some(BuiltinTypeId::String),
            RustNativeValueKind::List | RustNativeValueKind::Type => None,
        }
    }
}

/// The value that `alloc` makes of a native kind: false, zero, an empty list
/// or an empty string.
#[derive(Debug, PartialEq, Eq)]
pub enum NativeDefault {
    Boolean(bool),
    Integer(i64),
    FloatZero,
    EmptyList,
    EmptyString,
}

/// The value that `alloc` makes of native kind `kind`; a type cannot be made
/// this way.
pub fn alloc_native(kind: RustNativeValueKind) -> (r: Result<NativeDefault, VmErrorReason>)
    ensures
        kind == RustNativeValueKind::Boolean ==> r == Ok::<NativeDefault, VmErrorReason>(NativeDefault::Boolean(false)),
        kind == RustNativeValueKind::Integer ==> r == Ok::<NativeDefault, VmErrorReason>(NativeDefault::Integer(0)),
        kind == RustNativeValueKind::Float ==> r == Ok::<NativeDefault, VmErrorReason>(NativeDefault::FloatZero),
        kind == RustNativeValueKind::List ==> r == Ok::<NativeDefault, VmErrorReason>(NativeDefault::EmptyList),
        kind == RustNativeValueKind::String ==> r == Ok::<NativeDefault, VmErrorReason>(NativeDefault::EmptyString),
        kind == RustNativeValueKind::Type ==> (r matches Err(e) && e is UnexpectedType),
{
    match kind {
        RustNativeValueKind::Boolean => Ok(NativeDefault::Boolean(false)),
        RustNativeValueKind::Integer => Ok(NativeDefault::Integer(0)),
        RustNativeValueKind::Float => Ok(NativeDefault::FloatZero),
        RustNativeValueKind::List => Ok(NativeDefault::EmptyList),
        RustNativeValueKind::String => Ok(NativeDefault::EmptyString),
        RustNativeValueKind::Type => Err(VmErrorReason::UnexpectedType),
    }
}

/// The number of milliseconds `sleep_ms` waits for the argument `ms`; a
/// negative argument is refused.
pub fn sleep_duration(ms: i64) -> (r: Result<u64, VmErrorReason>)
    ensures
        ms >= 0 ==> r == Ok::<u64, VmErrorReason>(ms as u64),
        ms < 0 ==> (r matches Err(VmErrorReason::OperationFailed(m)) && m@ == "cannot sleep < 0 milliseconds"@),
{
    if ms >= 0 {
        Ok(ms as u64)
    } else {
        Err(VmErrorReason::OperationFailed("cannot sleep < 0 milliseconds".to_owned()))
    }
}

/// The status that `exit` ends the process with for the argument `code`: its
/// low 32 bits, taken as a signed number.
pub fn exit_status(code: i64) -> (r: i32)
    ensures
        r == code as i32,
{
    code as i32
}


/// Takes the argument on top of `stack` and converts it with `f`: an empty
/// stack has no argument, and a value that `f` does not accept is of the wrong
/// type. The argument is taken off the stack either way.
pub fn extract_arg<V, U, F: FnOnce(V) -> Option<U>>(stack: &mut Vec<V>, f: F) -> (r: Result<U, VmErrorReason>)
    requires
        old(stack)@.len() > 0 ==> f.requires((old(stack)@.last(),)),
    ensures
        old(stack)@.len() == 0 ==> (r matches Err(e) && e is EmptyStack) && final(stack)@ == old(stack)@,
        old(stack)@.len() > 0 ==> final(stack)@ == old(stack)@.drop_last(),
        old(stack)@.len() > 0 ==> (r matches Ok(u) ==> f.ensures((old(stack)@.last(),), Some(u))),
        old(stack)@.len() > 0 ==> (r matches Err(e) ==> e is UnexpectedType && f.ensures((old(stack)@.last(),), None)),
{
    let val = match stack.pop() {
        Some(v) => v,
        None => {
            return Err(VmErrorReason::EmptyStack);
        },
    };
    match f(val) {
        Some(v) => Ok(v),
        None => Err(VmErrorReason::UnexpectedType),
    }
}

} // verus!
