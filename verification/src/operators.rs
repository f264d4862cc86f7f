//! How the virtual machine dispatches an operator between two values: it
//! tries the left operand's method, then, for operands of different types, the
//! right operand's reversed method. The machine runs the methods; these
//! functions decide, from what each attempt gave, what to do next.
use vstd::prelude::*;

verus! {

/// What came of calling an operator method.
pub enum OperatorAttempt<R> {
    /// The method returned a result.
    Returned(R),
    /// The method raised an exception.
    Exception,
    /// The machine failed while running the method.
    Error,
    /// The method declined: it is not implemented for these operands.
    NeedTryReverse,
}

/// The outcome of an operator.
pub enum OperatorOutcome<R> {
    Returned(R),
    Exception,
    Error,
    /// Neither operand implements the operator for the other: an error of
    /// unexpected type.
    UnexpectedType,
}

/// What to do after the left operand's method was tried (`None` where the
/// left operand has no such method).
pub enum AfterForward<R> {
    Finish(OperatorOutcome<R>),
    TryReverse,
}

/// What to do after trying the left operand's method: a result, an exception
/// or an error ends the dispatch; otherwise operands of the same type fail,
/// and operands of different types try the right operand's reversed method.
pub fn after_forward<R>(forward: Option<OperatorAttempt<R>>, same_type: bool) -> (r: AfterForward<R>)
    ensures
        forward matches Some(OperatorAttempt::Returned(x)) ==> (r matches AfterForward::Finish(OperatorOutcome::Returned(y)) && x == y),
        forward matches Some(OperatorAttempt::Exception) ==> (r matches AfterForward::Finish(OperatorOutcome::Exception)),
        forward matches Some(OperatorAttempt::Error) ==> (r matches AfterForward::Finish(OperatorOutcome::Error)),
        (forward is None || forward matches Some(OperatorAttempt::NeedTryReverse)) ==> (same_type ==> (r matches AfterForward::Finish(
            OperatorOutcome::UnexpectedType,
        ))),
        (forward is None || forward matches Some(OperatorAttempt::NeedTryReverse)) ==> (!same_type ==> r is TryReverse),
{
    match forward {
        Some(OperatorAttempt::Returned(x)) => AfterForward::Finish(OperatorOutcome::Returned(x)),
        Some(OperatorAttempt::Exception) => AfterForward::Finish(OperatorOutcome::Exception),
        Some(OperatorAttempt::Error) => AfterForward::Finish(OperatorOutcome::Error),
        _ => if same_type {
            AfterForward::Finish(OperatorOutcome::UnexpectedType)
        } else {
            AfterForward::TryReverse
        },
    }
}

/// The outcome after trying the right operand's reversed method (`None` where
/// it has none): its result, exception or error; a method that declines, or
/// none at all, is an error of unexpected type.
pub fn after_reverse<R>(reverse: Option<OperatorAttempt<R>>) -> (r: OperatorOutcome<R>)
    ensures
        reverse matches Some(OperatorAttempt::Returned(x)) ==> (r matches OperatorOutcome::Returned(y) && x == y),
        reverse matches Some(OperatorAttempt::Exception) ==> r is Exception,
        reverse matches Some(OperatorAttempt::Error) ==> r is Error,
        (reverse is None || reverse matches Some(OperatorAttempt::NeedTryReverse)) ==> r is UnexpectedType,
{
    match reverse {
        Some(OperatorAttempt::Returned(x)) => OperatorOutcome::Returned(x),
        Some(OperatorAttempt::Exception) => OperatorOutcome::Exception,
        Some(OperatorAttempt::Error) => OperatorOutcome::Error,
        _ => OperatorOutcome::UnexpectedType,
    }
}

/// What to do next while comparing two values for equality.
#[derive(Clone, Copy, Debug, PartialEq, Eq, Structural)]
pub enum EqualsStep {
    /// The values are equal or not, as given.
    Answer(bool),
    /// Compare them with the machine's own equality.
    UseBuiltin,
    /// Try the right operand's equality method.
    TryReverse,
}

/// What to do after trying the left operand's equality method (`None` where
/// it has none): its answer stands; an exception or error falls back on the
/// machine's own equality; a method that declines, or none at all, leads to
/// the machine's own equality for operands of the same type and to the right
/// operand's method otherwise.
pub fn equals_after_forward(forward: Option<OperatorAttempt<bool>>, same_type: bool) -> (r: EqualsStep)
    ensures
        forward matches Some(OperatorAttempt::Returned(b)) ==> r == EqualsStep::Answer(b),
        (forward matches Some(OperatorAttempt::Exception) || forward matches Some(OperatorAttempt::Error)) ==> r
            == EqualsStep::UseBuiltin,
        (forward is None || forward matches Some(OperatorAttempt::NeedTryReverse)) ==> r == (if same_type {
            EqualsStep::UseBuiltin
        } else {
            EqualsStep::TryReverse
        }),
{
    match forward {
        Some(OperatorAttempt::Returned(b)) => EqualsStep::Answer(b),
        Some(OperatorAttempt::Exception) => EqualsStep::UseBuiltin,
        Some(OperatorAttempt::Error) => EqualsStep::UseBuiltin,
        _ => if same_type {
            EqualsStep::UseBuiltin
        } else {
            EqualsStep::TryReverse
        },
    }
}

/// What to do after trying the right operand's equality method (`None` where
/// it has none): its answer stands; anything else falls back on the machine's
/// own equality.
pub fn equals_after_reverse(reverse: Option<OperatorAttempt<bool>>) -> (r: EqualsStep)
    ensures
        reverse matches Some(OperatorAttempt::Returned(b)) ==> r == EqualsStep::Answer(b),
        !(reverse matches Some(OperatorAttempt::Returned(_))) ==> r == EqualsStep::UseBuiltin,
{
    match reverse {
        Some(OperatorAttempt::Returned(b)) => EqualsStep::Answer(b),
        _ => EqualsStep::UseBuiltin,
    }
}


/// What running an operator method gave the machine.
pub enum MethodCall<R> {
    /// The method returned a value.
    Returned(R),
    /// The method raised an exception; `unimplemented` tells whether it is
    /// the builtin `Unimplemented` object, by which a method declines.
    Raised { unimplemented: bool },
    /// The machine failed while running the method.
    Failed,
}

/// The attempt that a call of an arithmetic or unary operator method makes: a
/// raised `Unimplemented` declines, any other exception stands.
pub fn attempt_of_call<R>(call: MethodCall<R>) -> (r: OperatorAttempt<R>)
    ensures
        call matches MethodCall::Returned(x) ==> (r matches OperatorAttempt::Returned(y) && x == y),
        call matches MethodCall::Raised { unimplemented } ==> (if unimplemented {
            r is NeedTryReverse
        } else {
            r is Exception
        }),
        call is Failed ==> r is Error,
{
    match call {
        MethodCall::Returned(x) => OperatorAttempt::Returned(x),
        MethodCall::Raised { unimplemented } => if unimplemented {
            OperatorAttempt::NeedTryReverse
        } else {
            OperatorAttempt::Exception
        },
        MethodCall::Failed => OperatorAttempt::Error,
    }
}

/// The attempt that a call of a comparison method makes: a returned boolean
/// (`Some`) is the answer, a returned value that is not a boolean (`None`)
/// declines, as does a raised `Unimplemented`.
pub fn attempt_of_comparison(call: MethodCall<Option<bool>>) -> (r: OperatorAttempt<bool>)
    ensures
        call matches MethodCall::Returned(Some(b)) ==> (r matches OperatorAttempt::Returned(c) && b == c),
        call matches MethodCall::Returned(None) ==> r is NeedTryReverse,
        call matches MethodCall::Raised { unimplemented } ==> (if unimplemented {
            r is NeedTryReverse
        } else {
            r is Exception
        }),
        call is Failed ==> r is Error,
{
    match call {
        MethodCall::Returned(Some(b)) => OperatorAttempt::Returned(b),
        MethodCall::Returned(None) => OperatorAttempt::NeedTryReverse,
        MethodCall::Raised { unimplemented } => if unimplemented {
            OperatorAttempt::NeedTryReverse
        } else {
            OperatorAttempt::Exception
        },
        MethodCall::Failed => OperatorAttempt::Error,
    }
}

} // verus!
