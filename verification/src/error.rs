use vstd::prelude::*;

verus! {

/// The failures a calculator operation can report. Every operation is
/// recoverable: it returns either a new state or one of these kinds.
#[derive(Clone, Copy, Debug, PartialEq, Eq, Structural)]
pub enum DentakuError {
    /// The input buffer already holds a decimal point.
    DuplicateDecimalPoint,
    /// The requested sign equals the buffer's current sign.
    SignUnchanged,
    /// A postfix operator arrived with fewer than two values on the stack.
    InsufficientOperands,
    /// After evaluation, the value stack did not hold exactly one value.
    MalformedExpression,
}

} // verus!
