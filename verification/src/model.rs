use vstd::prelude::*;

verus! {

/// The sign of the operand being typed.
#[derive(Clone, Copy, Debug, PartialEq, Eq, Structural)]
pub enum Sign {
    Positive,
    Negative,
}

/// A single keypad digit, `0` through `9`.
#[derive(Clone, Copy, Debug, PartialEq, Eq, Structural)]
pub struct InputtableNumber {
    pub value: i32,
}

impl InputtableNumber {
    /// A keypad digit is a single base-10 digit.
    pub open spec fn wf(self) -> bool {
        0 <= self.value <= 9
    }
}

} // verus!
