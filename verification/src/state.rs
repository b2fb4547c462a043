use vstd::prelude::*;

use crate::dentaku_input::{BufferView, DentakuInputState};
use crate::model::InputtableNumber;
use crate::number::Number;
use crate::rpn::{
    calculate_rpn, convert_infix_to_rpn, element_wf, lemma_wf_infix_evaluates, spec_calculate_rpn,
    spec_rpn_of, tokens_wf, wf_infix, FormulaElement,
};

verus! {

/// One calculator event, as the keypad emits them.
#[derive(Clone, Copy, Debug)]
pub enum DentakuStateAction {
    /// A digit keypress for the operand being typed.
    UpdateDentakuInput(InputtableNumber),
    /// An operator keypress: commits the typed operand and the operator
    /// to the pending formula, then empties the buffer.
    PushFormulaElementPair(FormulaElement, FormulaElement),
    /// The equals keypress: commits the final operand, evaluates the
    /// formula, and keeps the value as the last result.
    PushRightAndCalculate(FormulaElement),
    /// The decimal point keypress.
    InputDecimalPoint,
    /// Clears the operand being typed, keeping the pending formula.
    Clear,
    /// Clears everything.
    AllClear,
}

/// An action is well formed when the values it carries are.
pub open spec fn action_wf(action: DentakuStateAction) -> bool {
    match action {
        DentakuStateAction::UpdateDentakuInput(n) => n.wf(),
        DentakuStateAction::PushFormulaElementPair(operand, operator) => element_wf(operand)
            && element_wf(operator),
        DentakuStateAction::PushRightAndCalculate(operand) => element_wf(operand),
        DentakuStateAction::InputDecimalPoint => true,
        DentakuStateAction::Clear => true,
        DentakuStateAction::AllClear => true,
    }
}

/// The mathematical content of the calculator: the pending formula, the
/// operand being typed, and the last evaluated value.
#[verifier::ext_equal]
pub struct StateView {
    pub formula: Seq<FormulaElement>,
    pub dentaku_input: BufferView,
    pub result: Option<Number>,
}

impl StateView {
    /// The state at program start.
    pub open spec fn empty() -> StateView {
        StateView { formula: Seq::empty(), dentaku_input: BufferView::empty(), result: None }
    }

    /// Well-formedness: the buffer and every committed value are well
    /// formed.
    pub open spec fn inv(self) -> bool {
        &&& self.dentaku_input.inv()
        &&& tokens_wf(self.formula)
        &&& self.result matches Some(v) ==> v.wf()
    }
}

/// What one event does to the calculator. Every event yields a new
/// state; a failed decimal-point request leaves the state unchanged, and
/// so does an evaluation whose formula is malformed.
pub open spec fn spec_reduce(sv: StateView, action: DentakuStateAction) -> StateView {
    match action {
        DentakuStateAction::UpdateDentakuInput(n) => StateView {
            dentaku_input: sv.dentaku_input.spec_add_digit(n.value as int),
            ..sv
        },
        DentakuStateAction::PushFormulaElementPair(operand, operator) => StateView {
            formula: sv.formula.push(operand).push(operator),
            dentaku_input: BufferView::empty(),
            ..sv
        },
        DentakuStateAction::PushRightAndCalculate(operand) => {
            match spec_calculate_rpn(spec_rpn_of(sv.formula.push(operand))) {
                Ok(v) => StateView {
                    formula: Seq::empty(),
                    dentaku_input: BufferView::empty(),
                    result: Some(v),
                },
                Err(_) => sv,
            }
        },
        DentakuStateAction::InputDecimalPoint => {
            match sv.dentaku_input.spec_try_add_decimal_point() {
                Ok(b) => StateView { dentaku_input: b, ..sv },
                Err(_) => sv,
            }
        },
        DentakuStateAction::Clear => StateView { dentaku_input: BufferView::empty(), ..sv },
        DentakuStateAction::AllClear => StateView::empty(),
    }
}

/// The calculator: the committed token sequence in infix order, the
/// operand being typed, and the last evaluated value (rendered while
/// the buffer is empty).
#[derive(Debug, Clone, PartialEq)]
pub struct DentakuState {
    pub formula: Vec<FormulaElement>,
    pub dentaku_input: DentakuInputState,
    pub result: Option<Number>,
}

impl View for DentakuState {
    type V = StateView;

    open spec fn view(&self) -> StateView {
        StateView {
            formula: self.formula@,
            dentaku_input: self.dentaku_input@,
            result: self.result,
        }
    }
}

impl Default for DentakuState {
    /// The state at program start.
    fn default() -> (r: Self)
        ensures
            r@ == StateView::empty(),
            r@.inv(),
    {
        let r = DentakuState {
            formula: Vec::new(),
            dentaku_input: DentakuInputState::default(),
            result: None,
        };
        proof {
            assert(r@ =~= StateView::empty());
        }
        r
    }
}

/// A copy of a token sequence.
fn copy_tokens(tokens: &Vec<FormulaElement>) -> (r: Vec<FormulaElement>)
    ensures
        r@ == tokens@,
{
    let mut r: Vec<FormulaElement> = Vec::new();
    let n = tokens.len();
    let mut i: usize = 0;
    while i < n
        invariant
            i <= n,
            n == tokens@.len(),
            r@ == tokens@.take(i as int),
        decreases n - i,
    {
        r.push(tokens[i]);
        proof {
            assert(tokens@.take(i as int).push(tokens@[i as int]) =~= tokens@.take(i as int + 1));
        }
        i = i + 1;
    }
    proof {
        assert(tokens@.take(n as int) =~= tokens@);
    }
    r
}

impl DentakuState {
    /// One step of the calculator: the state after an event. A digit or
    /// decimal-point event edits the buffer (a rejected decimal point is
    /// ignored); an operator event commits the typed operand and the
    /// operator to the formula and empties the buffer; the equals event
    /// commits the final operand, converts the formula to postfix,
    /// evaluates it, and keeps the value as the last result (a
    /// malformed formula is ignored); the clear events reset the buffer
    /// or everything.
    pub fn reduce(&self, action: DentakuStateAction) -> (s: Self)
        requires
            self@.inv(),
            action_wf(action),
        ensures
            s@ == spec_reduce(self@, action),
            s@.inv(),
            action matches DentakuStateAction::PushRightAndCalculate(operand) && wf_infix(
                self@.formula.push(operand),
            ) ==> s@.result is Some,
    {
        proof {
            if let DentakuStateAction::PushRightAndCalculate(operand) = action {
                if wf_infix(self@.formula.push(operand)) {
                    lemma_wf_infix_evaluates(self@.formula.push(operand));
                }
            }
        }
        match action {
            DentakuStateAction::UpdateDentakuInput(value) => {
                let input = match self.dentaku_input.try_add_digit(value) {
                    Ok(st) => st,
                    Err(_) => self.dentaku_input.clone_state(),
                };
                let s = Self {
                    formula: copy_tokens(&self.formula),
                    dentaku_input: input,
                    result: self.result,
                };
                proof {
                    assert(s@ =~= spec_reduce(self@, action));
                }
                s
            },
            DentakuStateAction::PushFormulaElementPair(operand, operator) => {
                let mut current_formula = copy_tokens(&self.formula);
                current_formula.push(operand);
                current_formula.push(operator);
                let s = Self {
                    formula: current_formula,
                    dentaku_input: DentakuInputState::default(),
                    result: self.result,
                };
                proof {
                    assert(s@ =~= spec_reduce(self@, action));
                    assert forall|i: int| 0 <= i < s@.formula.len() implies element_wf(
                        #[trigger] s@.formula[i],
                    ) by {
                        if i < self@.formula.len() {
                            assert(s@.formula[i] == self@.formula[i]);
                        }
                    }
                }
                s
            },
            DentakuStateAction::PushRightAndCalculate(operand) => {
                let mut current_formula = copy_tokens(&self.formula);
                current_formula.push(operand);
                proof {
                    assert forall|i: int| 0 <= i < current_formula@.len() implies element_wf(
                        #[trigger] current_formula@[i],
                    ) by {
                        if i < self@.formula.len() {
                            assert(current_formula@[i] == self@.formula[i]);
                        }
                    }
                }
                let rpn = convert_infix_to_rpn(current_formula);
                match calculate_rpn(rpn) {
                    Ok(v) => {
                        let s = Self {
                            formula: Vec::new(),
                            dentaku_input: DentakuInputState::default(),
                            result: Some(v),
                        };
                        proof {
                            assert(s@ =~= spec_reduce(self@, action));
                        }
                        s
                    },
                    Err(_) => {
                        let s = self.clone_state();
                        proof {
                            assert(s@ =~= spec_reduce(self@, action));
                        }
                        s
                    },
                }
            },
            DentakuStateAction::InputDecimalPoint => {
                let input = match self.dentaku_input.try_add_decimal_point() {
                    Ok(st) => st,
                    Err(_) => self.dentaku_input.clone_state(),
                };
                let s = Self {
                    formula: copy_tokens(&self.formula),
                    dentaku_input: input,
                    result: self.result,
                };
                proof {
                    assert(s@ =~= spec_reduce(self@, action));
                }
                s
            },
            DentakuStateAction::Clear => {
                let s = Self {
                    formula: copy_tokens(&self.formula),
                    dentaku_input: DentakuInputState::default(),
                    result: self.result,
                };
                proof {
                    assert(s@ =~= spec_reduce(self@, action));
                }
                s
            },
            DentakuStateAction::AllClear => Self::default(),
        }
    }

    /// A copy of the state.
    pub fn clone_state(&self) -> (r: Self)
        ensures
            r@ == self@,
    {
        let r = Self {
            formula: copy_tokens(&self.formula),
            dentaku_input: self.dentaku_input.clone_state(),
            result: self.result,
        };
        proof {
            assert(r@ =~= self@);
        }
        r
    }
}

} // verus!
