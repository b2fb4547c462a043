use dentaku::model::InputtableNumber;
use dentaku::number::Number;
use dentaku::rpn::{FormulaElement, Operator};
use dentaku::state::{DentakuState, DentakuStateAction};

fn press_digit(s: &DentakuState, d: i32) -> DentakuState {
    s.reduce(DentakuStateAction::UpdateDentakuInput(InputtableNumber {
        value: d,
    }))
}

fn commit_operator(s: &DentakuState, op: Operator) -> DentakuState {
    let operand = s.dentaku_input.to_number().expect("operand fits");
    s.reduce(DentakuStateAction::PushFormulaElementPair(
        FormulaElement::Operand(operand),
        FormulaElement::Operator(op),
    ))
}

fn press_equals(s: &DentakuState) -> DentakuState {
    let operand = s.dentaku_input.to_number().expect("operand fits");
    s.reduce(DentakuStateAction::PushRightAndCalculate(
        FormulaElement::Operand(operand),
    ))
}

#[test]
fn digits_accumulate_in_the_buffer() {
    let s = DentakuState::default();
    let s = press_digit(&press_digit(&s, 4), 2);
    assert_eq!(s.dentaku_input.value, "42");
    assert!(s.formula.is_empty());
}

#[test]
fn operator_press_commits_operand_and_empties_buffer() {
    let s = press_digit(&DentakuState::default(), 4);
    let s = commit_operator(&s, Operator::Add);
    assert_eq!(s.formula.len(), 2);
    assert_eq!(
        s.formula[0],
        FormulaElement::Operand(Number::from_integer(4))
    );
    assert_eq!(s.formula[1], FormulaElement::Operator(Operator::Add));
    assert!(s.dentaku_input.is_empty());
}

#[test]
fn equals_evaluates_with_precedence() {
    // 4 + 2 * 3 = 10
    let s = press_digit(&DentakuState::default(), 4);
    let s = commit_operator(&s, Operator::Add);
    let s = press_digit(&s, 2);
    let s = commit_operator(&s, Operator::Mul);
    let s = press_digit(&s, 3);
    let s = press_equals(&s);
    assert_eq!(s.result, Some(Number::from_integer(10)));
    assert!(s.formula.is_empty());
    assert!(s.dentaku_input.is_empty());
}

#[test]
fn equals_on_malformed_formula_is_ignored() {
    // Two operands pushed with no operator between them leave extra
    // values on the evaluation stack: the equals press is ignored.
    let s = DentakuState::default().reduce(DentakuStateAction::PushFormulaElementPair(
        FormulaElement::Operand(Number::from_integer(1)),
        FormulaElement::Operand(Number::from_integer(2)),
    ));
    let before = s.clone();
    let s = press_equals(&s);
    assert_eq!(s, before);
}

#[test]
fn equals_with_missing_operands_is_ignored() {
    // A leading operator finds no operands on the stack.
    let s = DentakuState::default().reduce(DentakuStateAction::PushFormulaElementPair(
        FormulaElement::Operator(Operator::Add),
        FormulaElement::Operator(Operator::Add),
    ));
    let before = s.clone();
    let s = press_equals(&s);
    assert_eq!(s, before);
}

#[test]
fn rejected_decimal_point_is_ignored() {
    let s = press_digit(&DentakuState::default(), 1);
    let s = s.reduce(DentakuStateAction::InputDecimalPoint);
    assert_eq!(s.dentaku_input.value, "1.");
    let again = s.reduce(DentakuStateAction::InputDecimalPoint);
    assert_eq!(again, s);
}

#[test]
fn clear_keeps_the_pending_formula() {
    let s = press_digit(&DentakuState::default(), 4);
    let s = commit_operator(&s, Operator::Add);
    let s = press_digit(&s, 9);
    let s = s.reduce(DentakuStateAction::Clear);
    assert!(s.dentaku_input.is_empty());
    assert_eq!(s.formula.len(), 2);
}

#[test]
fn all_clear_resets_everything() {
    let s = press_digit(&DentakuState::default(), 4);
    let s = commit_operator(&s, Operator::Add);
    let s = press_digit(&s, 9);
    let s = press_equals(&s);
    let s = s.reduce(DentakuStateAction::AllClear);
    assert_eq!(s, DentakuState::default());
    assert_eq!(s.result, None);
}

#[test]
fn fractional_operands_evaluate_exactly() {
    // 1.5 * 2 = 3
    let s = press_digit(&DentakuState::default(), 1);
    let s = s.reduce(DentakuStateAction::InputDecimalPoint);
    let s = press_digit(&s, 5);
    let s = commit_operator(&s, Operator::Mul);
    let s = press_digit(&s, 2);
    let s = press_equals(&s);
    let r = s.result.expect("a result");
    // 15/10 * 2/1 = 30/10
    assert_eq!(r, Number { num: 30, den: 10 });
}
