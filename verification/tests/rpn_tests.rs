use dentaku::error::DentakuError;
use dentaku::number::Number;
use dentaku::rpn::{
    calculate_rpn, convert_and_evaluate, convert_infix_to_rpn, FormulaElement, Operator,
};

fn operand(n: i64) -> FormulaElement {
    FormulaElement::Operand(Number::from_integer(n))
}

#[test]
fn test1() {
    // 4 + 2 * 3 -> 4 2 3 * + -> 10
    let s = convert_infix_to_rpn(vec![
        operand(4),
        FormulaElement::Operator(Operator::Add),
        operand(2),
        FormulaElement::Operator(Operator::Mul),
        operand(3),
    ]);
    println!("{:?}", s);
    let result = calculate_rpn(s).expect("error");

    assert_eq!(result, Number::from_integer(10));
}

#[test]
fn precedence_mul_binds_before_add() {
    let rpn = convert_infix_to_rpn(vec![
        operand(4),
        FormulaElement::Operator(Operator::Add),
        operand(2),
        FormulaElement::Operator(Operator::Mul),
        operand(3),
    ]);
    assert_eq!(
        rpn,
        vec![
            operand(4),
            operand(2),
            operand(3),
            FormulaElement::Operator(Operator::Mul),
            FormulaElement::Operator(Operator::Add),
        ]
    );
    assert_eq!(calculate_rpn(rpn), Ok(Number::from_integer(10)));
    assert_eq!(
        convert_and_evaluate(vec![
            operand(4),
            FormulaElement::Operator(Operator::Add),
            operand(2),
            FormulaElement::Operator(Operator::Mul),
            operand(3),
        ]),
        Ok(Number::from_integer(10))
    );
}

#[test]
fn equal_precedence_is_left_associative() {
    // 8 - 3 - 2 is (8 - 3) - 2 = 3, not 8 - (3 - 2).
    let rpn = convert_infix_to_rpn(vec![
        operand(8),
        FormulaElement::Operator(Operator::Sub),
        operand(3),
        FormulaElement::Operator(Operator::Sub),
        operand(2),
    ]);
    assert_eq!(
        rpn,
        vec![
            operand(8),
            operand(3),
            FormulaElement::Operator(Operator::Sub),
            operand(2),
            FormulaElement::Operator(Operator::Sub),
        ]
    );
    assert_eq!(calculate_rpn(rpn), Ok(Number::from_integer(3)));
    assert_eq!(
        convert_and_evaluate(vec![
            operand(8),
            FormulaElement::Operator(Operator::Sub),
            operand(3),
            FormulaElement::Operator(Operator::Sub),
            operand(2),
        ]),
        Ok(Number::from_integer(3))
    );
}

#[test]
fn mixed_equal_precedence_chain() {
    // 1 - 2 + 3 is (1 - 2) + 3 = 2.
    let rpn = convert_infix_to_rpn(vec![
        operand(1),
        FormulaElement::Operator(Operator::Sub),
        operand(2),
        FormulaElement::Operator(Operator::Add),
        operand(3),
    ]);
    assert_eq!(calculate_rpn(rpn), Ok(Number::from_integer(2)));
}

#[test]
fn insufficient_operands_is_reported() {
    let r = calculate_rpn(vec![operand(1), FormulaElement::Operator(Operator::Add)]);
    assert_eq!(r, Err(DentakuError::InsufficientOperands));
}

#[test]
fn leftover_operands_are_malformed() {
    let r = calculate_rpn(vec![operand(1), operand(2)]);
    assert_eq!(r, Err(DentakuError::MalformedExpression));
}

#[test]
fn empty_sequence_is_malformed() {
    let r = calculate_rpn(Vec::new());
    assert_eq!(r, Err(DentakuError::MalformedExpression));
}

#[test]
fn round_trip_each_operator() {
    let cases = [
        (Operator::Add, 7, 2, Number { num: 9, den: 1 }),
        (Operator::Sub, 7, 2, Number { num: 5, den: 1 }),
        (Operator::Mul, 7, 2, Number { num: 14, den: 1 }),
        (Operator::Div, 7, 2, Number { num: 7, den: 2 }),
    ];
    for (op, a, b, expected) in cases {
        let rpn = convert_infix_to_rpn(vec![
            operand(a),
            FormulaElement::Operator(op),
            operand(b),
        ]);
        assert_eq!(calculate_rpn(rpn), Ok(expected));
    }
}

#[test]
fn division_by_zero_yields_non_finite() {
    let rpn = convert_infix_to_rpn(vec![
        operand(1),
        FormulaElement::Operator(Operator::Div),
        operand(0),
    ]);
    let r = calculate_rpn(rpn).expect("error");
    assert!(!r.is_finite());
    assert_eq!(r, Number { num: 0, den: 0 });
}

#[test]
fn division_keeps_denominator_positive() {
    let rpn = convert_infix_to_rpn(vec![
        operand(3),
        FormulaElement::Operator(Operator::Div),
        operand(-2),
    ]);
    assert_eq!(calculate_rpn(rpn), Ok(Number { num: -3, den: 2 }));
}

#[test]
fn overflow_yields_non_finite() {
    let rpn = convert_infix_to_rpn(vec![
        operand(i64::MAX),
        FormulaElement::Operator(Operator::Mul),
        operand(i64::MAX),
    ]);
    let r = calculate_rpn(rpn).expect("error");
    assert!(!r.is_finite());
}

#[test]
fn exact_fraction_arithmetic() {
    // 1/2 + 1/4 = 3/4, written with operand values of halves and quarters.
    let rpn = convert_infix_to_rpn(vec![
        FormulaElement::Operand(Number { num: 1, den: 2 }),
        FormulaElement::Operator(Operator::Add),
        FormulaElement::Operand(Number { num: 1, den: 4 }),
    ]);
    assert_eq!(calculate_rpn(rpn), Ok(Number { num: 6, den: 8 }));
}

#[test]
fn operator_precedence_values() {
    assert_eq!(Operator::Add.precedence(), 1);
    assert_eq!(Operator::Sub.precedence(), 1);
    assert_eq!(Operator::Mul.precedence(), 2);
    assert_eq!(Operator::Div.precedence(), 2);
}
