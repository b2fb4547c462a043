use dentaku::dentaku_input::DentakuInputState;
use dentaku::error::DentakuError;
use dentaku::model::{InputtableNumber, Sign};
use dentaku::number::Number;

fn digit(d: i32) -> InputtableNumber {
    InputtableNumber { value: d }
}

#[test]
fn typed_digits_concatenate() {
    let s = DentakuInputState::default()
        .try_add_digit(digit(1))
        .unwrap()
        .try_add_digit(digit(2))
        .unwrap()
        .try_add_digit(digit(3))
        .unwrap();
    assert_eq!(s.value, "123");
    assert_eq!(s.to_number(), Some(Number { num: 123, den: 1 }));
}

#[test]
fn lone_leading_zero_is_suppressed() {
    let s = DentakuInputState::default().try_add_digit(digit(0)).unwrap();
    assert!(s.is_empty());
    assert_eq!(s.to_number(), Some(Number { num: 0, den: 1 }));
    let s = s.try_add_digit(digit(7)).unwrap();
    assert_eq!(s.value, "7");
}

#[test]
fn zero_after_digits_is_kept() {
    let s = DentakuInputState::default()
        .try_add_digit(digit(5))
        .unwrap()
        .try_add_digit(digit(0))
        .unwrap();
    assert_eq!(s.value, "50");
}

#[test]
fn empty_buffer_reads_zero() {
    let s = DentakuInputState::default();
    assert_eq!(s.to_number(), Some(Number { num: 0, den: 1 }));
    assert_eq!(s.to_display_string(), "0");
}

#[test]
fn bare_decimal_point_seeds_zero() {
    let s = DentakuInputState::default().try_add_decimal_point().unwrap();
    assert_eq!(s.value, "0.");
    assert_eq!(s.decimal_point_index, 1);
    let s = s.try_add_digit(digit(5)).unwrap();
    assert_eq!(s.value, "0.5");
    assert_eq!(s.to_number(), Some(Number { num: 5, den: 10 }));
}

#[test]
fn decimal_point_twice_fails() {
    let s = DentakuInputState::default()
        .try_add_digit(digit(3))
        .unwrap()
        .try_add_decimal_point()
        .unwrap();
    assert_eq!(
        s.try_add_decimal_point(),
        Err(DentakuError::DuplicateDecimalPoint)
    );
    // Still failing after more digits, until a clear intervenes.
    let s = s.try_add_digit(digit(1)).unwrap();
    assert_eq!(
        s.try_add_decimal_point(),
        Err(DentakuError::DuplicateDecimalPoint)
    );
    assert!(s.clear().try_add_decimal_point().is_ok());
}

#[test]
fn fractional_value_is_exact() {
    let s = DentakuInputState::default()
        .try_add_digit(digit(1))
        .unwrap()
        .try_add_decimal_point()
        .unwrap()
        .try_add_digit(digit(2))
        .unwrap()
        .try_add_digit(digit(5))
        .unwrap();
    assert_eq!(s.value, "1.25");
    assert_eq!(s.to_number(), Some(Number { num: 125, den: 100 }));
}

#[test]
fn toggle_sign_fails_only_when_unchanged() {
    let s = DentakuInputState::default().try_add_digit(digit(5)).unwrap();
    assert_eq!(
        s.try_toggle_sign(Sign::Positive),
        Err(DentakuError::SignUnchanged)
    );
    let neg = s.try_toggle_sign(Sign::Negative).unwrap();
    assert_eq!(neg.to_display_string(), "-5");
    assert_eq!(
        neg.try_toggle_sign(Sign::Negative),
        Err(DentakuError::SignUnchanged)
    );
    let pos = neg.try_toggle_sign(Sign::Positive).unwrap();
    assert_eq!(pos.to_display_string(), "5");
}

#[test]
fn sign_is_not_folded_into_the_number() {
    let s = DentakuInputState::default()
        .try_add_digit(digit(5))
        .unwrap()
        .try_toggle_sign(Sign::Negative)
        .unwrap();
    // Sign application belongs to the display path.
    assert_eq!(s.to_number(), Some(Number { num: 5, den: 1 }));
    assert_eq!(s.to_display_string(), "-5");
}

#[test]
fn clear_resets_fully() {
    let s = DentakuInputState::default()
        .try_add_digit(digit(9))
        .unwrap()
        .try_add_decimal_point()
        .unwrap()
        .try_add_digit(digit(1))
        .unwrap()
        .try_toggle_sign(Sign::Negative)
        .unwrap();
    let cleared_then_five = s.clear().try_add_digit(digit(5)).unwrap();
    let fresh_five = DentakuInputState::default().try_add_digit(digit(5)).unwrap();
    assert_eq!(cleared_then_five, fresh_five);
}

#[test]
fn too_many_digits_overflow_to_none() {
    let mut s = DentakuInputState::default();
    for _ in 0..19 {
        s = s.try_add_digit(digit(9)).unwrap();
    }
    // Nineteen nines exceed what an i64 mantissa can hold.
    assert_eq!(s.to_number(), None);
}

#[test]
fn too_many_decimal_places_overflow_to_none() {
    let mut s = DentakuInputState::default().try_add_decimal_point().unwrap();
    for _ in 0..19 {
        s = s.try_add_digit(digit(1)).unwrap();
    }
    // The denominator would be ten to the nineteenth power.
    assert_eq!(s.to_number(), None);
}

#[test]
fn eighteen_decimal_places_still_fit() {
    let mut s = DentakuInputState::default().try_add_decimal_point().unwrap();
    for _ in 0..18 {
        s = s.try_add_digit(digit(1)).unwrap();
    }
    let n = s.to_number().expect("should fit");
    assert_eq!(n.num, 111_111_111_111_111_111);
    assert_eq!(n.den, 1_000_000_000_000_000_000);
}

#[test]
fn update_helpers_replace_single_fields() {
    let s = DentakuInputState::default();
    assert_eq!(s.update_value("42".to_string()).value, "42");
    assert_eq!(s.update_sign(Sign::Negative).sign, Sign::Negative);
    assert!(s.update_has_decimal(true).has_decimal);
    assert_eq!(s.update_decimal_point_index(3).decimal_point_index, 3);
}

#[test]
fn negative_empty_buffer_displays_minus_zero() {
    let s = DentakuInputState::default()
        .try_toggle_sign(Sign::Negative)
        .unwrap();
    assert_eq!(s.to_display_string(), "-0");
}
