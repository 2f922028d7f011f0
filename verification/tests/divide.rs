use divider::divide;

#[test]
fn ten_by_two_gives_five() {
    assert_eq!(divide(10, 2), Ok(5));
}

#[test]
fn ten_by_zero_fails_with_message() {
    let r = divide(10, 0);
    assert_eq!(r, Err(String::from("Division by zero")));
}

#[test]
fn negative_dividend_truncates_toward_zero() {
    assert_eq!(divide(-7, 2), Ok(-3));
}

#[test]
fn negative_divisor_truncates_toward_zero() {
    assert_eq!(divide(7, -2), Ok(-3));
}

#[test]
fn two_negatives_give_a_positive_quotient() {
    assert_eq!(divide(-7, -2), Ok(3));
}

#[test]
fn zero_dividend_gives_zero_quotient() {
    assert_eq!(divide(0, 5), Ok(0));
    assert_eq!(divide(0, -5), Ok(0));
    assert_eq!(divide(0, i32::MAX), Ok(0));
}

#[test]
fn zero_divisor_fails_for_any_dividend() {
    assert_eq!(divide(0, 0), Err(String::from("Division by zero")));
    assert_eq!(divide(i32::MIN, 0), Err(String::from("Division by zero")));
    assert_eq!(divide(i32::MAX, 0), Err(String::from("Division by zero")));
}

#[test]
fn repeated_calls_agree() {
    let first = divide(10, 2);
    let second = divide(10, 2);
    assert_eq!(first, second);
    let first_err = divide(10, 0);
    let second_err = divide(10, 0);
    assert_eq!(first_err, second_err);
}

#[test]
fn extreme_dividends_divide_exactly() {
    assert_eq!(divide(i32::MIN, 1), Ok(i32::MIN));
    assert_eq!(divide(i32::MIN, 2), Ok(i32::MIN / 2));
    assert_eq!(divide(i32::MIN + 1, -1), Ok(i32::MAX));
    assert_eq!(divide(i32::MAX, -1), Ok(-i32::MAX));
    assert_eq!(divide(i32::MAX, i32::MAX), Ok(1));
    assert_eq!(divide(i32::MIN, i32::MIN), Ok(1));
}
