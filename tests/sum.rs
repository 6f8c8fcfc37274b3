use bust::sum_as_string;
use bust::ErrorKind;

#[test]
fn zero_plus_zero() {
    assert_eq!(sum_as_string(0, 0), Ok("0".to_string()));
}

#[test]
fn two_plus_three() {
    assert_eq!(sum_as_string(2, 3), Ok("5".to_string()));
}

#[test]
fn six_digit_operands() {
    assert_eq!(sum_as_string(123456, 654321), Ok("777777".to_string()));
}

#[test]
fn max_plus_one_overflows() {
    assert_eq!(sum_as_string(usize::MAX, 1), Err(ErrorKind::ArithmeticOverflow));
}

#[test]
fn max_plus_max_overflows() {
    assert_eq!(sum_as_string(usize::MAX, usize::MAX), Err(ErrorKind::ArithmeticOverflow));
}

#[test]
fn max_plus_zero_fits() {
    assert_eq!(sum_as_string(usize::MAX, 0), Ok(usize::MAX.to_string()));
    assert_eq!(sum_as_string(0, usize::MAX), Ok(usize::MAX.to_string()));
}

#[test]
fn carries_into_a_new_digit() {
    assert_eq!(sum_as_string(9, 1), Ok("10".to_string()));
    assert_eq!(sum_as_string(999, 1), Ok("1000".to_string()));
    assert_eq!(sum_as_string(95, 5), Ok("100".to_string()));
}

#[test]
fn result_parses_back_to_the_sum() {
    let cases: Vec<(usize, usize)> = vec![(0, 7), (10, 0), (41, 59), (1_000_000, 23), (usize::MAX - 5, 5)];
    for (a, b) in cases {
        let s = sum_as_string(a, b).unwrap();
        assert!(s.chars().all(|c| c.is_ascii_digit()));
        assert_eq!(s.parse::<usize>().unwrap(), a + b);
    }
}

#[test]
fn operand_order_does_not_matter() {
    let cases: Vec<(usize, usize)> = vec![(0, 0), (2, 3), (123456, 654321), (usize::MAX, 0), (usize::MAX, 1)];
    for (a, b) in cases {
        assert_eq!(sum_as_string(a, b), sum_as_string(b, a));
    }
}

#[test]
fn positive_sums_have_no_leading_zero() {
    let cases: Vec<(usize, usize)> = vec![(0, 1), (5, 5), (50, 50), (0, 1000), (usize::MAX, 0)];
    for (a, b) in cases {
        let s = sum_as_string(a, b).unwrap();
        assert!(!s.starts_with('0'));
    }
}
