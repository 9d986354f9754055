use itmo_compmath::approximation::{
    candidate, coefficient_count, find_best_function, linearization, print_function, Function, Linearization,
};
use itmo_compmath::linear::{DominanceCheck, DominanceError, RowBalance};
use itmo_compmath::text::decimal_string;

fn strings(xs: &[&str]) -> Vec<String> {
    xs.iter().map(|s| s.to_string()).collect()
}

#[test]
fn dominant_system_passes_and_names_swaps() {
    let mut check = DominanceCheck::new();
    assert_eq!(check.check_row(RowBalance::Balanced, 2), Ok((0, 2)));
    assert_eq!(check.check_row(RowBalance::Dominant, 1), Ok((1, 1)));
    assert_eq!(check.check_row(RowBalance::Balanced, 0), Ok((2, 0)));
    assert_eq!(check.finish(), Ok(()));
}

#[test]
fn deficient_row_refuses_the_system() {
    let mut check = DominanceCheck::new();
    assert_eq!(check.check_row(RowBalance::Dominant, 0), Ok((0, 0)));
    assert_eq!(check.check_row(RowBalance::Deficient, 0), Err(DominanceError::RowNotDominant { row: 1 }));
}

#[test]
fn no_strict_row_refuses_the_system() {
    let mut check = DominanceCheck::new();
    assert_eq!(check.check_row(RowBalance::Balanced, 0), Ok((0, 0)));
    assert_eq!(check.check_row(RowBalance::Balanced, 1), Ok((1, 1)));
    assert_eq!(check.finish(), Err(DominanceError::NoStrictRow));
    assert_eq!(DominanceCheck::new().finish(), Err(DominanceError::NoStrictRow));
}

#[test]
fn coefficient_counts() {
    assert_eq!(coefficient_count(Function::Polynomial(3)), 4);
    assert_eq!(coefficient_count(Function::Polynomial(0)), 1);
    assert_eq!(coefficient_count(Function::Exponential), 2);
    assert_eq!(coefficient_count(Function::Power), 2);
}

#[test]
fn linearizations() {
    assert_eq!(
        linearization(Function::Polynomial(2)),
        Linearization { degree: 2, log_x: false, log_y: false, exp_intercept: false }
    );
    assert_eq!(
        linearization(Function::Exponential),
        Linearization { degree: 1, log_x: false, log_y: true, exp_intercept: true }
    );
    assert_eq!(
        linearization(Function::Logarithmic),
        Linearization { degree: 1, log_x: true, log_y: false, exp_intercept: false }
    );
    assert_eq!(
        linearization(Function::Power),
        Linearization { degree: 1, log_x: true, log_y: true, exp_intercept: false }
    );
}

#[test]
fn candidates_in_order() {
    assert_eq!(candidate(0), Function::Polynomial(1));
    assert_eq!(candidate(2), Function::Polynomial(3));
    assert_eq!(candidate(3), Function::Exponential);
    assert_eq!(candidate(5), Function::Power);
}

#[test]
fn best_function_has_smallest_deviation() {
    assert_eq!(find_best_function(&vec![9, 8, 7, 6, 5, 4]), Function::Power);
    assert_eq!(find_best_function(&vec![9, 3, 3, 6, 5, 4]), Function::Polynomial(2));
    assert_eq!(find_best_function(&vec![0, 0, 0, 0, 0, 0]), Function::Polynomial(1));
    assert_eq!(find_best_function(&vec![9, 8, 7, 1, 5, 4]), Function::Exponential);
}

#[test]
fn polynomial_text() {
    assert_eq!(print_function(Function::Polynomial(2), &strings(&["1", "2.5", "-3"])), "1 + 2.5x^1 + -3x^2");
    assert_eq!(print_function(Function::Polynomial(0), &strings(&["7"])), "7");
    let coefficients: Vec<String> = (0..12).map(|i| i.to_string()).collect();
    assert_eq!(
        print_function(Function::Polynomial(11), &coefficients),
        "0 + 1x^1 + 2x^2 + 3x^3 + 4x^4 + 5x^5 + 6x^6 + 7x^7 + 8x^8 + 9x^9 + 10x^10 + 11x^11"
    );
}

#[test]
fn other_family_texts() {
    let c = strings(&["2", "0.5"]);
    assert_eq!(print_function(Function::Exponential, &c), "2e^0.5x");
    assert_eq!(print_function(Function::Logarithmic, &c), "2lnx + 0.5");
    assert_eq!(print_function(Function::Power, &c), "2x^0.5");
}

#[test]
fn decimal_texts() {
    assert_eq!(decimal_string(0), "0");
    assert_eq!(decimal_string(7), "7");
    assert_eq!(decimal_string(10), "10");
    assert_eq!(decimal_string(65535), "65535");
    assert_eq!(decimal_string(u64::MAX), u64::MAX.to_string());
}
