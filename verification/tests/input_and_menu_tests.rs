use itmo_compmath::differential::{choose_equation, choose_method as choose_ode_method, Equation, OdeMethod};
use itmo_compmath::input::{check_count, check_values, input_mode, InputError, InputMode, MAX_DIMENSION, MAX_POINTS};
use itmo_compmath::nonlinear::{choose_method, default_method, function_menu, Func, FunctionMenu, Method, SystemFunc};

#[test]
fn counts_in_range_are_accepted() {
    assert_eq!(check_count(1, MAX_DIMENSION), Ok(()));
    assert_eq!(check_count(100, MAX_DIMENSION), Ok(()));
    assert_eq!(check_count(12, MAX_POINTS), Ok(()));
}

#[test]
fn counts_out_of_range_are_refused() {
    assert_eq!(check_count(0, MAX_DIMENSION), Err(InputError::CountOutOfRange));
    assert_eq!(check_count(101, MAX_DIMENSION), Err(InputError::CountOutOfRange));
    assert_eq!(check_count(13, MAX_POINTS), Err(InputError::CountOutOfRange));
}

#[test]
fn lines_longer_than_the_count_are_refused() {
    assert_eq!(check_values(3, 3), Ok(()));
    assert_eq!(check_values(2, 3), Ok(()));
    assert_eq!(check_values(4, 3), Err(InputError::TooManyValues));
}

#[test]
fn ode_menus() {
    assert_eq!(choose_equation(1), Some(Equation::First));
    assert_eq!(choose_equation(2), Some(Equation::Second));
    assert_eq!(choose_equation(3), Some(Equation::Third));
    assert_eq!(choose_equation(4), None);
    assert_eq!(choose_equation(0), None);
    assert_eq!(choose_ode_method(1), Some(OdeMethod::Euler));
    assert_eq!(choose_ode_method(2), Some(OdeMethod::ModEuler));
    assert_eq!(choose_ode_method(3), Some(OdeMethod::Miln));
    assert_eq!(choose_ode_method(-1), None);
}

#[test]
fn nonlinear_function_menus() {
    assert_eq!(function_menu(4), Some(FunctionMenu::Systems));
    assert_eq!(function_menu(1), Some(FunctionMenu::Equations));
    assert_eq!(function_menu(3), Some(FunctionMenu::Equations));
    assert_eq!(function_menu(5), None);
    assert_eq!(function_menu(0), None);
}

#[test]
fn nonlinear_method_choices() {
    assert_eq!(choose_method(4, 1), Some(Method::SysNewton(SystemFunc::Circle)));
    assert_eq!(choose_method(4, 2), Some(Method::SysNewton(SystemFunc::Polynomials)));
    assert_eq!(choose_method(4, 3), None);
    assert_eq!(choose_method(1, 1), Some(Method::EqChord(Func::Polynomial)));
    assert_eq!(choose_method(2, 2), Some(Method::EqNewton(Func::Sinus)));
    assert_eq!(choose_method(3, 3), Some(Method::EqIter(Func::Linear)));
    assert_eq!(choose_method(1, 4), Some(Method::EqChord(Func::Exponent)));
    assert_eq!(choose_method(2, 5), None);
    assert_eq!(default_method(), Method::EqNewton(Func::Linear));
}

#[test]
fn input_modes() {
    assert_eq!(input_mode("console"), Some(InputMode::Console));
    assert_eq!(input_mode("file"), Some(InputMode::File));
    assert_eq!(input_mode("Console"), None);
    assert_eq!(input_mode(" file"), None);
    assert_eq!(input_mode(""), None);
}
