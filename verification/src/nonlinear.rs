//! Choosing a method and an equation for solving nonlinear equations and
//! systems, from the numbers a user picks in the menus.
use vstd::prelude::*;

verus! {

/// A single equation `f(x) = 0`.
#[derive(Clone, Copy, Debug, PartialEq, Eq, Structural)]
pub enum Func {
    /// `2x^3 - 9x^2 - 7x + 11`
    Polynomial,
    /// `sin(x)`
    Sinus,
    /// `2x`
    Linear,
    /// `e^x`
    Exponent,
}

/// A system of two equations.
#[derive(Clone, Copy, Debug, PartialEq, Eq, Structural)]
pub enum SystemFunc {
    /// `x^2 + y^2 = 4; y = x`
    Circle,
    /// `2x^2 = 8; xy = 4`
    Polynomials,
}

/// A solving method together with what it solves.
#[derive(Clone, Copy, Debug, PartialEq, Eq, Structural)]
pub enum Method {
    /// The chord method on an equation.
    EqChord(Func),
    /// Newton's method on an equation.
    EqNewton(Func),
    /// Simple iteration on an equation.
    EqIter(Func),
    /// Newton's method on a system.
    SysNewton(SystemFunc),
}

/// Which list of functions follows the choice of a method.
#[derive(Clone, Copy, Debug, PartialEq, Eq, Structural)]
pub enum FunctionMenu {
    /// Single equations, after methods 1 to 3.
    Equations,
    /// Systems, after method 4.
    Systems,
}

/// The method used when the method number is not one of the menu's.
pub open spec fn spec_default_method() -> Method {
    Method::EqNewton(Func::Linear)
}

/// The method used when the method number is not one of the menu's.
pub fn default_method() -> (m: Method)
    ensures
        m == spec_default_method(),
{
    Method::EqNewton(Func::Linear)
}

/// The list of functions offered after method number `chosen_method`, if
/// any: methods 1 to 3 work on equations, method 4 on systems; for any
/// other number no function is asked for.
pub open spec fn spec_function_menu(chosen_method: i32) -> Option<FunctionMenu> {
    if chosen_method == 4 {
        Some(FunctionMenu::Systems)
    } else if 1 <= chosen_method <= 3 {
        Some(FunctionMenu::Equations)
    } else {
        None
    }
}

/// The list of functions offered after method number `chosen_method`.
pub fn function_menu(chosen_method: i32) -> (menu: Option<FunctionMenu>)
    ensures
        menu == spec_function_menu(chosen_method),
{
    if chosen_method == 4 {
        Some(FunctionMenu::Systems)
    } else if 1 <= chosen_method && chosen_method <= 3 {
        Some(FunctionMenu::Equations)
    } else {
        None
    }
}

/// The equation with number `n` in the equation menu.
pub open spec fn spec_equation(n: i32) -> Option<Func> {
    if n == 1 {
        Some(Func::Polynomial)
    } else if n == 2 {
        Some(Func::Sinus)
    } else if n == 3 {
        Some(Func::Linear)
    } else if n == 4 {
        Some(Func::Exponent)
    } else {
        None
    }
}

/// The method picked by method number `chosen_method` and function number
/// `chosen_function`: `None` when the function number is not on the list.
pub open spec fn spec_choose_method(chosen_method: i32, chosen_function: i32) -> Option<Method> {
    if chosen_method == 4 {
        if chosen_function == 1 {
            Some(Method::SysNewton(SystemFunc::Circle))
        } else if chosen_function == 2 {
            Some(Method::SysNewton(SystemFunc::Polynomials))
        } else {
            None
        }
    } else {
        match spec_equation(chosen_function) {
            Some(func) => Some(
                if chosen_method == 1 {
                    Method::EqChord(func)
                } else if chosen_method == 2 {
                    Method::EqNewton(func)
                } else {
                    Method::EqIter(func)
                },
            ),
            None => None,
        }
    }
}

fn equation(n: i32) -> (f: Option<Func>)
    ensures
        f == spec_equation(n),
{
    if n == 1 {
        Some(Func::Polynomial)
    } else if n == 2 {
        Some(Func::Sinus)
    } else if n == 3 {
        Some(Func::Linear)
    } else if n == 4 {
        Some(Func::Exponent)
    } else {
        None
    }
}

/// The method picked by method number `chosen_method` (one that asks for
/// a function) and function number `chosen_function`.
pub fn choose_method(chosen_method: i32, chosen_function: i32) -> (m: Option<Method>)
    requires
        spec_function_menu(chosen_method) is Some,
    ensures
        m == spec_choose_method(chosen_method, chosen_function),
{
    if chosen_method == 4 {
        if chosen_function == 1 {
            Some(Method::SysNewton(SystemFunc::Circle))
        } else if chosen_function == 2 {
            Some(Method::SysNewton(SystemFunc::Polynomials))
        } else {
            None
        }
    } else {
        match equation(chosen_function) {
            Some(func) => Some(
                if chosen_method == 1 {
                    Method::EqChord(func)
                } else if chosen_method == 2 {
                    Method::EqNewton(func)
                } else {
                    Method::EqIter(func)
                },
            ),
            None => None,
        }
    }
}

/// The number of a solving method in the method menu: 1 chords, 2 Newton,
/// 3 simple iteration (on an equation), 4 Newton on a system.
pub open spec fn method_number(m: Method) -> int {
    match m {
        Method::EqChord(_) => 1,
        Method::EqNewton(_) => 2,
        Method::EqIter(_) => 3,
        Method::SysNewton(_) => 4,
    }
}

/// The number of an equation in the equation menu, in the order listed.
pub open spec fn equation_number(f: Func) -> int {
    match f {
        Func::Polynomial => 1,
        Func::Sinus => 2,
        Func::Linear => 3,
        Func::Exponent => 4,
    }
}

/// The number of a system in the system menu, in the order listed.
pub open spec fn system_number(s: SystemFunc) -> int {
    match s {
        SystemFunc::Circle => 1,
        SystemFunc::Polynomials => 2,
    }
}

/// The function (equation or system) a method works on, by its number in
/// its menu.
pub open spec fn function_number(m: Method) -> int {
    match m {
        Method::EqChord(f) => equation_number(f),
        Method::EqNewton(f) => equation_number(f),
        Method::EqIter(f) => equation_number(f),
        Method::SysNewton(s) => system_number(s),
    }
}

/// The menus pick what they list: for a method number and a function
/// number both on their menus, the chosen method is the one with that
/// method number working on the function with that function number, the
/// two choices independent of each other; a function number off its menu
/// is refused. Method numbers 1 to 3 offer the four equations, 4 the two
/// systems.
pub proof fn lemma_choice_is_the_numbered_method_and_function(m: i32, f: i32)
    ensures
        1 <= m <= 3 && 1 <= f <= 4 ==> {
            &&& spec_choose_method(m, f) is Some
            &&& method_number(spec_choose_method(m, f).unwrap()) == m
            &&& function_number(spec_choose_method(m, f).unwrap()) == f
        },
        m == 4 && 1 <= f <= 2 ==> {
            &&& spec_choose_method(m, f) is Some
            &&& method_number(spec_choose_method(m, f).unwrap()) == 4
            &&& function_number(spec_choose_method(m, f).unwrap()) == f
        },
        1 <= m <= 3 && !(1 <= f <= 4) ==> spec_choose_method(m, f) is None,
        m == 4 && !(1 <= f <= 2) ==> spec_choose_method(m, f) is None,
{
}

/// The list offered after a method number is the list its methods work
/// on: the equations after the methods 1 to 3, which then choose an
/// equation method for every listed equation, the systems after method 4,
/// which then chooses Newton's method on a system; and no list after a
/// number off the method menu.
pub proof fn lemma_function_menu_fits_the_method(m: i32)
    ensures
        spec_function_menu(m) == Some(FunctionMenu::Equations) <==> 1 <= m <= 3,
        spec_function_menu(m) == Some(FunctionMenu::Systems) <==> m == 4,
        spec_function_menu(m) is None <==> (m < 1 || m > 4),
        spec_function_menu(m) == Some(FunctionMenu::Equations) ==> forall|f: i32|
            1 <= f <= 4 ==> #[trigger] spec_choose_method(m, f) is Some && method_number(
                spec_choose_method(m, f).unwrap(),
            ) == m && method_number(spec_choose_method(m, f).unwrap()) <= 3,
        spec_function_menu(m) == Some(FunctionMenu::Systems) ==> forall|f: i32|
            1 <= f <= 2 ==> #[trigger] spec_choose_method(m, f) is Some && method_number(
                spec_choose_method(m, f).unwrap(),
            ) == 4,
{
}

} // verus!
