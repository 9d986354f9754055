//! Choosing the equation and the method for solving the initial value
//! problem `y' = f(x, y)`, from the numbers a user picks in the menus.
use vstd::prelude::*;

verus! {

/// A right-hand side `f(x, y)`.
#[derive(Clone, Copy, Debug, PartialEq, Eq, Structural)]
pub enum Equation {
    /// `y + (1 + x) y^2`
    First,
    /// `x^2 + y^2`
    Second,
    /// `2x`
    Third,
}

/// A one-step or multistep method.
#[derive(Clone, Copy, Debug, PartialEq, Eq, Structural)]
pub enum OdeMethod {
    /// Euler's method.
    Euler,
    /// The modified (improved) Euler method.
    ModEuler,
    /// Milne's predictor-corrector method.
    Miln,
}

/// The equation with number `n` in the menu.
pub open spec fn spec_choose_equation(n: i32) -> Option<Equation> {
    if n == 1 {
        Some(Equation::First)
    } else if n == 2 {
        Some(Equation::Second)
    } else if n == 3 {
        Some(Equation::Third)
    } else {
        None
    }
}

/// The equation with number `n` in the menu; `None` off the menu.
pub fn choose_equation(n: i32) -> (e: Option<Equation>)
    ensures
        e == spec_choose_equation(n),
{
    if n == 1 {
        Some(Equation::First)
    } else if n == 2 {
        Some(Equation::Second)
    } else if n == 3 {
        Some(Equation::Third)
    } else {
        None
    }
}

/// The method with number `n` in the menu.
pub open spec fn spec_choose_method(n: i32) -> Option<OdeMethod> {
    if n == 1 {
        Some(OdeMethod::Euler)
    } else if n == 2 {
        Some(OdeMethod::ModEuler)
    } else if n == 3 {
        Some(OdeMethod::Miln)
    } else {
        None
    }
}

/// The method with number `n` in the menu; `None` off the menu.
pub fn choose_method(n: i32) -> (m: Option<OdeMethod>)
    ensures
        m == spec_choose_method(n),
{
    if n == 1 {
        Some(OdeMethod::Euler)
    } else if n == 2 {
        Some(OdeMethod::ModEuler)
    } else if n == 3 {
        Some(OdeMethod::Miln)
    } else {
        None
    }
}

/// The position of an equation in the menu, in the order listed.
pub open spec fn equation_position(e: Equation) -> int {
    match e {
        Equation::First => 1,
        Equation::Second => 2,
        Equation::Third => 3,
    }
}

/// The position of a method in the menu, in the order listed.
pub open spec fn method_position(m: OdeMethod) -> int {
    match m {
        OdeMethod::Euler => 1,
        OdeMethod::ModEuler => 2,
        OdeMethod::Miln => 3,
    }
}

/// The menus pick what they list: numbers 1 to 3 pick the equation, and
/// the method, listed at that position (so different numbers pick
/// different ones); every other number is refused.
pub proof fn lemma_menus_pick_the_listed_item(n: i32)
    ensures
        1 <= n <= 3 ==> spec_choose_equation(n) is Some && equation_position(spec_choose_equation(n).unwrap()) == n,
        1 <= n <= 3 ==> spec_choose_method(n) is Some && method_position(spec_choose_method(n).unwrap()) == n,
        !(1 <= n <= 3) ==> spec_choose_equation(n) is None && spec_choose_method(n) is None,
{
}

} // verus!
