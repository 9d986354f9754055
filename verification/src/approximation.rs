//! Least-squares approximation by a family of functions: which functions are
//! tried, how each is reduced to a polynomial fit, which one is chosen, and
//! how the fitted function is written out.
use vstd::prelude::*;
use crate::ranking::{first_min_index, is_first_min};
use crate::text::{decimal, decimal_string};

verus! {

/// An approximating function family.
#[derive(Clone, Copy, Debug, PartialEq, Eq, Structural)]
pub enum Function {
    /// `a0 + a1 x + ... + am x^m` of the given degree `m`.
    Polynomial(u16),
    /// `a0 e^(a1 x)`.
    Exponential,
    /// `a0 ln x + a1`.
    Logarithmic,
    /// `a0 x^a1`.
    Power,
}

/// The number of coefficients a fit of the family produces.
pub open spec fn spec_coefficient_count(f: Function) -> nat {
    match f {
        Function::Polynomial(m) => (m + 1) as nat,
        _ => 2,
    }
}

/// The number of coefficients a fit of the family produces.
pub fn coefficient_count(f: Function) -> (n: usize)
    ensures
        n == spec_coefficient_count(f),
{
    match f {
        Function::Polynomial(m) => m as usize + 1,
        _ => 2,
    }
}

/// How a family is fitted as a polynomial: the degree of the polynomial
/// fit, whether the fit runs on `ln x` in place of `x` and on `ln y` in
/// place of `y`, and whether the constant coefficient of the fit is
/// replaced by its exponential afterwards.
#[derive(Clone, Copy, Debug, PartialEq, Eq, Structural)]
pub struct Linearization {
    pub degree: u16,
    pub log_x: bool,
    pub log_y: bool,
    pub exp_intercept: bool,
}

/// How the family `f` is fitted as a polynomial.
pub open spec fn spec_linearization(f: Function) -> Linearization {
    match f {
        Function::Polynomial(m) => Linearization { degree: m, log_x: false, log_y: false, exp_intercept: false },
        Function::Exponential => Linearization { degree: 1, log_x: false, log_y: true, exp_intercept: true },
        Function::Logarithmic => Linearization { degree: 1, log_x: true, log_y: false, exp_intercept: false },
        Function::Power => Linearization { degree: 1, log_x: true, log_y: true, exp_intercept: false },
    }
}

/// How the family `f` is fitted as a polynomial. A polynomial is fitted
/// directly; the exponential family as a line through `(x, ln y)` whose
/// intercept is then exponentiated; the logarithmic family as a line
/// through `(ln x, y)`; the power family as a line through `(ln x, ln y)`,
/// whose coefficients are kept as fitted.
pub fn linearization(f: Function) -> (l: Linearization)
    ensures
        l == spec_linearization(f),
{
    match f {
        Function::Polynomial(m) => Linearization { degree: m, log_x: false, log_y: false, exp_intercept: false },
        Function::Exponential => Linearization { degree: 1, log_x: false, log_y: true, exp_intercept: true },
        Function::Logarithmic => Linearization { degree: 1, log_x: true, log_y: false, exp_intercept: false },
        Function::Power => Linearization { degree: 1, log_x: true, log_y: true, exp_intercept: false },
    }
}

/// The number of candidate families compared when choosing the best fit.
pub const CANDIDATE_COUNT: usize = 6;

/// The `i`-th candidate family: polynomials of degree 1, 2 and 3, then the
/// exponential, logarithmic and power families.
pub open spec fn spec_candidate(i: int) -> Function {
    if i == 0 {
        Function::Polynomial(1)
    } else if i == 1 {
        Function::Polynomial(2)
    } else if i == 2 {
        Function::Polynomial(3)
    } else if i == 3 {
        Function::Exponential
    } else if i == 4 {
        Function::Logarithmic
    } else {
        Function::Power
    }
}

/// The `i`-th candidate family.
pub fn candidate(i: usize) -> (f: Function)
    requires
        i < CANDIDATE_COUNT,
    ensures
        f == spec_candidate(i as int),
{
    if i == 0 {
        Function::Polynomial(1)
    } else if i == 1 {
        Function::Polynomial(2)
    } else if i == 2 {
        Function::Polynomial(3)
    } else if i == 3 {
        Function::Exponential
    } else if i == 4 {
        Function::Logarithmic
    } else {
        Function::Power
    }
}

/// The best candidate family, given the ordering keys of the standard
/// deviations of the candidates' fits in candidate order: the candidate
/// with the smallest deviation, the earliest one among equals.
pub fn find_best_function(deviation_keys: &Vec<i64>) -> (f: Function)
    requires
        deviation_keys.len() == CANDIDATE_COUNT,
    ensures
        exists|i: int| is_first_min(deviation_keys@, i) && f == spec_candidate(i),
{
    let i = first_min_index(deviation_keys);
    candidate(i)
}

/// The text of term `i` of a polynomial of degree `m` whose coefficients
/// read `coefficients`: the coefficient, then `x^i` unless `i` is 0, then
/// ` + ` unless `i` is the last term.
pub open spec fn term_text(coefficients: Seq<Seq<char>>, m: nat, i: nat) -> Seq<char> {
    coefficients[i as int] + (if i != 0 {
        "x^"@ + decimal(i)
    } else {
        Seq::<char>::empty()
    }) + (if i != m {
        " + "@
    } else {
        Seq::<char>::empty()
    })
}

/// The text of the first `k` terms of a polynomial of degree `m`.
pub open spec fn polynomial_text(coefficients: Seq<Seq<char>>, m: nat, k: nat) -> Seq<char>
    decreases k,
{
    if k == 0 {
        Seq::<char>::empty()
    } else {
        polynomial_text(coefficients, m, (k - 1) as nat) + term_text(coefficients, m, (k - 1) as nat)
    }
}

/// The text of the fitted function `f` whose coefficients read
/// `coefficients`.
pub open spec fn function_text(f: Function, coefficients: Seq<Seq<char>>) -> Seq<char> {
    match f {
        Function::Polynomial(m) => polynomial_text(coefficients, m as nat, (m + 1) as nat),
        Function::Exponential => coefficients[0] + "e^"@ + coefficients[1] + "x"@,
        Function::Logarithmic => coefficients[0] + "lnx"@ + " + "@ + coefficients[1],
        Function::Power => coefficients[0] + "x^"@ + coefficients[1],
    }
}

/// The text of the fitted function `f`, given the text of each coefficient.
pub fn print_function(f: Function, coefficients: &Vec<String>) -> (s: String)
    requires
        coefficients.len() >= spec_coefficient_count(f),
    ensures
        s@ == function_text(f, coefficients@.map_values(|c: String| c@)),
{
    let ghost texts = coefficients@.map_values(|c: String| c@);
    match f {
        Function::Polynomial(m) => {
            let mut s = String::new();
            let mut i: u64 = 0;
            while i <= m as u64
                invariant
                    i <= m + 1,
                    coefficients.len() >= m + 1,
                    texts == coefficients@.map_values(|c: String| c@),
                    s@ == polynomial_text(texts, m as nat, i as nat),
                decreases m + 1 - i,
            {
                s.append(coefficients[i as usize].as_str());
                if i != 0 {
                    s.append("x^");
                    let digits = decimal_string(i);
                    s.append(digits.as_str());
                }
                if i != m as u64 {
                    s.append(" + ");
                }
                proof {
                    assert(texts[i as int] == coefficients@[i as int]@);
                }
                i = i + 1;
            }
            s
        },
        Function::Exponential => {
            let mut s = String::new();
            s.append(coefficients[0].as_str());
            s.append("e^");
            s.append(coefficients[1].as_str());
            s.append("x");
            s
        },
        Function::Logarithmic => {
            let mut s = String::new();
            s.append(coefficients[0].as_str());
            s.append("lnx");
            s.append(" + ");
            s.append(coefficients[1].as_str());
            s
        },
        Function::Power => {
            let mut s = String::new();
            s.append(coefficients[0].as_str());
            s.append("x^");
            s.append(coefficients[1].as_str());
            s
        },
    }
}

/// The position of a family in the order the families are declared:
/// polynomials, then exponential, logarithmic and power.
pub open spec fn family_rank(f: Function) -> int {
    match f {
        Function::Polynomial(_) => 0,
        Function::Exponential => 1,
        Function::Logarithmic => 2,
        Function::Power => 3,
    }
}

/// A family has as many coefficients as the polynomial fit it is reduced
/// to produces: one more than that fit's degree.
pub proof fn lemma_coefficients_come_from_the_fit(f: Function)
    ensures
        spec_coefficient_count(f) == spec_linearization(f).degree + 1,
        spec_linearization(f).degree >= 1 || f == Function::Polynomial(0),
        family_rank(f) > 0 ==> spec_coefficient_count(f) == 2,
{
}

/// Choosing the best fit tries every family exactly once: the candidates
/// are pairwise different; the first three are the polynomials of degree
/// 1, 2 and 3; the last three are the other families, each once, in the
/// order they are declared (exponential, logarithmic, power).
pub proof fn lemma_candidates_try_each_family_once()
    ensures
        forall|i: int, j: int|
            0 <= i < j < CANDIDATE_COUNT ==> #[trigger] spec_candidate(i) != #[trigger] spec_candidate(j),
        forall|i: int| 0 <= i < 3 ==> #[trigger] spec_candidate(i) == Function::Polynomial((i + 1) as u16),
        forall|i: int| 3 <= i < CANDIDATE_COUNT ==> family_rank(#[trigger] spec_candidate(i)) > 0,
        forall|i: int, j: int|
            3 <= i < j < CANDIDATE_COUNT ==> family_rank(#[trigger] spec_candidate(i)) < family_rank(
                #[trigger] spec_candidate(j),
            ),
        forall|f: Function|
            family_rank(f) > 0 || f == Function::Polynomial(1) || f == Function::Polynomial(2) || f
                == Function::Polynomial(3) ==> exists|i: int| 0 <= i < CANDIDATE_COUNT && #[trigger] spec_candidate(i) == f,
{
    assert forall|f: Function|
        family_rank(f) > 0 || f == Function::Polynomial(1) || f == Function::Polynomial(2) || f
            == Function::Polynomial(3) implies exists|i: int| 0 <= i < CANDIDATE_COUNT && #[trigger] spec_candidate(i) == f by {
        if f == Function::Polynomial(1) {
            assert(spec_candidate(0) == f);
        } else if f == Function::Polynomial(2) {
            assert(spec_candidate(1) == f);
        } else if f == Function::Polynomial(3) {
            assert(spec_candidate(2) == f);
        } else if f == Function::Exponential {
            assert(spec_candidate(3) == f);
        } else if f == Function::Logarithmic {
            assert(spec_candidate(4) == f);
        } else {
            assert(spec_candidate(5) == f);
        }
    }
}

/// A polynomial is fitted as it is, with no logarithm taken; each other
/// family is fitted as a straight line through transformed points, the
/// three with different transformations, and only the exponential family
/// turns its intercept back by the exponential.
pub proof fn lemma_fits_reduce_to_lines(f: Function, g: Function)
    ensures
        family_rank(f) == 0 ==> {
            let l = spec_linearization(f);
            &&& !l.log_x && !l.log_y && !l.exp_intercept
            &&& Function::Polynomial(l.degree) == f
        },
        family_rank(f) > 0 ==> spec_linearization(f).degree == 1 && (spec_linearization(f).log_x
            || spec_linearization(f).log_y),
        family_rank(f) > 0 && family_rank(g) > 0 && f != g ==> spec_linearization(f) != spec_linearization(g),
        spec_linearization(f).exp_intercept <==> f == Function::Exponential,
{
}

proof fn lemma_leading_terms_ignore_degree(c: Seq<Seq<char>>, m: nat, m2: nat, k: nat)
    requires
        k <= m,
        k <= m2,
    ensures
        polynomial_text(c, m, k) == polynomial_text(c, m2, k),
    decreases k,
{
    if k > 0 {
        lemma_leading_terms_ignore_degree(c, m, m2, (k - 1) as nat);
    }
}

/// The text of a polynomial: of degree 0 it is its coefficient; raising the
/// degree by one appends ` + `, the new coefficient and `x^` with the new
/// degree in decimal, leaving the text of the lower terms as it was.
pub proof fn lemma_polynomial_text_grows_by_one_term(c: Seq<Seq<char>>, m: u16)
    ensures
        function_text(Function::Polynomial(0), c) == c[0],
        m < u16::MAX ==> function_text(Function::Polynomial((m + 1) as u16), c) == function_text(
            Function::Polynomial(m),
            c,
        ) + " + "@ + c[m + 1] + "x^"@ + decimal((m + 1) as nat),
{
    assert(polynomial_text(c, 0, 0) =~= Seq::<char>::empty());
    assert(function_text(Function::Polynomial(0), c) =~= c[0]);
    if m < u16::MAX {
        let m1 = (m + 1) as nat;
        lemma_leading_terms_ignore_degree(c, m as nat, m1, m as nat);
        let low = polynomial_text(c, m as nat, m as nat);
        let xm = if m != 0 {
            "x^"@ + decimal(m as nat)
        } else {
            Seq::<char>::empty()
        };
        assert(term_text(c, m1, m as nat) =~= c[m as int] + xm + " + "@);
        assert(term_text(c, m as nat, m as nat) =~= c[m as int] + xm);
        assert(term_text(c, m1, m1) =~= c[m1 as int] + ("x^"@ + decimal(m1)));
        assert(polynomial_text(c, m1, m1) == polynomial_text(c, m1, m as nat) + term_text(c, m1, m as nat));
        assert(polynomial_text(c, m1, m1 + 1) == polynomial_text(c, m1, m1) + term_text(c, m1, m1));
        assert(polynomial_text(c, m1, m1 + 1) =~= low + (c[m as int] + xm + " + "@) + (c[m1 as int] + ("x^"@
            + decimal(m1))));
        assert(polynomial_text(c, m as nat, m1) =~= low + (c[m as int] + xm));
    }
}

} // verus!
