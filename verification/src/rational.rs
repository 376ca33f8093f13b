//! Exact rational values for threshold comparisons and stake shares.
//!
//! Corruption thresholds and stake shares must be compared as exact
//! rationals, never as floating point, so that boundary cases are classified
//! exactly. The comparison and the reduction to lowest terms are delegated to
//! the `num_rational` crate; their contracts state the mathematical meaning
//! over unbounded integers.

use vstd::prelude::*;

verus! {

/// An exact non-negative rational number `numer / denom`.
///
/// A well-formed fraction has a positive denominator. The value is not
/// necessarily in lowest terms; equality of the mathematical values is
/// cross-multiplication, not field equality.
#[derive(Clone, Copy, Debug, PartialEq, Eq, Structural)]
pub struct Fraction {
    pub numer: u128,
    pub denom: u128,
}

impl Fraction {
    /// A positive denominator, so that the fraction denotes a rational.
    pub open spec fn wf(self) -> bool {
        self.denom > 0
    }

    /// The fraction `numer / denom`, kept exactly as given.
    pub fn new(numer: u128, denom: u128) -> (r: Fraction)
        requires
            denom > 0,
        ensures
            r.numer == numer,
            r.denom == denom,
            r.wf(),
    {
        Fraction { numer, denom }
    }

    /// The fraction `numer / denom` in lowest terms: the one representation
    /// of that value with the smallest positive denominator. Reduction is
    /// therefore a function of the value, and equal inputs give equal
    /// fractions (see `lemma_reduced_fraction_unique`).
    pub fn new_reduced(numer: u128, denom: u128) -> (r: Fraction)
        requires
            denom > 0,
        ensures
            r.wf(),
            reduced_fraction_of(r, numer, denom),
            r.numer <= numer,
            r.denom <= denom,
    {
        let (n, d) = ratio_reduced(numer, denom);
        Fraction { numer: n, denom: d }
    }
}

/// Whether `a / b` and `numer / denom` denote the same rational, by
/// cross-multiplication.
pub open spec fn same_ratio(a: u128, b: u128, numer: u128, denom: u128) -> bool {
    a * denom == numer * b
}

/// Whether `r` is `numer / denom` in lowest terms: it denotes the same
/// rational, and among all pairs denoting that rational its denominator is
/// the smallest positive one.
pub open spec fn reduced_fraction_of(r: Fraction, numer: u128, denom: u128) -> bool {
    &&& r.denom > 0
    &&& same_ratio(r.numer, r.denom, numer, denom)
    &&& forall|a: u128, b: u128| 0 < b && #[trigger] same_ratio(a, b, numer, denom) ==> r.denom <= b
}

/// The reduced form is unique: two fractions that are both `numer / denom`
/// in lowest terms are equal.
pub proof fn lemma_reduced_fraction_unique(numer: u128, denom: u128, r: Fraction, s: Fraction)
    requires
        denom > 0,
        reduced_fraction_of(r, numer, denom),
        reduced_fraction_of(s, numer, denom),
    ensures
        r == s,
{
    assert(same_ratio(r.numer, r.denom, numer, denom));
    assert(same_ratio(s.numer, s.denom, numer, denom));
    assert(r.denom <= s.denom);
    assert(s.denom <= r.denom);
    assert(r.numer == s.numer) by (nonlinear_arith)
        requires
            r.numer * denom == numer * r.denom,
            s.numer * denom == numer * s.denom,
            r.denom == s.denom,
            denom > 0,
    ;
}

/// Whether the rational `a_numer / a_denom` is strictly greater than
/// `b_numer / b_denom`, for positive denominators.
pub open spec fn fraction_gt(a_numer: u128, a_denom: u128, b_numer: u128, b_denom: u128) -> bool {
    a_numer * b_denom > b_numer * a_denom
}

/// Relies on `num_rational::Ratio::{new, cmp}`: `Ratio::new` reduces the
/// fraction (panicking only on a zero denominator, excluded here), and `cmp`
/// compares the exact rational values without overflow.
#[verifier::external_body]
pub(crate) fn ratio_gt(a_numer: u128, a_denom: u128, b_numer: u128, b_denom: u128) -> (r: bool)
    requires
        a_denom > 0,
        b_denom > 0,
    ensures
        r == fraction_gt(a_numer, a_denom, b_numer, b_denom),
{
    num_rational::Ratio::new(a_numer, a_denom) > num_rational::Ratio::new(b_numer, b_denom)
}

/// Relies on `num_rational::Ratio::new` and `Ratio::into_raw`: `new` divides
/// numerator and denominator by their greatest common divisor, keeping the
/// denominator positive (it panics only on a zero denominator, excluded
/// here), and `into_raw` hands the two components back.
///
/// The result is the value in lowest terms. The last clause states that as
/// denominator minimality: the denominator of a fraction in lowest terms
/// divides the denominator of every pair denoting the same value, so it is
/// the smallest positive one.
#[verifier::external_body]
pub(crate) fn ratio_reduced(numer: u128, denom: u128) -> (r: (u128, u128))
    requires
        denom > 0,
    ensures
        r.1 > 0,
        r.0 * denom == numer * r.1,
        r.0 <= numer,
        r.1 <= denom,
        forall|a: u128, b: u128| 0 < b && #[trigger] same_ratio(a, b, numer, denom) ==> r.1 <= b,
{
    num_rational::Ratio::new(numer, denom).into_raw()
}

} // verus!
