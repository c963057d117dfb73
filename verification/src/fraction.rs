use vstd::prelude::*;

use crate::error::QueryError;

verus! {

/// An exact rational threshold with a strictly positive denominator.
///
/// Ratios of collection counts are compared against such thresholds by exact
/// cross multiplication, so a project with exactly 9 of 10 paths in a language
/// compares equal to the literal fraction 9/10 with no rounding.
#[derive(Clone, Copy, Debug, PartialEq, Eq, Structural)]
pub struct Fraction {
    pub num: u64,
    pub den: u64,
}

impl Fraction {
    /// A fraction is well formed when its denominator is strictly positive.
    pub open spec fn wf(self) -> bool {
        self.den >= 1
    }

    /// Builds a threshold fraction, rejecting a negative numerator and a
    /// non-positive denominator.
    pub fn new(num: i64, den: i64) -> (r: Result<Fraction, QueryError>)
        ensures
            r is Ok <==> (num >= 0 && den >= 1),
            r is Ok ==> r->Ok_0 == (Fraction { num: num as u64, den: den as u64 }),
            r is Ok ==> r->Ok_0.wf(),
            r is Err ==> r->Err_0 == QueryError::Aggregation,
    {
        if num >= 0 && den >= 1 {
            Ok(Fraction { num: num as u64, den: den as u64 })
        } else {
            Err(QueryError::Aggregation)
        }
    }
}

/// Whether the exact ratio `num / den` of two counts reaches the threshold
/// `f`. A zero denominator makes the ratio 0, never a fault, so the threshold
/// is then reached exactly when the threshold itself is 0.
pub open spec fn spec_ratio_at_least(num: nat, den: nat, f: Fraction) -> bool {
    if den == 0 {
        f.num == 0
    } else {
        num * f.den >= f.num * den
    }
}

/// Compares the exact ratio of two collection counts with a threshold
/// fraction by cross multiplication.
pub fn ratio_at_least(num: usize, den: usize, f: &Fraction) -> (r: bool)
    requires
        f.wf(),
    ensures
        r == spec_ratio_at_least(num as nat, den as nat, *f),
{
    if den == 0 {
        f.num == 0
    } else {
        proof {
            lemma_u64_prod_fits_u128(num as int, f.den as int);
            lemma_u64_prod_fits_u128(f.num as int, den as int);
        }
        let lhs: u128 = (num as u128) * (f.den as u128);
        let rhs: u128 = (f.num as u128) * (den as u128);
        lhs >= rhs
    }
}

/// The product of two values below 2^64 fits in a u128.
proof fn lemma_u64_prod_fits_u128(a: int, b: int)
    requires
        0 <= a <= 0xffff_ffff_ffff_ffff,
        0 <= b <= 0xffff_ffff_ffff_ffff,
    ensures
        0 <= a * b <= 0xffff_ffff_ffff_fffe_0000_0000_0000_0001,
{
    assert(a * b <= 0xffff_ffff_ffff_fffe_0000_0000_0000_0001) by (nonlinear_arith)
        requires
            0 <= a <= 0xffff_ffff_ffff_ffff,
            0 <= b <= 0xffff_ffff_ffff_ffff,
    ;
    assert(a * b >= 0) by (nonlinear_arith)
        requires
            0 <= a,
            0 <= b,
    ;
}

/// Exact ratio boundary: with the threshold 9/10, a ratio of 9 out of 10
/// reaches the threshold and a ratio of 8 out of 10 does not.
pub proof fn lemma_exact_ratio_boundary(f: Fraction)
    requires
        f == (Fraction { num: 9, den: 10 }),
    ensures
        spec_ratio_at_least(9, 10, f),
        !spec_ratio_at_least(8, 10, f),
{
}

} // verus!
