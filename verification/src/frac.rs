use vstd::prelude::*;

verus! {

/// An exact non-negative fraction confined to [0, 1], used for channel
/// values and for the tone-window floor and ceiling parameters.
#[derive(Clone, Copy, PartialEq, Eq, Structural, Debug)]
pub struct Frac {
    pub num: u64,
    pub den: u64,
}

/// Mathematical equality of the fractions a_num/a_den and b_num/b_den
/// (denominators assumed positive), stated by cross-multiplication.
pub open spec fn frac_eq(a_num: int, a_den: int, b_num: int, b_den: int) -> bool {
    a_num * b_den == b_num * a_den
}

/// a_num/a_den <= b_num/b_den (denominators assumed positive).
pub open spec fn frac_le(a_num: int, a_den: int, b_num: int, b_den: int) -> bool {
    a_num * b_den <= b_num * a_den
}

/// From a/ad == b/bd and b/bd <= c/cd conclude a/ad <= c/cd.
pub proof fn lemma_frac_eq_then_le(an: int, ad: int, bn: int, bd: int, cn: int, cd: int)
    requires
        1 <= ad,
        1 <= bd,
        1 <= cd,
        frac_eq(an, ad, bn, bd),
        frac_le(bn, bd, cn, cd),
    ensures
        frac_le(an, ad, cn, cd),
{
    assert((an * cd) * bd == (bn * ad) * cd) by (nonlinear_arith)
        requires
            an * bd == bn * ad,
    ;
    assert((bn * ad) * cd <= (cn * ad) * bd) by (nonlinear_arith)
        requires
            bn * cd <= cn * bd,
            0 <= ad,
    ;
    assert(an * cd <= cn * ad) by (nonlinear_arith)
        requires
            (an * cd) * bd <= (cn * ad) * bd,
            1 <= bd,
    ;
}

/// From a/ad <= b/bd and b/bd == c/cd conclude a/ad <= c/cd.
pub proof fn lemma_frac_le_then_eq(an: int, ad: int, bn: int, bd: int, cn: int, cd: int)
    requires
        1 <= ad,
        1 <= bd,
        1 <= cd,
        frac_le(an, ad, bn, bd),
        frac_eq(bn, bd, cn, cd),
    ensures
        frac_le(an, ad, cn, cd),
{
    assert((an * cd) * bd <= (bn * cd) * ad) by (nonlinear_arith)
        requires
            an * bd <= bn * ad,
            0 <= cd,
    ;
    assert((bn * cd) * ad == (cn * ad) * bd) by (nonlinear_arith)
        requires
            bn * cd == cn * bd,
    ;
    assert(an * cd <= cn * ad) by (nonlinear_arith)
        requires
            (an * cd) * bd <= (cn * ad) * bd,
            1 <= bd,
    ;
}

impl Frac {
    /// Well-formed: positive denominator and value within [0, 1].
    pub open spec fn wf(self) -> bool {
        1 <= self.den && self.num <= self.den
    }

    pub fn new(num: u64, den: u64) -> (r: Frac)
        requires
            1 <= den,
            num <= den,
        ensures
            r.num == num,
            r.den == den,
            r.wf(),
    {
        Frac { num, den }
    }

    /// The fraction 0/1.
    pub fn zero() -> (r: Frac)
        ensures
            r.num == 0,
            r.den == 1,
            r.wf(),
    {
        Frac { num: 0, den: 1 }
    }

    /// The fraction 1/1.
    pub fn one() -> (r: Frac)
        ensures
            r.num == 1,
            r.den == 1,
            r.wf(),
    {
        Frac { num: 1, den: 1 }
    }
}

} // verus!
