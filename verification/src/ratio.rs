//! Exact fractions, used wherever a rate or a mean has to be compared without
//! rounding.

use vstd::prelude::*;

verus! {

/// A non-negative fraction `num / den` of natural numbers.
///
/// Fractions are compared by value, through cross-multiplication, so `1/2`
/// and `2/4` are the same number although they are written differently.
pub struct Fraction {
    pub num: nat,
    pub den: nat,
}

impl Fraction {
    /// A fraction denotes a number only if its denominator is positive.
    pub open spec fn wf(self) -> bool {
        self.den > 0
    }

    /// `self < other` as numbers.
    pub open spec fn less(self, other: Fraction) -> bool {
        self.num * other.den < other.num * self.den
    }

    /// `self == other` as numbers.
    pub open spec fn same(self, other: Fraction) -> bool {
        self.num * other.den == other.num * self.den
    }
}

/// A [`Fraction`] whose two parts fit in 64 bits.
#[derive(Clone, Copy, Debug, PartialEq, Eq)]
pub struct Ratio {
    pub num: u64,
    pub den: u64,
}

impl View for Ratio {
    type V = Fraction;

    open spec fn view(&self) -> Fraction {
        Fraction { num: self.num as nat, den: self.den as nat }
    }
}

impl Ratio {
    /// Builds `num / den`.
    pub fn new(num: u64, den: u64) -> (r: Ratio)
        ensures
            r.num == num,
            r.den == den,
    {
        Ratio { num, den }
    }

    /// Decides `self < other` without rounding.
    pub fn is_less_than(&self, other: &Ratio) -> (r: bool)
        ensures
            r == self@.less(other@),
    {
        let left: u128 = wide_product(self.num, other.den);
        let right: u128 = wide_product(other.num, self.den);
        left < right
    }

    /// Decides `self == other` as numbers without rounding.
    pub fn has_same_value(&self, other: &Ratio) -> (r: bool)
        ensures
            r == self@.same(other@),
    {
        let left: u128 = wide_product(self.num, other.den);
        let right: u128 = wide_product(other.num, self.den);
        left == right
    }
}

/// The product of two 64-bit numbers, which always fits in 128 bits.
pub fn wide_product(a: u64, b: u64) -> (p: u128)
    ensures
        p == a * b,
{
    assert(a * b <= 0xffff_ffff_ffff_ffff * 0xffff_ffff_ffff_ffff) by (nonlinear_arith)
        requires
            0 <= a <= 0xffff_ffff_ffff_ffff,
            0 <= b <= 0xffff_ffff_ffff_ffff,
    ;
    (a as u128) * (b as u128)
}

/// Of two fractions exactly one is the smaller, or they are the same number.
pub proof fn lemma_fraction_trichotomy(a: Fraction, b: Fraction)
    ensures
        a.less(b) || a.same(b) || b.less(a),
        !(a.less(b) && a.same(b)),
        !(a.less(b) && b.less(a)),
        !(b.less(a) && a.same(b)),
        a.same(b) == b.same(a),
{
}

/// The order on fractions is transitive: from `a <= b` and `b <= c` follows
/// `a <= c`, strictly if one of the two steps is strict, and with equality if
/// both are equalities.
pub proof fn lemma_fraction_transitive(a: Fraction, b: Fraction, c: Fraction)
    requires
        a.wf(),
        b.wf(),
        c.wf(),
        !b.less(a),
        !c.less(b),
    ensures
        !c.less(a),
        a.same(b) && b.same(c) ==> a.same(c),
        a.less(b) || b.less(c) ==> a.less(c),
{
    let (an, ad) = (a.num as int, a.den as int);
    let (bn, bd) = (b.num as int, b.den as int);
    let (cn, cd) = (c.num as int, c.den as int);
    assert(an * bd <= bn * ad);
    assert(bn * cd <= cn * bd);
    assert(an * cd * bd <= cn * ad * bd) by (nonlinear_arith)
        requires
            an * bd <= bn * ad,
            bn * cd <= cn * bd,
            ad > 0,
            bd > 0,
            cd > 0,
            an >= 0,
            bn >= 0,
            cn >= 0,
    ;
    assert(an * cd <= cn * ad) by (nonlinear_arith)
        requires
            an * cd * bd <= cn * ad * bd,
            bd > 0,
    ;
    if a.less(b) || b.less(c) {
        assert(an * cd * bd < cn * ad * bd) by (nonlinear_arith)
            requires
                an * bd <= bn * ad,
                bn * cd <= cn * bd,
                an * bd < bn * ad || bn * cd < cn * bd,
                ad > 0,
                bd > 0,
                cd > 0,
                an >= 0,
                bn >= 0,
                cn >= 0,
        ;
        assert(an * cd < cn * ad) by (nonlinear_arith)
            requires
                an * cd * bd < cn * ad * bd,
                bd > 0,
        ;
    }
    if a.same(b) && b.same(c) {
        assert(an * cd * bd == cn * ad * bd) by (nonlinear_arith)
            requires
                an * bd == bn * ad,
                bn * cd == cn * bd,
        ;
        assert(an * cd == cn * ad) by (nonlinear_arith)
            requires
                an * cd * bd == cn * ad * bd,
                bd > 0,
        ;
    }
}

} // verus!
