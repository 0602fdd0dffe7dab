//! Exact rational slopes for shadowcasting.
use core::cmp::Ordering;
use vstd::prelude::*;
use vstd::std_specs::cmp::PartialOrdSpecImpl;

verus! {

/// A fraction `numerator / denominator`, compared by cross-multiplication.
#[derive(Clone, Copy, Debug, PartialEq, Eq, Structural)]
pub struct Fraction {
    pub numerator: i32,
    pub denominator: i32,
}

/// How two fractions compare: the sign of `a.num * b.den - b.num * a.den`.
pub open spec fn fraction_order(a: Fraction, b: Fraction) -> Ordering {
    let left = a.numerator * b.denominator;
    let right = b.numerator * a.denominator;
    if left < right {
        Ordering::Less
    } else if left == right {
        Ordering::Equal
    } else {
        Ordering::Greater
    }
}

impl Fraction {
    /// The fraction `numerator / denominator`, stored as given.
    pub fn new(numerator: i32, denominator: i32) -> (f: Self)
        ensures
            f.numerator == numerator,
            f.denominator == denominator,
    {
        Self { numerator, denominator }
    }

    /// The two cross products `self.num * other.den` and `other.num * self.den`.
    fn cross_products(&self, other: &Self) -> (r: (i64, i64))
        ensures
            r.0 == self.numerator * other.denominator,
            r.1 == other.numerator * self.denominator,
    {
        assert(-0x8000_0000 * 0x8000_0000 <= self.numerator * other.denominator
            <= 0x8000_0000 * 0x8000_0000) by (nonlinear_arith);
        assert(-0x8000_0000 * 0x8000_0000 <= other.numerator * self.denominator
            <= 0x8000_0000 * 0x8000_0000) by (nonlinear_arith);
        let left = self.numerator as i64 * other.denominator as i64;
        let right = other.numerator as i64 * self.denominator as i64;
        (left, right)
    }

    fn cmp_fraction(&self, other: &Self) -> (o: Ordering)
        ensures
            o == fraction_order(*self, *other),
    {
        let (left, right) = self.cross_products(other);
        if left < right {
            Ordering::Less
        } else if left == right {
            Ordering::Equal
        } else {
            Ordering::Greater
        }
    }
}

impl PartialOrd for Fraction {
    fn partial_cmp(&self, other: &Self) -> (o: Option<Ordering>) {
        Some(self.cmp_fraction(other))
    }
}

impl PartialOrdSpecImpl for Fraction {
    open spec fn obeys_partial_cmp_spec() -> bool {
        true
    }

    open spec fn partial_cmp_spec(&self, other: &Self) -> Option<Ordering> {
        Some(fraction_order(*self, *other))
    }
}

} // verus!
