//! The kinds of roots of a quadratic equation.

use vstd::prelude::*;
use std::cmp::Ordering;

verus! {

/// What roots a quadratic equation with real coefficients has.
#[derive(Clone, Copy, Debug, PartialEq, Eq, Structural)]
pub enum Roots {
    /// One real root, met twice.
    OneReal,
    /// Two real roots.
    TwoReal,
    /// Two complex roots, and no real one.
    TwoComplex,
}

impl Roots {
    /// The roots of an equation whose discriminant compares with zero as
    /// `sign` says: below zero there is no real root, at zero there is one,
    /// above zero there are two.
    pub fn of_discriminant(sign: Ordering) -> (roots: Roots)
        ensures
            roots == match sign {
                Ordering::Less => Roots::TwoComplex,
                Ordering::Equal => Roots::OneReal,
                Ordering::Greater => Roots::TwoReal,
            },
    {
        match sign {
            Ordering::Less => Roots::TwoComplex,
            Ordering::Equal => Roots::OneReal,
            Ordering::Greater => Roots::TwoReal,
        }
    }

    /// How many real roots there are to find.
    pub fn real_count(&self) -> (count: usize)
        ensures
            count == match *self {
                Roots::TwoComplex => 0usize,
                Roots::OneReal => 1usize,
                Roots::TwoReal => 2usize,
            },
    {
        match self {
            Roots::TwoComplex => 0,
            Roots::OneReal => 1,
            Roots::TwoReal => 2,
        }
    }
}

} // verus!
