//! What a ray strikes: the side of the surface it meets, and which of
//! several strikes comes first.

use vstd::prelude::*;
use vstd::std_specs::cmp::PartialOrdIs;
use vstd::std_specs::cmp::PartialOrdSpec;
use std::cmp::Ordering;
use crate::math::Mathematical;

verus! {

/// The side of a surface that a ray strikes.
#[derive(Clone, Copy, Debug, PartialEq, Eq, Structural)]
pub enum Face {
    /// The ray came from outside and runs against the outward normal.
    Front,
    /// The ray came from inside.
    Back,
}

impl Face {
    /// The side that a ray strikes, from how the dot product of its
    /// direction with the outward normal compares with zero: the front where
    /// the product is below zero, the back in every other case.
    pub fn of_incidence(sign: Option<Ordering>) -> (face: Face)
        ensures
            face == if sign == Some(Ordering::Less) {
                Face::Front
            } else {
                Face::Back
            },
    {
        match sign {
            Some(Ordering::Less) => Face::Front,
            _ => Face::Back,
        }
    }
}

/// Whether the order of `T` computes what its specification says, and that
/// specification is a strict order: nothing is below itself, and what is
/// below something below a third is below the third.
pub open spec fn obeys_strict_order<T: PartialOrd>() -> bool {
    &&& T::obeys_partial_cmp_spec()
    &&& forall|x: T| !(#[trigger] x.partial_cmp_spec(&x) == Some(Ordering::Less))
    &&& forall|x: T, y: T, z: T|
        #![trigger x.partial_cmp_spec(&y), y.partial_cmp_spec(&z)]
        x.is_lt(&y) && y.is_lt(&z) ==> x.is_lt(&z)
}

/// The position of a strike that comes first: none of `times` is below the
/// time at that position. Without strikes there is none.
pub fn nearest<T: Mathematical>(times: &Vec<T>) -> (first: Option<usize>)
    ensures
        first is None <==> times.len() == 0,
        first matches Some(i) ==> i < times.len(),
        obeys_strict_order::<T>() ==> (first matches Some(i) ==> forall|j: int|
            0 <= j < times.len() ==> !(#[trigger] times[j]).is_lt(&times[i as int])),
{
    if times.len() == 0 {
        return None;
    }
    let mut best: usize = 0;
    let mut next: usize = 1;
    while next < times.len()
        invariant
            best < next <= times.len(),
            obeys_strict_order::<T>() ==> forall|j: int|
                0 <= j < next ==> !(#[trigger] times[j]).is_lt(&times[best as int]),
        decreases times.len() - next,
    {
        if times[next] < times[best] {
            best = next;
        }
        next = next + 1;
    }
    Some(best)
}

} // verus!
