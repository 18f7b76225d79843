//! Scalar utilities, written once for every number type that can be copied,
//! compared and combined by the four arithmetic operators.

use vstd::prelude::*;
use vstd::std_specs::cmp::PartialOrdIs;
use vstd::std_specs::cmp::PartialOrdSpec;
use vstd::std_specs::ops::AddSpec;
use vstd::std_specs::ops::DivSpec;
use vstd::std_specs::ops::MulSpec;
use vstd::std_specs::ops::SubSpec;
use std::ops::Add;
use std::ops::Div;
use std::ops::Mul;
use std::ops::Sub;

verus! {

/// A range `[start, end)`.
#[derive(Clone, Copy)]
pub struct Range<T> {
    start: T,
    end: T,
}

impl<T> View for Range<T> {
    type V = (T, T);

    closed spec fn view(&self) -> (T, T) {
        (self.start, self.end)
    }
}

impl<T: PartialOrd> Range<T> {
    /// Whether `value` lies at or above the start of the range and below its
    /// end, by the order of `T`.
    pub open spec fn spec_contains(self, value: T) -> bool {
        self@.0.is_le(&value) && value.is_lt(&self@.1)
    }
}

/// A number type: copied freely, compared, and combined by `+ - * /`.
pub trait Mathematical: Copy + PartialOrd + Add<Output = Self> + Sub<Output = Self> + Mul<
    Output = Self,
> + Div<Output = Self> {
    /// Whether the value lies in `range`: at or above its start, and below
    /// its end.
    fn is_within(self, range: Range<Self>) -> (within: bool)
        ensures
            Self::obeys_partial_cmp_spec() ==> within == range.spec_contains(self),
    {
        (range.start <= self) && (self < range.end)
    }
}

impl Mathematical for i64 {

}

impl Mathematical for usize {

}

impl<T: Mathematical> Range<T> {
    /// The range from `start` up to, and without, `end`.
    pub fn new(start: T, end: T) -> (range: Range<T>)
        ensures
            range@ == (start, end),
    {
        Range { start, end }
    }

    /// The distance from the start of the range to its end.
    pub fn dist(&self) -> (dist: T)
        requires
            self@.1.sub_req(self@.0),
        ensures
            T::obeys_sub_spec() ==> dist == self@.1.sub_spec(self@.0),
    {
        self.end - self.start
    }
}

/// The value times itself.
pub fn square<T: Mathematical>(value: T) -> (squared: T)
    requires
        value.mul_req(value),
    ensures
        T::obeys_mul_spec() ==> squared == value.mul_spec(value),
{
    value * value
}

/// Whether the four operators of `T` compute what their specifications say.
pub open spec fn obeys_arithmetic<T: Mathematical>() -> bool {
    T::obeys_add_spec() && T::obeys_sub_spec() && T::obeys_mul_spec() && T::obeys_div_spec()
}

/// Whether the four operators of `T` accept every pair of operands.
pub open spec fn total_arithmetic<T: Mathematical>() -> bool {
    forall|a: T, b: T|
        #![trigger a.add_req(b)]
        #![trigger a.sub_req(b)]
        #![trigger a.mul_req(b)]
        #![trigger a.div_req(b)]
        a.add_req(b) && a.sub_req(b) && a.mul_req(b) && a.div_req(b)
}

/// Where `val` lands when the range `src` is stretched and shifted onto the
/// range `dst`: its offset from the start of `src`, scaled by the ratio of
/// the two distances, from the start of `dst`.
pub open spec fn spec_map_range<T: Mathematical>(val: T, src: Range<T>, dst: Range<T>) -> T {
    let offset = val.sub_spec(src@.0);
    let dst_dist = dst@.1.sub_spec(dst@.0);
    let src_dist = src@.1.sub_spec(src@.0);
    offset.mul_spec(dst_dist.div_spec(src_dist)).add_spec(dst@.0)
}

/// Whether the operators accept each pair of operands that `spec_map_range`
/// hands them.
pub open spec fn map_range_req<T: Mathematical>(val: T, src: Range<T>, dst: Range<T>) -> bool {
    let offset = val.sub_spec(src@.0);
    let dst_dist = dst@.1.sub_spec(dst@.0);
    let src_dist = src@.1.sub_spec(src@.0);
    &&& val.sub_req(src@.0)
    &&& dst@.1.sub_req(dst@.0)
    &&& src@.1.sub_req(src@.0)
    &&& dst_dist.div_req(src_dist)
    &&& offset.mul_req(dst_dist.div_spec(src_dist))
    &&& offset.mul_spec(dst_dist.div_spec(src_dist)).add_req(dst@.0)
}

/// Maps `val` from the range `src` onto the range `dst`, linearly. A value
/// outside `src` is mapped by the same line.
pub fn map_range<T: Mathematical>(val: T, src: Range<T>, dst: Range<T>) -> (mapped: T)
    requires
        total_arithmetic::<T>() || (obeys_arithmetic::<T>() && map_range_req(val, src, dst)),
    ensures
        obeys_arithmetic::<T>() ==> mapped == spec_map_range(val, src, dst),
{
    ((val - src.start) * (dst.dist() / src.dist())) + dst.start
}

/// The first of `values`, in their order, that lies within `range`.
pub fn first_within<T: Mathematical>(values: &Vec<T>, range: Range<T>) -> (found: Option<T>)
    ensures
        found matches Some(value) ==> values@.contains(value),
        T::obeys_partial_cmp_spec() ==> match found {
            Some(value) => exists|i: int|
                0 <= i < values.len() && #[trigger] values[i] == value && range.spec_contains(value)
                    && forall|j: int| 0 <= j < i ==> !range.spec_contains(#[trigger] values[j]),
            None => forall|j: int|
                0 <= j < values.len() ==> !range.spec_contains(#[trigger] values[j]),
        },
{
    let mut i: usize = 0;
    while i < values.len()
        invariant
            i <= values.len(),
            T::obeys_partial_cmp_spec() ==> forall|j: int|
                0 <= j < i ==> !range.spec_contains(#[trigger] values[j]),
        decreases values.len() - i,
    {
        let value: T = values[i];
        if value.is_within(range) {
            return Some(value);
        }
        i = i + 1;
    }
    None
}

} // verus!
