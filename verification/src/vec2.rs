//! A pair of coordinates, such as a pixel position or the last pixel of an image.

use vstd::prelude::*;

verus! {

/// Two components of the same type, `x` first.
#[derive(Clone, Copy)]
pub struct Vec2<T> {
    x: T,
    y: T,
}

impl<T> View for Vec2<T> {
    type V = (T, T);

    closed spec fn view(&self) -> (T, T) {
        (self.x, self.y)
    }
}

impl<T> Vec2<T> {
    /// A pair is its two components and nothing else: pairs with the same
    /// components are the same pair.
    pub proof fn lemma_components_make_the_pair(self, other: Self)
        requires
            self@ == other@,
        ensures
            self == other,
    {
    }

    /// Builds the pair `(x, y)`.
    pub fn new(x: T, y: T) -> (pair: Self)
        ensures
            pair@ == (x, y),
    {
        Self { x, y }
    }
}

impl<T: Copy> Vec2<T> {
    /// The first component.
    pub fn x(&self) -> (x: T)
        ensures
            x == self@.0,
    {
        self.x
    }

    /// The second component.
    pub fn y(&self) -> (y: T)
        ensures
            y == self@.1,
    {
        self.y
    }
}

impl<T: Default> Default for Vec2<T> {
    /// The pair of the two default components.
    fn default() -> (pair: Self)
        ensures
            call_ensures(T::default, (), pair@.0),
            call_ensures(T::default, (), pair@.1),
    {
        Self { x: T::default(), y: T::default() }
    }
}

} // verus!
