use vstd::prelude::*;

use crate::vector::Vector2D;

verus! {

/// The area between an upper left corner, which belongs to it, and a lower
/// right corner, which does not.
#[derive(Debug, Copy, Clone, PartialEq, Eq, Structural)]
pub struct Rectangle<T> {
    origin: Vector2D<T>,
    end: Vector2D<T>,
}

impl<T: Copy> Rectangle<T> {
    pub closed spec fn spec_origin(&self) -> Vector2D<T> {
        self.origin
    }

    pub closed spec fn spec_end(&self) -> Vector2D<T> {
        self.end
    }

    pub closed spec fn spec_new(origin: Vector2D<T>, end: Vector2D<T>) -> Rectangle<T> {
        Rectangle { origin, end }
    }

    #[verifier::when_used_as_spec(spec_new)]
    pub fn new(origin: Vector2D<T>, end: Vector2D<T>) -> (rectangle: Rectangle<T>)
        ensures
            rectangle == Self::spec_new(origin, end),
            rectangle.origin() == origin,
            rectangle.end() == end,
    {
        Self { origin, end }
    }

    /// The upper left corner.
    #[verifier::when_used_as_spec(spec_origin)]
    pub fn origin(&self) -> (origin: Vector2D<T>)
        ensures
            origin == self.spec_origin(),
    {
        self.origin
    }

    /// The lower right corner.
    #[verifier::when_used_as_spec(spec_end)]
    pub fn end(&self) -> (end: Vector2D<T>)
        ensures
            end == self.spec_end(),
    {
        self.end
    }
}

/// A rectangle is made of its two corners.
pub proof fn lemma_rectangle<T: Copy>(origin: Vector2D<T>, end: Vector2D<T>)
    ensures
        Rectangle::new(origin, end).origin() == origin,
        Rectangle::new(origin, end).end() == end,
{
}

/// Two rectangles are equal, and `==` says so, exactly when their upper
/// left corners are equal and their lower right corners are equal.
pub proof fn lemma_rectangle_equality<T: Copy>(a: Rectangle<T>, b: Rectangle<T>)
    ensures
        a == b <==> a.origin() == b.origin() && a.end() == b.end(),
{
}

impl Rectangle<usize> {
    /// The number of columns; zero where the corners are the wrong way
    /// round.
    pub open spec fn spec_width(&self) -> usize {
        if self.end().x() >= self.origin().x() {
            (self.end().x() - self.origin().x()) as usize
        } else {
            0
        }
    }

    /// The number of rows; zero where the corners are the wrong way round.
    pub open spec fn spec_height(&self) -> usize {
        if self.end().y() >= self.origin().y() {
            (self.end().y() - self.origin().y()) as usize
        } else {
            0
        }
    }

    #[verifier::when_used_as_spec(spec_width)]
    pub fn width(&self) -> (width: usize)
        ensures
            width == self.spec_width(),
    {
        if self.end.x() >= self.origin.x() {
            self.end.x() - self.origin.x()
        } else {
            0
        }
    }

    #[verifier::when_used_as_spec(spec_height)]
    pub fn height(&self) -> (height: usize)
        ensures
            height == self.spec_height(),
    {
        if self.end.y() >= self.origin.y() {
            self.end.y() - self.origin.y()
        } else {
            0
        }
    }
}

} // verus!
