use vstd::prelude::*;

verus! {

/// A point or a distance in the plane.
#[derive(Debug, Copy, Clone, PartialEq, Eq, Structural)]
pub struct Vector2D<T> {
    x: T,
    y: T,
}

impl<T: Copy> Vector2D<T> {
    pub closed spec fn spec_x(&self) -> T {
        self.x
    }

    pub closed spec fn spec_y(&self) -> T {
        self.y
    }

    pub closed spec fn spec_new(x: T, y: T) -> Vector2D<T> {
        Vector2D { x, y }
    }

    #[verifier::when_used_as_spec(spec_new)]
    pub fn new(x: T, y: T) -> (vector: Vector2D<T>)
        ensures
            vector == Self::spec_new(x, y),
            vector.x() == x,
            vector.y() == y,
    {
        Self { x, y }
    }

    #[verifier::when_used_as_spec(spec_x)]
    pub fn x(&self) -> (x: T)
        ensures
            x == self.spec_x(),
    {
        self.x
    }

    #[verifier::when_used_as_spec(spec_y)]
    pub fn y(&self) -> (y: T)
        ensures
            y == self.spec_y(),
    {
        self.y
    }
}

/// A vector is made of its two coordinates.
pub proof fn lemma_vector<T: Copy>(x: T, y: T)
    ensures
        Vector2D::new(x, y).x() == x,
        Vector2D::new(x, y).y() == y,
{
}

/// Two vectors are equal, and `==` says so, exactly when their coordinates
/// are equal.
pub proof fn lemma_vector_equality<T: Copy>(a: Vector2D<T>, b: Vector2D<T>)
    ensures
        a == b <==> a.x() == b.x() && a.y() == b.y(),
{
}

impl Vector2D<usize> {
    /// The point in the upper left corner.
    pub fn zeros() -> (vector: Vector2D<usize>)
        ensures
            vector == Vector2D::new(0usize, 0usize),
    {
        Self::new(0, 0)
    }
}

/// The extent of an area in pixels or bytes.
#[derive(Debug, Copy, Clone, PartialEq, Eq, Structural)]
pub struct Size {
    width: usize,
    height: usize,
}

impl Size {
    pub closed spec fn spec_width(&self) -> usize {
        self.width
    }

    pub closed spec fn spec_height(&self) -> usize {
        self.height
    }

    pub closed spec fn spec_new(width: usize, height: usize) -> Size {
        Size { width, height }
    }

    #[verifier::when_used_as_spec(spec_new)]
    pub fn new(width: usize, height: usize) -> (size: Size)
        ensures
            size == Self::spec_new(width, height),
            size.width() == width,
            size.height() == height,
    {
        Self { width, height }
    }

    #[verifier::when_used_as_spec(spec_width)]
    pub fn width(&self) -> (width: usize)
        ensures
            width == self.spec_width(),
    {
        self.width
    }

    #[verifier::when_used_as_spec(spec_height)]
    pub fn height(&self) -> (height: usize)
        ensures
            height == self.spec_height(),
    {
        self.height
    }
}

/// A size is made of its width and its height.
pub proof fn lemma_size(width: usize, height: usize)
    ensures
        Size::new(width, height).width() == width,
        Size::new(width, height).height() == height,
{
}

} // verus!
