//! Geometry primitives: integer points and axis-aligned rectangles,
//! with the open-interval intersection test used for collision checks.

use vstd::prelude::*;

verus! {

/// An integer 2D coordinate.
#[derive(Clone, Copy, Debug)]
pub struct Point {
    pub x: i16,
    pub y: i16,
}

/// Mathematical model of a `Point`.
pub ghost struct PointView {
    pub x: int,
    pub y: int,
}

impl View for Point {
    type V = PointView;

    open spec fn view(&self) -> PointView {
        PointView { x: self.x as int, y: self.y as int }
    }
}

/// An axis-aligned bounding box. Its well-formedness invariant asks for
/// non-negative width and height and for edges that stay within `i16`.
#[derive(Clone, Copy, Debug)]
pub struct Rect {
    pub position: Point,
    pub width: i16,
    pub height: i16,
}

/// Mathematical model of a `Rect`.
pub ghost struct RectView {
    pub x: int,
    pub y: int,
    pub width: int,
    pub height: int,
}

impl RectView {
    /// The x coordinate one past the rightmost column covered.
    pub open spec fn right(self) -> int {
        self.x + self.width
    }

    /// The y coordinate one past the bottommost row covered.
    pub open spec fn bottom(self) -> int {
        self.y + self.height
    }

    /// Non-negative extent, with both derived edges representable in `i16`.
    pub open spec fn wf(self) -> bool {
        &&& 0 <= self.width
        &&& 0 <= self.height
        &&& i16::MIN <= self.x
        &&& i16::MIN <= self.y
        &&& self.right() <= i16::MAX
        &&& self.bottom() <= i16::MAX
    }
}

/// Two boxes intersect iff they overlap on both axes as open intervals:
/// boxes that only share an edge do not intersect.
pub open spec fn spec_intersects(a: RectView, b: RectView) -> bool {
    &&& a.x < b.right()
    &&& a.right() > b.x
    &&& a.y < b.bottom()
    &&& a.bottom() > b.y
}

impl View for Rect {
    type V = RectView;

    open spec fn view(&self) -> RectView {
        RectView {
            x: self.position.x as int,
            y: self.position.y as int,
            width: self.width as int,
            height: self.height as int,
        }
    }
}

impl Rect {
    pub fn new(position: Point, width: i16, height: i16) -> (r: Rect)
        ensures
            r@ == (RectView { x: position@.x, y: position@.y, width: width as int, height: height as int }),
    {
        Rect { position, width, height }
    }

    pub fn new_from_x_y(x: i16, y: i16, width: i16, height: i16) -> (r: Rect)
        ensures
            r@ == (RectView { x: x as int, y: y as int, width: width as int, height: height as int }),
    {
        Rect::new(Point { x, y }, width, height)
    }

    /// The open-interval intersection test; see `spec_intersects`.
    pub fn intersects(&self, rect: &Rect) -> (r: bool)
        requires
            i16::MIN <= self@.right() <= i16::MAX,
            i16::MIN <= self@.bottom() <= i16::MAX,
            i16::MIN <= rect@.right() <= i16::MAX,
            i16::MIN <= rect@.bottom() <= i16::MAX,
        ensures
            r == spec_intersects(self@, rect@),
    {
        (self.x() < rect.right())
            && (self.right() > rect.x())
            && (self.y() < rect.bottom())
            && (self.bottom() > rect.y())
    }

    pub fn right(&self) -> (r: i16)
        requires
            i16::MIN <= self@.right() <= i16::MAX,
        ensures
            r as int == self@.right(),
    {
        self.position.x + self.width
    }

    pub fn bottom(&self) -> (r: i16)
        requires
            i16::MIN <= self@.bottom() <= i16::MAX,
        ensures
            r as int == self@.bottom(),
    {
        self.position.y + self.height
    }

    pub fn x(&self) -> (r: i16)
        ensures
            r as int == self@.x,
    {
        self.position.x
    }

    pub fn set_x(&mut self, x: i16)
        ensures
            final(self)@ == (RectView { x: x as int, ..old(self)@ }),
    {
        self.position.x = x
    }

    pub fn y(&self) -> (r: i16)
        ensures
            r as int == self@.y,
    {
        self.position.y
    }
}

/// Intersection is symmetric.
pub proof fn lemma_intersects_symmetric(a: RectView, b: RectView)
    ensures
        spec_intersects(a, b) == spec_intersects(b, a),
{
}

/// Boxes that only touch along an edge do not intersect: the test is
/// over open intervals on both axes.
pub proof fn lemma_edge_touching_does_not_intersect(a: RectView, b: RectView)
    ensures
        a.right() == b.x ==> !spec_intersects(a, b),
        b.right() == a.x ==> !spec_intersects(a, b),
        a.bottom() == b.y ==> !spec_intersects(a, b),
        b.bottom() == a.y ==> !spec_intersects(a, b),
{
}

} // verus!
