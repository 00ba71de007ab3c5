//! Points, rectangles, circles, images and the shape variant over them.
use crate::path::{PathCommand, PathShape};
use crate::scalar::Scalar;
use vstd::prelude::*;

verus! {

/// A position in the plane.
#[derive(Clone, Copy, PartialEq, Eq, Structural, Debug)]
pub struct Point {
    pub x: Scalar,
    pub y: Scalar,
}

impl Point {
    pub open spec fn shifted(self, dx: Scalar, dy: Scalar) -> Point {
        Point { x: self.x.spec_add(dx), y: self.y.spec_add(dy) }
    }

    pub fn new(x: Scalar, y: Scalar) -> (r: Point)
        ensures
            r.x == x,
            r.y == y,
    {
        Point { x, y }
    }

    /// Componentwise sum.
    pub fn add(&self, other: &Point) -> (r: Point)
        ensures
            r.x == self.x.spec_add(other.x),
            r.y == self.y.spec_add(other.y),
    {
        Point { x: self.x.add(other.x), y: self.y.add(other.y) }
    }

    /// The point moved by `(dx, dy)`.
    pub fn translated(&self, dx: Scalar, dy: Scalar) -> (r: Point)
        ensures
            r == self.shifted(dx, dy),
    {
        Point { x: self.x.add(dx), y: self.y.add(dy) }
    }
}

/// A displacement; same representation as `Point`.
#[derive(Clone, Copy, PartialEq, Eq, Structural, Debug)]
pub struct Vector {
    pub x: Scalar,
    pub y: Scalar,
}

impl Vector {
    pub fn new(x: Scalar, y: Scalar) -> (r: Vector)
        ensures
            r.x == x,
            r.y == y,
    {
        Vector { x, y }
    }
}

/// An axis-aligned rectangle given by its top-left corner and its size.
#[derive(Clone, Copy, PartialEq, Eq, Structural, Debug)]
pub struct Rect {
    pub origin: Point,
    pub width: Scalar,
    pub height: Scalar,
}

impl Rect {
    pub open spec fn right(self) -> Scalar {
        self.origin.x.spec_add(self.width)
    }

    pub open spec fn bottom(self) -> Scalar {
        self.origin.y.spec_add(self.height)
    }

    /// Containment, inclusive on all four edges.
    pub open spec fn spec_contains(self, p: Point) -> bool {
        &&& self.origin.x.bits <= p.x.bits <= self.right().bits
        &&& self.origin.y.bits <= p.y.bits <= self.bottom().bits
    }

    /// Overlap of the two boxes; boxes that only touch overlap.
    pub open spec fn spec_intersects(self, o: Rect) -> bool {
        &&& o.origin.x.bits <= self.right().bits
        &&& self.origin.x.bits <= o.right().bits
        &&& o.origin.y.bits <= self.bottom().bits
        &&& self.origin.y.bits <= o.bottom().bits
    }

    /// `o` lies inside `self`.
    pub open spec fn encloses(self, o: Rect) -> bool {
        &&& self.origin.x.bits <= o.origin.x.bits
        &&& o.right().bits <= self.right().bits
        &&& self.origin.y.bits <= o.origin.y.bits
        &&& o.bottom().bits <= self.bottom().bits
    }

    pub open spec fn is_zero(self) -> bool {
        self.origin.x.bits == 0 && self.origin.y.bits == 0 && self.width.bits == 0
            && self.height.bits == 0
    }

    pub open spec fn new_spec(x: Scalar, y: Scalar, width: Scalar, height: Scalar) -> Rect {
        Rect { origin: Point { x, y }, width, height }
    }

    pub fn new(x: Scalar, y: Scalar, width: Scalar, height: Scalar) -> (r: Rect)
        ensures
            r == Rect::new_spec(x, y, width, height),
    {
        Rect { origin: Point { x, y }, width, height }
    }

    pub fn new_scalar(x: Scalar, y: Scalar, width: Scalar, height: Scalar) -> (r: Rect)
        ensures
            r == Rect::new_spec(x, y, width, height),
    {
        Rect::new(x, y, width, height)
    }

    /// The rectangle at the origin with no extent.
    pub fn zero() -> (r: Rect)
        ensures
            r.is_zero(),
    {
        Rect::new(Scalar::zero(), Scalar::zero(), Scalar::zero(), Scalar::zero())
    }

    /// Moves the origin by `(dx, dy)`.
    pub fn translate(&mut self, dx: Scalar, dy: Scalar)
        ensures
            *final(self) == (Rect { origin: old(self).origin.shifted(dx, dy), ..*old(self) }),
    {
        self.origin = self.origin.translated(dx, dy);
    }

    /// Multiplies width and height by `factor`; a negative result is clamped to 0.
    pub fn resize(&mut self, factor: Scalar)
        ensures
            final(self).origin == old(self).origin,
            final(self).width.bits == if old(self).width.spec_mul(factor).bits < 0 {
                0
            } else {
                old(self).width.spec_mul(factor).bits
            },
            final(self).height.bits == if old(self).height.spec_mul(factor).bits < 0 {
                0
            } else {
                old(self).height.spec_mul(factor).bits
            },
    {
        let w = self.width.mul(factor);
        let h = self.height.mul(factor);
        self.width = if w.bits < 0 {
            Scalar::zero()
        } else {
            w
        };
        self.height = if h.bits < 0 {
            Scalar::zero()
        } else {
            h
        };
    }

    pub fn contains(&self, p: &Point) -> (r: bool)
        ensures
            r == self.spec_contains(*p),
    {
        let right = self.origin.x.add(self.width);
        let bottom = self.origin.y.add(self.height);
        p.x.bits >= self.origin.x.bits && p.x.bits <= right.bits && p.y.bits >= self.origin.y.bits
            && p.y.bits <= bottom.bits
    }

    pub fn intersects(&self, other: &Rect) -> (r: bool)
        ensures
            r == self.spec_intersects(*other),
    {
        let right = self.origin.x.add(self.width);
        let bottom = self.origin.y.add(self.height);
        let o_right = other.origin.x.add(other.width);
        let o_bottom = other.origin.y.add(other.height);
        !(other.origin.x.bits > right.bits || o_right.bits < self.origin.x.bits
            || other.origin.y.bits > bottom.bits || o_bottom.bits < self.origin.y.bits)
    }
}

/// Squared distance between two points, each step saturating.
pub open spec fn dist_sq(a: Point, b: Point) -> Scalar {
    let dx = a.x.spec_sub(b.x);
    let dy = a.y.spec_sub(b.y);
    dx.spec_mul(dx).spec_add(dy.spec_mul(dy))
}

/// A circle given by its center and radius.
#[derive(Clone, Copy, PartialEq, Eq, Structural, Debug)]
pub struct Circle {
    pub center: Point,
    pub radius: Scalar,
}

impl Circle {
    /// Containment by squared distance against squared radius.
    pub open spec fn spec_contains(self, p: Point) -> bool {
        dist_sq(p, self.center).bits <= self.radius.spec_mul(self.radius).bits
    }

    /// The square of side `2r` centered on the center.
    pub open spec fn spec_bounding_box(self) -> Rect {
        Rect {
            origin: Point {
                x: self.center.x.spec_sub(self.radius),
                y: self.center.y.spec_sub(self.radius),
            },
            width: self.radius.spec_mul(Scalar { bits: 131072 }),
            height: self.radius.spec_mul(Scalar { bits: 131072 }),
        }
    }

    pub fn new(x: Scalar, y: Scalar, radius: Scalar) -> (r: Circle)
        ensures
            r.center == (Point { x, y }),
            r.radius == radius,
    {
        Circle { center: Point { x, y }, radius }
    }

    pub fn translate(&mut self, dx: Scalar, dy: Scalar)
        ensures
            *final(self) == (Circle { center: old(self).center.shifted(dx, dy), ..*old(self) }),
    {
        self.center = self.center.translated(dx, dy);
    }

    pub fn contains(&self, p: &Point) -> (r: bool)
        ensures
            r == self.spec_contains(*p),
    {
        let dx = p.x.sub(self.center.x);
        let dy = p.y.sub(self.center.y);
        dx.mul(dx).add(dy.mul(dy)).bits <= self.radius.mul(self.radius).bits
    }

    pub fn get_bounding_box(&self) -> (r: Rect)
        ensures
            r == self.spec_bounding_box(),
    {
        let two = Scalar::from_int(2);
        Rect {
            origin: Point { x: self.center.x.sub(self.radius), y: self.center.y.sub(self.radius) },
            width: self.radius.mul(two),
            height: self.radius.mul(two),
        }
    }
}

/// A group of elements, named by id; it carries no geometry of its own.
#[derive(Clone, Debug)]
pub struct Group {
    pub children: Vec<String>,
}

/// A bitmap placed in the plane; `src` names an asset.
#[derive(Clone, Debug)]
pub struct Image {
    pub src: String,
    pub width: Scalar,
    pub height: Scalar,
    pub origin: Point,
}

impl Image {
    pub open spec fn spec_bounding_box(self) -> Rect {
        Rect { origin: self.origin, width: self.width, height: self.height }
    }

    pub fn get_bounding_box(&self) -> (r: Rect)
        ensures
            r == self.spec_bounding_box(),
    {
        Rect { origin: self.origin, width: self.width, height: self.height }
    }

    pub fn contains(&self, p: &Point) -> (r: bool)
        ensures
            r == self.spec_bounding_box().spec_contains(*p),
    {
        self.get_bounding_box().contains(p)
    }
}

/// The geometry of an element.
#[derive(Clone, Debug)]
pub enum Shape {
    Rect(Rect),
    Circle(Circle),
    Group(Group),
    Image(Image),
    Path(PathShape),
}

/// `new` is `old` moved by `(dx, dy)`: the single anchor of a rectangle,
/// circle or image, every point of every path command; a group is unchanged.
pub open spec fn translated_shape(old: Shape, new: Shape, dx: Scalar, dy: Scalar) -> bool {
    match old {
        Shape::Rect(r) => new == Shape::Rect(Rect { origin: r.origin.shifted(dx, dy), ..r }),
        Shape::Circle(c) => new == Shape::Circle(
            Circle { center: c.center.shifted(dx, dy), ..c },
        ),
        Shape::Image(i) => new == Shape::Image(Image { origin: i.origin.shifted(dx, dy), ..i }),
        Shape::Group(g) => new == Shape::Group(g),
        Shape::Path(p) => match new {
            Shape::Path(q) => q.commands@ == p.commands@.map_values(
                |c: PathCommand| c.shifted(dx, dy),
            ),
            _ => false,
        },
    }
}

impl Shape {
    pub open spec fn spec_bounding_box(self) -> Rect {
        match self {
            Shape::Rect(r) => r,
            Shape::Circle(c) => c.spec_bounding_box(),
            Shape::Image(i) => i.spec_bounding_box(),
            Shape::Group(_) => Rect {
                origin: Point { x: Scalar { bits: 0 }, y: Scalar { bits: 0 } },
                width: Scalar { bits: 0 },
                height: Scalar { bits: 0 },
            },
            Shape::Path(p) => p.spec_bounds(),
        }
    }

    pub open spec fn spec_contains_point(self, p: Point) -> bool {
        match self {
            Shape::Rect(r) => r.spec_contains(p),
            Shape::Circle(c) => c.spec_contains(p),
            Shape::Image(i) => i.spec_bounding_box().spec_contains(p),
            Shape::Group(_) => false,
            Shape::Path(q) => q.spec_bounds().spec_contains(p),
        }
    }

    /// Moves the shape by `(dx, dy)`.
    pub fn translate(&mut self, dx: Scalar, dy: Scalar)
        ensures
            translated_shape(*old(self), *final(self), dx, dy),
    {
        match self {
            Shape::Rect(r) => r.translate(dx, dy),
            Shape::Circle(c) => c.translate(dx, dy),
            Shape::Image(i) => {
                i.origin = i.origin.translated(dx, dy);
            },
            Shape::Group(_) => {},
            Shape::Path(p) => p.translate(dx, dy),
        }
    }

    /// The axis-aligned bounding box; a group has the zero rectangle here.
    pub fn get_bounding_box(&self) -> (r: Rect)
        ensures
            r == self.spec_bounding_box(),
    {
        match self {
            Shape::Rect(r) => *r,
            Shape::Circle(c) => c.get_bounding_box(),
            Shape::Image(i) => i.get_bounding_box(),
            Shape::Group(_) => Rect::zero(),
            Shape::Path(p) => p.get_bounds(),
        }
    }

    /// Hit test; a path is tested against its bounding box, a group never hits.
    pub fn contains_point(&self, p: &Point) -> (r: bool)
        ensures
            r == self.spec_contains_point(*p),
    {
        match self {
            Shape::Rect(r) => r.contains(p),
            Shape::Circle(c) => c.contains(p),
            Shape::Image(i) => i.contains(p),
            Shape::Group(_) => false,
            Shape::Path(q) => q.get_bounds().contains(p),
        }
    }
}

} // verus!
