//! Collision tests and resolution between rectangles and circles.
use crate::geometry::{dist_sq, Circle, Point, Rect};
use crate::scalar::Scalar;
use vstd::prelude::*;

verus! {

/// `v` clamped into `[lo, hi]` (`lo` wins when the interval is empty).
pub open spec fn clamp_to(v: Scalar, lo: Scalar, hi: Scalar) -> Scalar {
    if v.bits < lo.bits {
        lo
    } else if v.bits > hi.bits {
        hi
    } else {
        v
    }
}

/// The point of `rect` nearest to `p`.
pub open spec fn nearest_in(rect: Rect, p: Point) -> Point {
    Point {
        x: clamp_to(p.x, rect.origin.x, rect.right()),
        y: clamp_to(p.y, rect.origin.y, rect.bottom()),
    }
}

/// `moving` pushed out of `obstacle` along the axis and side of least overlap.
pub open spec fn pushed_out(moving: Rect, obstacle: Rect) -> Rect {
    let ox1 = moving.right().spec_sub(obstacle.origin.x);
    let ox2 = obstacle.right().spec_sub(moving.origin.x);
    let oy1 = moving.bottom().spec_sub(obstacle.origin.y);
    let oy2 = obstacle.bottom().spec_sub(moving.origin.y);
    let min_x = if ox1.bits < ox2.bits { ox1 } else { ox2 };
    let min_y = if oy1.bits < oy2.bits { oy1 } else { oy2 };
    if min_x.bits < min_y.bits {
        if ox1.bits < ox2.bits {
            Rect { origin: Point { x: moving.origin.x.spec_sub(ox1), ..moving.origin }, ..moving }
        } else {
            Rect { origin: Point { x: moving.origin.x.spec_add(ox2), ..moving.origin }, ..moving }
        }
    } else {
        if oy1.bits < oy2.bits {
            Rect { origin: Point { y: moving.origin.y.spec_sub(oy1), ..moving.origin }, ..moving }
        } else {
            Rect { origin: Point { y: moving.origin.y.spec_add(oy2), ..moving.origin }, ..moving }
        }
    }
}

/// When the rectangles overlap, moves `moving` out of `obstacle` along the
/// axis of least overlap and returns true; otherwise returns false and leaves
/// `moving` as it was.
pub fn resolve_collision(moving: &mut Rect, obstacle: &Rect) -> (r: bool)
    ensures
        r == old(moving).spec_intersects(*obstacle),
        r ==> *final(moving) == pushed_out(*old(moving), *obstacle),
        !r ==> *final(moving) == *old(moving),
{
    if !moving.intersects(obstacle) {
        return false;
    }
    let ox1 = moving.origin.x.add(moving.width).sub(obstacle.origin.x);
    let ox2 = obstacle.origin.x.add(obstacle.width).sub(moving.origin.x);
    let oy1 = moving.origin.y.add(moving.height).sub(obstacle.origin.y);
    let oy2 = obstacle.origin.y.add(obstacle.height).sub(moving.origin.y);
    let min_x = if ox1.bits < ox2.bits {
        ox1
    } else {
        ox2
    };
    let min_y = if oy1.bits < oy2.bits {
        oy1
    } else {
        oy2
    };
    if min_x.bits < min_y.bits {
        if ox1.bits < ox2.bits {
            moving.origin.x = moving.origin.x.sub(ox1);
        } else {
            moving.origin.x = moving.origin.x.add(ox2);
        }
    } else {
        if oy1.bits < oy2.bits {
            moving.origin.y = moving.origin.y.sub(oy1);
        } else {
            moving.origin.y = moving.origin.y.add(oy2);
        }
    }
    true
}

/// Two circles meet when the squared distance of their centers is at most
/// the square of the sum of their radii.
pub fn circle_intersects_circle(c1: &Circle, c2: &Circle) -> (r: bool)
    ensures
        r == (dist_sq(c1.center, c2.center).bits <= c1.radius.spec_add(c2.radius).spec_mul(
            c1.radius.spec_add(c2.radius),
        ).bits),
{
    let dx = c1.center.x.sub(c2.center.x);
    let dy = c1.center.y.sub(c2.center.y);
    let distance_sq = dx.mul(dx).add(dy.mul(dy));
    let radius_sum = c1.radius.add(c2.radius);
    distance_sq.bits <= radius_sum.mul(radius_sum).bits
}

/// A circle meets a rectangle when the point of the rectangle nearest to its
/// center lies within the radius.
pub fn circle_intersects_rect(circle: &Circle, rect: &Rect) -> (r: bool)
    ensures
        r == (dist_sq(circle.center, nearest_in(*rect, circle.center)).bits
            <= circle.radius.spec_mul(circle.radius).bits),
{
    let right = rect.origin.x.add(rect.width);
    let bottom = rect.origin.y.add(rect.height);
    let mut closest_x = circle.center.x;
    let mut closest_y = circle.center.y;
    if circle.center.x.bits < rect.origin.x.bits {
        closest_x = rect.origin.x;
    } else if circle.center.x.bits > right.bits {
        closest_x = right;
    }
    if circle.center.y.bits < rect.origin.y.bits {
        closest_y = rect.origin.y;
    } else if circle.center.y.bits > bottom.bits {
        closest_y = bottom;
    }
    let dx = circle.center.x.sub(closest_x);
    let dy = circle.center.y.sub(closest_y);
    dx.mul(dx).add(dy.mul(dy)).bits <= circle.radius.mul(circle.radius).bits
}

} // verus!
