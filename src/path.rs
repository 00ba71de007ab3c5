//! Paths made of move, line and cubic Bézier commands.
use crate::geometry::{Point, Rect};
use crate::scalar::Scalar;
use vstd::prelude::*;

verus! {

/// One drawing command of a path.
#[derive(Clone, Copy, PartialEq, Eq, Structural, Debug)]
pub enum PathCommand {
    MoveTo(Point),
    LineTo(Point),
    /// Cubic Bézier segment: first control point, second control point, end point.
    CurveTo(Point, Point, Point),
    Close,
}

impl PathCommand {
    /// The points that the command mentions, in order.
    pub open spec fn points(self) -> Seq<Point> {
        match self {
            PathCommand::MoveTo(p) => seq![p],
            PathCommand::LineTo(p) => seq![p],
            PathCommand::CurveTo(a, b, c) => seq![a, b, c],
            PathCommand::Close => seq![],
        }
    }

    pub open spec fn shifted(self, dx: Scalar, dy: Scalar) -> PathCommand {
        match self {
            PathCommand::MoveTo(p) => PathCommand::MoveTo(p.shifted(dx, dy)),
            PathCommand::LineTo(p) => PathCommand::LineTo(p.shifted(dx, dy)),
            PathCommand::CurveTo(a, b, c) => PathCommand::CurveTo(
                a.shifted(dx, dy),
                b.shifted(dx, dy),
                c.shifted(dx, dy),
            ),
            PathCommand::Close => PathCommand::Close,
        }
    }

    pub fn translated(&self, dx: Scalar, dy: Scalar) -> (r: PathCommand)
        ensures
            r == self.shifted(dx, dy),
    {
        match self {
            PathCommand::MoveTo(p) => PathCommand::MoveTo(p.translated(dx, dy)),
            PathCommand::LineTo(p) => PathCommand::LineTo(p.translated(dx, dy)),
            PathCommand::CurveTo(a, b, c) => PathCommand::CurveTo(
                a.translated(dx, dy),
                b.translated(dx, dy),
                c.translated(dx, dy),
            ),
            PathCommand::Close => PathCommand::Close,
        }
    }
}

/// Every point mentioned by a sequence of commands, in order.
pub open spec fn path_points(cmds: Seq<PathCommand>) -> Seq<Point>
    decreases cmds.len(),
{
    if cmds.len() == 0 {
        seq![]
    } else {
        path_points(cmds.drop_last()) + cmds.last().points()
    }
}

/// Least x among the points (`i64::MAX` when there is none).
pub open spec fn min_x(pts: Seq<Point>) -> i64
    decreases pts.len(),
{
    if pts.len() == 0 {
        i64::MAX
    } else if pts.last().x.bits < min_x(pts.drop_last()) {
        pts.last().x.bits
    } else {
        min_x(pts.drop_last())
    }
}

/// Greatest x among the points (`i64::MIN` when there is none).
pub open spec fn max_x(pts: Seq<Point>) -> i64
    decreases pts.len(),
{
    if pts.len() == 0 {
        i64::MIN
    } else if pts.last().x.bits > max_x(pts.drop_last()) {
        pts.last().x.bits
    } else {
        max_x(pts.drop_last())
    }
}

/// Least y among the points (`i64::MAX` when there is none).
pub open spec fn min_y(pts: Seq<Point>) -> i64
    decreases pts.len(),
{
    if pts.len() == 0 {
        i64::MAX
    } else if pts.last().y.bits < min_y(pts.drop_last()) {
        pts.last().y.bits
    } else {
        min_y(pts.drop_last())
    }
}

/// Greatest y among the points (`i64::MIN` when there is none).
pub open spec fn max_y(pts: Seq<Point>) -> i64
    decreases pts.len(),
{
    if pts.len() == 0 {
        i64::MIN
    } else if pts.last().y.bits > max_y(pts.drop_last()) {
        pts.last().y.bits
    } else {
        max_y(pts.drop_last())
    }
}

/// The axis-aligned hull of a set of points; the zero rectangle when empty.
pub open spec fn hull(pts: Seq<Point>) -> Rect {
    if pts.len() == 0 {
        Rect {
            origin: Point { x: Scalar { bits: 0 }, y: Scalar { bits: 0 } },
            width: Scalar { bits: 0 },
            height: Scalar { bits: 0 },
        }
    } else {
        Rect {
            origin: Point { x: Scalar { bits: min_x(pts) }, y: Scalar { bits: min_y(pts) } },
            width: Scalar { bits: max_x(pts) }.spec_sub(Scalar { bits: min_x(pts) }),
            height: Scalar { bits: max_y(pts) }.spec_sub(Scalar { bits: min_y(pts) }),
        }
    }
}

/// An ordered list of path commands.
#[derive(Clone, Debug)]
pub struct PathShape {
    pub commands: Vec<PathCommand>,
}

/// Boolean operations between two paths.
#[derive(Clone, Copy, PartialEq, Eq, Structural, Debug)]
pub enum BooleanOp {
    Union,
    Subtract,
    Intersect,
}

/// Errors of path operations.
#[derive(Clone, Copy, PartialEq, Eq, Structural, Debug)]
pub enum PathError {
    /// The Boolean operation is not implemented.
    UnsupportedOperation(BooleanOp),
}

/// Folds one point into the running extremes.
fn fold_point(p: &Point, ext: &mut (i64, i64, i64, i64), Ghost(pts): Ghost<Seq<Point>>)
    requires
        *old(ext) == (min_x(pts), min_y(pts), max_x(pts), max_y(pts)),
    ensures
        *final(ext) == (
            min_x(pts.push(*p)),
            min_y(pts.push(*p)),
            max_x(pts.push(*p)),
            max_y(pts.push(*p)),
        ),
{
    assert(pts.push(*p).drop_last() =~= pts);
    if p.x.bits < ext.0 {
        ext.0 = p.x.bits;
    }
    if p.y.bits < ext.1 {
        ext.1 = p.y.bits;
    }
    if p.x.bits > ext.2 {
        ext.2 = p.x.bits;
    }
    if p.y.bits > ext.3 {
        ext.3 = p.y.bits;
    }
}

impl PathShape {
    pub open spec fn spec_bounds(self) -> Rect {
        hull(path_points(self.commands@))
    }

    pub fn new() -> (r: PathShape)
        ensures
            r.commands@ == Seq::<PathCommand>::empty(),
    {
        PathShape { commands: Vec::new() }
    }

    pub fn move_to(&mut self, x: Scalar, y: Scalar)
        ensures
            final(self).commands@ == old(self).commands@.push(PathCommand::MoveTo(Point { x, y })),
    {
        self.commands.push(PathCommand::MoveTo(Point::new(x, y)));
    }

    pub fn line_to(&mut self, x: Scalar, y: Scalar)
        ensures
            final(self).commands@ == old(self).commands@.push(PathCommand::LineTo(Point { x, y })),
    {
        self.commands.push(PathCommand::LineTo(Point::new(x, y)));
    }

    pub fn cubic_to(
        &mut self,
        cp1x: Scalar,
        cp1y: Scalar,
        cp2x: Scalar,
        cp2y: Scalar,
        x: Scalar,
        y: Scalar,
    )
        ensures
            final(self).commands@ == old(self).commands@.push(
                PathCommand::CurveTo(
                    Point { x: cp1x, y: cp1y },
                    Point { x: cp2x, y: cp2y },
                    Point { x, y },
                ),
            ),
    {
        self.commands.push(
            PathCommand::CurveTo(Point::new(cp1x, cp1y), Point::new(cp2x, cp2y), Point::new(x, y)),
        );
    }

    pub fn close(&mut self)
        ensures
            final(self).commands@ == old(self).commands@.push(PathCommand::Close),
    {
        self.commands.push(PathCommand::Close);
    }

    /// Union appends the other path's commands; subtraction and intersection
    /// are refused and leave the path unchanged.
    pub fn combine(&mut self, other: &PathShape, op: BooleanOp) -> (r: Result<(), PathError>)
        ensures
            op == BooleanOp::Union ==> r is Ok && final(self).commands@ == old(
                self,
            ).commands@ + other.commands@,
            op != BooleanOp::Union ==> r == Err::<(), PathError>(
                PathError::UnsupportedOperation(op),
            ) && final(self).commands@ == old(self).commands@,
    {
        match op {
            BooleanOp::Union => {
                let ghost start = self.commands@;
                let n = other.commands.len();
                let mut i: usize = 0;
                while i < n
                    invariant
                        n == other.commands@.len(),
                        i <= n,
                        self.commands@ == start + other.commands@.take(i as int),
                    decreases n - i,
                {
                    assert(other.commands@.take(i as int + 1) =~= other.commands@.take(
                        i as int,
                    ).push(other.commands@[i as int]));
                    self.commands.push(other.commands[i]);
                    i = i + 1;
                }
                assert(other.commands@.take(n as int) =~= other.commands@);
                Ok(())
            },
            _ => Err(PathError::UnsupportedOperation(op)),
        }
    }

    /// Moves every point of every command by `(dx, dy)`.
    pub fn translate(&mut self, dx: Scalar, dy: Scalar)
        ensures
            final(self).commands@ == old(self).commands@.map_values(
                |c: PathCommand| c.shifted(dx, dy),
            ),
    {
        let ghost start = self.commands@;
        let n = self.commands.len();
        let mut i: usize = 0;
        while i < n
            invariant
                n == start.len(),
                i <= n,
                self.commands@.len() == n,
                forall|j: int| 0 <= j < i ==> self.commands@[j] == start[j].shifted(dx, dy),
                forall|j: int| i <= j < n ==> self.commands@[j] == start[j],
            decreases n - i,
        {
            let c = self.commands[i].translated(dx, dy);
            self.commands.set(i, c);
            i = i + 1;
        }
        assert(self.commands@ =~= start.map_values(|c: PathCommand| c.shifted(dx, dy)));
    }

    /// The axis-aligned hull of every point that any command mentions,
    /// control points included; the zero rectangle when there is none.
    pub fn get_bounds(&self) -> (r: Rect)
        ensures
            r == self.spec_bounds(),
    {
        let ghost cmds = self.commands@;
        let mut ext: (i64, i64, i64, i64) = (i64::MAX, i64::MAX, i64::MIN, i64::MIN);
        let mut count: usize = 0;
        let n = self.commands.len();
        let mut i: usize = 0;
        while i < n
            invariant
                n == cmds.len(),
                i <= n,
                cmds == self.commands@,
                ext == (
                    min_x(path_points(cmds.take(i as int))),
                    min_y(path_points(cmds.take(i as int))),
                    max_x(path_points(cmds.take(i as int))),
                    max_y(path_points(cmds.take(i as int))),
                ),
                (count == 0) == (path_points(cmds.take(i as int)).len() == 0),
            decreases n - i,
        {
            let ghost pts = path_points(cmds.take(i as int));
            assert(cmds.take(i as int + 1).drop_last() =~= cmds.take(i as int));
            match &self.commands[i] {
                PathCommand::MoveTo(p) => {
                    fold_point(p, &mut ext, Ghost(pts));
                    count = 1;
                    assert(pts + seq![*p] =~= pts.push(*p));
                },
                PathCommand::LineTo(p) => {
                    fold_point(p, &mut ext, Ghost(pts));
                    count = 1;
                    assert(pts + seq![*p] =~= pts.push(*p));
                },
                PathCommand::CurveTo(a, b, c) => {
                    fold_point(a, &mut ext, Ghost(pts));
                    fold_point(b, &mut ext, Ghost(pts.push(*a)));
                    fold_point(c, &mut ext, Ghost(pts.push(*a).push(*b)));
                    count = 1;
                    assert(pts + seq![*a, *b, *c] =~= pts.push(*a).push(*b).push(*c));
                },
                PathCommand::Close => {
                    assert(pts + seq![] =~= pts);
                },
            }
            i = i + 1;
        }
        assert(cmds.take(n as int) =~= cmds);
        if count == 0 {
            Rect::zero()
        } else {
            Rect {
                origin: Point { x: Scalar::from_bits(ext.0), y: Scalar::from_bits(ext.1) },
                width: Scalar::from_bits(ext.2).sub(Scalar::from_bits(ext.0)),
                height: Scalar::from_bits(ext.3).sub(Scalar::from_bits(ext.1)),
            }
        }
    }
}

} // verus!
