//! The computed view: animated property values written into a scene.
use crate::geometry::{Circle, Image, Point, Rect, Shape};
use crate::scalar::{FloatBits, Scalar};
use crate::state::{same_element, same_shape, Animation, Element, EngineState};
use vstd::prelude::*;

verus! {

/// The value of an animated property at the current time, as a scalar (for
/// coordinates) and as the raw number (for opacity).
#[derive(Clone, Copy, PartialEq, Eq, Structural, Debug)]
pub struct Sample {
    pub scalar: Scalar,
    pub raw: FloatBits,
}

/// `shape` with the x of its anchor set to `v`; groups and paths unchanged.
pub open spec fn with_x(shape: Shape, v: Scalar) -> Shape {
    match shape {
        Shape::Rect(r) => Shape::Rect(Rect { origin: Point { x: v, ..r.origin }, ..r }),
        Shape::Circle(c) => Shape::Circle(Circle { center: Point { x: v, ..c.center }, ..c }),
        Shape::Image(i) => Shape::Image(Image { origin: Point { x: v, ..i.origin }, ..i }),
        _ => shape,
    }
}

/// `shape` with the y of its anchor set to `v`; groups and paths unchanged.
pub open spec fn with_y(shape: Shape, v: Scalar) -> Shape {
    match shape {
        Shape::Rect(r) => Shape::Rect(Rect { origin: Point { y: v, ..r.origin }, ..r }),
        Shape::Circle(c) => Shape::Circle(Circle { center: Point { y: v, ..c.center }, ..c }),
        Shape::Image(i) => Shape::Image(Image { origin: Point { y: v, ..i.origin }, ..i }),
        _ => shape,
    }
}

/// `e` with property `prop` set to `v`: `"x"` and `"y"` move the anchor of
/// the shape, `"opacity"` sets the opacity, other names change nothing.
pub open spec fn animated(e: Element, prop: Seq<char>, v: Sample) -> Element {
    if prop == "x"@ {
        Element { shape: with_x(e.shape, v.scalar), ..e }
    } else if prop == "y"@ {
        Element { shape: with_y(e.shape, v.scalar), ..e }
    } else if prop == "opacity"@ {
        Element { opacity: v.raw, ..e }
    } else {
        e
    }
}

/// `e` with each animation's property set to its sample, in order.
pub open spec fn animated_all(e: Element, anims: Seq<Animation>, vs: Seq<Sample>) -> Element
    decreases anims.len(),
{
    if anims.len() == 0 || vs.len() == 0 {
        e
    } else {
        animated(animated_all(e, anims.drop_last(), vs.drop_last()), anims.last().property@, vs.last())
    }
}

/// Sets the x of the shape's anchor.
fn set_x(shape: &mut Shape, v: Scalar)
    ensures
        *final(shape) == with_x(*old(shape), v),
{
    match shape {
        Shape::Rect(r) => {
            r.origin.x = v;
        },
        Shape::Circle(c) => {
            c.center.x = v;
        },
        Shape::Image(i) => {
            i.origin.x = v;
        },
        _ => {},
    }
}

/// Sets the y of the shape's anchor.
fn set_y(shape: &mut Shape, v: Scalar)
    ensures
        *final(shape) == with_y(*old(shape), v),
{
    match shape {
        Shape::Rect(r) => {
            r.origin.y = v;
        },
        Shape::Circle(c) => {
            c.center.y = v;
        },
        Shape::Image(i) => {
            i.origin.y = v;
        },
        _ => {},
    }
}

impl Element {
    /// Writes each animation's sample into the element; `samples[j]` is the
    /// value of animation `j`.
    pub fn apply_samples(&mut self, samples: &Vec<Sample>)
        requires
            samples@.len() == old(self).animations@.len(),
        ensures
            *final(self) == animated_all(*old(self), old(self).animations@, samples@),
    {
        let ghost start = *self;
        let x_name = String::from_str("x");
        let y_name = String::from_str("y");
        let opacity_name = String::from_str("opacity");
        let n = samples.len();
        let mut j: usize = 0;
        while j < n
            invariant
                n == samples@.len(),
                n == start.animations@.len(),
                j <= n,
                x_name@ == "x"@,
                y_name@ == "y"@,
                opacity_name@ == "opacity"@,
                self.animations == start.animations,
                *self == animated_all(
                    start,
                    start.animations@.take(j as int),
                    samples@.take(j as int),
                ),
            decreases n - j,
        {
            assert(start.animations@.take(j as int + 1).drop_last() =~= start.animations@.take(
                j as int,
            ));
            assert(samples@.take(j as int + 1).drop_last() =~= samples@.take(j as int));
            let v = samples[j];
            if self.animations[j].property == x_name {
                set_x(&mut self.shape, v.scalar);
            } else if self.animations[j].property == y_name {
                set_y(&mut self.shape, v.scalar);
            } else if self.animations[j].property == opacity_name {
                self.opacity = v.raw;
            }
            j = j + 1;
        }
        assert(start.animations@.take(n as int) =~= start.animations@);
        assert(samples@.take(n as int) =~= samples@);
    }
}

impl EngineState {
    /// The scene as readers see it: every element with each of its animated
    /// properties set to its sample, where `samples[i][j]` is the value at
    /// the current time of animation `j` of element `i`.
    pub fn get_computed_state(self, samples: &Vec<Vec<Sample>>) -> (r: EngineState)
        requires
            samples@.len() == self.elements@.len(),
            forall|i: int|
                0 <= i < samples@.len() ==> (#[trigger] samples@[i])@.len()
                    == self.elements@[i].animations@.len(),
        ensures
            r == (EngineState { elements: r.elements, ..self }),
            r.elements@.len() == self.elements@.len(),
            forall|i: int|
                0 <= i < self.elements@.len() ==> #[trigger] r.elements@[i] == animated_all(
                    self.elements@[i],
                    self.elements@[i].animations@,
                    samples@[i]@,
                ),
    {
        let ghost start = self;
        let mut out = self;
        let n = out.elements.len();
        let mut i: usize = 0;
        while i < n
            invariant
                n == start.elements@.len(),
                i <= n,
                samples@.len() == n,
                forall|k: int|
                    0 <= k < samples@.len() ==> (#[trigger] samples@[k])@.len()
                        == start.elements@[k].animations@.len(),
                out == (EngineState { elements: out.elements, ..start }),
                out.elements@.len() == n,
                forall|k: int| i <= k < n ==> out.elements@[k] == start.elements@[k],
                forall|k: int|
                    0 <= k < i ==> #[trigger] out.elements@[k] == animated_all(
                        start.elements@[k],
                        start.elements@[k].animations@,
                        samples@[k]@,
                    ),
            decreases n - i,
        {
            let ghost before = out.elements@;
            let mut el = out.elements.remove(i);
            el.apply_samples(&samples[i]);
            out.elements.insert(i, el);
            assert(out.elements@ =~= before.update(i as int, el));
            i = i + 1;
        }
        out
    }
}

/// Setting animated values keeps elements that hold the same values holding
/// the same values.
pub proof fn lemma_animated_same(
    d: Element,
    e: Element,
    ad: Seq<Animation>,
    ae: Seq<Animation>,
    vs: Seq<Sample>,
)
    requires
        same_element(d, e),
        ad.len() == ae.len(),
        forall|k: int| 0 <= k < ad.len() ==> (#[trigger] ad[k]).property@ == ae[k].property@,
    ensures
        same_element(animated_all(d, ad, vs), animated_all(e, ae, vs)),
    decreases ad.len(),
{
    if ad.len() > 0 && vs.len() > 0 {
        lemma_animated_same(d, e, ad.drop_last(), ae.drop_last(), vs.drop_last());
        let x = animated_all(d, ad.drop_last(), vs.drop_last());
        let y = animated_all(e, ae.drop_last(), vs.drop_last());
        assert(ad.last().property@ == ae.last().property@);
        let v = vs.last();
        assert(same_shape(with_x(x.shape, v.scalar), with_x(y.shape, v.scalar)));
        assert(same_shape(with_y(x.shape, v.scalar), with_y(y.shape, v.scalar)));
        assert(forall|k: int|
            0 <= k < x.animations@.len() ==> #[trigger] animated(x, ad.last().property@, v).animations@[k]
                == x.animations@[k]);
    }
}

} // verus!
