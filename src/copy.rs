//! Deep copies of the state, value for value.
use crate::geometry::{Group, Image, Shape};
use crate::path::{PathCommand, PathShape};
use crate::state::{
    same_animation, same_element, same_shape, same_state, Animation, Element, EngineState,
    Keyframe, Presence,
};
use vstd::prelude::*;

verus! {

fn copy_strings(v: &Vec<String>) -> (r: Vec<String>)
    ensures
        r@ == v@,
{
    let mut r: Vec<String> = Vec::new();
    let mut i: usize = 0;
    while i < v.len()
        invariant
            i <= v@.len(),
            r@ == v@.take(i as int),
        decreases v@.len() - i,
    {
        assert(v@.take(i as int + 1) =~= v@.take(i as int).push(v@[i as int]));
        r.push(v[i].clone());
        i = i + 1;
    }
    assert(v@.take(v@.len() as int) =~= v@);
    r
}

fn copy_commands(v: &Vec<PathCommand>) -> (r: Vec<PathCommand>)
    ensures
        r@ == v@,
{
    let mut r: Vec<PathCommand> = Vec::new();
    let mut i: usize = 0;
    while i < v.len()
        invariant
            i <= v@.len(),
            r@ == v@.take(i as int),
        decreases v@.len() - i,
    {
        assert(v@.take(i as int + 1) =~= v@.take(i as int).push(v@[i as int]));
        r.push(v[i]);
        i = i + 1;
    }
    assert(v@.take(v@.len() as int) =~= v@);
    r
}

fn copy_keyframes(v: &Vec<Keyframe>) -> (r: Vec<Keyframe>)
    ensures
        r@ == v@,
{
    let mut r: Vec<Keyframe> = Vec::new();
    let mut i: usize = 0;
    while i < v.len()
        invariant
            i <= v@.len(),
            r@ == v@.take(i as int),
        decreases v@.len() - i,
    {
        assert(v@.take(i as int + 1) =~= v@.take(i as int).push(v@[i as int]));
        let k = &v[i];
        r.push(Keyframe { time: k.time, value: k.value, easing: k.easing.clone() });
        i = i + 1;
    }
    assert(v@.take(v@.len() as int) =~= v@);
    r
}

fn copy_presence(v: &Vec<Presence>) -> (r: Vec<Presence>)
    ensures
        r@ == v@,
{
    let mut r: Vec<Presence> = Vec::new();
    let mut i: usize = 0;
    while i < v.len()
        invariant
            i <= v@.len(),
            r@ == v@.take(i as int),
        decreases v@.len() - i,
    {
        assert(v@.take(i as int + 1) =~= v@.take(i as int).push(v@[i as int]));
        let p = &v[i];
        r.push(Presence { user_id: p.user_id.clone(), cursor: p.cursor, color: p.color.clone() });
        i = i + 1;
    }
    assert(v@.take(v@.len() as int) =~= v@);
    r
}

fn copy_shape(s: &Shape) -> (r: Shape)
    ensures
        same_shape(r, *s),
{
    match s {
        Shape::Rect(x) => Shape::Rect(*x),
        Shape::Circle(c) => Shape::Circle(*c),
        Shape::Group(g) => Shape::Group(Group { children: copy_strings(&g.children) }),
        Shape::Image(i) => Shape::Image(
            Image { src: i.src.clone(), width: i.width, height: i.height, origin: i.origin },
        ),
        Shape::Path(p) => Shape::Path(PathShape { commands: copy_commands(&p.commands) }),
    }
}

fn copy_element(e: &Element) -> (r: Element)
    ensures
        same_element(r, *e),
{
    let mut anims: Vec<Animation> = Vec::new();
    let mut i: usize = 0;
    while i < e.animations.len()
        invariant
            i <= e.animations@.len(),
            anims@.len() == i,
            forall|k: int| 0 <= k < i ==> same_animation(#[trigger] anims@[k], e.animations@[k]),
        decreases e.animations@.len() - i,
    {
        let a = &e.animations[i];
        anims.push(Animation { property: a.property.clone(), keyframes: copy_keyframes(&a.keyframes) });
        i = i + 1;
    }
    let parent_id = match &e.parent_id {
        Some(p) => Some(p.clone()),
        None => None,
    };
    Element {
        id: e.id.clone(),
        name: e.name.clone(),
        shape: copy_shape(&e.shape),
        fill: e.fill.clone(),
        opacity: e.opacity,
        visible: e.visible,
        parent_id,
        animations: anims,
    }
}

impl EngineState {
    /// A copy holding the same values.
    pub fn duplicate(&self) -> (r: EngineState)
        ensures
            same_state(r, *self),
    {
        let mut els: Vec<Element> = Vec::new();
        let mut i: usize = 0;
        while i < self.elements.len()
            invariant
                i <= self.elements@.len(),
                els@.len() == i,
                forall|k: int|
                    0 <= k < i ==> same_element(#[trigger] els@[k], self.elements@[k]),
            decreases self.elements@.len() - i,
        {
            els.push(copy_element(&self.elements[i]));
            i = i + 1;
        }
        EngineState {
            elements: els,
            selection: copy_strings(&self.selection),
            transform: self.transform,
            presence: copy_presence(&self.presence),
            current_time: self.current_time,
            duration: self.duration,
            is_playing: self.is_playing,
        }
    }
}

} // verus!
