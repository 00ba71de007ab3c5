//! Engine state, the actions that change it, and the reducer.
use crate::geometry::{translated_shape, Circle, Image, Point, Rect, Shape};
use crate::scalar::{FloatBits, Scalar};
use vstd::prelude::*;

verus! {

/// A value of an animated property at a time (in milliseconds).
#[derive(Clone, Debug)]
pub struct Keyframe {
    pub time: FloatBits,
    pub value: FloatBits,
    pub easing: String,
}

/// The view transform; it does not affect stored geometry.
#[derive(Clone, Copy, PartialEq, Eq, Structural, Debug)]
pub struct Transform {
    pub x: FloatBits,
    pub y: FloatBits,
    pub scale: FloatBits,
}

/// A collaborator's cursor.
#[derive(Clone, Debug)]
pub struct Presence {
    pub user_id: String,
    pub cursor: Point,
    pub color: String,
}

/// The keyframes of one animated property.
#[derive(Clone, Debug)]
pub struct Animation {
    pub property: String,
    pub keyframes: Vec<Keyframe>,
}

/// An element of the scene.
#[derive(Clone, Debug)]
pub struct Element {
    pub id: String,
    pub name: String,
    pub shape: Shape,
    pub fill: String,
    pub opacity: FloatBits,
    pub visible: bool,
    pub parent_id: Option<String>,
    pub animations: Vec<Animation>,
}

/// The whole scene: elements in insertion order, keyed by their ids.
#[derive(Clone, Debug)]
pub struct EngineState {
    pub elements: Vec<Element>,
    pub selection: Vec<String>,
    pub transform: Transform,
    pub presence: Vec<Presence>,
    pub current_time: FloatBits,
    pub duration: FloatBits,
    pub is_playing: bool,
}

/// A command that changes the state.
#[derive(Clone, Debug)]
pub enum Action {
    AddElement { id: String, name: String, shape: Shape, fill: String },
    RemoveElement { id: String },
    MoveElement { id: String, dx: Scalar, dy: Scalar },
    SetFill { id: String, fill: String },
    SetTime { time: FloatBits },
    TogglePlayback,
    AddKeyframe { element_id: String, property: String, keyframe: Keyframe },
    SetView { transform: Transform },
    UpdatePresence { presence: Presence },
}

/// Keyframe times never decrease along the sequence.
pub open spec fn sorted_by_time(kfs: Seq<Keyframe>) -> bool {
    forall|i: int, j: int| 0 <= i < j < kfs.len() ==> kfs[i].time.key() <= kfs[j].time.key()
}

/// `new` is `old` with `kf` inserted after every keyframe whose time is at
/// most its own and before every later one.
pub open spec fn inserted_by_time(old: Seq<Keyframe>, new: Seq<Keyframe>, kf: Keyframe) -> bool {
    exists|p: int|
        0 <= p <= old.len() && (forall|q: int| 0 <= q < p ==> old[q].time.key() <= kf.time.key())
            && (forall|q: int| p <= q < old.len() ==> old[q].time.key() > kf.time.key()) && new
            == old.insert(p, kf)
}

/// Holds of the strings other than `id`.
pub open spec fn other_than(id: Seq<char>) -> spec_fn(String) -> bool {
    |x: String| x@ != id
}

/// Element `i` of `els` has id `id`.
pub open spec fn element_at(els: Seq<Element>, id: Seq<char>, i: int) -> bool {
    0 <= i < els.len() && els[i].id@ == id
}

/// Animation `i` of `anims` is of property `prop`.
pub open spec fn animation_at(anims: Seq<Animation>, prop: Seq<char>, i: int) -> bool {
    0 <= i < anims.len() && anims[i].property@ == prop
}

/// Presence record `i` of `ps` belongs to user `user`.
pub open spec fn presence_at(ps: Seq<Presence>, user: Seq<char>, i: int) -> bool {
    0 <= i < ps.len() && ps[i].user_id@ == user
}

/// The shape has no negative extent.
pub open spec fn dims_ok(shape: Shape) -> bool {
    match shape {
        Shape::Rect(r) => r.width.bits >= 0 && r.height.bits >= 0,
        Shape::Circle(c) => c.radius.bits >= 0,
        Shape::Image(i) => i.width.bits >= 0 && i.height.bits >= 0,
        _ => true,
    }
}

/// `shape` with a negative width, height or radius raised to 0.
pub open spec fn clamped_shape(shape: Shape) -> Shape {
    match shape {
        Shape::Rect(r) => Shape::Rect(
            Rect {
                width: if r.width.bits < 0 { Scalar { bits: 0 } } else { r.width },
                height: if r.height.bits < 0 { Scalar { bits: 0 } } else { r.height },
                ..r
            },
        ),
        Shape::Circle(c) => Shape::Circle(
            Circle { radius: if c.radius.bits < 0 { Scalar { bits: 0 } } else { c.radius }, ..c },
        ),
        Shape::Image(i) => Shape::Image(
            Image {
                width: if i.width.bits < 0 { Scalar { bits: 0 } } else { i.width },
                height: if i.height.bits < 0 { Scalar { bits: 0 } } else { i.height },
                ..i
            },
        ),
        _ => shape,
    }
}

/// Raises a negative width, height or radius to 0.
pub fn clamp_sizes(shape: Shape) -> (r: Shape)
    ensures
        r == clamped_shape(shape),
        dims_ok(r),
{
    match shape {
        Shape::Rect(r) => {
            let mut r = r;
            if r.width.bits < 0 {
                r.width = Scalar::zero();
            }
            if r.height.bits < 0 {
                r.height = Scalar::zero();
            }
            Shape::Rect(r)
        },
        Shape::Circle(c) => {
            let mut c = c;
            if c.radius.bits < 0 {
                c.radius = Scalar::zero();
            }
            Shape::Circle(c)
        },
        Shape::Image(i) => {
            let mut i = i;
            if i.width.bits < 0 {
                i.width = Scalar::zero();
            }
            if i.height.bits < 0 {
                i.height = Scalar::zero();
            }
            Shape::Image(i)
        },
        other => other,
    }
}

/// No element names a parent.
pub open spec fn no_parents(els: Seq<Element>) -> bool {
    forall|i: int| 0 <= i < els.len() ==> (#[trigger] els[i]).parent_id is None
}

/// `e` is the element that adding `(id, name, shape, fill)` creates: its
/// sizes clamped to be non-negative, fully opaque, visible, without parent
/// and without animations.
pub open spec fn fresh_element(e: Element, id: String, name: String, shape: Shape, fill: String) -> bool {
    &&& e.id == id
    &&& e.name == name
    &&& e.shape == clamped_shape(shape)
    &&& e.fill == fill
    &&& e.opacity.bits == 0x3f80_0000
    &&& e.visible
    &&& e.parent_id is None
    &&& e.animations@.len() == 0
}

/// `new` is `old` with element `i` replaced by `e`.
pub open spec fn replaced_at(old: Seq<Element>, new: Seq<Element>, i: int, e: Element) -> bool {
    &&& new.len() == old.len()
    &&& new[i] == e
    &&& forall|j: int| 0 <= j < old.len() && j != i ==> new[j] == old[j]
}

/// `new` are the animations `old` after adding `kf` to property `prop`: into
/// that property's sequence in time order, or as a new property at the end.
pub open spec fn keyframe_added(
    old: Seq<Animation>,
    new: Seq<Animation>,
    prop: String,
    kf: Keyframe,
) -> bool {
    &&& forall|k: int| #[trigger]
        animation_at(old, prop@, k) ==> {
            &&& new.len() == old.len()
            &&& forall|m: int| 0 <= m < old.len() && m != k ==> new[m] == old[m]
            &&& new[k].property == old[k].property
            &&& inserted_by_time(old[k].keyframes@, new[k].keyframes@, kf)
        }
    &&& (forall|k: int| !#[trigger] animation_at(old, prop@, k)) ==> {
        &&& new.len() == old.len() + 1
        &&& forall|m: int| 0 <= m < old.len() ==> new[m] == old[m]
        &&& new.last().property == prop
        &&& new.last().keyframes@ == seq![kf]
    }
}

impl Element {
    /// The shape has no negative extent, properties are animated at most
    /// once each, and every keyframe sequence is sorted by time.
    pub open spec fn wf(self) -> bool {
        &&& dims_ok(self.shape)
        &&& forall|i: int, j: int|
            0 <= i < j < self.animations@.len() ==> self.animations@[i].property@
                != self.animations@[j].property@
        &&& forall|i: int|
            0 <= i < self.animations@.len() ==> sorted_by_time(
                #[trigger] self.animations@[i].keyframes@,
            )
    }
}

impl EngineState {
    /// Element ids are unique, each element is well formed, and there is at
    /// most one presence record per user.
    pub open spec fn wf(self) -> bool {
        &&& forall|i: int, j: int|
            0 <= i < j < self.elements@.len() ==> self.elements@[i].id@ != self.elements@[j].id@
        &&& forall|i: int| 0 <= i < self.elements@.len() ==> (#[trigger] self.elements@[i]).wf()
        &&& forall|i: int, j: int|
            0 <= i < j < self.presence@.len() ==> self.presence@[i].user_id@
                != self.presence@[j].user_id@
    }

    /// The empty scene: no elements, identity view, time 0 of a 5000 ms
    /// timeline, paused.
    pub fn new() -> (r: EngineState)
        ensures
            r.wf(),
            r.elements@.len() == 0,
            r.selection@.len() == 0,
            r.presence@.len() == 0,
            r.transform.x.bits == 0 && r.transform.y.bits == 0,
            r.transform.scale.bits == 0x3f80_0000,
            r.current_time.bits == 0,
            r.duration.bits == 0x459c_4000,
            !r.is_playing,
    {
        EngineState {
            elements: Vec::new(),
            selection: Vec::new(),
            transform: Transform { x: FloatBits::zero(), y: FloatBits::zero(), scale: FloatBits::one() },
            presence: Vec::new(),
            current_time: FloatBits::zero(),
            duration: FloatBits::from_bits(0x459c_4000),
            is_playing: false,
        }
    }
}

/// `t` is `s` after adding element `id` (replacing one of that id in place).
pub open spec fn after_add_element(s: EngineState, id: String, name: String, shape: Shape, fill: String, t: EngineState) -> bool {
    &&& t == EngineState { elements: t.elements, ..s }
    &&& forall|i: int| #[trigger]
        element_at(s.elements@, id@, i) ==> replaced_at(
            s.elements@,
            t.elements@,
            i,
            t.elements@[i],
        ) && fresh_element(t.elements@[i], id, name, shape, fill)
    &&& (forall|i: int| !#[trigger] element_at(s.elements@, id@, i)) ==> {
        &&& t.elements@.len() == s.elements@.len() + 1
        &&& t.elements@.drop_last() == s.elements@
        &&& fresh_element(t.elements@.last(), id, name, shape, fill)
    }
}

/// `t` is `s` after removing element `id` and dropping `id` from the selection.
pub open spec fn after_remove_element(s: EngineState, id: String, t: EngineState) -> bool {
    &&& t == EngineState { elements: t.elements, selection: t.selection, ..s }
    &&& forall|i: int| #[trigger]
        element_at(s.elements@, id@, i) ==> t.elements@ == s.elements@.remove(i)
    &&& (forall|i: int| !#[trigger] element_at(s.elements@, id@, i)) ==> t.elements@
        == s.elements@
    &&& t.selection@ == s.selection@.filter(other_than(id@))
}

/// `t` is `s` after moving element `id` by `(dx, dy)`; unchanged when there is none.
pub open spec fn after_move_element(s: EngineState, id: String, dx: Scalar, dy: Scalar, t: EngineState) -> bool {
    &&& forall|i: int| #[trigger]
        element_at(s.elements@, id@, i) ==> {
            &&& t == EngineState { elements: t.elements, ..s }
            &&& replaced_at(
                s.elements@,
                t.elements@,
                i,
                Element { shape: t.elements@[i].shape, ..s.elements@[i] },
            )
            &&& translated_shape(s.elements@[i].shape, t.elements@[i].shape, dx, dy)
        }
    &&& (forall|i: int| !#[trigger] element_at(s.elements@, id@, i)) ==> t == s
}

/// `t` is `s` after setting the fill of element `id`; unchanged when there is none.
pub open spec fn after_set_fill(s: EngineState, id: String, fill: String, t: EngineState) -> bool {
    &&& forall|i: int| #[trigger]
        element_at(s.elements@, id@, i) ==> {
            &&& t == EngineState { elements: t.elements, ..s }
            &&& replaced_at(
                s.elements@,
                t.elements@,
                i,
                Element { fill: fill, ..s.elements@[i] },
            )
        }
    &&& (forall|i: int| !#[trigger] element_at(s.elements@, id@, i)) ==> t == s
}

/// `t` is `s` after adding `keyframe` to `property` of element `element_id`; unchanged when there is none.
pub open spec fn after_add_keyframe(s: EngineState, element_id: String, property: String, keyframe: Keyframe, t: EngineState) -> bool {
    &&& forall|i: int| #[trigger]
        element_at(s.elements@, element_id@, i) ==> {
            &&& t == EngineState { elements: t.elements, ..s }
            &&& replaced_at(
                s.elements@,
                t.elements@,
                i,
                Element { animations: t.elements@[i].animations, ..s.elements@[i] },
            )
            &&& keyframe_added(
                s.elements@[i].animations@,
                t.elements@[i].animations@,
                property,
                keyframe,
            )
        }
    &&& (forall|i: int| !#[trigger] element_at(s.elements@, element_id@, i)) ==> t == s
}

/// `t` is `s` after inserting or replacing the presence record of its user.
pub open spec fn after_update_presence(s: EngineState, presence: Presence, t: EngineState) -> bool {
    &&& t == EngineState { presence: t.presence, ..s }
    &&& forall|i: int| #[trigger]
        presence_at(s.presence@, presence.user_id@, i) ==> t.presence@
            == s.presence@.update(i, presence)
    &&& (forall|i: int| !#[trigger] presence_at(s.presence@, presence.user_id@, i))
        ==> t.presence@ == s.presence@.push(presence)
}

/// `t` is the state `s` after `a`.
pub open spec fn reduces(s: EngineState, a: Action, t: EngineState) -> bool {
    match a {
        Action::AddElement { id, name, shape, fill } => after_add_element(s, id, name, shape, fill, t),
        Action::RemoveElement { id } => after_remove_element(s, id, t),
        Action::MoveElement { id, dx, dy } => after_move_element(s, id, dx, dy, t),
        Action::SetFill { id, fill } => after_set_fill(s, id, fill, t),
        Action::SetTime { time } => t == EngineState { current_time: time, ..s },
        Action::TogglePlayback => t == EngineState { is_playing: !s.is_playing, ..s },
        Action::AddKeyframe { element_id, property, keyframe } => after_add_keyframe(s, element_id, property, keyframe, t),
        Action::SetView { transform } => t == EngineState { transform: transform, ..s },
        Action::UpdatePresence { presence } => after_update_presence(s, presence, t),
    }
}

/// The first index at or after `k` of an element with id `id`, or -1.
pub open spec fn index_from(els: Seq<Element>, id: Seq<char>, k: int) -> int
    decreases els.len() - k,
{
    if k < 0 || k >= els.len() {
        -1
    } else if els[k].id@ == id {
        k
    } else {
        index_from(els, id, k + 1)
    }
}

/// The index of the first element with id `id`, if any.
pub fn find_element(els: &Vec<Element>, id: &String) -> (r: Option<usize>)
    ensures
        match r {
            Some(i) => element_at(els@, id@, i as int) && i == index_from(els@, id@, 0),
            None => (forall|j: int| !#[trigger] element_at(els@, id@, j)) && index_from(
                els@,
                id@,
                0,
            ) == -1,
        },
{
    let mut i: usize = 0;
    while i < els.len()
        invariant
            i <= els@.len(),
            index_from(els@, id@, 0) == index_from(els@, id@, i as int),
            forall|j: int| 0 <= j < i ==> !#[trigger] element_at(els@, id@, j),
        decreases els@.len() - i,
    {
        if els[i].id == *id {
            return Some(i);
        }
        i = i + 1;
    }
    None
}

/// The index of the animation of property `prop`, if any.
fn find_animation(anims: &Vec<Animation>, prop: &String) -> (r: Option<usize>)
    ensures
        match r {
            Some(i) => animation_at(anims@, prop@, i as int),
            None => forall|j: int| !#[trigger] animation_at(anims@, prop@, j),
        },
{
    let mut i: usize = 0;
    while i < anims.len()
        invariant
            i <= anims@.len(),
            forall|j: int| 0 <= j < i ==> !#[trigger] animation_at(anims@, prop@, j),
        decreases anims@.len() - i,
    {
        if anims[i].property == *prop {
            return Some(i);
        }
        i = i + 1;
    }
    None
}

/// The index of the presence record of user `user`, if any.
fn find_presence(ps: &Vec<Presence>, user: &String) -> (r: Option<usize>)
    ensures
        match r {
            Some(i) => presence_at(ps@, user@, i as int),
            None => forall|j: int| !#[trigger] presence_at(ps@, user@, j),
        },
{
    let mut i: usize = 0;
    while i < ps.len()
        invariant
            i <= ps@.len(),
            forall|j: int| 0 <= j < i ==> !#[trigger] presence_at(ps@, user@, j),
        decreases ps@.len() - i,
    {
        if ps[i].user_id == *user {
            return Some(i);
        }
        i = i + 1;
    }
    None
}

/// Inserts `kf` into a time-sorted sequence after every keyframe whose time
/// is at most its own, which keeps the sequence sorted and keyframes of equal
/// time in insertion order.
pub fn insert_keyframe(kfs: &mut Vec<Keyframe>, kf: Keyframe)
    requires
        sorted_by_time(old(kfs)@),
    ensures
        sorted_by_time(final(kfs)@),
        inserted_by_time(old(kfs)@, final(kfs)@, kf),
{
    let t = kf.time.order_key();
    let n = kfs.len();
    let mut p: usize = 0;
    while p < n && kfs[p].time.order_key() <= t
        invariant
            p <= n,
            n == kfs@.len(),
            t == kf.time.key(),
            forall|q: int| 0 <= q < p ==> kfs@[q].time.key() <= t,
        decreases n - p,
    {
        p = p + 1;
    }
    let ghost before = kfs@;
    assert(forall|q: int| p <= q < n ==> before[q].time.key() > t) by {
        if p < n {
            assert(before[p as int].time.key() > t);
        }
    }
    kfs.insert(p, kf);
    assert(kfs@ == before.insert(p as int, kf));
    assert forall|i: int, j: int| 0 <= i < j < kfs@.len() implies kfs@[i].time.key()
        <= kfs@[j].time.key() by {
        if j < p {
        } else if j == p {
        } else if i < p {
        } else if i == p {
            assert(kfs@[j] == before[j - 1]);
        } else {
            assert(kfs@[j] == before[j - 1]);
            assert(kfs@[i] == before[i - 1]);
        }
    }
}

impl Element {
    /// Adds `kf` to the keyframes of `property`, starting a new animation
    /// when the property has none.
    pub fn add_keyframe(&mut self, property: String, kf: Keyframe)
        requires
            old(self).wf(),
        ensures
            final(self).wf(),
            *final(self) == (Element { animations: final(self).animations, ..*old(self) }),
            keyframe_added(old(self).animations@, final(self).animations@, property, kf),
    {
        let ghost anims = self.animations@;
        match find_animation(&self.animations, &property) {
            Some(k) => {
                let mut anim = self.animations.remove(k);
                insert_keyframe(&mut anim.keyframes, kf);
                self.animations.insert(k, anim);
                assert forall|m: int| #[trigger] animation_at(anims, property@, m) implies m
                    == k by {
                    if m < k {
                        assert(anims[m].property@ != anims[k as int].property@);
                    } else if m > k {
                        assert(anims[k as int].property@ != anims[m].property@);
                    }
                }
                assert(forall|m: int|
                    0 <= m < anims.len() && m != k ==> self.animations@[m] == anims[m]);
                assert(forall|m: int|
                    0 <= m < anims.len() ==> self.animations@[m].property == anims[m].property);
                assert forall|a: int, b: int|
                    0 <= a < b < self.animations@.len() implies self.animations@[a].property@
                    != self.animations@[b].property@ by {
                    assert(anims[a].property@ != anims[b].property@);
                }
                assert forall|m: int| 0 <= m < self.animations@.len() implies sorted_by_time(
                    #[trigger] self.animations@[m].keyframes@,
                ) by {
                    if m != k {
                        assert(self.animations@[m] == anims[m]);
                    }
                }
            },
            None => {
                let mut kfs = Vec::new();
                kfs.push(kf);
                self.animations.push(Animation { property, keyframes: kfs });
                assert(self.animations@.last().keyframes@ =~= seq![kf]);
                assert(forall|m: int| 0 <= m < anims.len() ==> self.animations@[m] == anims[m]);
                assert(forall|m: int|
                    0 <= m < anims.len() ==> !#[trigger] animation_at(anims, property@, m));
                assert forall|a: int, b: int|
                    0 <= a < b < self.animations@.len() implies self.animations@[a].property@
                    != self.animations@[b].property@ by {
                    if b < anims.len() {
                        assert(anims[a].property@ != anims[b].property@);
                    } else {
                        assert(!animation_at(anims, property@, a));
                    }
                }
                assert forall|m: int| 0 <= m < self.animations@.len() implies sorted_by_time(
                    #[trigger] self.animations@[m].keyframes@,
                ) by {
                    if m < anims.len() {
                        assert(self.animations@[m] == anims[m]);
                    }
                }
            },
        }
    }
}

/// Inserts a fresh element, replacing one of the same id in place.
fn add_element(state: &mut EngineState, id: String, name: String, shape: Shape, fill: String)
    requires
        old(state).wf(),
    ensures
        final(state).wf(),
        after_add_element(*old(state), id, name, shape, fill, *final(state)),
{
    let ghost s = *state;
    let found = find_element(&state.elements, &id);
    let el = Element {
        id,
        name,
        shape: clamp_sizes(shape),
        fill,
        opacity: FloatBits::one(),
        visible: true,
        parent_id: None,
        animations: Vec::new(),
    };
    match found {
        Some(i) => {
            proof {
                unique_slot(s, el.id@, i);
            }
            state.elements.set(i, el);
            assert(forall|j: int|
                0 <= j < s.elements@.len() ==> state.elements@[j].id@
                    == s.elements@[j].id@);
            assert(state.elements@[i as int].wf());
            assert(forall|j: int|
                0 <= j < s.elements@.len() && j != i ==> state.elements@[j]
                    == s.elements@[j]);
            proof {
                lemma_wf_same_ids(s, *state);
            }
        },
        None => {
            state.elements.push(el);
            assert(state.elements@.drop_last() =~= s.elements@);
            assert(forall|j: int|
                0 <= j < s.elements@.len() ==> state.elements@[j] == s.elements@[j]);
            assert(forall|j: int|
                0 <= j < s.elements@.len() ==> !#[trigger] element_at(
                    s.elements@,
                    id@,
                    j,
                ));
            assert(state.elements@.last().wf());
            assert forall|a: int, b: int|
                0 <= a < b < state.elements@.len() implies state.elements@[a].id@
                != state.elements@[b].id@ by {
                if b < s.elements@.len() {
                    assert(s.elements@[a].id@ != s.elements@[b].id@);
                } else {
                    assert(!element_at(s.elements@, id@, a));
                }
            }
        },
    }
}

/// Deletes the element `id` and drops `id` from the selection.
fn remove_element(state: &mut EngineState, id: String)
    requires
        old(state).wf(),
    ensures
        final(state).wf(),
        after_remove_element(*old(state), id, *final(state)),
{
    let ghost s = *state;
    match find_element(&state.elements, &id) {
        Some(i) => {
            proof {
                unique_slot(s, id@, i);
            }
            state.elements.remove(i);
            assert forall|a: int, b: int|
                0 <= a < b < state.elements@.len() implies state.elements@[a].id@
                != state.elements@[b].id@ by {
                let a2 = if a < i {
                    a
                } else {
                    a + 1
                };
                let b2 = if b < i {
                    b
                } else {
                    b + 1
                };
                assert(state.elements@[a] == s.elements@[a2]);
                assert(state.elements@[b] == s.elements@[b2]);
            }
            assert forall|a: int|
                0 <= a < state.elements@.len() implies (
                #[trigger] state.elements@[a]).wf() by {
                let a2 = if a < i {
                    a
                } else {
                    a + 1
                };
                assert(state.elements@[a] == s.elements@[a2]);
            }
        },
        None => {},
    }
    let mut kept: Vec<String> = Vec::new();
    let n = state.selection.len();
    let mut k: usize = 0;
    while k < n
        invariant
            n == state.selection@.len(),
            k <= n,
            state.selection == s.selection,
            kept@ == state.selection@.take(k as int).filter(other_than(id@)),
        decreases n - k,
    {
        let ghost sel = state.selection@;
        assert(sel.take(k as int + 1) =~= sel.take(k as int).push(sel[k as int]));
        proof {
            sel.take(k as int).lemma_filter_push(sel[k as int], other_than(id@));
        }
        if !(state.selection[k] == id) {
            kept.push(state.selection[k].clone());
        }
        k = k + 1;
    }
    assert(state.selection@.take(n as int) =~= state.selection@);
    state.selection = kept;
}

/// Translates the shape of element `id`, if there is one.
fn move_element(state: &mut EngineState, id: String, dx: Scalar, dy: Scalar)
    requires
        old(state).wf(),
    ensures
        final(state).wf(),
        after_move_element(*old(state), id, dx, dy, *final(state)),
{
    let ghost s = *state;
    match find_element(&state.elements, &id) {
        Some(i) => {
            proof {
                unique_slot(s, id@, i);
            }
            let mut el = state.elements.remove(i);
            el.shape.translate(dx, dy);
            state.elements.insert(i, el);
            assert(state.elements@ =~= s.elements@.update(i as int, el));
            assert(forall|j: int|
                0 <= j < s.elements@.len() ==> state.elements@[j].id@
                    == s.elements@[j].id@);
            assert(forall|j: int|
                0 <= j < s.elements@.len() && j != i ==> state.elements@[j]
                    == s.elements@[j]);
            assert(el.wf());
            proof {
                lemma_wf_same_ids(s, *state);
            }
        },
        None => {},
    }
}

/// Sets the fill of element `id`, if there is one.
fn set_fill(state: &mut EngineState, id: String, fill: String)
    requires
        old(state).wf(),
    ensures
        final(state).wf(),
        after_set_fill(*old(state), id, fill, *final(state)),
{
    let ghost s = *state;
    match find_element(&state.elements, &id) {
        Some(i) => {
            proof {
                unique_slot(s, id@, i);
            }
            let mut el = state.elements.remove(i);
            el.fill = fill;
            state.elements.insert(i, el);
            assert(state.elements@ =~= s.elements@.update(i as int, el));
            assert(forall|j: int|
                0 <= j < s.elements@.len() ==> state.elements@[j].id@
                    == s.elements@[j].id@);
            assert(forall|j: int|
                0 <= j < s.elements@.len() && j != i ==> state.elements@[j]
                    == s.elements@[j]);
            assert(el.wf());
            proof {
                lemma_wf_same_ids(s, *state);
            }
        },
        None => {},
    }
}

/// Adds a keyframe to a property of element `element_id`, if there is one.
fn add_element_keyframe(state: &mut EngineState, element_id: String, property: String, keyframe: Keyframe)
    requires
        old(state).wf(),
    ensures
        final(state).wf(),
        after_add_keyframe(*old(state), element_id, property, keyframe, *final(state)),
{
    let ghost s = *state;
    match find_element(&state.elements, &element_id) {
        Some(i) => {
            proof {
                unique_slot(s, element_id@, i);
            }
            let mut el = state.elements.remove(i);
            el.add_keyframe(property, keyframe);
            state.elements.insert(i, el);
            assert(state.elements@ =~= s.elements@.update(i as int, el));
            assert(forall|j: int|
                0 <= j < s.elements@.len() ==> state.elements@[j].id@
                    == s.elements@[j].id@);
            assert(forall|j: int|
                0 <= j < s.elements@.len() && j != i ==> state.elements@[j]
                    == s.elements@[j]);
            assert(el.wf());
            proof {
                lemma_wf_same_ids(s, *state);
            }
        },
        None => {},
    }
}

/// Inserts or replaces the presence record of its user.
fn update_presence(state: &mut EngineState, presence: Presence)
    requires
        old(state).wf(),
    ensures
        final(state).wf(),
        after_update_presence(*old(state), presence, *final(state)),
{
    let ghost s = *state;
    match find_presence(&state.presence, &presence.user_id) {
        Some(i) => {
            assert forall|j: int| #[trigger]
                presence_at(s.presence@, presence.user_id@, j) implies j == i by {
                if j < i {
                    assert(s.presence@[j].user_id@ != s.presence@[i as int].user_id@);
                } else if j > i {
                    assert(s.presence@[i as int].user_id@ != s.presence@[j].user_id@);
                }
            }
            state.presence.set(i, presence);
            assert(forall|j: int|
                0 <= j < s.presence@.len() ==> state.presence@[j].user_id@
                    == s.presence@[j].user_id@);
            assert forall|a: int, b: int|
                0 <= a < b < state.presence@.len() implies state.presence@[a].user_id@
                != state.presence@[b].user_id@ by {
                assert(s.presence@[a].user_id@ != s.presence@[b].user_id@);
            }
        },
        None => {
            state.presence.push(presence);
            assert(forall|j: int|
                0 <= j < s.presence@.len() ==> state.presence@[j] == s.presence@[j]);
            assert(forall|j: int|
                0 <= j < s.presence@.len() ==> !#[trigger] presence_at(
                    s.presence@,
                    presence.user_id@,
                    j,
                ));
            assert forall|a: int, b: int|
                0 <= a < b < state.presence@.len() implies state.presence@[a].user_id@
                != state.presence@[b].user_id@ by {
                if b < s.presence@.len() {
                    assert(s.presence@[a].user_id@ != s.presence@[b].user_id@);
                } else {
                    assert(!presence_at(s.presence@, presence.user_id@, a));
                }
            }
        },
    }
}

/// Applies `action` to `state`.
pub fn reducer(state: &mut EngineState, action: Action)
    requires
        old(state).wf(),
    ensures
        final(state).wf(),
        reduces(*old(state), action, *final(state)),
        no_parents(old(state).elements@) ==> no_parents(final(state).elements@),
{
    let ghost s = *state;
    match action {
        Action::AddElement { id, name, shape, fill } => add_element(state, id, name, shape, fill),
        Action::RemoveElement { id } => remove_element(state, id),
        Action::MoveElement { id, dx, dy } => move_element(state, id, dx, dy),
        Action::SetFill { id, fill } => set_fill(state, id, fill),
        Action::SetTime { time } => {
            state.current_time = time;
        },
        Action::TogglePlayback => {
            state.is_playing = !state.is_playing;
        },
        Action::AddKeyframe { element_id, property, keyframe } => add_element_keyframe(state, element_id, property, keyframe),
        Action::SetView { transform } => {
            state.transform = transform;
        },
        Action::UpdatePresence { presence } => update_presence(state, presence),
    }
    proof {
        lemma_reduces_keeps_no_parents(s, action, *state);
    }
}

/// No action gives an element a parent.
pub proof fn lemma_reduces_keeps_no_parents(s: EngineState, a: Action, t: EngineState)
    requires
        s.wf(),
        reduces(s, a, t),
    ensures
        no_parents(s.elements@) ==> no_parents(t.elements@),
{
    if no_parents(s.elements@) {
        let e = s.elements@;
        match a {
            Action::AddElement { id, name, shape, fill } => {
                if exists|i: int| element_at(e, id@, i) {
                    let i = choose|i: int| element_at(e, id@, i);
                    assert forall|j: int| 0 <= j < t.elements@.len() implies (
                    #[trigger] t.elements@[j]).parent_id is None by {
                        if j != i {
                            assert(t.elements@[j] == e[j]);
                        }
                    }
                } else {
                    assert forall|j: int| 0 <= j < t.elements@.len() implies (
                    #[trigger] t.elements@[j]).parent_id is None by {
                        if j < e.len() {
                            assert(t.elements@[j] == t.elements@.drop_last()[j]);
                        }
                    }
                }
            },
            Action::RemoveElement { id } => {
                if exists|i: int| element_at(e, id@, i) {
                    let i = choose|i: int| element_at(e, id@, i);
                    assert forall|j: int| 0 <= j < t.elements@.len() implies (
                    #[trigger] t.elements@[j]).parent_id is None by {
                        if j < i {
                            assert(t.elements@[j] == e[j]);
                        } else {
                            assert(t.elements@[j] == e[j + 1]);
                        }
                    }
                }
            },
            Action::MoveElement { id, dx, dy } => {
                if exists|i: int| element_at(e, id@, i) {
                    let i = choose|i: int| element_at(e, id@, i);
                    assert forall|j: int| 0 <= j < t.elements@.len() implies (
                    #[trigger] t.elements@[j]).parent_id is None by {
                        assert(e[j].parent_id is None);
                    }
                }
            },
            Action::SetFill { id, fill } => {
                if exists|i: int| element_at(e, id@, i) {
                    let i = choose|i: int| element_at(e, id@, i);
                    assert forall|j: int| 0 <= j < t.elements@.len() implies (
                    #[trigger] t.elements@[j]).parent_id is None by {
                        assert(e[j].parent_id is None);
                    }
                }
            },
            Action::AddKeyframe { element_id, property, keyframe } => {
                if exists|i: int| element_at(e, element_id@, i) {
                    let i = choose|i: int| element_at(e, element_id@, i);
                    assert forall|j: int| 0 <= j < t.elements@.len() implies (
                    #[trigger] t.elements@[j]).parent_id is None by {
                        assert(e[j].parent_id is None);
                    }
                }
            },
            _ => {},
        }
    }
}

/// In a well-formed state at most one element has a given id.
proof fn unique_slot(s: EngineState, id: Seq<char>, i: usize)
    requires
        s.wf(),
        element_at(s.elements@, id, i as int),
    ensures
        forall|j: int| #[trigger] element_at(s.elements@, id, j) ==> j == i,
{
    assert forall|j: int| #[trigger] element_at(s.elements@, id, j) implies j == i by {
        if j < i {
            assert(s.elements@[j].id@ != s.elements@[i as int].id@);
        } else if j > i {
            assert(s.elements@[i as int].id@ != s.elements@[j].id@);
        }
    }
}

/// Replacing elements by well-formed ones of the same ids keeps a state well formed.
proof fn lemma_wf_same_ids(s: EngineState, t: EngineState)
    requires
        s.wf(),
        t.presence == s.presence,
        t.elements@.len() == s.elements@.len(),
        forall|j: int|
            0 <= j < s.elements@.len() ==> t.elements@[j].id@ == s.elements@[j].id@
                && (#[trigger] t.elements@[j]).wf(),
    ensures
        t.wf(),
{
    assert forall|a: int, b: int|
        0 <= a < b < t.elements@.len() implies t.elements@[a].id@ != t.elements@[b].id@ by {
        assert(s.elements@[a].id@ != s.elements@[b].id@);
    }
}


/// The two shapes are the same geometry: equal, or paths with the same
/// commands, or groups with the same children.
pub open spec fn same_shape(a: Shape, b: Shape) -> bool {
    match (a, b) {
        (Shape::Path(p), Shape::Path(q)) => p.commands@ == q.commands@,
        (Shape::Group(g), Shape::Group(h)) => g.children@ == h.children@,
        _ => a == b,
    }
}

/// The two animations have the same property and keyframes.
pub open spec fn same_animation(a: Animation, b: Animation) -> bool {
    a.property == b.property && a.keyframes@ == b.keyframes@
}

/// The two elements hold the same values.
pub open spec fn same_element(a: Element, b: Element) -> bool {
    &&& a.id == b.id
    &&& a.name == b.name
    &&& a.fill == b.fill
    &&& a.opacity == b.opacity
    &&& a.visible == b.visible
    &&& a.parent_id == b.parent_id
    &&& same_shape(a.shape, b.shape)
    &&& a.animations@.len() == b.animations@.len()
    &&& forall|k: int|
        0 <= k < a.animations@.len() ==> same_animation(
            #[trigger] a.animations@[k],
            b.animations@[k],
        )
}

/// The two states hold the same values, element by element.
pub open spec fn same_state(a: EngineState, b: EngineState) -> bool {
    &&& a.elements@.len() == b.elements@.len()
    &&& forall|i: int|
        0 <= i < a.elements@.len() ==> same_element(#[trigger] a.elements@[i], b.elements@[i])
    &&& a.selection@ == b.selection@
    &&& a.transform == b.transform
    &&& a.presence@ == b.presence@
    &&& a.current_time == b.current_time
    &&& a.duration == b.duration
    &&& a.is_playing == b.is_playing
}

/// `t` is what the actions `acts`, applied in order, make of `s`, through
/// well-formed states.
pub open spec fn runs(s: EngineState, acts: Seq<Action>, t: EngineState) -> bool
    decreases acts.len(),
{
    if acts.len() == 0 {
        t == s
    } else {
        exists|m: EngineState|
            runs(s, acts.drop_last(), m) && m.wf() && #[trigger] reduces(m, acts.last(), t)
    }
}

/// Only one position satisfies the conditions of a time-ordered insertion.
proof fn lemma_insertion_unique(old: Seq<Keyframe>, n1: Seq<Keyframe>, n2: Seq<Keyframe>, kf: Keyframe)
    requires
        inserted_by_time(old, n1, kf),
        inserted_by_time(old, n2, kf),
    ensures
        n1 == n2,
{
    let p1 = choose|p: int|
        0 <= p <= old.len() && (forall|q: int| 0 <= q < p ==> old[q].time.key() <= kf.time.key())
            && (forall|q: int| p <= q < old.len() ==> old[q].time.key() > kf.time.key()) && n1
            == old.insert(p, kf);
    let p2 = choose|p: int|
        0 <= p <= old.len() && (forall|q: int| 0 <= q < p ==> old[q].time.key() <= kf.time.key())
            && (forall|q: int| p <= q < old.len() ==> old[q].time.key() > kf.time.key()) && n2
            == old.insert(p, kf);
    if p1 < p2 {
        assert(old[p1].time.key() > kf.time.key());
    } else if p2 < p1 {
        assert(old[p2].time.key() > kf.time.key());
    }
}

/// Keyframe addition gives the same animations from the same animations.
proof fn lemma_keyframe_added_same(
    o1: Seq<Animation>,
    o2: Seq<Animation>,
    n1: Seq<Animation>,
    n2: Seq<Animation>,
    prop: String,
    kf: Keyframe,
)
    requires
        o1.len() == o2.len(),
        forall|k: int| 0 <= k < o1.len() ==> same_animation(#[trigger] o1[k], o2[k]),
        keyframe_added(o1, n1, prop, kf),
        keyframe_added(o2, n2, prop, kf),
    ensures
        n1.len() == n2.len(),
        forall|k: int| 0 <= k < n1.len() ==> same_animation(#[trigger] n1[k], n2[k]),
{
    assert(forall|k: int| animation_at(o1, prop@, k) == animation_at(o2, prop@, k));
    if exists|k: int| animation_at(o1, prop@, k) {
        let k = choose|k: int| animation_at(o1, prop@, k);
        assert(animation_at(o2, prop@, k));
        lemma_insertion_unique(o1[k].keyframes@, n1[k].keyframes@, n2[k].keyframes@, kf);
        assert forall|m: int| 0 <= m < n1.len() implies same_animation(#[trigger] n1[m], n2[m]) by {
            if m != k {
                assert(n1[m] == o1[m]);
                assert(n2[m] == o2[m]);
            }
        }
    } else {
        assert forall|m: int| 0 <= m < n1.len() implies same_animation(#[trigger] n1[m], n2[m]) by {
            if m < o1.len() {
                assert(n1[m] == o1[m]);
                assert(n2[m] == o2[m]);
            }
        }
    }
}

/// One action takes states holding the same values to states holding the
/// same values: the reducer depends on nothing but its inputs.
pub proof fn lemma_reduces_deterministic(
    s1: EngineState,
    s2: EngineState,
    a: Action,
    t1: EngineState,
    t2: EngineState,
)
    requires
        s1.wf(),
        s2.wf(),
        same_state(s1, s2),
        reduces(s1, a, t1),
        reduces(s2, a, t2),
    ensures
        same_state(t1, t2),
{
    let e1 = s1.elements@;
    let e2 = s2.elements@;
    match a {
        Action::AddElement { id, name, shape, fill } => {
            assert(forall|i: int| element_at(e1, id@, i) == element_at(e2, id@, i));
            if exists|i: int| element_at(e1, id@, i) {
                let i = choose|i: int| element_at(e1, id@, i);
                assert(element_at(e2, id@, i));
                assert forall|j: int| 0 <= j < t1.elements@.len() implies same_element(
                    #[trigger] t1.elements@[j],
                    t2.elements@[j],
                ) by {
                    if j != i {
                        assert(same_element(e1[j], e2[j]));
                    }
                }
            } else {
                assert forall|j: int| 0 <= j < t1.elements@.len() implies same_element(
                    #[trigger] t1.elements@[j],
                    t2.elements@[j],
                ) by {
                    if j < e1.len() {
                        assert(t1.elements@[j] == t1.elements@.drop_last()[j]);
                        assert(t2.elements@[j] == t2.elements@.drop_last()[j]);
                        assert(same_element(e1[j], e2[j]));
                    }
                }
            }
        },
        Action::RemoveElement { id } => {
            assert(forall|i: int| element_at(e1, id@, i) == element_at(e2, id@, i));
            if exists|i: int| element_at(e1, id@, i) {
                let i = choose|i: int| element_at(e1, id@, i);
                assert(element_at(e2, id@, i));
                assert forall|j: int| 0 <= j < t1.elements@.len() implies same_element(
                    #[trigger] t1.elements@[j],
                    t2.elements@[j],
                ) by {
                    if j < i {
                        assert(same_element(e1[j], e2[j]));
                    } else {
                        assert(same_element(e1[j + 1], e2[j + 1]));
                    }
                }
            }
        },
        Action::MoveElement { id, dx, dy } => {
            assert(forall|i: int| element_at(e1, id@, i) == element_at(e2, id@, i));
            if exists|i: int| element_at(e1, id@, i) {
                let i = choose|i: int| element_at(e1, id@, i);
                assert(element_at(e2, id@, i));
                assert forall|j: int| 0 <= j < t1.elements@.len() implies same_element(
                    #[trigger] t1.elements@[j],
                    t2.elements@[j],
                ) by {
                    assert(same_element(e1[j], e2[j]));
                    if j == i {
                        assert(forall|k: int|
                            0 <= k < t1.elements@[j].animations@.len() ==> #[trigger] t1.elements@[j].animations@[k]
                                == e1[j].animations@[k]);
                    }
                }
            }
        },
        Action::SetFill { id, fill } => {
            assert(forall|i: int| element_at(e1, id@, i) == element_at(e2, id@, i));
            if exists|i: int| element_at(e1, id@, i) {
                let i = choose|i: int| element_at(e1, id@, i);
                assert(element_at(e2, id@, i));
                assert forall|j: int| 0 <= j < t1.elements@.len() implies same_element(
                    #[trigger] t1.elements@[j],
                    t2.elements@[j],
                ) by {
                    assert(same_element(e1[j], e2[j]));
                }
            }
        },
        Action::AddKeyframe { element_id, property, keyframe } => {
            assert(forall|i: int|
                element_at(e1, element_id@, i) == element_at(e2, element_id@, i));
            if exists|i: int| element_at(e1, element_id@, i) {
                let i = choose|i: int| element_at(e1, element_id@, i);
                assert(element_at(e2, element_id@, i));
                assert(same_element(e1[i], e2[i]));
                lemma_keyframe_added_same(
                    e1[i].animations@,
                    e2[i].animations@,
                    t1.elements@[i].animations@,
                    t2.elements@[i].animations@,
                    property,
                    keyframe,
                );
                assert forall|j: int| 0 <= j < t1.elements@.len() implies same_element(
                    #[trigger] t1.elements@[j],
                    t2.elements@[j],
                ) by {
                    assert(same_element(e1[j], e2[j]));
                }
            }
        },
        Action::UpdatePresence { presence } => {},
        _ => {},
    }
}

/// Running the same actions from states holding the same values ends in
/// states holding the same values.
pub proof fn lemma_runs_deterministic(
    s1: EngineState,
    s2: EngineState,
    acts: Seq<Action>,
    t1: EngineState,
    t2: EngineState,
)
    requires
        s1.wf(),
        s2.wf(),
        same_state(s1, s2),
        runs(s1, acts, t1),
        runs(s2, acts, t2),
    ensures
        same_state(t1, t2),
    decreases acts.len(),
{
    if acts.len() > 0 {
        let m1 = choose|m: EngineState|
            runs(s1, acts.drop_last(), m) && m.wf() && #[trigger] reduces(m, acts.last(), t1);
        let m2 = choose|m: EngineState|
            runs(s2, acts.drop_last(), m) && m.wf() && #[trigger] reduces(m, acts.last(), t2);
        lemma_runs_deterministic(s1, s2, acts.drop_last(), m1, m2);
        lemma_reduces_deterministic(m1, m2, acts.last(), t1, t2);
    }
}

/// Appending a move by (0, 0) of an element that the final state lacks
/// changes nothing.
pub proof fn lemma_runs_noop_suffix(
    s: EngineState,
    acts: Seq<Action>,
    t: EngineState,
    id: String,
    u: EngineState,
)
    requires
        s.wf(),
        runs(s, acts, t),
        forall|i: int| !#[trigger] element_at(t.elements@, id@, i),
        runs(s, acts.push(Action::MoveElement { id, dx: Scalar { bits: 0 }, dy: Scalar { bits: 0 } }), u),
    ensures
        same_state(u, t),
{
    let noop = Action::MoveElement { id, dx: Scalar { bits: 0 }, dy: Scalar { bits: 0 } };
    assert(acts.push(noop).drop_last() =~= acts);
    let m = choose|m: EngineState|
        runs(s, acts.push(noop).drop_last(), m) && m.wf() && #[trigger] reduces(m, acts.push(noop).last(), u);
    lemma_runs_deterministic(s, s, acts, m, t);
    assert forall|i: int| !#[trigger] element_at(m.elements@, id@, i) by {
        if 0 <= i < m.elements@.len() {
            assert(same_element(m.elements@[i], t.elements@[i]));
            assert(!element_at(t.elements@, id@, i));
        }
    }
}

/// Moving an element that is not there leaves the state exactly as it was.
pub proof fn lemma_missing_move_is_noop(
    s: EngineState,
    id: String,
    dx: Scalar,
    dy: Scalar,
    t: EngineState,
)
    requires
        forall|i: int| !#[trigger] element_at(s.elements@, id@, i),
        reduces(s, Action::MoveElement { id, dx, dy }, t),
    ensures
        t == s,
{
}

} // verus!
