//! The engine: a state, the reducer that changes it, and a spatial index
//! rebuilt after every change.
use crate::computed::{animated_all, lemma_animated_same, Sample};
use crate::geometry::Rect;
use crate::scalar::Scalar;
use crate::spatial::{contents, ids_of, lemma_insert_contents, lemma_query_by_tree, spec_insert, view_query, QView, Quadtree};
use crate::state::{
    no_parents, reducer, reduces, same_animation, same_element, Action, Element, EngineState,
};
use crate::validate::{first_violation, valid_state, validate_state, StateError};
use vstd::multiset::Multiset;
use vstd::prelude::*;

verus! {

/// Capacity of each quadtree node.
pub const NODE_CAPACITY: usize = 4;

/// The region the index covers: from (-5000, -5000), 10000 wide and high.
pub open spec fn universe() -> Rect {
    Rect {
        origin: crate::geometry::Point {
            x: Scalar { bits: -327_680_000i64 },
            y: Scalar { bits: -327_680_000i64 },
        },
        width: Scalar { bits: 655_360_000 },
        height: Scalar { bits: 655_360_000 },
    }
}

/// The index that inserting each element's bounding box, in element order,
/// into an empty tree over `bounds` builds, and each insertion's result.
pub open spec fn rebuilt(bounds: Rect, cap: nat, els: Seq<Element>) -> (QView, Seq<bool>)
    decreases els.len(),
{
    if els.len() == 0 {
        (QView::Leaf { bounds, ids: seq![] }, seq![])
    } else {
        let (v, acc) = rebuilt(bounds, cap, els.drop_last());
        let (v2, r) = spec_insert(v, cap, els.last().id@, els.last().shape.spec_bounding_box());
        (v2, acc.push(r))
    }
}

/// The ids of the elements whose flag is set, counted with multiplicity.
pub open spec fn accepted_ids(els: Seq<Element>, acc: Seq<bool>) -> Multiset<Seq<char>>
    decreases els.len(),
{
    if els.len() == 0 || acc.len() != els.len() {
        Multiset::empty()
    } else {
        let m = accepted_ids(els.drop_last(), acc.drop_last());
        if acc.last() {
            m.insert(els.last().id@)
        } else {
            m
        }
    }
}

/// A rebuilt index holds exactly the ids of the elements it accepted, each
/// as often as it was accepted: no id of an element that is gone, and no id
/// twice when element ids are distinct.
pub proof fn lemma_rebuilt_contents(bounds: Rect, cap: nat, els: Seq<Element>)
    ensures
        rebuilt(bounds, cap, els).1.len() == els.len(),
        contents(rebuilt(bounds, cap, els).0) == accepted_ids(els, rebuilt(bounds, cap, els).1),
    decreases els.len(),
{
    if els.len() == 0 {
        vstd::seq_lib::to_multiset_len(Seq::<Seq<char>>::empty());
        vstd::multiset::lemma_multiset_empty_len(Seq::<Seq<char>>::empty().to_multiset());
    } else {
        lemma_rebuilt_contents(bounds, cap, els.drop_last());
        let (v, acc) = rebuilt(bounds, cap, els.drop_last());
        lemma_insert_contents(v, cap, els.last().id@, els.last().shape.spec_bounding_box());
        let acc2 = rebuilt(bounds, cap, els).1;
        assert(acc2.drop_last() =~= acc);
    }
}

/// Element lists holding the same values give the same rebuilt index, so
/// engines whose states hold the same values answer every query alike.
pub proof fn lemma_rebuilt_same(bounds: Rect, cap: nat, e1: Seq<Element>, e2: Seq<Element>)
    requires
        e1.len() == e2.len(),
        forall|i: int| 0 <= i < e1.len() ==> same_element(#[trigger] e1[i], e2[i]),
    ensures
        rebuilt(bounds, cap, e1) == rebuilt(bounds, cap, e2),
    decreases e1.len(),
{
    if e1.len() > 0 {
        lemma_rebuilt_same(bounds, cap, e1.drop_last(), e2.drop_last());
        assert(same_element(e1.last(), e2.last()));
        assert(e1.last().shape.spec_bounding_box() == e2.last().shape.spec_bounding_box());
    }
}

/// A scene and its spatial index.
#[derive(Debug)]
pub struct KineticEngine {
    pub state: EngineState,
    pub quadtree: Quadtree,
}

impl KineticEngine {
    /// The state and the index are well formed.
    pub open spec fn wf(self) -> bool {
        &&& self.state.wf()
        &&& self.quadtree.wf()
    }

    /// The index is the one rebuilt from the current elements.
    pub open spec fn indexed(self) -> bool {
        self.quadtree.tree() == rebuilt(
            self.quadtree.bounds,
            self.quadtree.capacity as nat,
            self.state.elements@,
        ).0
    }

    /// An engine with the empty scene and an empty index over the universe.
    pub fn new() -> (r: KineticEngine)
        ensures
            r.wf(),
            r.indexed(),
            no_parents(r.state.elements@),
            r.state.elements@.len() == 0,
            r.state.selection@.len() == 0,
            r.state.presence@.len() == 0,
            r.state.transform.x.bits == 0 && r.state.transform.y.bits == 0,
            r.state.transform.scale.bits == 0x3f80_0000,
            r.state.current_time.bits == 0,
            r.state.duration.bits == 0x459c_4000,
            !r.state.is_playing,
            r.quadtree.is_empty_leaf(universe(), NODE_CAPACITY),
    {
        let bounds = Rect::new(
            Scalar::from_int(-5000),
            Scalar::from_int(-5000),
            Scalar::from_int(10000),
            Scalar::from_int(10000),
        );
        let r = KineticEngine {
            state: EngineState::new(),
            quadtree: Quadtree::new(bounds, NODE_CAPACITY),
        };
        assert(ids_of(r.quadtree.elements@) =~= Seq::<Seq<char>>::empty());
        r
    }

    /// An engine with the empty scene and an empty index over `bounds`
    /// whose nodes hold `capacity` ids each.
    pub fn with_index(bounds: Rect, capacity: usize) -> (r: KineticEngine)
        requires
            capacity > 0,
        ensures
            r.wf(),
            r.indexed(),
            r.state.elements@.len() == 0,
            r.quadtree.is_empty_leaf(bounds, capacity),
    {
        let r = KineticEngine { state: EngineState::new(), quadtree: Quadtree::new(bounds, capacity) };
        assert(ids_of(r.quadtree.elements@) =~= Seq::<Seq<char>>::empty());
        r
    }

    /// Empties the index and inserts every element's bounding box, in
    /// element order. Returns, for each element, whether the index took it.
    pub fn rebuild_quadtree(&mut self) -> (accepted: Vec<bool>)
        requires
            old(self).wf(),
        ensures
            final(self).wf(),
            final(self).state == old(self).state,
            final(self).quadtree.bounds == old(self).quadtree.bounds,
            final(self).quadtree.capacity == old(self).quadtree.capacity,
            final(self).indexed(),
            accepted@ == rebuilt(
                old(self).quadtree.bounds,
                old(self).quadtree.capacity as nat,
                old(self).state.elements@,
            ).1,
            accepted@.len() == old(self).state.elements@.len(),
            forall|i: int|
                0 <= i < accepted@.len() && #[trigger] accepted@[i] ==> final(self).quadtree.holds(
                    old(self).state.elements@[i].id@,
                    old(self).state.elements@[i].shape.spec_bounding_box(),
                ),
    {
        self.quadtree.clear();
        assert(ids_of(self.quadtree.elements@) =~= Seq::<Seq<char>>::empty());
        let mut accepted: Vec<bool> = Vec::new();
        let n = self.state.elements.len();
        let mut i: usize = 0;
        while i < n
            invariant
                n == self.state.elements@.len(),
                i <= n,
                self.state == old(self).state,
                self.quadtree.wf(),
                self.quadtree.bounds == old(self).quadtree.bounds,
                self.quadtree.capacity == old(self).quadtree.capacity,
                accepted@.len() == i,
                (self.quadtree.tree(), accepted@) == rebuilt(
                    old(self).quadtree.bounds,
                    old(self).quadtree.capacity as nat,
                    self.state.elements@.take(i as int),
                ),
                forall|k: int|
                    0 <= k < i && #[trigger] accepted@[k] ==> self.quadtree.holds(
                        self.state.elements@[k].id@,
                        self.state.elements@[k].shape.spec_bounding_box(),
                    ),
            decreases n - i,
        {
            assert(self.state.elements@.take(i as int + 1).drop_last() =~= self.state.elements@.take(
                i as int,
            ));
            let bbox = self.state.elements[i].shape.get_bounding_box();
            let ok = self.quadtree.insert(self.state.elements[i].id.as_str(), &bbox);
            accepted.push(ok);
            i = i + 1;
        }
        assert(self.state.elements@.take(n as int) =~= self.state.elements@);
        accepted
    }

    /// Applies `action` to the state and rebuilds the index.
    pub fn dispatch(&mut self, action: Action)
        requires
            old(self).wf(),
        ensures
            final(self).wf(),
            reduces(old(self).state, action, final(self).state),
            final(self).quadtree.bounds == old(self).quadtree.bounds,
            final(self).quadtree.capacity == old(self).quadtree.capacity,
            final(self).indexed(),
            no_parents(old(self).state.elements@) ==> no_parents(final(self).state.elements@),
    {
        reducer(&mut self.state, action);
        self.rebuild_quadtree();
    }

    /// The raw state.
    pub fn get_raw_state(&self) -> (r: &EngineState)
        ensures
            *r == self.state,
    {
        &self.state
    }

    /// Replaces the state by `state` when it meets the invariant, and
    /// rebuilds the index; otherwise reports the broken rule and changes
    /// nothing.
    pub fn deserialize_state(&mut self, state: EngineState) -> (r: Result<(), StateError>)
        requires
            old(self).wf(),
        ensures
            final(self).wf(),
            r is Ok <==> valid_state(state),
            r is Ok ==> final(self).state == state && final(self).indexed()
                && final(self).quadtree.bounds == old(self).quadtree.bounds
                && final(self).quadtree.capacity == old(self).quadtree.capacity,
            r is Err ==> *final(self) == *old(self),
            r matches Err(e) ==> first_violation(state) == Some(e),
    {
        match validate_state(&state) {
            Ok(()) => {
                self.state = state;
                self.rebuild_quadtree();
                Ok(())
            },
            Err(e) => Err(e),
        }
    }

    /// The computed view: a copy of the state in which each animated
    /// property holds its sample, `samples[i][j]` being the value at the
    /// current time of animation `j` of element `i`.
    pub fn get_state(&self, samples: &Vec<Vec<Sample>>) -> (r: EngineState)
        requires
            samples@.len() == self.state.elements@.len(),
            forall|i: int|
                0 <= i < samples@.len() ==> (#[trigger] samples@[i])@.len()
                    == self.state.elements@[i].animations@.len(),
        ensures
            r.elements@.len() == self.state.elements@.len(),
            forall|i: int|
                0 <= i < r.elements@.len() ==> same_element(
                    #[trigger] r.elements@[i],
                    animated_all(
                        self.state.elements@[i],
                        self.state.elements@[i].animations@,
                        samples@[i]@,
                    ),
                ),
            r.selection@ == self.state.selection@,
            r.transform == self.state.transform,
            r.presence@ == self.state.presence@,
            r.current_time == self.state.current_time,
            r.duration == self.state.duration,
            r.is_playing == self.state.is_playing,
    {
        let copy = self.state.duplicate();
        assert(forall|i: int|
            0 <= i < copy.elements@.len() ==> same_element(
                #[trigger] copy.elements@[i],
                self.state.elements@[i],
            ));
        let ghost c = copy;
        let r = copy.get_computed_state(samples);
        assert forall|i: int| 0 <= i < r.elements@.len() implies same_element(
            #[trigger] r.elements@[i],
            animated_all(
                self.state.elements@[i],
                self.state.elements@[i].animations@,
                samples@[i]@,
            ),
        ) by {
            let ce = c.elements@[i];
            let se = self.state.elements@[i];
            assert(same_element(ce, se));
            assert forall|k: int| 0 <= k < ce.animations@.len() implies (
            #[trigger] ce.animations@[k]).property@ == se.animations@[k].property@ by {
                assert(same_animation(ce.animations@[k], se.animations@[k]));
            }
            lemma_animated_same(ce, se, ce.animations@, se.animations@, samples@[i]@);
        }
        r
    }

    /// Candidate ids for `range`: every id stored at a node of the index
    /// whose bounds, and whose ancestors' bounds, meet the range.
    pub fn query_spatial(&self, range: Rect) -> (r: Vec<String>)
        ensures
            ids_of(r@) == self.quadtree.query_seq(range),
            self.wf() ==> ids_of(r@) == view_query(self.quadtree.tree(), range),
    {
        let mut ids: Vec<String> = Vec::new();
        self.quadtree.query(&range, &mut ids);
        assert(ids_of(Seq::<String>::empty()) =~= Seq::<Seq<char>>::empty());
        assert(ids_of(ids@) =~= self.quadtree.query_seq(range));
        proof {
            if self.wf() {
                lemma_query_by_tree(self.quadtree, range);
            }
        }
        ids
    }
}

} // verus!
