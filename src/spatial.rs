//! Quadtree spatial index over element ids.
use crate::geometry::Rect;
use vstd::multiset::Multiset;
use vstd::prelude::*;

verus! {

/// The ids held by a vector of strings, as character sequences.
pub open spec fn ids_of(v: Seq<String>) -> Seq<Seq<char>> {
    v.map_values(|s: String| s@)
}

/// A quadtree as a mathematical value: each node's bounds and ids, and,
/// once divided, its four children.
pub enum QView {
    Leaf { bounds: Rect, ids: Seq<Seq<char>> },
    Split {
        bounds: Rect,
        ids: Seq<Seq<char>>,
        nw: Box<QView>,
        ne: Box<QView>,
        sw: Box<QView>,
        se: Box<QView>,
    },
}

impl QView {
    pub open spec fn bounds(self) -> Rect {
        match self {
            QView::Leaf { bounds, .. } => bounds,
            QView::Split { bounds, .. } => bounds,
        }
    }

    pub open spec fn ids(self) -> Seq<Seq<char>> {
        match self {
            QView::Leaf { ids, .. } => ids,
            QView::Split { ids, .. } => ids,
        }
    }

    pub open spec fn with_ids(self, ids: Seq<Seq<char>>) -> QView {
        match self {
            QView::Leaf { bounds, .. } => QView::Leaf { bounds, ids },
            QView::Split { bounds, nw, ne, sw, se, .. } => QView::Split { bounds, ids, nw, ne, sw, se },
        }
    }

    /// Bounds the depth of an insertion.
    pub open spec fn rank(self, cap: nat) -> nat
        decreases self,
    {
        match self {
            QView::Leaf { ids, .. } => if ids.len() < cap {
                0
            } else {
                1
            },
            QView::Split { nw, ne, sw, se, .. } => 2 + vstd::math::max(
                vstd::math::max(nw.rank(cap) as int, ne.rank(cap) as int),
                vstd::math::max(sw.rank(cap) as int, se.rank(cap) as int),
            ) as nat,
        }
    }

    /// Number of levels below this node.
    pub open spec fn depth(self) -> nat
        decreases self,
    {
        match self {
            QView::Leaf { .. } => 0,
            QView::Split { nw, ne, sw, se, .. } => 1 + vstd::math::max(
                vstd::math::max(nw.depth() as int, ne.depth() as int),
                vstd::math::max(sw.depth() as int, se.depth() as int),
            ) as nat,
        }
    }
}

/// Quarter `k` (north-west, north-east, south-west, south-east) of `b`,
/// each of half the width and half the height.
pub open spec fn quarter(b: Rect, k: int) -> Rect {
    let w = b.width.spec_half();
    let h = b.height.spec_half();
    let x = if k == 1 || k == 3 {
        b.origin.x.spec_add(w)
    } else {
        b.origin.x
    };
    let y = if k == 2 || k == 3 {
        b.origin.y.spec_add(h)
    } else {
        b.origin.y
    };
    Rect::new_spec(x, y, w, h)
}

/// The four children of a node that is about to receive an id while full:
/// its own children, or four empty leaves over its quarters.
pub open spec fn kids_of(v: QView) -> (QView, QView, QView, QView) {
    match v {
        QView::Split { nw, ne, sw, se, .. } => (*nw, *ne, *sw, *se),
        QView::Leaf { bounds, .. } => (
            QView::Leaf { bounds: quarter(bounds, 0), ids: seq![] },
            QView::Leaf { bounds: quarter(bounds, 1), ids: seq![] },
            QView::Leaf { bounds: quarter(bounds, 2), ids: seq![] },
            QView::Leaf { bounds: quarter(bounds, 3), ids: seq![] },
        ),
    }
}

/// The tree after inserting `id` for the box `e`, and whether it was stored:
/// nothing changes when the bounds miss `e`; a node with room appends the
/// id; a full node is divided (if it was not) and offers the id to its
/// children in north-west, north-east, south-west, south-east order until
/// one stores it.
pub open spec fn spec_insert(v: QView, cap: nat, id: Seq<char>, e: Rect) -> (QView, bool)
    decreases v.rank(cap),
{
    if !v.bounds().spec_intersects(e) {
        (v, false)
    } else if v.ids().len() < cap {
        (v.with_ids(v.ids().push(id)), true)
    } else if cap == 0 {
        (v, false)
    } else {
        let (nw, ne, sw, se) = kids_of(v);
        let b = v.bounds();
        let ids = v.ids();
        let (nw2, r1) = spec_insert(nw, cap, id, e);
        if r1 {
            (QView::Split { bounds: b, ids, nw: Box::new(nw2), ne: Box::new(ne), sw: Box::new(sw), se: Box::new(se) }, true)
        } else {
            let (ne2, r2) = spec_insert(ne, cap, id, e);
            if r2 {
                (QView::Split { bounds: b, ids, nw: Box::new(nw2), ne: Box::new(ne2), sw: Box::new(sw), se: Box::new(se) }, true)
            } else {
                let (sw2, r3) = spec_insert(sw, cap, id, e);
                if r3 {
                    (QView::Split { bounds: b, ids, nw: Box::new(nw2), ne: Box::new(ne2), sw: Box::new(sw2), se: Box::new(se) }, true)
                } else {
                    let (se2, r4) = spec_insert(se, cap, id, e);
                    (QView::Split { bounds: b, ids, nw: Box::new(nw2), ne: Box::new(ne2), sw: Box::new(sw2), se: Box::new(se2) }, r4)
                }
            }
        }
    }
}

/// The ids a query for `range` collects from a tree value: a node's own ids,
/// then its children's in north-west, north-east, south-west, south-east
/// order; nothing where the bounds miss the range.
pub open spec fn view_query(v: QView, range: Rect) -> Seq<Seq<char>>
    decreases v,
{
    if !v.bounds().spec_intersects(range) {
        seq![]
    } else {
        match v {
            QView::Leaf { ids, .. } => ids,
            QView::Split { ids, nw, ne, sw, se, .. } => ids + view_query(*nw, range) + view_query(
                *ne,
                range,
            ) + view_query(*sw, range) + view_query(*se, range),
        }
    }
}

/// A region of the plane with the ids stored at it and, once divided, four
/// children covering its north-west, north-east, south-west and south-east
/// quarters.
#[derive(Debug)]
pub struct Quadtree {
    pub bounds: Rect,
    pub capacity: usize,
    pub elements: Vec<String>,
    pub divided: bool,
    pub north_west: Option<Box<Quadtree>>,
    pub north_east: Option<Box<Quadtree>>,
    pub south_west: Option<Box<Quadtree>>,
    pub south_east: Option<Box<Quadtree>>,
}

/// Well-formedness of an optional child with the given capacity.
pub open spec fn child_wf(c: Option<Box<Quadtree>>, capacity: usize) -> bool
    decreases c,
{
    match c {
        Some(b) => b.capacity == capacity && b.wf(),
        None => false,
    }
}

/// Rank of an optional child (0 when absent).
pub open spec fn child_rank(c: Option<Box<Quadtree>>) -> nat
    decreases c,
{
    match c {
        Some(b) => b.rank(),
        None => 0,
    }
}

/// An optional child holds `id` for the box `e`.
pub open spec fn child_holds(c: Option<Box<Quadtree>>, id: Seq<char>, e: Rect) -> bool
    decreases c,
{
    match c {
        Some(b) => b.holds(id, e),
        None => false,
    }
}

/// What a query of an optional child returns.
pub open spec fn child_query(c: Option<Box<Quadtree>>, range: Rect) -> Seq<Seq<char>>
    decreases c,
{
    match c {
        Some(b) => b.query_seq(range),
        None => seq![],
    }
}

/// Appends a copy of every string of `src` to `found`.
fn append_ids(src: &Vec<String>, found: &mut Vec<String>)
    ensures
        ids_of(final(found)@) == ids_of(old(found)@) + ids_of(src@),
{
    let ghost start = ids_of(found@);
    let n = src.len();
    let mut i: usize = 0;
    while i < n
        invariant
            n == src@.len(),
            i <= n,
            ids_of(found@) == start + ids_of(src@).take(i as int),
        decreases n - i,
    {
        let ghost prev = found@;
        found.push(src[i].clone());
        assert(ids_of(found@) =~= ids_of(prev).push(src@[i as int]@));
        assert(ids_of(src@).take(i as int + 1) =~= ids_of(src@).take(i as int).push(
            src@[i as int]@,
        ));
        i = i + 1;
    }
    assert(ids_of(src@).take(n as int) =~= ids_of(src@));
}

impl Quadtree {

    /// The tree as a mathematical value.
    pub open spec fn tree(self) -> QView
        decreases self,
    {
        if self.divided {
            match (self.north_west, self.north_east, self.south_west, self.south_east) {
                (Some(a), Some(b), Some(c), Some(d)) => QView::Split {
                    bounds: self.bounds,
                    ids: ids_of(self.elements@),
                    nw: Box::new(a.tree()),
                    ne: Box::new(b.tree()),
                    sw: Box::new(c.tree()),
                    se: Box::new(d.tree()),
                },
                _ => QView::Leaf { bounds: self.bounds, ids: ids_of(self.elements@) },
            }
        } else {
            QView::Leaf { bounds: self.bounds, ids: ids_of(self.elements@) }
        }
    }

    /// Every node has room for at least one id, holds at most `capacity`,
    /// shares the capacity of the root, and is divided exactly when it has
    /// its four children.
    pub open spec fn wf(self) -> bool
        decreases self,
    {
        &&& self.capacity > 0
        &&& self.elements@.len() <= self.capacity
        &&& if self.divided {
            &&& child_wf(self.north_west, self.capacity)
            &&& child_wf(self.north_east, self.capacity)
            &&& child_wf(self.south_west, self.capacity)
            &&& child_wf(self.south_east, self.capacity)
        } else {
            &&& self.north_west is None
            &&& self.north_east is None
            &&& self.south_west is None
            &&& self.south_east is None
        }
    }

    /// Bounds the depth of an insertion.
    pub open spec fn rank(self) -> nat
        decreases self,
    {
        if self.divided {
            2 + vstd::math::max(
                vstd::math::max(child_rank(self.north_west) as int, child_rank(self.north_east) as int),
                vstd::math::max(child_rank(self.south_west) as int, child_rank(self.south_east) as int),
            ) as nat
        } else if self.elements@.len() < self.capacity {
            0
        } else {
            1
        }
    }

    /// `id` is stored at some node reached from this one through nodes whose
    /// bounds all meet `e`.
    pub open spec fn holds(self, id: Seq<char>, e: Rect) -> bool
        decreases self,
    {
        &&& self.bounds.spec_intersects(e)
        &&& {
            ||| ids_of(self.elements@).contains(id)
            ||| child_holds(self.north_west, id, e)
            ||| child_holds(self.north_east, id, e)
            ||| child_holds(self.south_west, id, e)
            ||| child_holds(self.south_east, id, e)
        }
    }

    /// The ids that a query for `range` appends, in order: those of this
    /// node, then those of the children in north-west, north-east,
    /// south-west, south-east order; nothing when the bounds miss the range.
    pub open spec fn query_seq(self, range: Rect) -> Seq<Seq<char>>
        decreases self,
    {
        if !self.bounds.spec_intersects(range) {
            seq![]
        } else {
            ids_of(self.elements@) + child_query(self.north_west, range) + child_query(
                self.north_east,
                range,
            ) + child_query(self.south_west, range) + child_query(self.south_east, range)
        }
    }

    /// An empty leaf.
    pub open spec fn is_empty_leaf(self, bounds: Rect, capacity: usize) -> bool {
        &&& self.bounds == bounds
        &&& self.capacity == capacity
        &&& self.elements@.len() == 0
        &&& !self.divided
        &&& self.north_west is None
        &&& self.north_east is None
        &&& self.south_west is None
        &&& self.south_east is None
    }

    pub fn new(bounds: Rect, capacity: usize) -> (r: Quadtree)
        ensures
            r.is_empty_leaf(bounds, capacity),
    {
        Quadtree {
            bounds,
            capacity,
            elements: Vec::new(),
            divided: false,
            north_west: None,
            north_east: None,
            south_west: None,
            south_east: None,
        }
    }

    /// Gives the node four empty children over the quarters of its bounds,
    /// each of half the width and half the height.
    pub fn subdivide(&mut self)
        ensures
            final(self).bounds == old(self).bounds,
            final(self).capacity == old(self).capacity,
            final(self).elements == old(self).elements,
            final(self).divided,
            ({
                let b = old(self).bounds;
                let w = b.width.spec_half();
                let h = b.height.spec_half();
                let x2 = b.origin.x.spec_add(w);
                let y2 = b.origin.y.spec_add(h);
                let c = old(self).capacity;
                &&& final(self).north_west.unwrap().is_empty_leaf(
                    Rect::new_spec(b.origin.x, b.origin.y, w, h),
                    c,
                )
                &&& final(self).north_east.unwrap().is_empty_leaf(
                    Rect::new_spec(x2, b.origin.y, w, h),
                    c,
                )
                &&& final(self).south_west.unwrap().is_empty_leaf(
                    Rect::new_spec(b.origin.x, y2, w, h),
                    c,
                )
                &&& final(self).south_east.unwrap().is_empty_leaf(Rect::new_spec(x2, y2, w, h), c)
            }),
            final(self).north_west is Some,
            final(self).north_east is Some,
            final(self).south_west is Some,
            final(self).south_east is Some,
    {
        let x = self.bounds.origin.x;
        let y = self.bounds.origin.y;
        let w = self.bounds.width.half();
        let h = self.bounds.height.half();
        let x2 = x.add(w);
        let y2 = y.add(h);
        self.north_west = Some(Box::new(Quadtree::new(Rect::new_scalar(x, y, w, h), self.capacity)));
        self.north_east = Some(Box::new(Quadtree::new(Rect::new_scalar(x2, y, w, h), self.capacity)));
        self.south_west = Some(Box::new(Quadtree::new(Rect::new_scalar(x, y2, w, h), self.capacity)));
        self.south_east = Some(
            Box::new(Quadtree::new(Rect::new_scalar(x2, y2, w, h), self.capacity)),
        );
        self.divided = true;
    }

    /// Stores `element_id` at the first node, in north-west, north-east,
    /// south-west, south-east probe order, whose bounds meet `element_bounds`
    /// and that has room, dividing full leaves on the way. Returns whether
    /// the id was stored.
    pub fn insert(&mut self, element_id: &str, element_bounds: &Rect) -> (r: bool)
        requires
            old(self).wf(),
        ensures
            final(self).wf(),
            final(self).bounds == old(self).bounds,
            final(self).capacity == old(self).capacity,
            !old(self).bounds.spec_intersects(*element_bounds) ==> !r && *final(self) == *old(
                self,
            ),
            old(self).bounds.spec_intersects(*element_bounds) && old(self).elements@.len() < old(
                self,
            ).capacity ==> r && ids_of(final(self).elements@) == ids_of(old(self).elements@).push(
                element_id@,
            ),
            r ==> final(self).holds(element_id@, *element_bounds),
            forall|i: Seq<char>, e: Rect| #[trigger]
                old(self).holds(i, e) ==> final(self).holds(i, e),
            final(self).tree() == spec_insert(
                old(self).tree(),
                old(self).capacity as nat,
                element_id@,
                *element_bounds,
            ).0,
            r == spec_insert(
                old(self).tree(),
                old(self).capacity as nat,
                element_id@,
                *element_bounds,
            ).1,
        decreases old(self).rank(),
    {
        if !self.bounds.intersects(element_bounds) {
            return false;
        }
        if self.elements.len() < self.capacity {
            let ghost before = self.elements@;
            self.elements.push(String::from_str(element_id));
            assert(ids_of(self.elements@) =~= ids_of(before).push(element_id@));
            assert(ids_of(self.elements@)[before.len() as int] == element_id@);
            assert forall|i: Seq<char>, e: Rect| #[trigger]
                old(self).holds(i, e) implies self.holds(i, e) by {
                if ids_of(before).contains(i) {
                    let k = choose|k: int| 0 <= k < before.len() && ids_of(before)[k] == i;
                    assert(ids_of(self.elements@)[k] == i);
                }
            }
            return true;
        }
        let ghost kids = kids_of(old(self).tree());
        if !self.divided {
            self.subdivide();
            assert(ids_of(self.north_west.unwrap().elements@) =~= Seq::<Seq<char>>::empty());
            assert(ids_of(self.north_east.unwrap().elements@) =~= Seq::<Seq<char>>::empty());
            assert(ids_of(self.south_west.unwrap().elements@) =~= Seq::<Seq<char>>::empty());
            assert(ids_of(self.south_east.unwrap().elements@) =~= Seq::<Seq<char>>::empty());
        }
        let ghost mid = *self;
        assert(mid.north_west.unwrap().tree() == kids.0);
        assert(mid.north_east.unwrap().tree() == kids.1);
        assert(mid.south_west.unwrap().tree() == kids.2);
        assert(mid.south_east.unwrap().tree() == kids.3);
        assert(forall|i: Seq<char>, e: Rect| #[trigger]
            old(self).holds(i, e) ==> mid.holds(i, e));
        let mut r = match &mut self.north_west {
            Some(c) => c.insert(element_id, element_bounds),
            None => false,
        };
        if !r {
            r = match &mut self.north_east {
                Some(c) => c.insert(element_id, element_bounds),
                None => false,
            };
        }
        if !r {
            r = match &mut self.south_west {
                Some(c) => c.insert(element_id, element_bounds),
                None => false,
            };
        }
        if !r {
            r = match &mut self.south_east {
                Some(c) => c.insert(element_id, element_bounds),
                None => false,
            };
        }
        assert(child_wf(self.north_west, self.capacity));
        assert(child_wf(self.north_east, self.capacity));
        assert(child_wf(self.south_west, self.capacity));
        assert(child_wf(self.south_east, self.capacity));
        assert forall|i: Seq<char>, e: Rect| #[trigger]
            old(self).holds(i, e) implies self.holds(i, e) by {
            assert(mid.holds(i, e));
            if child_holds(mid.north_west, i, e) {
                assert(mid.north_west.unwrap().holds(i, e));
                assert(self.north_west.unwrap().holds(i, e));
            } else if child_holds(mid.north_east, i, e) {
                assert(mid.north_east.unwrap().holds(i, e));
                assert(self.north_east.unwrap().holds(i, e));
            } else if child_holds(mid.south_west, i, e) {
                assert(mid.south_west.unwrap().holds(i, e));
                assert(self.south_west.unwrap().holds(i, e));
            } else if child_holds(mid.south_east, i, e) {
                assert(mid.south_east.unwrap().holds(i, e));
                assert(self.south_east.unwrap().holds(i, e));
            }
        }
        r
    }

    /// Appends to `found` the ids of every node whose bounds, and whose
    /// ancestors' bounds, meet `range`: a node's own ids first, then its
    /// children in north-west, north-east, south-west, south-east order.
    #[verifier::rlimit(60)]
    pub fn query(&self, range: &Rect, found: &mut Vec<String>)
        ensures
            ids_of(final(found)@) == ids_of(old(found)@) + self.query_seq(*range),
        decreases self,
    {
        let ghost start = ids_of(found@);
        if !self.bounds.intersects(range) {
            assert(ids_of(found@) =~= start + self.query_seq(*range));
            return;
        }
        assert(self.query_seq(*range) == ids_of(self.elements@) + child_query(
            self.north_west,
            *range,
        ) + child_query(self.north_east, *range) + child_query(self.south_west, *range)
            + child_query(self.south_east, *range));
        append_ids(&self.elements, found);
        let ghost s1 = ids_of(found@);
        match &self.north_west {
            Some(c) => c.query(range, found),
            None => {},
        }
        assert(ids_of(found@) == s1 + child_query(self.north_west, *range));
        let ghost s2 = ids_of(found@);
        match &self.north_east {
            Some(c) => c.query(range, found),
            None => {},
        }
        assert(ids_of(found@) == s2 + child_query(self.north_east, *range));
        let ghost s3 = ids_of(found@);
        match &self.south_west {
            Some(c) => c.query(range, found),
            None => {},
        }
        assert(ids_of(found@) == s3 + child_query(self.south_west, *range));
        let ghost s4 = ids_of(found@);
        match &self.south_east {
            Some(c) => c.query(range, found),
            None => {},
        }
        assert(ids_of(found@) == s4 + child_query(self.south_east, *range));
        assert(ids_of(found@) =~= start + self.query_seq(*range));
    }

    /// Empties the node and drops its children.
    pub fn clear(&mut self)
        ensures
            final(self).is_empty_leaf(old(self).bounds, old(self).capacity),
    {
        self.elements = Vec::new();
        self.divided = false;
        self.north_west = None;
        self.north_east = None;
        self.south_west = None;
        self.south_east = None;
    }
}

/// Every id stored anywhere in a tree value, counted with multiplicity.
pub open spec fn contents(v: QView) -> Multiset<Seq<char>>
    decreases v,
{
    match v {
        QView::Leaf { ids, .. } => ids.to_multiset(),
        QView::Split { ids, nw, ne, sw, se, .. } => ids.to_multiset().add(contents(*nw)).add(
            contents(*ne),
        ).add(contents(*sw)).add(contents(*se)),
    }
}

/// An insertion that succeeds stores the id exactly once more and nothing
/// else; one that fails stores nothing.
pub proof fn lemma_insert_contents(v: QView, cap: nat, id: Seq<char>, e: Rect)
    ensures
        contents(spec_insert(v, cap, id, e).0) == if spec_insert(v, cap, id, e).1 {
            contents(v).insert(id)
        } else {
            contents(v)
        },
    decreases v.rank(cap),
{
    broadcast use vstd::seq_lib::to_multiset_build;
    broadcast use vstd::multiset::group_multiset_axioms;
    if v.bounds().spec_intersects(e) && v.ids().len() >= cap && cap > 0 {
        let (nw, ne, sw, se) = kids_of(v);
        lemma_insert_contents(nw, cap, id, e);
        lemma_insert_contents(ne, cap, id, e);
        lemma_insert_contents(sw, cap, id, e);
        lemma_insert_contents(se, cap, id, e);
        let ids = v.ids();
        match v {
            QView::Leaf { .. } => {
                vstd::seq_lib::to_multiset_len(Seq::<Seq<char>>::empty());
                vstd::multiset::lemma_multiset_empty_len(Seq::<Seq<char>>::empty().to_multiset());
                assert(Seq::<Seq<char>>::empty().to_multiset() =~= Multiset::empty());
                assert(contents(v) == ids.to_multiset());
                assert(contents(v) =~= ids.to_multiset().add(contents(nw)).add(contents(ne)).add(
                    contents(sw),
                ).add(contents(se)));
            },
            _ => {},
        }
        let (nw2, r1) = spec_insert(nw, cap, id, e);
        let (ne2, r2) = spec_insert(ne, cap, id, e);
        let (sw2, r3) = spec_insert(sw, cap, id, e);
        let (se2, r4) = spec_insert(se, cap, id, e);
        let m = ids.to_multiset();
        if r1 {
            assert(m.add(contents(nw2)).add(contents(ne)).add(contents(sw)).add(contents(se))
                =~= m.add(contents(nw)).add(contents(ne)).add(contents(sw)).add(
                contents(se),
            ).insert(id));
        } else if r2 {
            assert(m.add(contents(nw2)).add(contents(ne2)).add(contents(sw)).add(contents(se))
                =~= m.add(contents(nw)).add(contents(ne)).add(contents(sw)).add(
                contents(se),
            ).insert(id));
        } else if r3 {
            assert(m.add(contents(nw2)).add(contents(ne2)).add(contents(sw2)).add(contents(se))
                =~= m.add(contents(nw)).add(contents(ne)).add(contents(sw)).add(
                contents(se),
            ).insert(id));
        } else if r4 {
            assert(m.add(contents(nw2)).add(contents(ne2)).add(contents(sw2)).add(contents(se2))
                =~= m.add(contents(nw)).add(contents(ne)).add(contents(sw)).add(
                contents(se),
            ).insert(id));
        } else {
            assert(m.add(contents(nw2)).add(contents(ne2)).add(contents(sw2)).add(contents(se2))
                =~= m.add(contents(nw)).add(contents(ne)).add(contents(sw)).add(contents(se)));
        }
    } else if v.bounds().spec_intersects(e) && v.ids().len() < cap {
        match v {
            QView::Leaf { .. } => {},
            QView::Split { ids, nw, ne, sw, se, .. } => {
                assert(ids.push(id).to_multiset().add(contents(*nw)).add(contents(*ne)).add(
                    contents(*sw),
                ).add(contents(*se)) =~= ids.to_multiset().add(contents(*nw)).add(
                    contents(*ne),
                ).add(contents(*sw)).add(contents(*se)).insert(id));
            },
        }
    }
}

/// An insertion adds at most one level to a tree.
pub proof fn lemma_insert_depth(v: QView, cap: nat, id: Seq<char>, e: Rect)
    ensures
        spec_insert(v, cap, id, e).0.depth() <= v.depth() + 1,
    decreases v.rank(cap),
{
    if v.bounds().spec_intersects(e) && v.ids().len() >= cap && cap > 0 {
        let (nw, ne, sw, se) = kids_of(v);
        lemma_insert_depth(nw, cap, id, e);
        lemma_insert_depth(ne, cap, id, e);
        lemma_insert_depth(sw, cap, id, e);
        lemma_insert_depth(se, cap, id, e);
        match v {
            QView::Leaf { .. } => {
                assert(nw.depth() == 0 && ne.depth() == 0 && sw.depth() == 0 && se.depth() == 0);
            },
            _ => {},
        }
    } else if v.bounds().spec_intersects(e) && v.ids().len() < cap {
        assert(v.with_ids(v.ids().push(id)).depth() == v.depth());
    }
}

/// On a well-formed tree, the ids a query collects are those its tree value
/// gives, so trees with equal values answer every query alike.
pub proof fn lemma_query_by_tree(t: Quadtree, range: Rect)
    requires
        t.wf(),
    ensures
        t.query_seq(range) == view_query(t.tree(), range),
    decreases t,
{
    if t.divided && t.bounds.spec_intersects(range) {
        lemma_query_by_tree(*t.north_west.unwrap(), range);
        lemma_query_by_tree(*t.north_east.unwrap(), range);
        lemma_query_by_tree(*t.south_west.unwrap(), range);
        lemma_query_by_tree(*t.south_east.unwrap(), range);
    } else if t.bounds.spec_intersects(range) {
        assert(t.query_seq(range) =~= ids_of(t.elements@));
    }
}

/// Soundness of range queries for boxes inside the range: an id stored for
/// the box `e` is returned by every query whose range encloses `e`.
pub proof fn lemma_query_finds_enclosed(t: Quadtree, id: Seq<char>, e: Rect, range: Rect)
    requires
        t.holds(id, e),
        range.encloses(e),
    ensures
        t.query_seq(range).contains(id),
    decreases t,
{
    assert(t.bounds.spec_intersects(range));
    let own = ids_of(t.elements@);
    let nw = child_query(t.north_west, range);
    let ne = child_query(t.north_east, range);
    let sw = child_query(t.south_west, range);
    let se = child_query(t.south_east, range);
    let q = t.query_seq(range);
    assert(q == own + nw + ne + sw + se);
    if own.contains(id) {
        let k = choose|k: int| 0 <= k < own.len() && own[k] == id;
        assert(q[k] == id);
    } else if child_holds(t.north_west, id, e) {
        lemma_query_finds_enclosed(*t.north_west.unwrap(), id, e, range);
        let k = choose|k: int| 0 <= k < nw.len() && nw[k] == id;
        assert(q[own.len() + k] == id);
    } else if child_holds(t.north_east, id, e) {
        lemma_query_finds_enclosed(*t.north_east.unwrap(), id, e, range);
        let k = choose|k: int| 0 <= k < ne.len() && ne[k] == id;
        assert(q[own.len() + nw.len() + k] == id);
    } else if child_holds(t.south_west, id, e) {
        lemma_query_finds_enclosed(*t.south_west.unwrap(), id, e, range);
        let k = choose|k: int| 0 <= k < sw.len() && sw[k] == id;
        assert(q[own.len() + nw.len() + ne.len() + k] == id);
    } else {
        lemma_query_finds_enclosed(*t.south_east.unwrap(), id, e, range);
        let k = choose|k: int| 0 <= k < se.len() && se[k] == id;
        assert(q[own.len() + nw.len() + ne.len() + sw.len() + k] == id);
    }
}

} // verus!
