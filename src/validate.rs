//! Checks of the invariants that a state received from outside must meet.
use crate::geometry::Shape;
use crate::state::{dims_ok, find_element, no_parents, index_from, sorted_by_time, Animation, Element, EngineState};
use vstd::prelude::*;

verus! {

/// Why a state was rejected.
#[derive(Clone, Copy, PartialEq, Eq, Structural, Debug)]
pub enum StateError {
    /// Two elements share an id.
    DuplicateId,
    /// A rectangle or image has a negative width or height, or a circle a
    /// negative radius.
    NegativeDimension,
    /// Following parent ids from some element comes back to an element.
    CyclicParent,
    /// An element animates one property twice, or a keyframe sequence is
    /// not sorted by time.
    MalformedAnimation,
    /// Two presence records belong to one user.
    DuplicatePresence,
}

/// Element ids are pairwise distinct.
pub open spec fn unique_ids(els: Seq<Element>) -> bool {
    forall|i: int, j: int| 0 <= i < j < els.len() ==> els[i].id@ != els[j].id@
}

/// Following parent ids from element `i` reaches, within `fuel` steps, an
/// element without parent or whose parent id names no element.
pub open spec fn ends_within(els: Seq<Element>, i: int, fuel: nat) -> bool
    decreases fuel,
{
    match els[i].parent_id {
        None => true,
        Some(p) => {
            let j = index_from(els, p@, 0);
            j < 0 || (fuel > 0 && ends_within(els, j, (fuel - 1) as nat))
        },
    }
}

/// No parent chain revisits an element: from each element the chain ends
/// within as many steps as there are elements.
pub open spec fn acyclic(els: Seq<Element>) -> bool {
    forall|i: int| 0 <= i < els.len() ==> #[trigger] ends_within(els, i, els.len())
}

/// The whole invariant of a state.
pub open spec fn valid_state(s: EngineState) -> bool {
    &&& unique_ids(s.elements@)
    &&& forall|i: int| 0 <= i < s.elements@.len() ==> dims_ok(#[trigger] s.elements@[i].shape)
    &&& acyclic(s.elements@)
    &&& s.wf()
}

/// The first rule, in the order of the error kinds, that `s` breaks.
pub open spec fn first_violation(s: EngineState) -> Option<StateError> {
    if !unique_ids(s.elements@) {
        Some(StateError::DuplicateId)
    } else if !(forall|i: int|
        0 <= i < s.elements@.len() ==> dims_ok(#[trigger] s.elements@[i].shape)) {
        Some(StateError::NegativeDimension)
    } else if !acyclic(s.elements@) {
        Some(StateError::CyclicParent)
    } else if !(forall|i: int| 0 <= i < s.elements@.len() ==> (#[trigger] s.elements@[i]).wf()) {
        Some(StateError::MalformedAnimation)
    } else if !s.wf() {
        Some(StateError::DuplicatePresence)
    } else {
        None
    }
}

/// Whether the chain of parents from element `i` ends.
fn chain_ends(els: &Vec<Element>, i: usize) -> (r: bool)
    requires
        i < els@.len(),
    ensures
        r == ends_within(els@, i as int, els@.len()),
{
    let n = els.len();
    let mut cur: usize = i;
    let mut fuel: usize = n;
    loop
        invariant
            n == els@.len(),
            cur < n,
            fuel <= n,
            ends_within(els@, i as int, n as nat) == ends_within(els@, cur as int, fuel as nat),
        decreases fuel,
    {
        match &els[cur].parent_id {
            None => {
                return true;
            },
            Some(p) => {
                match find_element(els, p) {
                    None => {
                        return true;
                    },
                    Some(j) => {
                        if fuel == 0 {
                            return false;
                        }
                        cur = j;
                        fuel = fuel - 1;
                    },
                }
            },
        }
    }
}

/// Accepts a state exactly when it meets the invariant, else names the first
/// broken rule in the order of the error kinds.
pub fn validate_state(s: &EngineState) -> (r: Result<(), StateError>)
    ensures
        r is Ok <==> valid_state(*s),
        match first_violation(*s) {
            None => r is Ok,
            Some(e) => r == Err::<(), StateError>(e),
        },
{
    let n = s.elements.len();
    // ids
    let mut i: usize = 0;
    while i < n
        invariant
            n == s.elements@.len(),
            i <= n,
            forall|a: int, b: int| 0 <= a < b < n && a < i ==> s.elements@[a].id@ != s.elements@[b].id@,
        decreases n - i,
    {
        let mut j: usize = i + 1;
        while j < n
            invariant
                n == s.elements@.len(),
                i < n,
                i < j <= n,
                forall|a: int, b: int| 0 <= a < b < n && a < i ==> s.elements@[a].id@ != s.elements@[b].id@,
                forall|b: int| i < b < j ==> s.elements@[i as int].id@ != s.elements@[b].id@,
            decreases n - j,
        {
            if s.elements[i].id == s.elements[j].id {
                assert(!unique_ids(s.elements@)) by {
                    assert(s.elements@[i as int].id@ == s.elements@[j as int].id@);
                }
                assert(!valid_state(*s));
                return Err(StateError::DuplicateId);
            }
            j = j + 1;
        }
        i = i + 1;
    }
    assert(unique_ids(s.elements@));
    // dimensions
    let mut i: usize = 0;
    while i < n
        invariant
            unique_ids(s.elements@),
            n == s.elements@.len(),
            i <= n,
            forall|k: int| 0 <= k < i ==> dims_ok(#[trigger] s.elements@[k].shape),
        decreases n - i,
    {
        let ok = shape_sizes_ok(&s.elements[i].shape);
        if !ok {
            assert(!dims_ok(s.elements@[i as int].shape));
            assert(!valid_state(*s));
                return Err(StateError::NegativeDimension);
        }
        i = i + 1;
    }
    // parent chains
    let mut i: usize = 0;
    while i < n
        invariant
            unique_ids(s.elements@),
            forall|k: int| 0 <= k < s.elements@.len() ==> dims_ok(#[trigger] s.elements@[k].shape),
            n == s.elements@.len(),
            i <= n,
            forall|k: int| 0 <= k < i ==> #[trigger] ends_within(s.elements@, k, n as nat),
        decreases n - i,
    {
        if !chain_ends(&s.elements, i) {
            assert(!ends_within(s.elements@, i as int, s.elements@.len()));
            assert(!valid_state(*s));
                return Err(StateError::CyclicParent);
        }
        i = i + 1;
    }
    assert(acyclic(s.elements@));
    // animations
    let mut i: usize = 0;
    while i < n
        invariant
            unique_ids(s.elements@),
            forall|k: int| 0 <= k < s.elements@.len() ==> dims_ok(#[trigger] s.elements@[k].shape),
            acyclic(s.elements@),
            n == s.elements@.len(),
            i <= n,
            forall|k: int| 0 <= k < i ==> (#[trigger] s.elements@[k]).wf(),
        decreases n - i,
    {
        if !element_wf(&s.elements[i]) {
            assert(!s.elements@[i as int].wf());
            assert(!valid_state(*s));
                return Err(StateError::MalformedAnimation);
        }
        i = i + 1;
    }
    // presence
    let m = s.presence.len();
    let mut i: usize = 0;
    while i < m
        invariant
            unique_ids(s.elements@),
            forall|k: int| 0 <= k < s.elements@.len() ==> dims_ok(#[trigger] s.elements@[k].shape),
            acyclic(s.elements@),
            forall|k: int| 0 <= k < s.elements@.len() ==> (#[trigger] s.elements@[k]).wf(),
            m == s.presence@.len(),
            i <= m,
            forall|a: int, b: int|
                0 <= a < b < m && a < i ==> s.presence@[a].user_id@ != s.presence@[b].user_id@,
        decreases m - i,
    {
        let mut j: usize = i + 1;
        while j < m
            invariant
                unique_ids(s.elements@),
                forall|k: int| 0 <= k < s.elements@.len() ==> dims_ok(#[trigger] s.elements@[k].shape),
                acyclic(s.elements@),
                forall|k: int| 0 <= k < s.elements@.len() ==> (#[trigger] s.elements@[k]).wf(),
                m == s.presence@.len(),
                i < m,
                i < j <= m,
                forall|a: int, b: int|
                    0 <= a < b < m && a < i ==> s.presence@[a].user_id@ != s.presence@[b].user_id@,
                forall|b: int| i < b < j ==> s.presence@[i as int].user_id@ != s.presence@[b].user_id@,
            decreases m - j,
        {
            if s.presence[i].user_id == s.presence[j].user_id {
                assert(!s.wf()) by {
                    assert(s.presence@[i as int].user_id@ == s.presence@[j as int].user_id@);
                }
                assert(!valid_state(*s));
                return Err(StateError::DuplicatePresence);
            }
            j = j + 1;
        }
        i = i + 1;
    }
    assert(unique_ids(s.elements@));
    assert(s.wf());
    Ok(())
}

/// Whether the shape has no negative extent.
fn shape_sizes_ok(shape: &Shape) -> (r: bool)
    ensures
        r == dims_ok(*shape),
{
    match shape {
        Shape::Rect(r) => r.width.bits >= 0 && r.height.bits >= 0,
        Shape::Circle(c) => c.radius.bits >= 0,
        Shape::Image(im) => im.width.bits >= 0 && im.height.bits >= 0,
        _ => true,
    }
}

/// Whether the element's shape and animations are well formed.
fn element_wf(e: &Element) -> (r: bool)
    ensures
        r == e.wf(),
{
    if !shape_sizes_ok(&e.shape) {
        return false;
    }
    let n = e.animations.len();
    let mut i: usize = 0;
    while i < n
        invariant
            n == e.animations@.len(),
            i <= n,
            forall|a: int, b: int|
                0 <= a < b < n && a < i ==> e.animations@[a].property@ != e.animations@[b].property@,
            forall|k: int| 0 <= k < i ==> sorted_by_time(#[trigger] e.animations@[k].keyframes@),
        decreases n - i,
    {
        let mut j: usize = i + 1;
        while j < n
            invariant
                n == e.animations@.len(),
                i < n,
                i < j <= n,
                forall|a: int, b: int|
                    0 <= a < b < n && a < i ==> e.animations@[a].property@ != e.animations@[b].property@,
                forall|b: int| i < b < j ==> e.animations@[i as int].property@ != e.animations@[b].property@,
            decreases n - j,
        {
            if e.animations[i].property == e.animations[j].property {
                assert(!e.wf()) by {
                    assert(e.animations@[i as int].property@ == e.animations@[j as int].property@);
                }
                return false;
            }
            j = j + 1;
        }
        let kfs = &e.animations[i].keyframes;
        let mut k: usize = 1;
        while k < kfs.len()
            invariant
                n == e.animations@.len(),
                i < n,
                kfs@ == e.animations@[i as int].keyframes@,
                forall|a: int, b: int|
                    0 <= a < b < n && a <= i ==> e.animations@[a].property@ != e.animations@[b].property@,
                forall|k2: int| 0 <= k2 < i ==> sorted_by_time(#[trigger] e.animations@[k2].keyframes@),
                1 <= k,
                k <= kfs@.len() || kfs@.len() == 0,
                forall|a: int| 0 < a < k && a < kfs@.len() ==> kfs@[a - 1].time.key() <= #[trigger] kfs@[a].time.key(),
            decreases kfs@.len() - k,
        {
            if kfs[k - 1].time.order_key() > kfs[k].time.order_key() {
                assert(!sorted_by_time(kfs@)) by {
                    assert(kfs@[k - 1].time.key() > kfs@[k as int].time.key());
                }
                assert(!e.wf()) by {
                    assert(kfs@ == e.animations@[i as int].keyframes@);
                }
                return false;
            }
            k = k + 1;
        }
        assert(sorted_by_time(kfs@)) by {
            assert forall|a: int, b: int| 0 <= a < b < kfs@.len() implies kfs@[a].time.key()
                <= kfs@[b].time.key() by {
                lemma_adjacent_sorted(kfs@, a, b);
            }
        }
        i = i + 1;
    }
    true
}

/// Adjacent order gives order between any two positions.
proof fn lemma_adjacent_sorted(kfs: Seq<crate::state::Keyframe>, a: int, b: int)
    requires
        0 <= a <= b < kfs.len(),
        forall|c: int| 0 < c < kfs.len() ==> kfs[c - 1].time.key() <= #[trigger] kfs[c].time.key(),
    ensures
        kfs[a].time.key() <= kfs[b].time.key(),
    decreases b - a,
{
    if a < b {
        lemma_adjacent_sorted(kfs, a, b - 1);
    }
}

/// A well-formed state in which no element names a parent meets the whole
/// invariant; every state that actions make from the empty scene is such a
/// state, so deserializing a serialized one succeeds.
pub proof fn lemma_parentless_state_valid(s: EngineState)
    requires
        s.wf(),
        no_parents(s.elements@),
    ensures
        valid_state(s),
        first_violation(s) is None,
{
    assert forall|i: int| 0 <= i < s.elements@.len() implies #[trigger] ends_within(
        s.elements@,
        i,
        s.elements@.len(),
    ) by {
        assert(s.elements@[i].parent_id is None);
    }
    assert forall|i: int| 0 <= i < s.elements@.len() implies dims_ok(
        #[trigger] s.elements@[i].shape,
    ) by {
        assert(s.elements@[i].wf());
    }
}

} // verus!
