//! Locating the keyframe segment for a playback time, and naming easings.
use crate::scalar::FloatBits;
use crate::state::Keyframe;
use vstd::prelude::*;

verus! {

/// Where a playback time falls in a keyframe sequence.
#[derive(Clone, Copy, PartialEq, Eq, Structural, Debug)]
pub enum Segment {
    /// There is no keyframe: the value is 0.
    Empty,
    /// The value is exactly this one.
    Hold(FloatBits),
    /// The value is eased between the keyframes at these two indices, by the
    /// easing of the first.
    Between(usize, usize),
}

/// Keyframes `i` and `i + 1` enclose time `t`.
pub open spec fn encloses_at(kfs: Seq<Keyframe>, t: FloatBits, i: int) -> bool {
    kfs[i].time.key() <= t.key() <= kfs[i + 1].time.key()
}

/// The earliest index `i >= from` whose pair encloses `t`, or -1.
pub open spec fn first_pair_from(kfs: Seq<Keyframe>, t: FloatBits, from: int) -> int
    decreases kfs.len() - from,
{
    if from < 0 || from + 1 >= kfs.len() {
        -1
    } else if encloses_at(kfs, t, from) {
        from
    } else {
        first_pair_from(kfs, t, from + 1)
    }
}

/// The segment for time `t`: the first value at or before the first time,
/// the last value at or after the last time; otherwise the earliest enclosing
/// pair (the first and last keyframes when none encloses `t`), held at the
/// first of the two when their times are equal.
pub open spec fn spec_locate(kfs: Seq<Keyframe>, t: FloatBits) -> Segment {
    if kfs.len() == 0 {
        Segment::Empty
    } else if t.key() <= kfs[0].time.key() {
        Segment::Hold(kfs[0].value)
    } else if t.key() >= kfs.last().time.key() {
        Segment::Hold(kfs.last().value)
    } else {
        let i = first_pair_from(kfs, t, 0);
        let (b, a) = if i >= 0 {
            (i, i + 1)
        } else {
            (0, kfs.len() - 1)
        };
        if kfs[b].time.key() == kfs[a].time.key() {
            Segment::Hold(kfs[b].value)
        } else {
            Segment::Between(b as usize, a as usize)
        }
    }
}

/// Finds the segment of `keyframes` for playback time `time`.
pub fn locate(keyframes: &Vec<Keyframe>, time: FloatBits) -> (r: Segment)
    ensures
        r == spec_locate(keyframes@, time),
        r matches Segment::Between(b, a) ==> b < a < keyframes@.len(),
{
    let n = keyframes.len();
    if n == 0 {
        return Segment::Empty;
    }
    let t = time.order_key();
    if t <= keyframes[0].time.order_key() {
        return Segment::Hold(keyframes[0].value);
    }
    if t >= keyframes[n - 1].time.order_key() {
        return Segment::Hold(keyframes[n - 1].value);
    }
    let mut i: usize = 0;
    let mut found = false;
    while i + 1 < n && !found
        invariant
            n == keyframes@.len(),
            n > 0,
            i < n,
            t == time.key(),
            found ==> i + 1 < n && first_pair_from(keyframes@, time, 0) == i,
            !found ==> first_pair_from(keyframes@, time, 0) == first_pair_from(
                keyframes@,
                time,
                i as int,
            ),
        decreases n - i + if found {
            0int
        } else {
            1int
        },
    {
        if t >= keyframes[i].time.order_key() && t <= keyframes[i + 1].time.order_key() {
            found = true;
        } else {
            i = i + 1;
        }
    }
    let (b, a) = if found {
        (i, i + 1)
    } else {
        (0, n - 1)
    };
    if keyframes[b].time.order_key() == keyframes[a].time.order_key() {
        Segment::Hold(keyframes[b].value)
    } else {
        Segment::Between(b, a)
    }
}


/// The easing curves a keyframe can name.
#[derive(Clone, Copy, PartialEq, Eq, Structural, Debug)]
pub enum Easing {
    Linear,
    EaseIn,
    EaseOut,
    EaseInOut,
    Bounce,
    Elastic,
    /// `cubic-bezier(x1,y1,x2,y2)`; the parameters stay in the name.
    CubicBezier,
}

/// The easing that `name` selects; names that select none fall back to linear.
pub open spec fn spec_easing(name: Seq<char>) -> Easing {
    if name == "linear"@ {
        Easing::Linear
    } else if name == "ease-in"@ {
        Easing::EaseIn
    } else if name == "ease-out"@ {
        Easing::EaseOut
    } else if name == "ease-in-out"@ {
        Easing::EaseInOut
    } else if name == "bounce"@ {
        Easing::Bounce
    } else if name == "elastic"@ {
        Easing::Elastic
    } else if name.len() >= "cubic-bezier"@.len() && name.subrange(0, "cubic-bezier"@.len() as int)
        == "cubic-bezier"@ {
        Easing::CubicBezier
    } else {
        Easing::Linear
    }
}

/// Reads an easing name.
pub fn parse_easing(name: &str) -> (r: Easing)
    ensures
        r == spec_easing(name@),
{
    let s = String::from_str(name);
    if s == String::from_str("linear") {
        return Easing::Linear;
    }
    if s == String::from_str("ease-in") {
        return Easing::EaseIn;
    }
    if s == String::from_str("ease-out") {
        return Easing::EaseOut;
    }
    if s == String::from_str("ease-in-out") {
        return Easing::EaseInOut;
    }
    if s == String::from_str("bounce") {
        return Easing::Bounce;
    }
    if s == String::from_str("elastic") {
        return Easing::Elastic;
    }
    let prefix = String::from_str("cubic-bezier");
    let k = prefix.as_str().unicode_len();
    if name.unicode_len() >= k {
        let head = String::from_str(name.substring_char(0, k));
        if head == prefix {
            return Easing::CubicBezier;
        }
    }
    Easing::Linear
}

/// At or before the first keyframe's time the value is the first value; after
/// the first time and at or after the last time it is the last value.
pub proof fn lemma_boundary_values(kfs: Seq<Keyframe>, t: FloatBits)
    requires
        kfs.len() > 0,
    ensures
        t.key() <= kfs[0].time.key() ==> spec_locate(kfs, t) == Segment::Hold(kfs[0].value),
        t.key() > kfs[0].time.key() && t.key() >= kfs.last().time.key() ==> spec_locate(kfs, t)
            == Segment::Hold(kfs.last().value),
{
}

} // verus!
