//! Drum-data record decoder: tracks of patterns of steps.
//!
//! The per-step fields live in parallel planes: each field has its own base
//! offset, and the byte of field *f* for track *t*, pattern *p*, step *s*
//! sits at `base(f) + t * track_stride + p * pattern_stride + s`.  Decoding
//! is total over the fixed structure — no step is skipped — and fails only
//! when some plane's extent runs past the buffer.
use vstd::arithmetic::mul::lemma_mul_inequality;
use vstd::prelude::*;

use crate::diag::{FieldId, Loc, OutOfBounds};
use crate::layout::{Offsets, PATTERNS, STEPS, TRACKS};

verus! {

/// One sequencer step.  Velocity and probability have firmware-checked
/// domains; the remaining planes are kept as opaque bytes, their meaning
/// not yet recovered.
#[derive(Clone, Copy, Debug, PartialEq, Eq, Structural)]
pub struct Step {
    pub velocity: u8,
    pub probability: u8,
    pub choice: u8,
    pub mask: u8,
    pub pitch: u8,
    pub decay: u8,
    pub distortion: u8,
    pub eq: u8,
}

/// A fixed sequence of [`STEPS`] steps for one track.
#[derive(Clone, Debug)]
pub struct Pattern {
    pub steps: Vec<Step>,
}

/// One drum voice, holding [`PATTERNS`] alternative patterns.
#[derive(Clone, Debug)]
pub struct DrumTrack {
    pub patterns: Vec<Pattern>,
}

/// The whole drum-track set of a session.
#[derive(Clone, Debug)]
pub struct DrumData {
    pub tracks: Vec<DrumTrack>,
}

impl Pattern {
    pub open spec fn model(&self) -> Seq<Step> {
        self.steps@
    }
}

impl DrumTrack {
    pub open spec fn model(&self) -> Seq<Seq<Step>> {
        self.patterns@.map_values(|p: Pattern| p.model())
    }
}

impl DrumData {
    pub open spec fn model(&self) -> Seq<Seq<Seq<Step>>> {
        self.tracks@.map_values(|t: DrumTrack| t.model())
    }
}

/// Flattened step index of (track, pattern, step) under the given strides.
pub open spec fn step_index(off: Offsets, t: int, p: int, s: int) -> int {
    t * off.track_stride + p * off.pattern_stride + s
}

/// The largest flattened step index: the last step of the last pattern of
/// the last track.
pub open spec fn max_step_index(off: Offsets) -> int {
    step_index(off, TRACKS - 1, PATTERNS - 1, STEPS - 1)
}

/// The step decoded from the eight field planes at (t, p, s).
pub open spec fn spec_step(data: Seq<u8>, off: Offsets, t: int, p: int, s: int) -> Step {
    let i = step_index(off, t, p, s);
    Step {
        velocity: data[off.velocity + i],
        probability: data[off.probability + i],
        choice: data[off.choice + i],
        mask: data[off.mask + i],
        pitch: data[off.pitch + i],
        decay: data[off.decay + i],
        distortion: data[off.distortion + i],
        eq: data[off.eq + i],
    }
}

pub open spec fn spec_pattern(data: Seq<u8>, off: Offsets, t: int, p: int) -> Seq<Step> {
    Seq::new(STEPS as nat, |s: int| spec_step(data, off, t, p, s))
}

pub open spec fn spec_track(data: Seq<u8>, off: Offsets, t: int) -> Seq<Seq<Step>> {
    Seq::new(PATTERNS as nat, |p: int| spec_pattern(data, off, t, p))
}

/// The complete decoded drum model: what `DrumData::from_bytes` returns
/// whenever every plane lies inside the buffer.
pub open spec fn spec_drums(data: Seq<u8>, off: Offsets) -> Seq<Seq<Seq<Step>>> {
    Seq::new(TRACKS as nat, |t: int| spec_track(data, off, t))
}

/// Every plane's whole extent, up to its maximal step index, lies inside a
/// buffer of `len` bytes.  Since strides are non-negative, this is
/// equivalent to every individual read being in bounds.
pub open spec fn drums_in_bounds(len: int, off: Offsets) -> bool {
    let m = max_step_index(off);
    &&& off.velocity + m < len
    &&& off.probability + m < len
    &&& off.choice + m < len
    &&& off.mask + m < len
    &&& off.pitch + m < len
    &&& off.decay + m < len
    &&& off.distortion + m < len
    &&& off.eq + m < len
}

/// The error reported when some plane runs past the buffer: the first
/// plane, in field order, whose maximal step index is out of bounds.
pub open spec fn drums_oob_error(len: usize, off: Offsets) -> OutOfBounds {
    let m = max_step_index(off);
    let loc = Loc::Step { track: (TRACKS - 1) as usize, pattern: (PATTERNS - 1) as usize, step: (STEPS - 1) as usize };
    if off.velocity + m >= len {
        OutOfBounds { field: FieldId::StepVelocity, loc, offset: (off.velocity + m) as u128, width: 1, len }
    } else if off.probability + m >= len {
        OutOfBounds { field: FieldId::StepProbability, loc, offset: (off.probability + m) as u128, width: 1, len }
    } else if off.choice + m >= len {
        OutOfBounds { field: FieldId::StepChoice, loc, offset: (off.choice + m) as u128, width: 1, len }
    } else if off.mask + m >= len {
        OutOfBounds { field: FieldId::StepMask, loc, offset: (off.mask + m) as u128, width: 1, len }
    } else if off.pitch + m >= len {
        OutOfBounds { field: FieldId::StepPitch, loc, offset: (off.pitch + m) as u128, width: 1, len }
    } else if off.decay + m >= len {
        OutOfBounds { field: FieldId::StepDecay, loc, offset: (off.decay + m) as u128, width: 1, len }
    } else if off.distortion + m >= len {
        OutOfBounds { field: FieldId::StepDistortion, loc, offset: (off.distortion + m) as u128, width: 1, len }
    } else {
        OutOfBounds { field: FieldId::StepEq, loc, offset: (off.eq + m) as u128, width: 1, len }
    }
}

/// A step index never exceeds the maximal one.
proof fn lemma_step_index_le_max(off: Offsets, t: int, p: int, s: int)
    requires
        0 <= t < TRACKS,
        0 <= p < PATTERNS,
        0 <= s < STEPS,
    ensures
        0 <= step_index(off, t, p, s) <= max_step_index(off),
{
    lemma_mul_inequality(t, TRACKS - 1, off.track_stride as int);
    lemma_mul_inequality(p, PATTERNS - 1, off.pattern_stride as int);
    lemma_mul_inequality(0, t, off.track_stride as int);
    lemma_mul_inequality(0, p, off.pattern_stride as int);
}

impl DrumData {
    /// Decode the whole drum-track set.  Succeeds exactly when every field
    /// plane lies inside the buffer, and then returns the model read plane
    /// by plane at the flattened step indices; a plane running past the
    /// buffer aborts with an error naming the first such plane.
    pub fn from_bytes(data: &Vec<u8>, offsets: &Offsets) -> (r: Result<DrumData, OutOfBounds>)
        ensures
            r is Ok <==> drums_in_bounds(data@.len() as int, *offsets),
            r matches Ok(dd) ==> dd.model() == spec_drums(data@, *offsets),
            r matches Err(e) ==> e == drums_oob_error(data@.len() as usize, *offsets),
    {
        let off = *offsets;
        let len = data.len();
        let loc = Loc::Step { track: TRACKS - 1, pattern: PATTERNS - 1, step: STEPS - 1 };
        let m128: u128 = (TRACKS - 1) as u128 * off.track_stride as u128
            + (PATTERNS - 1) as u128 * off.pattern_stride as u128 + (STEPS - 1) as u128;
        assert(m128 == max_step_index(off));
        if off.velocity as u128 + m128 >= len as u128 {
            return Err(OutOfBounds { field: FieldId::StepVelocity, loc, offset: off.velocity as u128 + m128, width: 1, len });
        }
        if off.probability as u128 + m128 >= len as u128 {
            return Err(OutOfBounds { field: FieldId::StepProbability, loc, offset: off.probability as u128 + m128, width: 1, len });
        }
        if off.choice as u128 + m128 >= len as u128 {
            return Err(OutOfBounds { field: FieldId::StepChoice, loc, offset: off.choice as u128 + m128, width: 1, len });
        }
        if off.mask as u128 + m128 >= len as u128 {
            return Err(OutOfBounds { field: FieldId::StepMask, loc, offset: off.mask as u128 + m128, width: 1, len });
        }
        if off.pitch as u128 + m128 >= len as u128 {
            return Err(OutOfBounds { field: FieldId::StepPitch, loc, offset: off.pitch as u128 + m128, width: 1, len });
        }
        if off.decay as u128 + m128 >= len as u128 {
            return Err(OutOfBounds { field: FieldId::StepDecay, loc, offset: off.decay as u128 + m128, width: 1, len });
        }
        if off.distortion as u128 + m128 >= len as u128 {
            return Err(OutOfBounds { field: FieldId::StepDistortion, loc, offset: off.distortion as u128 + m128, width: 1, len });
        }
        if off.eq as u128 + m128 >= len as u128 {
            return Err(OutOfBounds { field: FieldId::StepEq, loc, offset: off.eq as u128 + m128, width: 1, len });
        }
        assert(drums_in_bounds(len as int, off));

        let mut tracks: Vec<DrumTrack> = Vec::new();
        let mut t: usize = 0;
        while t < TRACKS
            invariant
                t <= TRACKS,
                len == data@.len(),
                drums_in_bounds(len as int, off),
                tracks@.len() == t,
                forall|i: int| 0 <= i < t ==> #[trigger] tracks@[i].model() == spec_track(data@, off, i),
            decreases TRACKS - t,
        {
            let mut patterns: Vec<Pattern> = Vec::new();
            let mut p: usize = 0;
            while p < PATTERNS
                invariant
                    t < TRACKS,
                    p <= PATTERNS,
                    len == data@.len(),
                    drums_in_bounds(len as int, off),
                    patterns@.len() == p,
                    forall|j: int| 0 <= j < p ==> #[trigger] patterns@[j].model() == spec_pattern(data@, off, t as int, j),
                decreases PATTERNS - p,
            {
                let mut steps: Vec<Step> = Vec::new();
                let mut s: usize = 0;
                while s < STEPS
                    invariant
                        t < TRACKS,
                        p < PATTERNS,
                        s <= STEPS,
                        len == data@.len(),
                        drums_in_bounds(len as int, off),
                        steps@.len() == s,
                        forall|k: int| 0 <= k < s ==> steps@[k] == spec_step(data@, off, t as int, p as int, k),
                    decreases STEPS - s,
                {
                    proof {
                        lemma_step_index_le_max(off, t as int, p as int, s as int);
                    }
                    let idx: usize = t * off.track_stride + p * off.pattern_stride + s;
                    assert(idx == step_index(off, t as int, p as int, s as int));
                    let st = Step {
                        velocity: data[off.velocity + idx],
                        probability: data[off.probability + idx],
                        choice: data[off.choice + idx],
                        mask: data[off.mask + idx],
                        pitch: data[off.pitch + idx],
                        decay: data[off.decay + idx],
                        distortion: data[off.distortion + idx],
                        eq: data[off.eq + idx],
                    };
                    steps.push(st);
                    s = s + 1;
                }
                assert(steps@ =~= spec_pattern(data@, off, t as int, p as int));
                patterns.push(Pattern { steps });
                p = p + 1;
            }
            let track = DrumTrack { patterns };
            proof {
                assert(track.model() =~= spec_track(data@, off, t as int));
            }
            tracks.push(track);
            t = t + 1;
        }
        let dd = DrumData { tracks };
        proof {
            assert(dd.model() =~= spec_drums(data@, off));
        }
        Ok(dd)
    }
}

} // verus!
