//! Coverage estimator: how many byte positions of the buffer the offset
//! tables account for.
//!
//! A byte counts as known when its position falls inside the buffer —
//! boundedness and domain-validity are independent axes, so a byte can be
//! known in position yet out of domain.  The per-step count covers the
//! four planes whose meaning the firmware confirms (velocity, probability,
//! choice, mask) plus the two FX preset bytes; the session-level count
//! adds the fixed-size records.
use vstd::arithmetic::mul::lemma_mul_inequality;
use vstd::prelude::*;

use crate::layout::{FxOffsets, Offsets, PATTERNS, SCENES, SCENE_ENTRIES, STEPS, TRACKS};
use crate::drums::step_index;

verus! {

/// Whether the byte of plane `base` for step (t, p, s) lies inside a
/// buffer of `len` bytes.
pub open spec fn plane_byte_known(len: int, off: Offsets, base: int, t: int, p: int, s: int) -> bool {
    base + step_index(off, t, p, s) < len
}

/// In-bounds positions of plane `base` for track `t`, pattern `p`, steps
/// `0 .. s_limit`.
pub open spec fn plane_steps_count(len: int, off: Offsets, base: int, t: int, p: int, s_limit: int) -> int
    decreases s_limit,
{
    if s_limit <= 0 {
        0
    } else {
        plane_steps_count(len, off, base, t, p, s_limit - 1) + if plane_byte_known(len, off, base,
            t, p, s_limit - 1) {
            1int
        } else {
            0int
        }
    }
}

/// In-bounds positions of plane `base` for track `t`, patterns
/// `0 .. p_limit`.
pub open spec fn plane_patterns_count(len: int, off: Offsets, base: int, t: int, p_limit: int) -> int
    decreases p_limit,
{
    if p_limit <= 0 {
        0
    } else {
        plane_patterns_count(len, off, base, t, p_limit - 1) + plane_steps_count(len, off, base, t,
            p_limit - 1, STEPS as int)
    }
}

/// In-bounds positions of plane `base` for tracks `0 .. t_limit`.
pub open spec fn plane_tracks_count(len: int, off: Offsets, base: int, t_limit: int) -> int
    decreases t_limit,
{
    if t_limit <= 0 {
        0
    } else {
        plane_tracks_count(len, off, base, t_limit - 1) + plane_patterns_count(len, off, base,
            t_limit - 1, PATTERNS as int)
    }
}

/// In-bounds positions of one whole field plane.
pub open spec fn plane_count(len: int, off: Offsets, base: int) -> int {
    plane_tracks_count(len, off, base, TRACKS as int)
}

/// The coverage count: known bytes of the four confirmed step planes plus
/// the two FX preset bytes.
pub open spec fn spec_known_bytes(len: int, off: Offsets, fx: FxOffsets) -> int {
    plane_count(len, off, off.velocity as int) + plane_count(len, off, off.probability as int)
        + plane_count(len, off, off.choice as int) + plane_count(len, off, off.mask as int) + (
    if fx.delay_preset < len {
        1int
    } else {
        0int
    }) + (if fx.reverb_preset < len {
        1int
    } else {
        0int
    })
}

/// Fixed-size contributions of the remaining records: three timing bytes,
/// two 32-bit timing spares, the scene table, the scene chain and the
/// pattern chains.
pub open spec fn fixed_known_bytes() -> int {
    3 + 8 + (SCENES * SCENE_ENTRIES * 4) + 4 + (SCENE_ENTRIES * 4)
}

/// The session-level coverage count.
pub open spec fn spec_session_known_bytes(len: int, off: Offsets, fx: FxOffsets) -> int {
    spec_known_bytes(len, off, fx) + fixed_known_bytes()
}

proof fn lemma_plane_steps_count_bounds(len: int, off: Offsets, base: int, t: int, p: int, s_limit: int)
    requires
        s_limit >= 0,
    ensures
        0 <= plane_steps_count(len, off, base, t, p, s_limit) <= s_limit,
    decreases s_limit,
{
    if s_limit > 0 {
        lemma_plane_steps_count_bounds(len, off, base, t, p, s_limit - 1);
    }
}

proof fn lemma_plane_patterns_count_bounds(len: int, off: Offsets, base: int, t: int, p_limit: int)
    requires
        p_limit >= 0,
    ensures
        0 <= plane_patterns_count(len, off, base, t, p_limit) <= p_limit * STEPS,
    decreases p_limit,
{
    if p_limit > 0 {
        lemma_plane_patterns_count_bounds(len, off, base, t, p_limit - 1);
        lemma_plane_steps_count_bounds(len, off, base, t, p_limit - 1, STEPS as int);
        assert((p_limit - 1) * STEPS + STEPS == p_limit * STEPS) by (nonlinear_arith);
    }
}

proof fn lemma_plane_tracks_count_bounds(len: int, off: Offsets, base: int, t_limit: int)
    requires
        t_limit >= 0,
    ensures
        0 <= plane_tracks_count(len, off, base, t_limit) <= t_limit * PATTERNS * STEPS,
    decreases t_limit,
{
    if t_limit > 0 {
        lemma_plane_tracks_count_bounds(len, off, base, t_limit - 1);
        lemma_plane_patterns_count_bounds(len, off, base, t_limit - 1, PATTERNS as int);
        assert((t_limit - 1) * PATTERNS * STEPS + PATTERNS * STEPS == t_limit * PATTERNS * STEPS)
            by (nonlinear_arith);
    }
}

/// A plane accounts for at most one byte per step of the session.
proof fn lemma_plane_count_bounds(len: int, off: Offsets, base: int)
    ensures
        0 <= plane_count(len, off, base) <= TRACKS * PATTERNS * STEPS,
{
    lemma_plane_tracks_count_bounds(len, off, base, TRACKS as int);
}

/// Count the in-bounds byte positions of one field plane.
fn count_plane(data: &Vec<u8>, off: &Offsets, base: usize) -> (c: usize)
    ensures
        c == plane_count(data@.len() as int, *off, base as int),
{
    let o = *off;
    let len = data.len();
    let ghost glen = len as int;
    let mut c: usize = 0;
    let mut t: usize = 0;
    while t < TRACKS
        invariant
            t <= TRACKS,
            glen == data@.len(),
            glen == len as int,
            c == plane_tracks_count(glen, o, base as int, t as int),
            c <= t * PATTERNS * STEPS,
        decreases TRACKS - t,
    {
        let mut p: usize = 0;
        while p < PATTERNS
            invariant
                t < TRACKS,
                p <= PATTERNS,
                glen == data@.len(),
                glen == len as int,
                c == plane_tracks_count(glen, o, base as int, t as int) + plane_patterns_count(
                    glen, o, base as int, t as int, p as int),
                c <= t * PATTERNS * STEPS + p * STEPS,
            decreases PATTERNS - p,
        {
            let mut s: usize = 0;
            while s < STEPS
                invariant
                    t < TRACKS,
                    p < PATTERNS,
                    s <= STEPS,
                    glen == data@.len(),
                    glen == len as int,
                    c == plane_tracks_count(glen, o, base as int, t as int) + plane_patterns_count(
                        glen, o, base as int, t as int, p as int) + plane_steps_count(glen, o,
                        base as int, t as int, p as int, s as int),
                    c <= t * PATTERNS * STEPS + p * STEPS + s,
                decreases STEPS - s,
            {
                proof {
                    assert((t as u128) * (o.track_stride as u128) <= 3 * (o.track_stride as u128))
                        by (nonlinear_arith)
                        requires
                            t < 4,
                    ;
                    assert((p as u128) * (o.pattern_stride as u128) <= 7 * (
                    o.pattern_stride as u128)) by (nonlinear_arith)
                        requires
                            p < 8,
                    ;
                }
                let idx128: u128 = base as u128 + t as u128 * o.track_stride as u128 + p as u128
                    * o.pattern_stride as u128 + s as u128;
                assert(idx128 == base + step_index(o, t as int, p as int, s as int));
                if idx128 < len as u128 {
                    c = c + 1;
                }
                s = s + 1;
            }
            p = p + 1;
        }
        t = t + 1;
    }
    c
}

/// Coverage count of the confirmed per-step planes and the FX bytes: for
/// each, the number of byte positions that fall inside the buffer.
pub fn compute_known_bytes(data: &Vec<u8>, off: &Offsets, fx: &FxOffsets) -> (known: usize)
    ensures
        known == spec_known_bytes(data@.len() as int, *off, *fx),
{
    proof {
        lemma_plane_count_bounds(data@.len() as int, *off, off.velocity as int);
        lemma_plane_count_bounds(data@.len() as int, *off, off.probability as int);
        lemma_plane_count_bounds(data@.len() as int, *off, off.choice as int);
        lemma_plane_count_bounds(data@.len() as int, *off, off.mask as int);
    }
    let mut known: usize = 0;
    known = known + count_plane(data, off, off.velocity);
    known = known + count_plane(data, off, off.probability);
    known = known + count_plane(data, off, off.choice);
    known = known + count_plane(data, off, off.mask);
    if fx.delay_preset < data.len() {
        known = known + 1;
    }
    if fx.reverb_preset < data.len() {
        known = known + 1;
    }
    known
}

/// Session-level coverage count: the per-step and FX count plus the
/// fixed-size records.
pub fn session_known_bytes(data: &Vec<u8>, off: &Offsets, fx: &FxOffsets) -> (known: usize)
    ensures
        known == spec_session_known_bytes(data@.len() as int, *off, *fx),
{
    let step_known = compute_known_bytes(data, off, fx);
    proof {
        lemma_plane_count_bounds(data@.len() as int, *off, off.velocity as int);
        lemma_plane_count_bounds(data@.len() as int, *off, off.probability as int);
        lemma_plane_count_bounds(data@.len() as int, *off, off.choice as int);
        lemma_plane_count_bounds(data@.len() as int, *off, off.mask as int);
    }
    step_known + 3 + 8 + (16 * 8 * 4) + 4 + (8 * 4)
}

proof fn lemma_plane_steps_count_monotone(off: Offsets, base: int, t: int, p: int, s_limit: int, len1: int, len2: int)
    requires
        len1 <= len2,
        s_limit >= 0,
    ensures
        plane_steps_count(len1, off, base, t, p, s_limit) <= plane_steps_count(len2, off, base, t,
            p, s_limit),
    decreases s_limit,
{
    if s_limit > 0 {
        lemma_plane_steps_count_monotone(off, base, t, p, s_limit - 1, len1, len2);
    }
}

proof fn lemma_plane_patterns_count_monotone(off: Offsets, base: int, t: int, p_limit: int, len1: int, len2: int)
    requires
        len1 <= len2,
        p_limit >= 0,
    ensures
        plane_patterns_count(len1, off, base, t, p_limit) <= plane_patterns_count(len2, off, base,
            t, p_limit),
    decreases p_limit,
{
    if p_limit > 0 {
        lemma_plane_patterns_count_monotone(off, base, t, p_limit - 1, len1, len2);
        lemma_plane_steps_count_monotone(off, base, t, p_limit - 1, STEPS as int, len1, len2);
    }
}

proof fn lemma_plane_tracks_count_monotone(off: Offsets, base: int, t_limit: int, len1: int, len2: int)
    requires
        len1 <= len2,
        t_limit >= 0,
    ensures
        plane_tracks_count(len1, off, base, t_limit) <= plane_tracks_count(len2, off, base,
            t_limit),
    decreases t_limit,
{
    if t_limit > 0 {
        lemma_plane_tracks_count_monotone(off, base, t_limit - 1, len1, len2);
        lemma_plane_patterns_count_monotone(off, base, t_limit - 1, PATTERNS as int, len1, len2);
    }
}

/// The coverage count is monotonically non-decreasing in the buffer size,
/// for a fixed offset table.
pub proof fn lemma_known_bytes_monotone(off: Offsets, fx: FxOffsets, len1: int, len2: int)
    requires
        len1 <= len2,
    ensures
        spec_known_bytes(len1, off, fx) <= spec_known_bytes(len2, off, fx),
{
    lemma_plane_tracks_count_monotone(off, off.velocity as int, TRACKS as int, len1, len2);
    lemma_plane_tracks_count_monotone(off, off.probability as int, TRACKS as int, len1, len2);
    lemma_plane_tracks_count_monotone(off, off.choice as int, TRACKS as int, len1, len2);
    lemma_plane_tracks_count_monotone(off, off.mask as int, TRACKS as int, len1, len2);
}

proof fn lemma_plane_steps_count_zero(off: Offsets, base: int, t: int, p: int, s_limit: int)
    requires
        s_limit >= 0,
        base >= 0,
        t >= 0,
        p >= 0,
    ensures
        plane_steps_count(0, off, base, t, p, s_limit) == 0,
    decreases s_limit,
{
    if s_limit > 0 {
        lemma_plane_steps_count_zero(off, base, t, p, s_limit - 1);
        assert(step_index(off, t, p, s_limit - 1) >= 0) by (nonlinear_arith)
            requires
                t >= 0,
                p >= 0,
                s_limit - 1 >= 0,
                off.track_stride >= 0,
                off.pattern_stride >= 0,
        ;
    }
}

proof fn lemma_plane_patterns_count_zero(off: Offsets, base: int, t: int, p_limit: int)
    requires
        p_limit >= 0,
        base >= 0,
        t >= 0,
    ensures
        plane_patterns_count(0, off, base, t, p_limit) == 0,
    decreases p_limit,
{
    if p_limit > 0 {
        lemma_plane_patterns_count_zero(off, base, t, p_limit - 1);
        lemma_plane_steps_count_zero(off, base, t, p_limit - 1, STEPS as int);
    }
}

proof fn lemma_plane_tracks_count_zero(off: Offsets, base: int, t_limit: int)
    requires
        t_limit >= 0,
        base >= 0,
    ensures
        plane_tracks_count(0, off, base, t_limit) == 0,
    decreases t_limit,
{
    if t_limit > 0 {
        lemma_plane_tracks_count_zero(off, base, t_limit - 1);
        lemma_plane_patterns_count_zero(off, base, t_limit - 1, PATTERNS as int);
    }
}

/// A zero-length buffer has a coverage count of zero.
pub proof fn lemma_known_bytes_zero(off: Offsets, fx: FxOffsets)
    ensures
        spec_known_bytes(0, off, fx) == 0,
{
    lemma_plane_tracks_count_zero(off, off.velocity as int, TRACKS as int);
    lemma_plane_tracks_count_zero(off, off.probability as int, TRACKS as int);
    lemma_plane_tracks_count_zero(off, off.choice as int, TRACKS as int);
    lemma_plane_tracks_count_zero(off, off.mask as int, TRACKS as int);
}

} // verus!
