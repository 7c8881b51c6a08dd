//! Scene table and playback chains.
//!
//! A session holds [`SCENES`] scenes of [`SCENE_ENTRIES`] entries each; an
//! entry is a per-lane pattern range (start byte, end byte, 16-bit pad).
//! The scene stride and the entry stride are independent layout constants.
//! The scene chain is a single range over scene indices; the pattern
//! chains are eight independent per-lane ranges over pattern indices.
use vstd::arithmetic::mul::lemma_mul_inequality;
use vstd::prelude::*;

use crate::diag::{cond_diag, count_matching, lemma_count_cond_diag, lemma_count_matching_concat,
    DiagKind, Diagnostic, FieldId, Loc, OutOfBounds};
use crate::layout::{ChainOffsets, ScenesOffsets, SCENES, SCENE_ENTRIES};
use crate::scalar::{read_u16_le, u16_le};

verus! {

/// One lane's pattern range within a scene: start and end pattern index
/// (domain 0..=7 each, end expected not to precede start) and a pad word
/// expected to read zero.
#[derive(Clone, Copy, Debug, PartialEq, Eq, Structural)]
pub struct SceneEntry {
    pub start: u8,
    pub end: u8,
    pub pad: u16,
}

/// A grouping of per-lane pattern ranges, one entry per lane.
#[derive(Clone, Debug)]
pub struct Scene {
    pub entries: Vec<SceneEntry>,
}

/// The whole scene table of a session.
#[derive(Clone, Debug)]
pub struct Scenes {
    pub scenes: Vec<Scene>,
}

/// Global scene-playback range: start and end scene index (domain 0..=15
/// each, end expected not to precede start) and a pad word expected zero.
#[derive(Clone, Copy, Debug, PartialEq, Eq, Structural)]
pub struct SceneChain {
    pub start_scene: u8,
    pub end_scene: u8,
    pub pad: u16,
}

/// One lane's chained-pattern range, shaped like a scene entry.
#[derive(Clone, Copy, Debug, PartialEq, Eq, Structural)]
pub struct PatternChainEntry {
    pub start: u8,
    pub end: u8,
    pub pad: u16,
}

/// The eight per-lane chained-pattern ranges of a session.
#[derive(Clone, Debug)]
pub struct PatternChains {
    pub entries: Vec<PatternChainEntry>,
}

impl Scene {
    pub open spec fn model(&self) -> Seq<SceneEntry> {
        self.entries@
    }
}

impl Scenes {
    pub open spec fn model(&self) -> Seq<Seq<SceneEntry>> {
        self.scenes@.map_values(|s: Scene| s.model())
    }
}

impl PatternChains {
    pub open spec fn model(&self) -> Seq<PatternChainEntry> {
        self.entries@
    }
}

/// Byte offset of entry `ei` of scene `si`.  The scene stride is taken
/// from the descriptor, never derived from the entry stride.
pub open spec fn scene_entry_index(off: ScenesOffsets, si: int, ei: int) -> int {
    off.base + si * off.scene_stride + ei * off.entry_stride
}

/// The four bytes of the last entry of the last scene — the farthest the
/// scene decoder reads — lie inside a buffer of `len` bytes.
pub open spec fn scenes_in_bounds(len: int, off: ScenesOffsets) -> bool {
    scene_entry_index(off, SCENES - 1, SCENE_ENTRIES - 1) + 4 <= len
}

/// The error reported when the scene table runs past the buffer: the
/// first field of the farthest entry that is out of bounds.
pub open spec fn scenes_oob_error(len: usize, off: ScenesOffsets) -> OutOfBounds {
    let m = scene_entry_index(off, SCENES - 1, SCENE_ENTRIES - 1);
    let loc = Loc::SceneEntry { scene: (SCENES - 1) as usize, entry: (SCENE_ENTRIES - 1) as usize };
    if m >= len {
        OutOfBounds { field: FieldId::SceneStart, loc, offset: m as u128, width: 1, len }
    } else if m + 1 >= len {
        OutOfBounds { field: FieldId::SceneEnd, loc, offset: (m + 1) as u128, width: 1, len }
    } else {
        OutOfBounds { field: FieldId::ScenePad, loc, offset: (m + 2) as u128, width: 2, len }
    }
}

pub open spec fn spec_scene_entry(data: Seq<u8>, off: ScenesOffsets, si: int, ei: int) -> SceneEntry {
    let i = scene_entry_index(off, si, ei);
    SceneEntry { start: data[i], end: data[i + 1], pad: u16_le(data, i + 2) }
}

pub open spec fn spec_scene(data: Seq<u8>, off: ScenesOffsets, si: int) -> Seq<SceneEntry> {
    Seq::new(SCENE_ENTRIES as nat, |ei: int| spec_scene_entry(data, off, si, ei))
}

/// The complete decoded scene table.
pub open spec fn spec_scenes(data: Seq<u8>, off: ScenesOffsets) -> Seq<Seq<SceneEntry>> {
    Seq::new(SCENES as nat, |si: int| spec_scene(data, off, si))
}

/// The diagnostics one scene entry contributes, in emission order: start
/// and end against their domain, the ordering of the pair, then the pad
/// against zero.
pub open spec fn scene_entry_diags(data: Seq<u8>, off: ScenesOffsets, si: int, ei: int) -> Seq<
    Diagnostic,
> {
    let e = spec_scene_entry(data, off, si, ei);
    let loc = Loc::SceneEntry { scene: si as usize, entry: ei as usize };
    (if e.start >= 8 {
        seq![Diagnostic {
            kind: DiagKind::OutOfDomain,
            field: FieldId::SceneStart,
            loc,
            observed: e.start as u32,
            lo: 0,
            hi: 7,
        }]
    } else {
        Seq::<Diagnostic>::empty()
    }) + (if e.end >= 8 {
        seq![Diagnostic {
            kind: DiagKind::OutOfDomain,
            field: FieldId::SceneEnd,
            loc,
            observed: e.end as u32,
            lo: 0,
            hi: 7,
        }]
    } else {
        Seq::<Diagnostic>::empty()
    }) + (if e.end < e.start {
        seq![Diagnostic {
            kind: DiagKind::OrderingViolation,
            field: FieldId::SceneEnd,
            loc,
            observed: e.end as u32,
            lo: e.start as u32,
            hi: 7,
        }]
    } else {
        Seq::<Diagnostic>::empty()
    }) + (if e.pad != 0 {
        seq![Diagnostic {
            kind: DiagKind::NonZeroSpare,
            field: FieldId::ScenePad,
            loc,
            observed: e.pad as u32,
            lo: 0,
            hi: 0,
        }]
    } else {
        Seq::<Diagnostic>::empty()
    })
}

/// Diagnostics of the first `ei` entries of scene `si`.
pub open spec fn scene_diags_upto(data: Seq<u8>, off: ScenesOffsets, si: int, ei: int) -> Seq<
    Diagnostic,
>
    decreases ei,
{
    if ei <= 0 {
        Seq::<Diagnostic>::empty()
    } else {
        scene_diags_upto(data, off, si, ei - 1) + scene_entry_diags(data, off, si, ei - 1)
    }
}

/// Diagnostics of all entries of scene `si`.
pub open spec fn scene_diags(data: Seq<u8>, off: ScenesOffsets, si: int) -> Seq<Diagnostic> {
    scene_diags_upto(data, off, si, SCENE_ENTRIES as int)
}

/// Diagnostics of the first `si` scenes.
pub open spec fn scenes_diags_upto(data: Seq<u8>, off: ScenesOffsets, si: int) -> Seq<Diagnostic>
    decreases si,
{
    if si <= 0 {
        Seq::<Diagnostic>::empty()
    } else {
        scenes_diags_upto(data, off, si - 1) + scene_diags(data, off, si - 1)
    }
}

/// The diagnostics a successful scene-table decode appends, in emission
/// order.
pub open spec fn scenes_diags(data: Seq<u8>, off: ScenesOffsets) -> Seq<Diagnostic> {
    scenes_diags_upto(data, off, SCENES as int)
}

/// A scene entry's offset never exceeds the farthest entry's offset.
proof fn lemma_scene_entry_index_le_max(off: ScenesOffsets, si: int, ei: int)
    requires
        0 <= si < SCENES,
        0 <= ei < SCENE_ENTRIES,
    ensures
        off.base <= scene_entry_index(off, si, ei) <= scene_entry_index(off, SCENES - 1,
            SCENE_ENTRIES - 1),
{
    lemma_mul_inequality(si, SCENES - 1, off.scene_stride as int);
    lemma_mul_inequality(ei, SCENE_ENTRIES - 1, off.entry_stride as int);
    lemma_mul_inequality(0, si, off.scene_stride as int);
    lemma_mul_inequality(0, ei, off.entry_stride as int);
}

impl Scenes {
    /// Decode the whole scene table.  Succeeds exactly when the farthest
    /// entry lies inside the buffer (entry offsets grow with their
    /// indices, so all entries then do); every raw value is kept
    /// unchanged, and each entry adds one diagnostic per failed check.
    pub fn from_bytes(data: &Vec<u8>, off: &ScenesOffsets, diags: &mut Vec<Diagnostic>) -> (r:
        Result<Scenes, OutOfBounds>)
        ensures
            r is Ok <==> scenes_in_bounds(data@.len() as int, *off),
            r matches Ok(sc) ==> sc.model() == spec_scenes(data@, *off) && final(diags)@ == old(
                diags,
            )@ + scenes_diags(data@, *off),
            r is Err ==> final(diags)@ == old(diags)@,
            r matches Err(e) ==> e == scenes_oob_error(data@.len() as usize, *off),
    {
        let o = *off;
        let len = data.len();
        let m128: u128 = o.base as u128 + (SCENES - 1) as u128 * o.scene_stride as u128
            + (SCENE_ENTRIES - 1) as u128 * o.entry_stride as u128;
        assert(m128 == scene_entry_index(o, SCENES - 1, SCENE_ENTRIES - 1));
        if m128 + 4 > len as u128 {
            let loc = Loc::SceneEntry { scene: SCENES - 1, entry: SCENE_ENTRIES - 1 };
            if m128 >= len as u128 {
                return Err(OutOfBounds { field: FieldId::SceneStart, loc, offset: m128, width: 1, len });
            } else if m128 + 1 >= len as u128 {
                return Err(OutOfBounds { field: FieldId::SceneEnd, loc, offset: m128 + 1, width: 1, len });
            } else {
                return Err(OutOfBounds { field: FieldId::ScenePad, loc, offset: m128 + 2, width: 2, len });
            }
        }
        assert(scenes_in_bounds(len as int, o));

        let mut scenes: Vec<Scene> = Vec::new();
        let mut si: usize = 0;
        while si < SCENES
            invariant
                si <= SCENES,
                len == data@.len(),
                scenes_in_bounds(len as int, o),
                scenes@.len() == si,
                forall|i: int| 0 <= i < si ==> #[trigger] scenes@[i].model() == spec_scene(data@, o, i),
                diags@ == old(diags)@ + scenes_diags_upto(data@, o, si as int),
            decreases SCENES - si,
        {
            let mut entries: Vec<SceneEntry> = Vec::new();
            let mut ei: usize = 0;
            while ei < SCENE_ENTRIES
                invariant
                    si < SCENES,
                    ei <= SCENE_ENTRIES,
                    len == data@.len(),
                    scenes_in_bounds(len as int, o),
                    entries@.len() == ei,
                    forall|j: int| 0 <= j < ei ==> entries@[j] == spec_scene_entry(data@, o, si as int, j),
                    diags@ == old(diags)@ + scenes_diags_upto(data@, o, si as int)
                        + scene_diags_upto(data@, o, si as int, ei as int),
                decreases SCENE_ENTRIES - ei,
            {
                proof {
                    lemma_scene_entry_index_le_max(o, si as int, ei as int);
                }
                let idx: usize = o.base + si * o.scene_stride + ei * o.entry_stride;
                assert(idx == scene_entry_index(o, si as int, ei as int));
                let start = data[idx];
                let end = data[idx + 1];
                let pad = read_u16_le(data, idx + 2).unwrap();
                let loc = Loc::SceneEntry { scene: si, entry: ei };
                if start >= 8 {
                    diags.push(Diagnostic {
                        kind: DiagKind::OutOfDomain,
                        field: FieldId::SceneStart,
                        loc,
                        observed: start as u32,
                        lo: 0,
                        hi: 7,
                    });
                }
                if end >= 8 {
                    diags.push(Diagnostic {
                        kind: DiagKind::OutOfDomain,
                        field: FieldId::SceneEnd,
                        loc,
                        observed: end as u32,
                        lo: 0,
                        hi: 7,
                    });
                }
                if end < start {
                    diags.push(Diagnostic {
                        kind: DiagKind::OrderingViolation,
                        field: FieldId::SceneEnd,
                        loc,
                        observed: end as u32,
                        lo: start as u32,
                        hi: 7,
                    });
                }
                if pad != 0 {
                    diags.push(Diagnostic {
                        kind: DiagKind::NonZeroSpare,
                        field: FieldId::ScenePad,
                        loc,
                        observed: pad as u32,
                        lo: 0,
                        hi: 0,
                    });
                }
                entries.push(SceneEntry { start, end, pad });
                proof {
                    assert(diags@ =~= old(diags)@ + scenes_diags_upto(data@, o, si as int)
                        + scene_diags_upto(data@, o, si as int, ei as int + 1));
                }
                ei = ei + 1;
            }
            let scene = Scene { entries };
            proof {
                assert(scene.model() =~= spec_scene(data@, o, si as int));
                assert(diags@ =~= old(diags)@ + scenes_diags_upto(data@, o, si as int + 1));
            }
            scenes.push(scene);
            si = si + 1;
        }
        let sc = Scenes { scenes };
        proof {
            assert(sc.model() =~= spec_scenes(data@, o));
        }
        Ok(sc)
    }
}

pub open spec fn scene_chain_in_bounds(len: int, off: ChainOffsets) -> bool {
    off.scene_chain_base + 4 <= len
}

pub open spec fn scene_chain_oob_error(len: usize, off: ChainOffsets) -> OutOfBounds {
    let b = off.scene_chain_base;
    if b >= len {
        OutOfBounds { field: FieldId::SceneChainStart, loc: Loc::Global, offset: b as u128, width: 1, len }
    } else if b + 1 >= len {
        OutOfBounds { field: FieldId::SceneChainEnd, loc: Loc::Global, offset: (b + 1) as u128, width: 1, len }
    } else {
        OutOfBounds { field: FieldId::SceneChainPad, loc: Loc::Global, offset: (b + 2) as u128, width: 2, len }
    }
}

pub open spec fn spec_scene_chain(data: Seq<u8>, off: ChainOffsets) -> SceneChain {
    let b = off.scene_chain_base as int;
    SceneChain { start_scene: data[b], end_scene: data[b + 1], pad: u16_le(data, b + 2) }
}

/// The diagnostics a successful scene-chain decode appends, in emission
/// order: both scene indices against their domain, the ordering of the
/// pair, then the pad against zero.
pub open spec fn scene_chain_diags(data: Seq<u8>, off: ChainOffsets) -> Seq<Diagnostic> {
    let c = spec_scene_chain(data, off);
    (if c.start_scene >= 16 {
        seq![Diagnostic {
            kind: DiagKind::OutOfDomain,
            field: FieldId::SceneChainStart,
            loc: Loc::Global,
            observed: c.start_scene as u32,
            lo: 0,
            hi: 15,
        }]
    } else {
        Seq::<Diagnostic>::empty()
    }) + (if c.end_scene >= 16 {
        seq![Diagnostic {
            kind: DiagKind::OutOfDomain,
            field: FieldId::SceneChainEnd,
            loc: Loc::Global,
            observed: c.end_scene as u32,
            lo: 0,
            hi: 15,
        }]
    } else {
        Seq::<Diagnostic>::empty()
    }) + (if c.end_scene < c.start_scene {
        seq![Diagnostic {
            kind: DiagKind::OrderingViolation,
            field: FieldId::SceneChainEnd,
            loc: Loc::Global,
            observed: c.end_scene as u32,
            lo: c.start_scene as u32,
            hi: 15,
        }]
    } else {
        Seq::<Diagnostic>::empty()
    }) + (if c.pad != 0 {
        seq![Diagnostic {
            kind: DiagKind::NonZeroSpare,
            field: FieldId::SceneChainPad,
            loc: Loc::Global,
            observed: c.pad as u32,
            lo: 0,
            hi: 0,
        }]
    } else {
        Seq::<Diagnostic>::empty()
    })
}

impl SceneChain {
    /// Decode the global scene-playback range.  Succeeds exactly when its
    /// four bytes lie inside the buffer; the raw values are returned
    /// unchanged, with one diagnostic per failed check.
    pub fn from_bytes(data: &Vec<u8>, off: &ChainOffsets, diags: &mut Vec<Diagnostic>) -> (r:
        Result<SceneChain, OutOfBounds>)
        ensures
            r is Ok <==> scene_chain_in_bounds(data@.len() as int, *off),
            r matches Ok(c) ==> c == spec_scene_chain(data@, *off) && final(diags)@ == old(diags)@
                + scene_chain_diags(data@, *off),
            r is Err ==> final(diags)@ == old(diags)@,
            r matches Err(e) ==> e == scene_chain_oob_error(data@.len() as usize, *off),
    {
        let b = off.scene_chain_base;
        let len = data.len();
        if !(len >= 4 && b <= len - 4) {
            if b >= len {
                return Err(OutOfBounds { field: FieldId::SceneChainStart, loc: Loc::Global, offset: b as u128, width: 1, len });
            } else if b + 1 >= len {
                return Err(OutOfBounds { field: FieldId::SceneChainEnd, loc: Loc::Global, offset: b as u128 + 1, width: 1, len });
            } else {
                return Err(OutOfBounds { field: FieldId::SceneChainPad, loc: Loc::Global, offset: b as u128 + 2, width: 2, len });
            }
        }
        let start_scene = data[b];
        let end_scene = data[b + 1];
        let pad = read_u16_le(data, b + 2).unwrap();
        if start_scene >= 16 {
            diags.push(Diagnostic {
                kind: DiagKind::OutOfDomain,
                field: FieldId::SceneChainStart,
                loc: Loc::Global,
                observed: start_scene as u32,
                lo: 0,
                hi: 15,
            });
        }
        if end_scene >= 16 {
            diags.push(Diagnostic {
                kind: DiagKind::OutOfDomain,
                field: FieldId::SceneChainEnd,
                loc: Loc::Global,
                observed: end_scene as u32,
                lo: 0,
                hi: 15,
            });
        }
        if end_scene < start_scene {
            diags.push(Diagnostic {
                kind: DiagKind::OrderingViolation,
                field: FieldId::SceneChainEnd,
                loc: Loc::Global,
                observed: end_scene as u32,
                lo: start_scene as u32,
                hi: 15,
            });
        }
        if pad != 0 {
            diags.push(Diagnostic {
                kind: DiagKind::NonZeroSpare,
                field: FieldId::SceneChainPad,
                loc: Loc::Global,
                observed: pad as u32,
                lo: 0,
                hi: 0,
            });
        }
        assert(diags@ =~= old(diags)@ + scene_chain_diags(data@, *off));
        Ok(SceneChain { start_scene, end_scene, pad })
    }
}

/// Byte offset of pattern-chain entry `i`.
pub open spec fn chain_entry_index(off: ChainOffsets, i: int) -> int {
    off.pattern_chain_base + i * off.pattern_chain_stride
}

pub open spec fn pattern_chains_in_bounds(len: int, off: ChainOffsets) -> bool {
    chain_entry_index(off, SCENE_ENTRIES - 1) + 4 <= len
}

/// The error reported when the pattern chains run past the buffer: the
/// first field of the farthest lane's entry that is out of bounds.
pub open spec fn pattern_chains_oob_error(len: usize, off: ChainOffsets) -> OutOfBounds {
    let m = chain_entry_index(off, SCENE_ENTRIES - 1);
    let loc = Loc::ChainEntry { lane: (SCENE_ENTRIES - 1) as usize };
    if m >= len {
        OutOfBounds { field: FieldId::PatternChainStart, loc, offset: m as u128, width: 1, len }
    } else if m + 1 >= len {
        OutOfBounds { field: FieldId::PatternChainEnd, loc, offset: (m + 1) as u128, width: 1, len }
    } else {
        OutOfBounds { field: FieldId::PatternChainPad, loc, offset: (m + 2) as u128, width: 2, len }
    }
}

pub open spec fn spec_chain_entry(data: Seq<u8>, off: ChainOffsets, i: int) -> PatternChainEntry {
    let b = chain_entry_index(off, i);
    PatternChainEntry { start: data[b], end: data[b + 1], pad: u16_le(data, b + 2) }
}

/// The complete decoded pattern-chain table.
pub open spec fn spec_pattern_chains(data: Seq<u8>, off: ChainOffsets) -> Seq<PatternChainEntry> {
    Seq::new(SCENE_ENTRIES as nat, |i: int| spec_chain_entry(data, off, i))
}

/// The diagnostics one pattern-chain lane contributes, in emission order.
pub open spec fn chain_entry_diags(data: Seq<u8>, off: ChainOffsets, i: int) -> Seq<Diagnostic> {
    let e = spec_chain_entry(data, off, i);
    let loc = Loc::ChainEntry { lane: i as usize };
    (if e.start >= 8 {
        seq![Diagnostic {
            kind: DiagKind::OutOfDomain,
            field: FieldId::PatternChainStart,
            loc,
            observed: e.start as u32,
            lo: 0,
            hi: 7,
        }]
    } else {
        Seq::<Diagnostic>::empty()
    }) + (if e.end >= 8 {
        seq![Diagnostic {
            kind: DiagKind::OutOfDomain,
            field: FieldId::PatternChainEnd,
            loc,
            observed: e.end as u32,
            lo: 0,
            hi: 7,
        }]
    } else {
        Seq::<Diagnostic>::empty()
    }) + (if e.end < e.start {
        seq![Diagnostic {
            kind: DiagKind::OrderingViolation,
            field: FieldId::PatternChainEnd,
            loc,
            observed: e.end as u32,
            lo: e.start as u32,
            hi: 7,
        }]
    } else {
        Seq::<Diagnostic>::empty()
    }) + (if e.pad != 0 {
        seq![Diagnostic {
            kind: DiagKind::NonZeroSpare,
            field: FieldId::PatternChainPad,
            loc,
            observed: e.pad as u32,
            lo: 0,
            hi: 0,
        }]
    } else {
        Seq::<Diagnostic>::empty()
    })
}

/// Diagnostics of the first `i` pattern-chain lanes.
pub open spec fn pattern_chains_diags_upto(data: Seq<u8>, off: ChainOffsets, i: int) -> Seq<
    Diagnostic,
>
    decreases i,
{
    if i <= 0 {
        Seq::<Diagnostic>::empty()
    } else {
        pattern_chains_diags_upto(data, off, i - 1) + chain_entry_diags(data, off, i - 1)
    }
}

/// The diagnostics a successful pattern-chain decode appends, in emission
/// order.
pub open spec fn pattern_chains_diags(data: Seq<u8>, off: ChainOffsets) -> Seq<Diagnostic> {
    pattern_chains_diags_upto(data, off, SCENE_ENTRIES as int)
}

/// A chain entry's offset never exceeds the farthest lane's offset.
proof fn lemma_chain_entry_index_le_max(off: ChainOffsets, i: int)
    requires
        0 <= i < SCENE_ENTRIES,
    ensures
        off.pattern_chain_base <= chain_entry_index(off, i) <= chain_entry_index(off, SCENE_ENTRIES
            - 1),
{
    lemma_mul_inequality(i, SCENE_ENTRIES - 1, off.pattern_chain_stride as int);
    lemma_mul_inequality(0, i, off.pattern_chain_stride as int);
}

impl PatternChains {
    /// Decode the eight per-lane chained-pattern ranges.  Succeeds exactly
    /// when the farthest lane's entry lies inside the buffer (entry
    /// offsets grow with the lane index, so all lanes then do); every raw
    /// value is kept unchanged, with one diagnostic per failed check.
    pub fn from_bytes(data: &Vec<u8>, off: &ChainOffsets, diags: &mut Vec<Diagnostic>) -> (r:
        Result<PatternChains, OutOfBounds>)
        ensures
            r is Ok <==> pattern_chains_in_bounds(data@.len() as int, *off),
            r matches Ok(pc) ==> pc.model() == spec_pattern_chains(data@, *off) && final(diags)@
                == old(diags)@ + pattern_chains_diags(data@, *off),
            r is Err ==> final(diags)@ == old(diags)@,
            r matches Err(e) ==> e == pattern_chains_oob_error(data@.len() as usize, *off),
    {
        let o = *off;
        let len = data.len();
        let m128: u128 = o.pattern_chain_base as u128 + (SCENE_ENTRIES - 1) as u128
            * o.pattern_chain_stride as u128;
        assert(m128 == chain_entry_index(o, SCENE_ENTRIES - 1));
        if m128 + 4 > len as u128 {
            let loc = Loc::ChainEntry { lane: SCENE_ENTRIES - 1 };
            if m128 >= len as u128 {
                return Err(OutOfBounds { field: FieldId::PatternChainStart, loc, offset: m128, width: 1, len });
            } else if m128 + 1 >= len as u128 {
                return Err(OutOfBounds { field: FieldId::PatternChainEnd, loc, offset: m128 + 1, width: 1, len });
            } else {
                return Err(OutOfBounds { field: FieldId::PatternChainPad, loc, offset: m128 + 2, width: 2, len });
            }
        }
        assert(pattern_chains_in_bounds(len as int, o));

        let mut entries: Vec<PatternChainEntry> = Vec::new();
        let mut i: usize = 0;
        while i < SCENE_ENTRIES
            invariant
                i <= SCENE_ENTRIES,
                len == data@.len(),
                pattern_chains_in_bounds(len as int, o),
                entries@.len() == i,
                forall|j: int| 0 <= j < i ==> entries@[j] == spec_chain_entry(data@, o, j),
                diags@ == old(diags)@ + pattern_chains_diags_upto(data@, o, i as int),
            decreases SCENE_ENTRIES - i,
        {
            proof {
                lemma_chain_entry_index_le_max(o, i as int);
            }
            let idx: usize = o.pattern_chain_base + i * o.pattern_chain_stride;
            assert(idx == chain_entry_index(o, i as int));
            let start = data[idx];
            let end = data[idx + 1];
            let pad = read_u16_le(data, idx + 2).unwrap();
            let loc = Loc::ChainEntry { lane: i };
            if start >= 8 {
                diags.push(Diagnostic {
                    kind: DiagKind::OutOfDomain,
                    field: FieldId::PatternChainStart,
                    loc,
                    observed: start as u32,
                    lo: 0,
                    hi: 7,
                });
            }
            if end >= 8 {
                diags.push(Diagnostic {
                    kind: DiagKind::OutOfDomain,
                    field: FieldId::PatternChainEnd,
                    loc,
                    observed: end as u32,
                    lo: 0,
                    hi: 7,
                });
            }
            if end < start {
                diags.push(Diagnostic {
                    kind: DiagKind::OrderingViolation,
                    field: FieldId::PatternChainEnd,
                    loc,
                    observed: end as u32,
                    lo: start as u32,
                    hi: 7,
                });
            }
            if pad != 0 {
                diags.push(Diagnostic {
                    kind: DiagKind::NonZeroSpare,
                    field: FieldId::PatternChainPad,
                    loc,
                    observed: pad as u32,
                    lo: 0,
                    hi: 0,
                });
            }
            entries.push(PatternChainEntry { start, end, pad });
            proof {
                assert(diags@ =~= old(diags)@ + pattern_chains_diags_upto(data@, o, i as int + 1));
            }
            i = i + 1;
        }
        let pc = PatternChains { entries };
        proof {
            assert(pc.model() =~= spec_pattern_chains(data@, o));
        }
        Ok(pc)
    }
}

/// How many diagnostics one scene entry contributes for `kind` and
/// `field`.
pub open spec fn scene_entry_diag_count(e: SceneEntry, kind: DiagKind, field: FieldId) -> int {
    (if e.start >= 8 && kind == DiagKind::OutOfDomain && field == FieldId::SceneStart {
        1int
    } else {
        0int
    }) + (if e.end >= 8 && kind == DiagKind::OutOfDomain && field == FieldId::SceneEnd {
        1int
    } else {
        0int
    }) + (if e.end < e.start && kind == DiagKind::OrderingViolation && field == FieldId::SceneEnd {
        1int
    } else {
        0int
    }) + (if e.pad != 0 && kind == DiagKind::NonZeroSpare && field == FieldId::ScenePad {
        1int
    } else {
        0int
    })
}

/// A scene entry's diagnostics all carry that entry's location, and each
/// check fires at most once.
proof fn lemma_scene_entry_diags_count(
    data: Seq<u8>,
    off: ScenesOffsets,
    si: int,
    ei: int,
    kind: DiagKind,
    field: FieldId,
    loc: Loc,
)
    ensures
        count_matching(scene_entry_diags(data, off, si, ei), kind, field, loc) == if loc == (
        Loc::SceneEntry { scene: si as usize, entry: ei as usize }) {
            scene_entry_diag_count(spec_scene_entry(data, off, si, ei), kind, field)
        } else {
            0int
        },
{
    let e = spec_scene_entry(data, off, si, ei);
    let eloc = Loc::SceneEntry { scene: si as usize, entry: ei as usize };
    let c1 = e.start >= 8;
    let g1 = Diagnostic {
        kind: DiagKind::OutOfDomain,
        field: FieldId::SceneStart,
        loc: eloc,
        observed: e.start as u32,
        lo: 0,
        hi: 7,
    };
    let c2 = e.end >= 8;
    let g2 = Diagnostic {
        kind: DiagKind::OutOfDomain,
        field: FieldId::SceneEnd,
        loc: eloc,
        observed: e.end as u32,
        lo: 0,
        hi: 7,
    };
    let c3 = e.end < e.start;
    let g3 = Diagnostic {
        kind: DiagKind::OrderingViolation,
        field: FieldId::SceneEnd,
        loc: eloc,
        observed: e.end as u32,
        lo: e.start as u32,
        hi: 7,
    };
    let c4 = e.pad != 0;
    let g4 = Diagnostic {
        kind: DiagKind::NonZeroSpare,
        field: FieldId::ScenePad,
        loc: eloc,
        observed: e.pad as u32,
        lo: 0,
        hi: 0,
    };
    let d1 = cond_diag(c1, g1);
    let d2 = cond_diag(c2, g2);
    let d3 = cond_diag(c3, g3);
    let d4 = cond_diag(c4, g4);
    assert(scene_entry_diags(data, off, si, ei) == d1 + d2 + d3 + d4);
    lemma_count_matching_concat(d1 + d2 + d3, d4, kind, field, loc);
    lemma_count_matching_concat(d1 + d2, d3, kind, field, loc);
    lemma_count_matching_concat(d1, d2, kind, field, loc);
    lemma_count_cond_diag(c1, g1, kind, field, loc);
    lemma_count_cond_diag(c2, g2, kind, field, loc);
    lemma_count_cond_diag(c3, g3, kind, field, loc);
    lemma_count_cond_diag(c4, g4, kind, field, loc);
}

/// Expected count over the first `ei_limit` entries of scene `si`.
pub open spec fn scene_diags_upto_count(
    data: Seq<u8>,
    off: ScenesOffsets,
    si: int,
    ei_limit: int,
    kind: DiagKind,
    field: FieldId,
    loc: Loc,
) -> int {
    match loc {
        Loc::SceneEntry { scene, entry } => if scene == si as usize && (entry as int) < ei_limit {
            scene_entry_diag_count(spec_scene_entry(data, off, si, entry as int), kind, field)
        } else {
            0int
        },
        _ => 0int,
    }
}

proof fn lemma_scene_diags_upto_count(
    data: Seq<u8>,
    off: ScenesOffsets,
    si: int,
    ei_limit: int,
    kind: DiagKind,
    field: FieldId,
    loc: Loc,
)
    requires
        0 <= ei_limit <= SCENE_ENTRIES,
    ensures
        count_matching(scene_diags_upto(data, off, si, ei_limit), kind, field, loc)
            == scene_diags_upto_count(data, off, si, ei_limit, kind, field, loc),
    decreases ei_limit,
{
    if ei_limit > 0 {
        lemma_scene_diags_upto_count(data, off, si, ei_limit - 1, kind, field, loc);
        lemma_count_matching_concat(scene_diags_upto(data, off, si, ei_limit - 1),
            scene_entry_diags(data, off, si, ei_limit - 1), kind, field, loc);
        lemma_scene_entry_diags_count(data, off, si, ei_limit - 1, kind, field, loc);
    } else {
        assert(count_matching(Seq::<Diagnostic>::empty(), kind, field, loc) == 0);
    }
}

/// Expected count over the first `si_limit` whole scenes.
pub open spec fn scenes_diags_upto_count(
    data: Seq<u8>,
    off: ScenesOffsets,
    si_limit: int,
    kind: DiagKind,
    field: FieldId,
    loc: Loc,
) -> int {
    match loc {
        Loc::SceneEntry { scene, entry } => if (scene as int) < si_limit && (entry as int)
            < SCENE_ENTRIES {
            scene_entry_diag_count(spec_scene_entry(data, off, scene as int, entry as int), kind,
                field)
        } else {
            0int
        },
        _ => 0int,
    }
}

/// Every scene-table diagnostic carries the location of the one entry it
/// reports, so each entry's checks are counted there and nowhere else.
pub proof fn lemma_scenes_diags_count(
    data: Seq<u8>,
    off: ScenesOffsets,
    si_limit: int,
    kind: DiagKind,
    field: FieldId,
    loc: Loc,
)
    requires
        0 <= si_limit <= SCENES,
    ensures
        count_matching(scenes_diags_upto(data, off, si_limit), kind, field, loc)
            == scenes_diags_upto_count(data, off, si_limit, kind, field, loc),
    decreases si_limit,
{
    if si_limit > 0 {
        lemma_scenes_diags_count(data, off, si_limit - 1, kind, field, loc);
        lemma_count_matching_concat(scenes_diags_upto(data, off, si_limit - 1), scene_diags(data,
            off, si_limit - 1), kind, field, loc);
        lemma_scene_diags_upto_count(data, off, si_limit - 1, SCENE_ENTRIES as int, kind, field,
            loc);
    } else {
        assert(count_matching(Seq::<Diagnostic>::empty(), kind, field, loc) == 0);
    }
}

/// In the scene table's diagnostics, an entry whose end precedes its
/// start is reported with an ordering violation exactly once, an entry
/// with a nonzero pad word with a nonzero-spare report exactly once, and
/// the raw pad word is preserved unchanged in the decoded entry.
pub proof fn lemma_scene_entry_diags_once(data: Seq<u8>, off: ScenesOffsets, si: int, ei: int)
    requires
        0 <= si < SCENES,
        0 <= ei < SCENE_ENTRIES,
    ensures
        count_matching(scenes_diags(data, off), DiagKind::OrderingViolation, FieldId::SceneEnd,
            Loc::SceneEntry { scene: si as usize, entry: ei as usize }) == if spec_scene_entry(
            data, off, si, ei).end < spec_scene_entry(data, off, si, ei).start {
            1int
        } else {
            0int
        },
        count_matching(scenes_diags(data, off), DiagKind::NonZeroSpare, FieldId::ScenePad,
            Loc::SceneEntry { scene: si as usize, entry: ei as usize }) == if spec_scene_entry(
            data, off, si, ei).pad != 0 {
            1int
        } else {
            0int
        },
        spec_scene_entry(data, off, si, ei).pad == u16_le(data, scene_entry_index(off, si, ei) + 2),
{
    lemma_scenes_diags_count(data, off, SCENES as int, DiagKind::OrderingViolation,
        FieldId::SceneEnd, Loc::SceneEntry { scene: si as usize, entry: ei as usize });
    lemma_scenes_diags_count(data, off, SCENES as int, DiagKind::NonZeroSpare, FieldId::ScenePad,
        Loc::SceneEntry { scene: si as usize, entry: ei as usize });
}

/// How many diagnostics the scene chain contributes for `kind` and
/// `field`.
pub open spec fn scene_chain_diag_count(c: SceneChain, kind: DiagKind, field: FieldId) -> int {
    (if c.start_scene >= 16 && kind == DiagKind::OutOfDomain && field == FieldId::SceneChainStart {
        1int
    } else {
        0int
    }) + (if c.end_scene >= 16 && kind == DiagKind::OutOfDomain && field == FieldId::SceneChainEnd {
        1int
    } else {
        0int
    }) + (if c.end_scene < c.start_scene && kind == DiagKind::OrderingViolation && field
        == FieldId::SceneChainEnd {
        1int
    } else {
        0int
    }) + (if c.pad != 0 && kind == DiagKind::NonZeroSpare && field == FieldId::SceneChainPad {
        1int
    } else {
        0int
    })
}

/// Every scene-chain diagnostic is global, and each check fires at most
/// once.
pub proof fn lemma_scene_chain_diags_count(
    data: Seq<u8>,
    off: ChainOffsets,
    kind: DiagKind,
    field: FieldId,
    loc: Loc,
)
    ensures
        count_matching(scene_chain_diags(data, off), kind, field, loc) == if loc == Loc::Global {
            scene_chain_diag_count(spec_scene_chain(data, off), kind, field)
        } else {
            0int
        },
{
    let c = spec_scene_chain(data, off);
    let c1 = c.start_scene >= 16;
    let g1 = Diagnostic {
        kind: DiagKind::OutOfDomain,
        field: FieldId::SceneChainStart,
        loc: Loc::Global,
        observed: c.start_scene as u32,
        lo: 0,
        hi: 15,
    };
    let c2 = c.end_scene >= 16;
    let g2 = Diagnostic {
        kind: DiagKind::OutOfDomain,
        field: FieldId::SceneChainEnd,
        loc: Loc::Global,
        observed: c.end_scene as u32,
        lo: 0,
        hi: 15,
    };
    let c3 = c.end_scene < c.start_scene;
    let g3 = Diagnostic {
        kind: DiagKind::OrderingViolation,
        field: FieldId::SceneChainEnd,
        loc: Loc::Global,
        observed: c.end_scene as u32,
        lo: c.start_scene as u32,
        hi: 15,
    };
    let c4 = c.pad != 0;
    let g4 = Diagnostic {
        kind: DiagKind::NonZeroSpare,
        field: FieldId::SceneChainPad,
        loc: Loc::Global,
        observed: c.pad as u32,
        lo: 0,
        hi: 0,
    };
    let d1 = cond_diag(c1, g1);
    let d2 = cond_diag(c2, g2);
    let d3 = cond_diag(c3, g3);
    let d4 = cond_diag(c4, g4);
    assert(scene_chain_diags(data, off) == d1 + d2 + d3 + d4);
    lemma_count_matching_concat(d1 + d2 + d3, d4, kind, field, loc);
    lemma_count_matching_concat(d1 + d2, d3, kind, field, loc);
    lemma_count_matching_concat(d1, d2, kind, field, loc);
    lemma_count_cond_diag(c1, g1, kind, field, loc);
    lemma_count_cond_diag(c2, g2, kind, field, loc);
    lemma_count_cond_diag(c3, g3, kind, field, loc);
    lemma_count_cond_diag(c4, g4, kind, field, loc);
}

/// A scene chain whose end precedes its start is reported with an
/// ordering violation exactly once, a nonzero pad word with a
/// nonzero-spare report exactly once, and the raw pad word is preserved
/// unchanged in the decoded record.
pub proof fn lemma_scene_chain_diags_once(data: Seq<u8>, off: ChainOffsets)
    ensures
        count_matching(scene_chain_diags(data, off), DiagKind::OrderingViolation,
            FieldId::SceneChainEnd, Loc::Global) == if spec_scene_chain(data, off).end_scene
            < spec_scene_chain(data, off).start_scene {
            1int
        } else {
            0int
        },
        count_matching(scene_chain_diags(data, off), DiagKind::NonZeroSpare,
            FieldId::SceneChainPad, Loc::Global) == if spec_scene_chain(data, off).pad != 0 {
            1int
        } else {
            0int
        },
        spec_scene_chain(data, off).pad == u16_le(data, off.scene_chain_base + 2),
{
    lemma_scene_chain_diags_count(data, off, DiagKind::OrderingViolation, FieldId::SceneChainEnd,
        Loc::Global);
    lemma_scene_chain_diags_count(data, off, DiagKind::NonZeroSpare, FieldId::SceneChainPad,
        Loc::Global);
}

/// How many diagnostics one pattern-chain lane contributes for `kind` and
/// `field`.
pub open spec fn chain_entry_diag_count(e: PatternChainEntry, kind: DiagKind, field: FieldId) -> int {
    (if e.start >= 8 && kind == DiagKind::OutOfDomain && field == FieldId::PatternChainStart {
        1int
    } else {
        0int
    }) + (if e.end >= 8 && kind == DiagKind::OutOfDomain && field == FieldId::PatternChainEnd {
        1int
    } else {
        0int
    }) + (if e.end < e.start && kind == DiagKind::OrderingViolation && field
        == FieldId::PatternChainEnd {
        1int
    } else {
        0int
    }) + (if e.pad != 0 && kind == DiagKind::NonZeroSpare && field == FieldId::PatternChainPad {
        1int
    } else {
        0int
    })
}

/// A chain lane's diagnostics all carry that lane's location, and each
/// check fires at most once.
proof fn lemma_chain_entry_diags_count(
    data: Seq<u8>,
    off: ChainOffsets,
    i: int,
    kind: DiagKind,
    field: FieldId,
    loc: Loc,
)
    ensures
        count_matching(chain_entry_diags(data, off, i), kind, field, loc) == if loc == (
        Loc::ChainEntry { lane: i as usize }) {
            chain_entry_diag_count(spec_chain_entry(data, off, i), kind, field)
        } else {
            0int
        },
{
    let e = spec_chain_entry(data, off, i);
    let eloc = Loc::ChainEntry { lane: i as usize };
    let c1 = e.start >= 8;
    let g1 = Diagnostic {
        kind: DiagKind::OutOfDomain,
        field: FieldId::PatternChainStart,
        loc: eloc,
        observed: e.start as u32,
        lo: 0,
        hi: 7,
    };
    let c2 = e.end >= 8;
    let g2 = Diagnostic {
        kind: DiagKind::OutOfDomain,
        field: FieldId::PatternChainEnd,
        loc: eloc,
        observed: e.end as u32,
        lo: 0,
        hi: 7,
    };
    let c3 = e.end < e.start;
    let g3 = Diagnostic {
        kind: DiagKind::OrderingViolation,
        field: FieldId::PatternChainEnd,
        loc: eloc,
        observed: e.end as u32,
        lo: e.start as u32,
        hi: 7,
    };
    let c4 = e.pad != 0;
    let g4 = Diagnostic {
        kind: DiagKind::NonZeroSpare,
        field: FieldId::PatternChainPad,
        loc: eloc,
        observed: e.pad as u32,
        lo: 0,
        hi: 0,
    };
    let d1 = cond_diag(c1, g1);
    let d2 = cond_diag(c2, g2);
    let d3 = cond_diag(c3, g3);
    let d4 = cond_diag(c4, g4);
    assert(chain_entry_diags(data, off, i) == d1 + d2 + d3 + d4);
    lemma_count_matching_concat(d1 + d2 + d3, d4, kind, field, loc);
    lemma_count_matching_concat(d1 + d2, d3, kind, field, loc);
    lemma_count_matching_concat(d1, d2, kind, field, loc);
    lemma_count_cond_diag(c1, g1, kind, field, loc);
    lemma_count_cond_diag(c2, g2, kind, field, loc);
    lemma_count_cond_diag(c3, g3, kind, field, loc);
    lemma_count_cond_diag(c4, g4, kind, field, loc);
}

/// Expected count over the first `i_limit` pattern-chain lanes.
pub open spec fn pattern_chains_diags_upto_count(
    data: Seq<u8>,
    off: ChainOffsets,
    i_limit: int,
    kind: DiagKind,
    field: FieldId,
    loc: Loc,
) -> int {
    match loc {
        Loc::ChainEntry { lane } => if (lane as int) < i_limit {
            chain_entry_diag_count(spec_chain_entry(data, off, lane as int), kind, field)
        } else {
            0int
        },
        _ => 0int,
    }
}

/// Every pattern-chain diagnostic carries the location of the one lane it
/// reports, so each lane's checks are counted there and nowhere else.
pub proof fn lemma_pattern_chains_diags_count(
    data: Seq<u8>,
    off: ChainOffsets,
    i_limit: int,
    kind: DiagKind,
    field: FieldId,
    loc: Loc,
)
    requires
        0 <= i_limit <= SCENE_ENTRIES,
    ensures
        count_matching(pattern_chains_diags_upto(data, off, i_limit), kind, field, loc)
            == pattern_chains_diags_upto_count(data, off, i_limit, kind, field, loc),
    decreases i_limit,
{
    if i_limit > 0 {
        lemma_pattern_chains_diags_count(data, off, i_limit - 1, kind, field, loc);
        lemma_count_matching_concat(pattern_chains_diags_upto(data, off, i_limit - 1),
            chain_entry_diags(data, off, i_limit - 1), kind, field, loc);
        lemma_chain_entry_diags_count(data, off, i_limit - 1, kind, field, loc);
    } else {
        assert(count_matching(Seq::<Diagnostic>::empty(), kind, field, loc) == 0);
    }
}

/// A pattern-chain lane whose end precedes its start is reported with an
/// ordering violation exactly once, a lane with a nonzero pad word with a
/// nonzero-spare report exactly once, and the raw pad word is preserved
/// unchanged in the decoded entry.
pub proof fn lemma_chain_entry_diags_once(data: Seq<u8>, off: ChainOffsets, lane: int)
    requires
        0 <= lane < SCENE_ENTRIES,
    ensures
        count_matching(pattern_chains_diags(data, off), DiagKind::OrderingViolation,
            FieldId::PatternChainEnd, Loc::ChainEntry { lane: lane as usize }) == if
            spec_chain_entry(data, off, lane).end < spec_chain_entry(data, off, lane).start {
            1int
        } else {
            0int
        },
        count_matching(pattern_chains_diags(data, off), DiagKind::NonZeroSpare,
            FieldId::PatternChainPad, Loc::ChainEntry { lane: lane as usize }) == if
            spec_chain_entry(data, off, lane).pad != 0 {
            1int
        } else {
            0int
        },
        spec_chain_entry(data, off, lane).pad == u16_le(data, chain_entry_index(off, lane) + 2),
{
    lemma_pattern_chains_diags_count(data, off, SCENE_ENTRIES as int, DiagKind::OrderingViolation,
        FieldId::PatternChainEnd, Loc::ChainEntry { lane: lane as usize });
    lemma_pattern_chains_diags_count(data, off, SCENE_ENTRIES as int, DiagKind::NonZeroSpare,
        FieldId::PatternChainPad, Loc::ChainEntry { lane: lane as usize });
}

} // verus!
