//! Layout descriptor: byte offsets, strides and dimension counts for every
//! field of the session file.  Pure data, the single source of truth for all
//! decoders; the `standard_*` constructors hold the offsets observed in the
//! firmware under study, and a caller targeting another firmware revision
//! supplies its own tables.
use vstd::prelude::*;

verus! {

/// Number of drum tracks in a session.
pub const TRACKS: usize = 4;

/// Number of patterns per track.
pub const PATTERNS: usize = 8;

/// Number of steps per pattern.
pub const STEPS: usize = 32;

/// Number of scenes in a session.
pub const SCENES: usize = 16;

/// Number of entries per scene, and of pattern-chain lanes.
pub const SCENE_ENTRIES: usize = 8;

/// Per-step field planes of the drum data.  Each plane is a separate base
/// offset; the fields of one step are struck across the planes, not
/// contiguous in the file.
#[derive(Clone, Copy, Debug, PartialEq, Eq, Structural)]
pub struct Offsets {
    pub velocity: usize,
    pub probability: usize,
    pub choice: usize,
    pub mask: usize,
    pub pitch: usize,
    pub decay: usize,
    pub distortion: usize,
    pub eq: usize,
    pub track_stride: usize,
    pub pattern_stride: usize,
}

#[derive(Clone, Copy, Debug, PartialEq, Eq, Structural)]
pub struct FxOffsets {
    pub delay_preset: usize,
    pub reverb_preset: usize,
}

#[derive(Clone, Copy, Debug, PartialEq, Eq, Structural)]
pub struct TimingOffsets {
    pub tempo: usize,
    pub swing: usize,
    pub swing_sync_rate: usize,
    pub spare1: usize,
    pub spare2: usize,
}

/// The scene stride is an independent layout constant: it is not
/// `SCENE_ENTRIES * entry_stride` (the layout leaves a gap after the
/// entries of each scene), so it must never be derived from the entry
/// stride.
#[derive(Clone, Copy, Debug, PartialEq, Eq, Structural)]
pub struct ScenesOffsets {
    pub base: usize,
    pub scene_stride: usize,
    pub entry_stride: usize,
}

#[derive(Clone, Copy, Debug, PartialEq, Eq, Structural)]
pub struct ChainOffsets {
    pub scene_chain_base: usize,
    pub pattern_chain_base: usize,
    pub pattern_chain_stride: usize,
}

#[derive(Clone, Copy, Debug, PartialEq, Eq, Structural)]
pub struct ScaleOffsets {
    pub root: usize,
    pub scale_type: usize,
}

/// All tables needed to decode one whole session.
#[derive(Clone, Copy, Debug, PartialEq, Eq, Structural)]
pub struct LayoutTables {
    pub drums: Offsets,
    pub fx: FxOffsets,
    pub timing: TimingOffsets,
    pub scenes: ScenesOffsets,
    pub chains: ChainOffsets,
    pub scale: ScaleOffsets,
}

pub open spec fn spec_standard_offsets() -> Offsets {
    Offsets {
        velocity: 0x0CD74,
        probability: 0x0CD94,
        choice: 0x0CDB4,
        mask: 0x0CDD4,
        pitch: 0x0CDF4,
        decay: 0x0CE14,
        distortion: 0x0CE34,
        eq: 0x0CE54,
        track_stride: 0x3540,
        pattern_stride: 0x06A8,
    }
}

pub open spec fn spec_standard_fx_offsets() -> FxOffsets {
    FxOffsets { delay_preset: 0x26D0E, reverb_preset: 0x26D0F }
}

pub open spec fn spec_standard_timing_offsets() -> TimingOffsets {
    TimingOffsets { tempo: 0x34, swing: 0x35, swing_sync_rate: 0x36, spare1: 0x38, spare2: 0x3C }
}

pub open spec fn spec_standard_scenes_offsets() -> ScenesOffsets {
    ScenesOffsets { base: 0x40, scene_stride: 0x28, entry_stride: 4 }
}

pub open spec fn spec_standard_chain_offsets() -> ChainOffsets {
    ChainOffsets { scene_chain_base: 0x2C0, pattern_chain_base: 0x2C4, pattern_chain_stride: 4 }
}

pub open spec fn spec_standard_scale_offsets() -> ScaleOffsets {
    ScaleOffsets { root: 0x26D0C, scale_type: 0x26D0D }
}

pub open spec fn spec_standard_layout() -> LayoutTables {
    LayoutTables {
        drums: spec_standard_offsets(),
        fx: spec_standard_fx_offsets(),
        timing: spec_standard_timing_offsets(),
        scenes: spec_standard_scenes_offsets(),
        chains: spec_standard_chain_offsets(),
        scale: spec_standard_scale_offsets(),
    }
}

/// Drum-plane offsets recovered from the firmware.
pub fn standard_offsets() -> (o: Offsets)
    ensures
        o == spec_standard_offsets(),
{
    Offsets {
        velocity: 0x0CD74,
        probability: 0x0CD94,
        choice: 0x0CDB4,
        mask: 0x0CDD4,
        pitch: 0x0CDF4,
        decay: 0x0CE14,
        distortion: 0x0CE34,
        eq: 0x0CE54,
        track_stride: 0x3540,
        pattern_stride: 0x06A8,
    }
}

pub fn standard_fx_offsets() -> (o: FxOffsets)
    ensures
        o == spec_standard_fx_offsets(),
{
    FxOffsets { delay_preset: 0x26D0E, reverb_preset: 0x26D0F }
}

pub fn standard_timing_offsets() -> (o: TimingOffsets)
    ensures
        o == spec_standard_timing_offsets(),
{
    TimingOffsets { tempo: 0x34, swing: 0x35, swing_sync_rate: 0x36, spare1: 0x38, spare2: 0x3C }
}

pub fn standard_scenes_offsets() -> (o: ScenesOffsets)
    ensures
        o == spec_standard_scenes_offsets(),
{
    ScenesOffsets { base: 0x40, scene_stride: 0x28, entry_stride: 4 }
}

pub fn standard_chain_offsets() -> (o: ChainOffsets)
    ensures
        o == spec_standard_chain_offsets(),
{
    ChainOffsets { scene_chain_base: 0x2C0, pattern_chain_base: 0x2C4, pattern_chain_stride: 4 }
}

pub fn standard_scale_offsets() -> (o: ScaleOffsets)
    ensures
        o == spec_standard_scale_offsets(),
{
    ScaleOffsets { root: 0x26D0C, scale_type: 0x26D0D }
}

pub fn standard_layout() -> (t: LayoutTables)
    ensures
        t == spec_standard_layout(),
{
    LayoutTables {
        drums: standard_offsets(),
        fx: standard_fx_offsets(),
        timing: standard_timing_offsets(),
        scenes: standard_scenes_offsets(),
        chains: standard_chain_offsets(),
        scale: standard_scale_offsets(),
    }
}

} // verus!
