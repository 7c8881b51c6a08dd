//! Whole-session decoding: every record of the file in one pass.
//!
//! Decoding is a pure function of the byte buffer and the offset tables.
//! Records are decoded in a fixed order (timing, scale, FX, drums, scenes,
//! scene chain, pattern chains); the first record whose reads would run
//! past the buffer aborts the whole decode with its error, and then no
//! diagnostics are reported at all.  On success the diagnostic list grows
//! by exactly the records' diagnostics, in decode order.
use vstd::prelude::*;

use crate::diag::{count_matching, lemma_count_matching_concat, DiagKind, Diagnostic, FieldId,
    Loc, OutOfBounds};
use crate::drums::{drums_in_bounds, drums_oob_error, spec_drums, DrumData, Step};
use crate::layout::{LayoutTables, SCENES, SCENE_ENTRIES};
use crate::scalar::{u16_le, u32_le};
use crate::scenes::{chain_entry_index, lemma_pattern_chains_diags_count,
    lemma_scene_chain_diags_count, lemma_scenes_diags_count, pattern_chains_diags,
    pattern_chains_in_bounds, pattern_chains_oob_error, scene_chain_diags, scene_chain_in_bounds,
    scene_chain_oob_error, scene_entry_index, scenes_diags, scenes_in_bounds, scenes_oob_error,
    spec_chain_entry, spec_pattern_chains, spec_scene_chain, spec_scene_entry, spec_scenes,
    PatternChainEntry, PatternChains, SceneChain, SceneEntry, Scenes};
use crate::settings::{fx_diags, fx_in_bounds, fx_oob_error, lemma_fx_diags_count,
    lemma_scale_diags_count, lemma_timing_diags_count, scale_diags, scale_in_bounds,
    scale_oob_error, spec_fx, spec_scale, spec_timing, timing_diags, timing_in_bounds,
    timing_oob_error, Fx, ScaleSettings, Timing};

verus! {

/// The decoded model of one session file.
#[derive(Clone, Debug)]
pub struct Session {
    pub timing: Timing,
    pub scale: ScaleSettings,
    pub fx: Fx,
    pub drums: DrumData,
    pub scenes: Scenes,
    pub scene_chain: SceneChain,
    pub pattern_chains: PatternChains,
}

impl Session {
    /// The session as pure values: every record reduced to its
    /// mathematical model.
    pub open spec fn model(&self) -> (
        Timing,
        ScaleSettings,
        Fx,
        Seq<Seq<Seq<Step>>>,
        Seq<Seq<SceneEntry>>,
        SceneChain,
        Seq<PatternChainEntry>,
    ) {
        (
            self.timing,
            self.scale,
            self.fx,
            self.drums.model(),
            self.scenes.model(),
            self.scene_chain,
            self.pattern_chains.model(),
        )
    }
}

/// Every record of the session lies inside a buffer of `len` bytes.
pub open spec fn session_in_bounds(len: int, t: LayoutTables) -> bool {
    &&& timing_in_bounds(len, t.timing)
    &&& scale_in_bounds(len, t.scale)
    &&& fx_in_bounds(len, t.fx)
    &&& drums_in_bounds(len, t.drums)
    &&& scenes_in_bounds(len, t.scenes)
    &&& scene_chain_in_bounds(len, t.chains)
    &&& pattern_chains_in_bounds(len, t.chains)
}

/// The error of the first record, in decode order, that runs past the
/// buffer.
pub open spec fn session_oob_error(len: usize, t: LayoutTables) -> OutOfBounds {
    if !timing_in_bounds(len as int, t.timing) {
        timing_oob_error(len, t.timing)
    } else if !scale_in_bounds(len as int, t.scale) {
        scale_oob_error(len, t.scale)
    } else if !fx_in_bounds(len as int, t.fx) {
        fx_oob_error(len, t.fx)
    } else if !drums_in_bounds(len as int, t.drums) {
        drums_oob_error(len, t.drums)
    } else if !scenes_in_bounds(len as int, t.scenes) {
        scenes_oob_error(len, t.scenes)
    } else if !scene_chain_in_bounds(len as int, t.chains) {
        scene_chain_oob_error(len, t.chains)
    } else {
        pattern_chains_oob_error(len, t.chains)
    }
}

/// The diagnostics of a successful whole-session decode, in decode
/// order.  The drum planes carry no range checks, so they contribute
/// none.
pub open spec fn session_diags(data: Seq<u8>, t: LayoutTables) -> Seq<Diagnostic> {
    timing_diags(data, t.timing) + scale_diags(data, t.scale) + fx_diags(data, t.fx) + scenes_diags(
        data, t.scenes) + scene_chain_diags(data, t.chains) + pattern_chains_diags(data, t.chains)
}

/// Each record of `s` is exactly the model decoded from `data` under the
/// tables `t`.
pub open spec fn session_matches(s: Session, data: Seq<u8>, t: LayoutTables) -> bool {
    &&& s.timing == spec_timing(data, t.timing)
    &&& s.scale == spec_scale(data, t.scale)
    &&& s.fx == spec_fx(data, t.fx)
    &&& s.drums.model() == spec_drums(data, t.drums)
    &&& s.scenes.model() == spec_scenes(data, t.scenes)
    &&& s.scene_chain == spec_scene_chain(data, t.chains)
    &&& s.pattern_chains.model() == spec_pattern_chains(data, t.chains)
}

/// Decode one whole session.  Succeeds exactly when every record lies
/// inside the buffer; then the returned records match the decoded models
/// and the diagnostic list grows by exactly the session's diagnostics.
/// On a structural failure the error of the first offending record is
/// returned and the diagnostic list is left untouched.
pub fn decode_session(data: &Vec<u8>, tables: &LayoutTables, diags: &mut Vec<Diagnostic>) -> (r:
    Result<Session, OutOfBounds>)
    ensures
        r is Ok <==> session_in_bounds(data@.len() as int, *tables),
        r matches Ok(s) ==> session_matches(s, data@, *tables) && final(diags)@ == old(diags)@
            + session_diags(data@, *tables),
        r is Err ==> final(diags)@ == old(diags)@,
        r matches Err(e) ==> e == session_oob_error(data@.len() as usize, *tables),
{
    proof {
        // The buffer length fits the machine word, so the length casts in
        // the contract's error clause are exact.
        assert(data.len() == data@.len());
    }
    let mut local: Vec<Diagnostic> = Vec::new();
    let timing = match Timing::from_bytes(data, &tables.timing, &mut local) {
        Ok(v) => v,
        Err(e) => {
            return Err(e);
        },
    };
    let scale = match ScaleSettings::from_bytes(data, &tables.scale, &mut local) {
        Ok(v) => v,
        Err(e) => {
            return Err(e);
        },
    };
    let fx = match Fx::from_bytes(data, &tables.fx, &mut local) {
        Ok(v) => v,
        Err(e) => {
            return Err(e);
        },
    };
    let drums = match DrumData::from_bytes(data, &tables.drums) {
        Ok(v) => v,
        Err(e) => {
            return Err(e);
        },
    };
    let scenes = match Scenes::from_bytes(data, &tables.scenes, &mut local) {
        Ok(v) => v,
        Err(e) => {
            return Err(e);
        },
    };
    let scene_chain = match SceneChain::from_bytes(data, &tables.chains, &mut local) {
        Ok(v) => v,
        Err(e) => {
            return Err(e);
        },
    };
    let pattern_chains = match PatternChains::from_bytes(data, &tables.chains, &mut local) {
        Ok(v) => v,
        Err(e) => {
            return Err(e);
        },
    };
    assert(local@ =~= session_diags(data@, *tables));
    let mut k: usize = 0;
    while k < local.len()
        invariant
            k <= local@.len(),
            diags@ == old(diags)@ + local@.subrange(0, k as int),
        decreases local@.len() - k,
    {
        diags.push(local[k]);
        assert(diags@ =~= old(diags)@ + local@.subrange(0, k as int + 1));
        k = k + 1;
    }
    assert(local@.subrange(0, local@.len() as int) =~= local@);
    Ok(Session { timing, scale, fx, drums, scenes, scene_chain, pattern_chains })
}

/// Decoding is deterministic: two sessions decoded from the same bytes
/// under the same tables have the same model, record for record.
pub proof fn lemma_decode_deterministic(
    s1: Session,
    s2: Session,
    data: Seq<u8>,
    tables: LayoutTables,
)
    requires
        session_matches(s1, data, tables),
        session_matches(s2, data, tables),
    ensures
        s1.model() == s2.model(),
{
}


/// Counting over a whole decode's diagnostics splits into the six
/// records' counts.
proof fn lemma_session_diags_count_split(
    data: Seq<u8>,
    t: LayoutTables,
    kind: DiagKind,
    field: FieldId,
    loc: Loc,
)
    ensures
        count_matching(session_diags(data, t), kind, field, loc) == count_matching(timing_diags(
            data, t.timing), kind, field, loc) + count_matching(scale_diags(data, t.scale), kind,
            field, loc) + count_matching(fx_diags(data, t.fx), kind, field, loc) + count_matching(
            scenes_diags(data, t.scenes), kind, field, loc) + count_matching(scene_chain_diags(
            data, t.chains), kind, field, loc) + count_matching(pattern_chains_diags(data,
            t.chains), kind, field, loc),
{
    let d1 = timing_diags(data, t.timing);
    let d2 = scale_diags(data, t.scale);
    let d3 = fx_diags(data, t.fx);
    let d4 = scenes_diags(data, t.scenes);
    let d5 = scene_chain_diags(data, t.chains);
    let d6 = pattern_chains_diags(data, t.chains);
    lemma_count_matching_concat(d1 + d2 + d3 + d4 + d5, d6, kind, field, loc);
    lemma_count_matching_concat(d1 + d2 + d3 + d4, d5, kind, field, loc);
    lemma_count_matching_concat(d1 + d2 + d3, d4, kind, field, loc);
    lemma_count_matching_concat(d1 + d2, d3, kind, field, loc);
    lemma_count_matching_concat(d1, d2, kind, field, loc);
}

/// Over a whole decode, a scene entry whose end precedes its start is
/// reported with an ordering violation exactly once, an entry with a
/// nonzero pad word with a nonzero-spare report exactly once, and the
/// raw pad word is preserved unchanged in the decoded entry.
pub proof fn lemma_session_scene_entry_diags_once(
    data: Seq<u8>,
    t: LayoutTables,
    si: int,
    ei: int,
)
    requires
        0 <= si < SCENES,
        0 <= ei < SCENE_ENTRIES,
    ensures
        count_matching(session_diags(data, t), DiagKind::OrderingViolation, FieldId::SceneEnd,
            Loc::SceneEntry { scene: si as usize, entry: ei as usize }) == if spec_scene_entry(
            data, t.scenes, si, ei).end < spec_scene_entry(data, t.scenes, si, ei).start {
            1int
        } else {
            0int
        },
        count_matching(session_diags(data, t), DiagKind::NonZeroSpare, FieldId::ScenePad,
            Loc::SceneEntry { scene: si as usize, entry: ei as usize }) == if spec_scene_entry(
            data, t.scenes, si, ei).pad != 0 {
            1int
        } else {
            0int
        },
        spec_scene_entry(data, t.scenes, si, ei).pad == u16_le(data, scene_entry_index(t.scenes,
            si, ei) + 2),
{
    let loc = Loc::SceneEntry { scene: si as usize, entry: ei as usize };
    lemma_session_diags_count_split(data, t, DiagKind::OrderingViolation, FieldId::SceneEnd, loc);
    lemma_session_diags_count_split(data, t, DiagKind::NonZeroSpare, FieldId::ScenePad, loc);
    lemma_timing_diags_count(data, t.timing, DiagKind::OrderingViolation, FieldId::SceneEnd, loc);
    lemma_timing_diags_count(data, t.timing, DiagKind::NonZeroSpare, FieldId::ScenePad, loc);
    lemma_scale_diags_count(data, t.scale, DiagKind::OrderingViolation, FieldId::SceneEnd, loc);
    lemma_scale_diags_count(data, t.scale, DiagKind::NonZeroSpare, FieldId::ScenePad, loc);
    lemma_fx_diags_count(data, t.fx, DiagKind::OrderingViolation, FieldId::SceneEnd, loc);
    lemma_fx_diags_count(data, t.fx, DiagKind::NonZeroSpare, FieldId::ScenePad, loc);
    lemma_scene_chain_diags_count(data, t.chains, DiagKind::OrderingViolation, FieldId::SceneEnd,
        loc);
    lemma_scene_chain_diags_count(data, t.chains, DiagKind::NonZeroSpare, FieldId::ScenePad, loc);
    lemma_pattern_chains_diags_count(data, t.chains, SCENE_ENTRIES as int,
        DiagKind::OrderingViolation, FieldId::SceneEnd, loc);
    lemma_pattern_chains_diags_count(data, t.chains, SCENE_ENTRIES as int, DiagKind::NonZeroSpare,
        FieldId::ScenePad, loc);
    lemma_scenes_diags_count(data, t.scenes, SCENES as int, DiagKind::OrderingViolation,
        FieldId::SceneEnd, loc);
    lemma_scenes_diags_count(data, t.scenes, SCENES as int, DiagKind::NonZeroSpare,
        FieldId::ScenePad, loc);
}

/// Over a whole decode, a scene chain whose end precedes its start is
/// reported with an ordering violation exactly once, and a nonzero scene
/// chain pad with a nonzero-spare report exactly once, the raw word
/// preserved.
pub proof fn lemma_session_scene_chain_diags_once(data: Seq<u8>, t: LayoutTables)
    ensures
        count_matching(session_diags(data, t), DiagKind::OrderingViolation,
            FieldId::SceneChainEnd, Loc::Global) == if spec_scene_chain(data, t.chains).end_scene
            < spec_scene_chain(data, t.chains).start_scene {
            1int
        } else {
            0int
        },
        count_matching(session_diags(data, t), DiagKind::NonZeroSpare, FieldId::SceneChainPad,
            Loc::Global) == if spec_scene_chain(data, t.chains).pad != 0 {
            1int
        } else {
            0int
        },
        spec_scene_chain(data, t.chains).pad == u16_le(data, t.chains.scene_chain_base + 2),
{
    lemma_session_diags_count_split(data, t, DiagKind::OrderingViolation, FieldId::SceneChainEnd,
        Loc::Global);
    lemma_session_diags_count_split(data, t, DiagKind::NonZeroSpare, FieldId::SceneChainPad,
        Loc::Global);
    lemma_timing_diags_count(data, t.timing, DiagKind::OrderingViolation, FieldId::SceneChainEnd,
        Loc::Global);
    lemma_timing_diags_count(data, t.timing, DiagKind::NonZeroSpare, FieldId::SceneChainPad,
        Loc::Global);
    lemma_scale_diags_count(data, t.scale, DiagKind::OrderingViolation, FieldId::SceneChainEnd,
        Loc::Global);
    lemma_scale_diags_count(data, t.scale, DiagKind::NonZeroSpare, FieldId::SceneChainPad,
        Loc::Global);
    lemma_fx_diags_count(data, t.fx, DiagKind::OrderingViolation, FieldId::SceneChainEnd,
        Loc::Global);
    lemma_fx_diags_count(data, t.fx, DiagKind::NonZeroSpare, FieldId::SceneChainPad, Loc::Global);
    lemma_scene_chain_diags_count(data, t.chains, DiagKind::OrderingViolation,
        FieldId::SceneChainEnd, Loc::Global);
    lemma_scene_chain_diags_count(data, t.chains, DiagKind::NonZeroSpare, FieldId::SceneChainPad,
        Loc::Global);
    lemma_pattern_chains_diags_count(data, t.chains, SCENE_ENTRIES as int,
        DiagKind::OrderingViolation, FieldId::SceneChainEnd, Loc::Global);
    lemma_pattern_chains_diags_count(data, t.chains, SCENE_ENTRIES as int, DiagKind::NonZeroSpare,
        FieldId::SceneChainPad, Loc::Global);
    lemma_scenes_diags_count(data, t.scenes, SCENES as int, DiagKind::OrderingViolation,
        FieldId::SceneChainEnd, Loc::Global);
    lemma_scenes_diags_count(data, t.scenes, SCENES as int, DiagKind::NonZeroSpare,
        FieldId::SceneChainPad, Loc::Global);
}

/// Over a whole decode, a pattern-chain lane whose end precedes its
/// start is reported with an ordering violation exactly once, and a lane
/// with a nonzero pad word with a nonzero-spare report exactly once, the
/// raw word preserved.
pub proof fn lemma_session_chain_entry_diags_once(data: Seq<u8>, t: LayoutTables, lane: int)
    requires
        0 <= lane < SCENE_ENTRIES,
    ensures
        count_matching(session_diags(data, t), DiagKind::OrderingViolation,
            FieldId::PatternChainEnd, Loc::ChainEntry { lane: lane as usize }) == if
            spec_chain_entry(data, t.chains, lane).end < spec_chain_entry(data, t.chains,
            lane).start {
            1int
        } else {
            0int
        },
        count_matching(session_diags(data, t), DiagKind::NonZeroSpare, FieldId::PatternChainPad,
            Loc::ChainEntry { lane: lane as usize }) == if spec_chain_entry(data, t.chains,
            lane).pad != 0 {
            1int
        } else {
            0int
        },
        spec_chain_entry(data, t.chains, lane).pad == u16_le(data, chain_entry_index(t.chains,
            lane) + 2),
{
    let loc = Loc::ChainEntry { lane: lane as usize };
    lemma_session_diags_count_split(data, t, DiagKind::OrderingViolation,
        FieldId::PatternChainEnd, loc);
    lemma_session_diags_count_split(data, t, DiagKind::NonZeroSpare, FieldId::PatternChainPad,
        loc);
    lemma_timing_diags_count(data, t.timing, DiagKind::OrderingViolation,
        FieldId::PatternChainEnd, loc);
    lemma_timing_diags_count(data, t.timing, DiagKind::NonZeroSpare, FieldId::PatternChainPad,
        loc);
    lemma_scale_diags_count(data, t.scale, DiagKind::OrderingViolation, FieldId::PatternChainEnd,
        loc);
    lemma_scale_diags_count(data, t.scale, DiagKind::NonZeroSpare, FieldId::PatternChainPad, loc);
    lemma_fx_diags_count(data, t.fx, DiagKind::OrderingViolation, FieldId::PatternChainEnd, loc);
    lemma_fx_diags_count(data, t.fx, DiagKind::NonZeroSpare, FieldId::PatternChainPad, loc);
    lemma_scene_chain_diags_count(data, t.chains, DiagKind::OrderingViolation,
        FieldId::PatternChainEnd, loc);
    lemma_scene_chain_diags_count(data, t.chains, DiagKind::NonZeroSpare,
        FieldId::PatternChainPad, loc);
    lemma_pattern_chains_diags_count(data, t.chains, SCENE_ENTRIES as int,
        DiagKind::OrderingViolation, FieldId::PatternChainEnd, loc);
    lemma_pattern_chains_diags_count(data, t.chains, SCENE_ENTRIES as int, DiagKind::NonZeroSpare,
        FieldId::PatternChainPad, loc);
    lemma_scenes_diags_count(data, t.scenes, SCENES as int, DiagKind::OrderingViolation,
        FieldId::PatternChainEnd, loc);
    lemma_scenes_diags_count(data, t.scenes, SCENES as int, DiagKind::NonZeroSpare,
        FieldId::PatternChainPad, loc);
}

/// Over a whole decode, each nonzero timing spare word is reported with a
/// nonzero-spare report exactly once, the raw word preserved.
pub proof fn lemma_session_timing_spare_diags_once(data: Seq<u8>, t: LayoutTables)
    ensures
        count_matching(session_diags(data, t), DiagKind::NonZeroSpare, FieldId::TimingSpare1,
            Loc::Global) == if u32_le(data, t.timing.spare1 as int) != 0 { 1int } else { 0int },
        count_matching(session_diags(data, t), DiagKind::NonZeroSpare, FieldId::TimingSpare2,
            Loc::Global) == if u32_le(data, t.timing.spare2 as int) != 0 { 1int } else { 0int },
        spec_timing(data, t.timing).spare1 == u32_le(data, t.timing.spare1 as int),
        spec_timing(data, t.timing).spare2 == u32_le(data, t.timing.spare2 as int),
{
    lemma_session_diags_count_split(data, t, DiagKind::NonZeroSpare, FieldId::TimingSpare1,
        Loc::Global);
    lemma_session_diags_count_split(data, t, DiagKind::NonZeroSpare, FieldId::TimingSpare2,
        Loc::Global);
    lemma_timing_diags_count(data, t.timing, DiagKind::NonZeroSpare, FieldId::TimingSpare1,
        Loc::Global);
    lemma_timing_diags_count(data, t.timing, DiagKind::NonZeroSpare, FieldId::TimingSpare2,
        Loc::Global);
    lemma_scale_diags_count(data, t.scale, DiagKind::NonZeroSpare, FieldId::TimingSpare1,
        Loc::Global);
    lemma_scale_diags_count(data, t.scale, DiagKind::NonZeroSpare, FieldId::TimingSpare2,
        Loc::Global);
    lemma_fx_diags_count(data, t.fx, DiagKind::NonZeroSpare, FieldId::TimingSpare1, Loc::Global);
    lemma_fx_diags_count(data, t.fx, DiagKind::NonZeroSpare, FieldId::TimingSpare2, Loc::Global);
    lemma_scene_chain_diags_count(data, t.chains, DiagKind::NonZeroSpare, FieldId::TimingSpare1,
        Loc::Global);
    lemma_scene_chain_diags_count(data, t.chains, DiagKind::NonZeroSpare, FieldId::TimingSpare2,
        Loc::Global);
    lemma_pattern_chains_diags_count(data, t.chains, SCENE_ENTRIES as int, DiagKind::NonZeroSpare,
        FieldId::TimingSpare1, Loc::Global);
    lemma_pattern_chains_diags_count(data, t.chains, SCENE_ENTRIES as int, DiagKind::NonZeroSpare,
        FieldId::TimingSpare2, Loc::Global);
    lemma_scenes_diags_count(data, t.scenes, SCENES as int, DiagKind::NonZeroSpare,
        FieldId::TimingSpare1, Loc::Global);
    lemma_scenes_diags_count(data, t.scenes, SCENES as int, DiagKind::NonZeroSpare,
        FieldId::TimingSpare2, Loc::Global);
}

} // verus!
