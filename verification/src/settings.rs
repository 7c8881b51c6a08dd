//! Once-per-session records: effect presets, timing and musical scale.
//! Each decoder reads its fields through an offset table, keeps every raw
//! value unchanged, and reports out-of-domain values and nonzero spare
//! words through the diagnostic list.
use vstd::prelude::*;

use crate::diag::{cond_diag, count_matching, lemma_count_cond_diag, lemma_count_matching_concat,
    DiagKind, Diagnostic, FieldId, Loc, OutOfBounds};
use crate::layout::{FxOffsets, ScaleOffsets, TimingOffsets};
use crate::scalar::{read_u32_le, read_u8, u32_le};

verus! {

/// Global effect preset selection.
#[derive(Clone, Copy, Debug, PartialEq, Eq, Structural)]
pub struct Fx {
    /// Delay preset index, domain 0..=15.
    pub delay_preset: u8,
    /// Reverb preset index, domain 0..=7.
    pub reverb_preset: u8,
}

/// Global tempo and swing configuration.
#[derive(Clone, Copy, Debug, PartialEq, Eq, Structural)]
pub struct Timing {
    /// Beats per minute, domain 40..=240.
    pub tempo: u8,
    /// Swing amount, domain 20..=80.
    pub swing: u8,
    /// Swing synchronisation rate, domain 0..=7.
    pub swing_sync_rate: u8,
    /// Spare word, expected to always read zero.
    pub spare1: u32,
    /// Spare word, expected to always read zero.
    pub spare2: u32,
}

/// Musical scale configuration.
#[derive(Clone, Copy, Debug, PartialEq, Eq, Structural)]
pub struct ScaleSettings {
    /// Scale root note, domain 0..=11.
    pub root: u8,
    /// Scale type index, domain 0..=15.
    pub scale_type: u8,
}

pub open spec fn fx_in_bounds(len: int, off: FxOffsets) -> bool {
    off.delay_preset < len && off.reverb_preset < len
}

pub open spec fn fx_oob_error(len: usize, off: FxOffsets) -> OutOfBounds {
    if off.delay_preset >= len {
        OutOfBounds { field: FieldId::DelayPreset, loc: Loc::Global, offset: off.delay_preset as u128, width: 1, len }
    } else {
        OutOfBounds { field: FieldId::ReverbPreset, loc: Loc::Global, offset: off.reverb_preset as u128, width: 1, len }
    }
}

pub open spec fn spec_fx(data: Seq<u8>, off: FxOffsets) -> Fx {
    Fx { delay_preset: data[off.delay_preset as int], reverb_preset: data[off.reverb_preset as int] }
}

/// The diagnostics a successful FX decode appends, in emission order.
pub open spec fn fx_diags(data: Seq<u8>, off: FxOffsets) -> Seq<Diagnostic> {
    let fx = spec_fx(data, off);
    (if fx.delay_preset >= 0x10 {
        seq![Diagnostic {
            kind: DiagKind::OutOfDomain,
            field: FieldId::DelayPreset,
            loc: Loc::Global,
            observed: fx.delay_preset as u32,
            lo: 0,
            hi: 15,
        }]
    } else {
        Seq::<Diagnostic>::empty()
    }) + (if fx.reverb_preset >= 0x08 {
        seq![Diagnostic {
            kind: DiagKind::OutOfDomain,
            field: FieldId::ReverbPreset,
            loc: Loc::Global,
            observed: fx.reverb_preset as u32,
            lo: 0,
            hi: 7,
        }]
    } else {
        Seq::<Diagnostic>::empty()
    })
}

impl Fx {
    /// Decode the FX record.  Succeeds exactly when both preset bytes lie
    /// inside the buffer; the raw bytes are returned unchanged, and each
    /// preset outside its domain adds one diagnostic.
    pub fn from_bytes(data: &Vec<u8>, off: &FxOffsets, diags: &mut Vec<Diagnostic>) -> (r: Result<
        Fx,
        OutOfBounds,
    >)
        ensures
            r is Ok <==> fx_in_bounds(data@.len() as int, *off),
            r matches Ok(fx) ==> fx == spec_fx(data@, *off) && final(diags)@ == old(diags)@
                + fx_diags(data@, *off),
            r is Err ==> final(diags)@ == old(diags)@,
            r matches Err(e) ==> e == fx_oob_error(data@.len() as usize, *off),
    {
        let delay_preset = match read_u8(data, off.delay_preset) {
            Some(b) => b,
            None => {
                return Err(OutOfBounds {
                    field: FieldId::DelayPreset,
                    loc: Loc::Global,
                    offset: off.delay_preset as u128,
                    width: 1,
                    len: data.len(),
                });
            },
        };
        let reverb_preset = match read_u8(data, off.reverb_preset) {
            Some(b) => b,
            None => {
                return Err(OutOfBounds {
                    field: FieldId::ReverbPreset,
                    loc: Loc::Global,
                    offset: off.reverb_preset as u128,
                    width: 1,
                    len: data.len(),
                });
            },
        };
        if delay_preset >= 0x10 {
            diags.push(Diagnostic {
                kind: DiagKind::OutOfDomain,
                field: FieldId::DelayPreset,
                loc: Loc::Global,
                observed: delay_preset as u32,
                lo: 0,
                hi: 15,
            });
        }
        if reverb_preset >= 0x08 {
            diags.push(Diagnostic {
                kind: DiagKind::OutOfDomain,
                field: FieldId::ReverbPreset,
                loc: Loc::Global,
                observed: reverb_preset as u32,
                lo: 0,
                hi: 7,
            });
        }
        assert(diags@ =~= old(diags)@ + fx_diags(data@, *off));
        Ok(Fx { delay_preset, reverb_preset })
    }
}

pub open spec fn timing_in_bounds(len: int, off: TimingOffsets) -> bool {
    &&& off.tempo < len
    &&& off.swing < len
    &&& off.swing_sync_rate < len
    &&& off.spare1 + 4 <= len
    &&& off.spare2 + 4 <= len
}

pub open spec fn timing_oob_error(len: usize, off: TimingOffsets) -> OutOfBounds {
    if off.tempo >= len {
        OutOfBounds { field: FieldId::Tempo, loc: Loc::Global, offset: off.tempo as u128, width: 1, len }
    } else if off.swing >= len {
        OutOfBounds { field: FieldId::Swing, loc: Loc::Global, offset: off.swing as u128, width: 1, len }
    } else if off.swing_sync_rate >= len {
        OutOfBounds { field: FieldId::SwingSyncRate, loc: Loc::Global, offset: off.swing_sync_rate as u128, width: 1, len }
    } else if off.spare1 + 4 > len {
        OutOfBounds { field: FieldId::TimingSpare1, loc: Loc::Global, offset: off.spare1 as u128, width: 4, len }
    } else {
        OutOfBounds { field: FieldId::TimingSpare2, loc: Loc::Global, offset: off.spare2 as u128, width: 4, len }
    }
}

pub open spec fn spec_timing(data: Seq<u8>, off: TimingOffsets) -> Timing {
    Timing {
        tempo: data[off.tempo as int],
        swing: data[off.swing as int],
        swing_sync_rate: data[off.swing_sync_rate as int],
        spare1: u32_le(data, off.spare1 as int),
        spare2: u32_le(data, off.spare2 as int),
    }
}

/// The diagnostics a successful timing decode appends, in emission order:
/// tempo, swing and swing sync rate against their firmware domains, then
/// each spare word against zero.
pub open spec fn timing_diags(data: Seq<u8>, off: TimingOffsets) -> Seq<Diagnostic> {
    let tm = spec_timing(data, off);
    (if !(40 <= tm.tempo && tm.tempo <= 240) {
        seq![Diagnostic {
            kind: DiagKind::OutOfDomain,
            field: FieldId::Tempo,
            loc: Loc::Global,
            observed: tm.tempo as u32,
            lo: 40,
            hi: 240,
        }]
    } else {
        Seq::<Diagnostic>::empty()
    }) + (if !(20 <= tm.swing && tm.swing <= 80) {
        seq![Diagnostic {
            kind: DiagKind::OutOfDomain,
            field: FieldId::Swing,
            loc: Loc::Global,
            observed: tm.swing as u32,
            lo: 20,
            hi: 80,
        }]
    } else {
        Seq::<Diagnostic>::empty()
    }) + (if tm.swing_sync_rate >= 8 {
        seq![Diagnostic {
            kind: DiagKind::OutOfDomain,
            field: FieldId::SwingSyncRate,
            loc: Loc::Global,
            observed: tm.swing_sync_rate as u32,
            lo: 0,
            hi: 7,
        }]
    } else {
        Seq::<Diagnostic>::empty()
    }) + (if tm.spare1 != 0 {
        seq![Diagnostic {
            kind: DiagKind::NonZeroSpare,
            field: FieldId::TimingSpare1,
            loc: Loc::Global,
            observed: tm.spare1,
            lo: 0,
            hi: 0,
        }]
    } else {
        Seq::<Diagnostic>::empty()
    }) + (if tm.spare2 != 0 {
        seq![Diagnostic {
            kind: DiagKind::NonZeroSpare,
            field: FieldId::TimingSpare2,
            loc: Loc::Global,
            observed: tm.spare2,
            lo: 0,
            hi: 0,
        }]
    } else {
        Seq::<Diagnostic>::empty()
    })
}

impl Timing {
    /// Decode the timing record.  Succeeds exactly when the three config
    /// bytes and both 32-bit spare words lie inside the buffer; every raw
    /// value is returned unchanged, and each out-of-domain value or
    /// nonzero spare adds one diagnostic.
    pub fn from_bytes(data: &Vec<u8>, off: &TimingOffsets, diags: &mut Vec<Diagnostic>) -> (r:
        Result<Timing, OutOfBounds>)
        ensures
            r is Ok <==> timing_in_bounds(data@.len() as int, *off),
            r matches Ok(tm) ==> tm == spec_timing(data@, *off) && final(diags)@ == old(diags)@
                + timing_diags(data@, *off),
            r is Err ==> final(diags)@ == old(diags)@,
            r matches Err(e) ==> e == timing_oob_error(data@.len() as usize, *off),
    {
        let tempo = match read_u8(data, off.tempo) {
            Some(b) => b,
            None => {
                return Err(OutOfBounds {
                    field: FieldId::Tempo,
                    loc: Loc::Global,
                    offset: off.tempo as u128,
                    width: 1,
                    len: data.len(),
                });
            },
        };
        let swing = match read_u8(data, off.swing) {
            Some(b) => b,
            None => {
                return Err(OutOfBounds {
                    field: FieldId::Swing,
                    loc: Loc::Global,
                    offset: off.swing as u128,
                    width: 1,
                    len: data.len(),
                });
            },
        };
        let swing_sync_rate = match read_u8(data, off.swing_sync_rate) {
            Some(b) => b,
            None => {
                return Err(OutOfBounds {
                    field: FieldId::SwingSyncRate,
                    loc: Loc::Global,
                    offset: off.swing_sync_rate as u128,
                    width: 1,
                    len: data.len(),
                });
            },
        };
        let spare1 = match read_u32_le(data, off.spare1) {
            Some(w) => w,
            None => {
                return Err(OutOfBounds {
                    field: FieldId::TimingSpare1,
                    loc: Loc::Global,
                    offset: off.spare1 as u128,
                    width: 4,
                    len: data.len(),
                });
            },
        };
        let spare2 = match read_u32_le(data, off.spare2) {
            Some(w) => w,
            None => {
                return Err(OutOfBounds {
                    field: FieldId::TimingSpare2,
                    loc: Loc::Global,
                    offset: off.spare2 as u128,
                    width: 4,
                    len: data.len(),
                });
            },
        };
        if !(40 <= tempo && tempo <= 240) {
            diags.push(Diagnostic {
                kind: DiagKind::OutOfDomain,
                field: FieldId::Tempo,
                loc: Loc::Global,
                observed: tempo as u32,
                lo: 40,
                hi: 240,
            });
        }
        if !(20 <= swing && swing <= 80) {
            diags.push(Diagnostic {
                kind: DiagKind::OutOfDomain,
                field: FieldId::Swing,
                loc: Loc::Global,
                observed: swing as u32,
                lo: 20,
                hi: 80,
            });
        }
        if swing_sync_rate >= 8 {
            diags.push(Diagnostic {
                kind: DiagKind::OutOfDomain,
                field: FieldId::SwingSyncRate,
                loc: Loc::Global,
                observed: swing_sync_rate as u32,
                lo: 0,
                hi: 7,
            });
        }
        if spare1 != 0 {
            diags.push(Diagnostic {
                kind: DiagKind::NonZeroSpare,
                field: FieldId::TimingSpare1,
                loc: Loc::Global,
                observed: spare1,
                lo: 0,
                hi: 0,
            });
        }
        if spare2 != 0 {
            diags.push(Diagnostic {
                kind: DiagKind::NonZeroSpare,
                field: FieldId::TimingSpare2,
                loc: Loc::Global,
                observed: spare2,
                lo: 0,
                hi: 0,
            });
        }
        assert(diags@ =~= old(diags)@ + timing_diags(data@, *off));
        Ok(Timing { tempo, swing, swing_sync_rate, spare1, spare2 })
    }
}

pub open spec fn scale_in_bounds(len: int, off: ScaleOffsets) -> bool {
    off.root < len && off.scale_type < len
}

pub open spec fn scale_oob_error(len: usize, off: ScaleOffsets) -> OutOfBounds {
    if off.root >= len {
        OutOfBounds { field: FieldId::ScaleRoot, loc: Loc::Global, offset: off.root as u128, width: 1, len }
    } else {
        OutOfBounds { field: FieldId::ScaleType, loc: Loc::Global, offset: off.scale_type as u128, width: 1, len }
    }
}

pub open spec fn spec_scale(data: Seq<u8>, off: ScaleOffsets) -> ScaleSettings {
    ScaleSettings { root: data[off.root as int], scale_type: data[off.scale_type as int] }
}

/// The diagnostics a successful scale decode appends, in emission order.
pub open spec fn scale_diags(data: Seq<u8>, off: ScaleOffsets) -> Seq<Diagnostic> {
    let sc = spec_scale(data, off);
    (if sc.root >= 12 {
        seq![Diagnostic {
            kind: DiagKind::OutOfDomain,
            field: FieldId::ScaleRoot,
            loc: Loc::Global,
            observed: sc.root as u32,
            lo: 0,
            hi: 11,
        }]
    } else {
        Seq::<Diagnostic>::empty()
    }) + (if sc.scale_type >= 16 {
        seq![Diagnostic {
            kind: DiagKind::OutOfDomain,
            field: FieldId::ScaleType,
            loc: Loc::Global,
            observed: sc.scale_type as u32,
            lo: 0,
            hi: 15,
        }]
    } else {
        Seq::<Diagnostic>::empty()
    })
}

impl ScaleSettings {
    /// Decode the scale record.  Succeeds exactly when both bytes lie
    /// inside the buffer; the raw bytes are returned unchanged, and each
    /// value outside its domain adds one diagnostic.
    pub fn from_bytes(data: &Vec<u8>, off: &ScaleOffsets, diags: &mut Vec<Diagnostic>) -> (r:
        Result<ScaleSettings, OutOfBounds>)
        ensures
            r is Ok <==> scale_in_bounds(data@.len() as int, *off),
            r matches Ok(sc) ==> sc == spec_scale(data@, *off) && final(diags)@ == old(diags)@
                + scale_diags(data@, *off),
            r is Err ==> final(diags)@ == old(diags)@,
            r matches Err(e) ==> e == scale_oob_error(data@.len() as usize, *off),
    {
        let root = match read_u8(data, off.root) {
            Some(b) => b,
            None => {
                return Err(OutOfBounds {
                    field: FieldId::ScaleRoot,
                    loc: Loc::Global,
                    offset: off.root as u128,
                    width: 1,
                    len: data.len(),
                });
            },
        };
        let scale_type = match read_u8(data, off.scale_type) {
            Some(b) => b,
            None => {
                return Err(OutOfBounds {
                    field: FieldId::ScaleType,
                    loc: Loc::Global,
                    offset: off.scale_type as u128,
                    width: 1,
                    len: data.len(),
                });
            },
        };
        if root >= 12 {
            diags.push(Diagnostic {
                kind: DiagKind::OutOfDomain,
                field: FieldId::ScaleRoot,
                loc: Loc::Global,
                observed: root as u32,
                lo: 0,
                hi: 11,
            });
        }
        if scale_type >= 16 {
            diags.push(Diagnostic {
                kind: DiagKind::OutOfDomain,
                field: FieldId::ScaleType,
                loc: Loc::Global,
                observed: scale_type as u32,
                lo: 0,
                hi: 15,
            });
        }
        assert(diags@ =~= old(diags)@ + scale_diags(data@, *off));
        Ok(ScaleSettings { root, scale_type })
    }
}

/// How many diagnostics of the FX record report `kind` for `field`.
pub open spec fn fx_diag_count(fx: Fx, kind: DiagKind, field: FieldId) -> int {
    (if fx.delay_preset >= 0x10 && kind == DiagKind::OutOfDomain && field == FieldId::DelayPreset {
        1int
    } else {
        0int
    }) + (if fx.reverb_preset >= 0x08 && kind == DiagKind::OutOfDomain && field
        == FieldId::ReverbPreset {
        1int
    } else {
        0int
    })
}

/// Every FX diagnostic is global, and each check fires at most once.
pub proof fn lemma_fx_diags_count(data: Seq<u8>, off: FxOffsets, kind: DiagKind, field: FieldId, loc: Loc)
    ensures
        count_matching(fx_diags(data, off), kind, field, loc) == if loc == Loc::Global {
            fx_diag_count(spec_fx(data, off), kind, field)
        } else {
            0int
        },
{
    let fx = spec_fx(data, off);
    let c1 = fx.delay_preset >= 0x10;
    let g1 = Diagnostic {
        kind: DiagKind::OutOfDomain,
        field: FieldId::DelayPreset,
        loc: Loc::Global,
        observed: fx.delay_preset as u32,
        lo: 0,
        hi: 15,
    };
    let c2 = fx.reverb_preset >= 0x08;
    let g2 = Diagnostic {
        kind: DiagKind::OutOfDomain,
        field: FieldId::ReverbPreset,
        loc: Loc::Global,
        observed: fx.reverb_preset as u32,
        lo: 0,
        hi: 7,
    };
    assert(fx_diags(data, off) == cond_diag(c1, g1) + cond_diag(c2, g2));
    lemma_count_matching_concat(cond_diag(c1, g1), cond_diag(c2, g2), kind, field, loc);
    lemma_count_cond_diag(c1, g1, kind, field, loc);
    lemma_count_cond_diag(c2, g2, kind, field, loc);
}

/// How many diagnostics of the timing record report `kind` for `field`.
pub open spec fn timing_diag_count(tm: Timing, kind: DiagKind, field: FieldId) -> int {
    (if !(40 <= tm.tempo && tm.tempo <= 240) && kind == DiagKind::OutOfDomain && field
        == FieldId::Tempo {
        1int
    } else {
        0int
    }) + (if !(20 <= tm.swing && tm.swing <= 80) && kind == DiagKind::OutOfDomain && field
        == FieldId::Swing {
        1int
    } else {
        0int
    }) + (if tm.swing_sync_rate >= 8 && kind == DiagKind::OutOfDomain && field
        == FieldId::SwingSyncRate {
        1int
    } else {
        0int
    }) + (if tm.spare1 != 0 && kind == DiagKind::NonZeroSpare && field == FieldId::TimingSpare1 {
        1int
    } else {
        0int
    }) + (if tm.spare2 != 0 && kind == DiagKind::NonZeroSpare && field == FieldId::TimingSpare2 {
        1int
    } else {
        0int
    })
}

/// Every timing diagnostic is global, and each check fires at most once.
pub proof fn lemma_timing_diags_count(data: Seq<u8>, off: TimingOffsets, kind: DiagKind, field: FieldId, loc: Loc)
    ensures
        count_matching(timing_diags(data, off), kind, field, loc) == if loc == Loc::Global {
            timing_diag_count(spec_timing(data, off), kind, field)
        } else {
            0int
        },
{
    let tm = spec_timing(data, off);
    let c1 = !(40 <= tm.tempo && tm.tempo <= 240);
    let g1 = Diagnostic {
        kind: DiagKind::OutOfDomain,
        field: FieldId::Tempo,
        loc: Loc::Global,
        observed: tm.tempo as u32,
        lo: 40,
        hi: 240,
    };
    let c2 = !(20 <= tm.swing && tm.swing <= 80);
    let g2 = Diagnostic {
        kind: DiagKind::OutOfDomain,
        field: FieldId::Swing,
        loc: Loc::Global,
        observed: tm.swing as u32,
        lo: 20,
        hi: 80,
    };
    let c3 = tm.swing_sync_rate >= 8;
    let g3 = Diagnostic {
        kind: DiagKind::OutOfDomain,
        field: FieldId::SwingSyncRate,
        loc: Loc::Global,
        observed: tm.swing_sync_rate as u32,
        lo: 0,
        hi: 7,
    };
    let c4 = tm.spare1 != 0;
    let g4 = Diagnostic {
        kind: DiagKind::NonZeroSpare,
        field: FieldId::TimingSpare1,
        loc: Loc::Global,
        observed: tm.spare1,
        lo: 0,
        hi: 0,
    };
    let c5 = tm.spare2 != 0;
    let g5 = Diagnostic {
        kind: DiagKind::NonZeroSpare,
        field: FieldId::TimingSpare2,
        loc: Loc::Global,
        observed: tm.spare2,
        lo: 0,
        hi: 0,
    };
    let d1 = cond_diag(c1, g1);
    let d2 = cond_diag(c2, g2);
    let d3 = cond_diag(c3, g3);
    let d4 = cond_diag(c4, g4);
    let d5 = cond_diag(c5, g5);
    assert(timing_diags(data, off) == d1 + d2 + d3 + d4 + d5);
    lemma_count_matching_concat(d1 + d2 + d3 + d4, d5, kind, field, loc);
    lemma_count_matching_concat(d1 + d2 + d3, d4, kind, field, loc);
    lemma_count_matching_concat(d1 + d2, d3, kind, field, loc);
    lemma_count_matching_concat(d1, d2, kind, field, loc);
    lemma_count_cond_diag(c1, g1, kind, field, loc);
    lemma_count_cond_diag(c2, g2, kind, field, loc);
    lemma_count_cond_diag(c3, g3, kind, field, loc);
    lemma_count_cond_diag(c4, g4, kind, field, loc);
    lemma_count_cond_diag(c5, g5, kind, field, loc);
}

/// How many diagnostics of the scale record report `kind` for `field`.
pub open spec fn scale_diag_count(sc: ScaleSettings, kind: DiagKind, field: FieldId) -> int {
    (if sc.root >= 12 && kind == DiagKind::OutOfDomain && field == FieldId::ScaleRoot {
        1int
    } else {
        0int
    }) + (if sc.scale_type >= 16 && kind == DiagKind::OutOfDomain && field == FieldId::ScaleType {
        1int
    } else {
        0int
    })
}

/// Every scale diagnostic is global, and each check fires at most once.
pub proof fn lemma_scale_diags_count(data: Seq<u8>, off: ScaleOffsets, kind: DiagKind, field: FieldId, loc: Loc)
    ensures
        count_matching(scale_diags(data, off), kind, field, loc) == if loc == Loc::Global {
            scale_diag_count(spec_scale(data, off), kind, field)
        } else {
            0int
        },
{
    let sc = spec_scale(data, off);
    let c1 = sc.root >= 12;
    let g1 = Diagnostic {
        kind: DiagKind::OutOfDomain,
        field: FieldId::ScaleRoot,
        loc: Loc::Global,
        observed: sc.root as u32,
        lo: 0,
        hi: 11,
    };
    let c2 = sc.scale_type >= 16;
    let g2 = Diagnostic {
        kind: DiagKind::OutOfDomain,
        field: FieldId::ScaleType,
        loc: Loc::Global,
        observed: sc.scale_type as u32,
        lo: 0,
        hi: 15,
    };
    assert(scale_diags(data, off) == cond_diag(c1, g1) + cond_diag(c2, g2));
    lemma_count_matching_concat(cond_diag(c1, g1), cond_diag(c2, g2), kind, field, loc);
    lemma_count_cond_diag(c1, g1, kind, field, loc);
    lemma_count_cond_diag(c2, g2, kind, field, loc);
}

/// A nonzero timing spare word is reported exactly once, and the raw word
/// is preserved unchanged in the decoded record; a zero spare is not
/// reported at all.
pub proof fn lemma_timing_spare_diag_once(data: Seq<u8>, off: TimingOffsets)
    ensures
        count_matching(timing_diags(data, off), DiagKind::NonZeroSpare, FieldId::TimingSpare1,
            Loc::Global) == if u32_le(data, off.spare1 as int) != 0 { 1int } else { 0int },
        count_matching(timing_diags(data, off), DiagKind::NonZeroSpare, FieldId::TimingSpare2,
            Loc::Global) == if u32_le(data, off.spare2 as int) != 0 { 1int } else { 0int },
        spec_timing(data, off).spare1 == u32_le(data, off.spare1 as int),
        spec_timing(data, off).spare2 == u32_le(data, off.spare2 as int),
{
    lemma_timing_diags_count(data, off, DiagKind::NonZeroSpare, FieldId::TimingSpare1, Loc::Global);
    lemma_timing_diags_count(data, off, DiagKind::NonZeroSpare, FieldId::TimingSpare2, Loc::Global);
}

} // verus!
