//! Diagnostics and errors.
//!
//! Decoding distinguishes two failure classes.  A structural failure — a
//! read that would fall outside the buffer — is fatal to the enclosing
//! record and is returned as an [`OutOfBounds`] error.  A semantic
//! deviation — a value outside its declared domain, a nonzero spare field,
//! a range whose end precedes its start — never aborts decoding: it is
//! appended to a diagnostic list and the raw value is kept unchanged in the
//! decoded record.
use vstd::prelude::*;

verus! {

/// The class of a semantic deviation.
#[derive(Clone, Copy, Debug, PartialEq, Eq, Structural)]
pub enum DiagKind {
    /// An enumerated field's value lies outside its declared domain.
    OutOfDomain,
    /// A spare or pad field, expected to always read zero, is nonzero.
    NonZeroSpare,
    /// The end of a range pair precedes its start.
    OrderingViolation,
}

/// Every field the decoder reads, named for diagnostics and errors.
#[derive(Clone, Copy, Debug, PartialEq, Eq, Structural)]
pub enum FieldId {
    StepVelocity,
    StepProbability,
    StepChoice,
    StepMask,
    StepPitch,
    StepDecay,
    StepDistortion,
    StepEq,
    DelayPreset,
    ReverbPreset,
    Tempo,
    Swing,
    SwingSyncRate,
    TimingSpare1,
    TimingSpare2,
    ScaleRoot,
    ScaleType,
    SceneStart,
    SceneEnd,
    ScenePad,
    SceneChainStart,
    SceneChainEnd,
    SceneChainPad,
    PatternChainStart,
    PatternChainEnd,
    PatternChainPad,
}

/// Where in the nested structure a field was read.
#[derive(Clone, Copy, Debug, PartialEq, Eq, Structural)]
pub enum Loc {
    /// A once-per-session field.
    Global,
    /// A per-step field of the drum data.
    Step { track: usize, pattern: usize, step: usize },
    /// One entry of one scene.
    SceneEntry { scene: usize, entry: usize },
    /// One lane of the pattern chains.
    ChainEntry { lane: usize },
}

/// One reported semantic deviation: the field, where it was read, the
/// observed value and the expected inclusive domain `lo..=hi` (for a spare
/// field, `0..=0`; for an ordering violation on a range end, the start
/// value up to the domain's top).
#[derive(Clone, Copy, Debug, PartialEq, Eq, Structural)]
pub struct Diagnostic {
    pub kind: DiagKind,
    pub field: FieldId,
    pub loc: Loc,
    pub observed: u32,
    pub lo: u32,
    pub hi: u32,
}

/// A structural failure: reading `width` bytes of `field` at `offset` would
/// run past a buffer of `len` bytes.  The offset is kept as the exact
/// mathematical value, which a degenerate offset table can push past the
/// machine word.
#[derive(Clone, Copy, Debug, PartialEq, Eq, Structural)]
pub struct OutOfBounds {
    pub field: FieldId,
    pub loc: Loc,
    pub offset: u128,
    pub width: usize,
    pub len: usize,
}

/// One diagnostic, reported only when its check fired: the building block
/// of every record's diagnostic sequence.
pub open spec fn cond_diag(fired: bool, d: Diagnostic) -> Seq<Diagnostic> {
    if fired {
        seq![d]
    } else {
        Seq::<Diagnostic>::empty()
    }
}

/// Count of the diagnostics in `s` that report `kind` for `field` at `loc`.
/// Each (kind, field, loc) triple identifies one check at one location, so
/// this counts how often a single check fired.
pub open spec fn count_matching(s: Seq<Diagnostic>, kind: DiagKind, field: FieldId, loc: Loc) -> int
    decreases s.len(),
{
    if s.len() <= 0 {
        0
    } else {
        count_matching(s.drop_last(), kind, field, loc) + if s.last().kind == kind
            && s.last().field == field && s.last().loc == loc {
            1int
        } else {
            0int
        }
    }
}

/// Counting diagnostics distributes over concatenation.
pub proof fn lemma_count_matching_concat(
    a: Seq<Diagnostic>,
    b: Seq<Diagnostic>,
    kind: DiagKind,
    field: FieldId,
    loc: Loc,
)
    ensures
        count_matching(a + b, kind, field, loc) == count_matching(a, kind, field, loc)
            + count_matching(b, kind, field, loc),
    decreases b.len(),
{
    if b.len() == 0 {
        assert(a + b =~= a);
    } else {
        lemma_count_matching_concat(a, b.drop_last(), kind, field, loc);
        assert((a + b).drop_last() =~= a + b.drop_last());
        assert((a + b).last() == b.last());
    }
}

/// A singleton's count is one exactly when the one diagnostic matches.
pub proof fn lemma_count_matching_singleton(d: Diagnostic, kind: DiagKind, field: FieldId, loc: Loc)
    ensures
        count_matching(seq![d], kind, field, loc) == if d.kind == kind && d.field == field
            && d.loc == loc {
            1int
        } else {
            0int
        },
{
    assert(seq![d].len() == 1);
    assert(seq![d].last() == d);
    assert(seq![d].drop_last() =~= Seq::<Diagnostic>::empty());
    assert(count_matching(Seq::<Diagnostic>::empty(), kind, field, loc) == 0);
}

/// A conditional diagnostic counts exactly when its check fired and the
/// one diagnostic matches.
pub proof fn lemma_count_cond_diag(
    fired: bool,
    d: Diagnostic,
    kind: DiagKind,
    field: FieldId,
    loc: Loc,
)
    ensures
        count_matching(cond_diag(fired, d), kind, field, loc) == if fired && d.kind == kind
            && d.field == field && d.loc == loc {
            1int
        } else {
            0int
        },
{
    if fired {
        lemma_count_matching_singleton(d, kind, field, loc);
    } else {
        assert(count_matching(Seq::<Diagnostic>::empty(), kind, field, loc) == 0);
    }
}

} // verus!
