use ncs_tool::diag::{DiagKind, Diagnostic, FieldId, Loc};
use ncs_tool::layout::standard_layout;
use ncs_tool::session::decode_session;
use ncs_tool::settings::Fx;

const BUF_LEN: usize = 0x27000;

const TEMPO_OFF: usize = 0x34;
const SWING_OFF: usize = 0x35;
const SWING_SYNC_OFF: usize = 0x36;
const SPARE1_OFF: usize = 0x38;
const SPARE2_OFF: usize = 0x3C;
const SCENES_BASE: usize = 0x40;
const SCENE_STRIDE: usize = 0x28;
const SCENE_CHAIN_BASE: usize = 0x2C0;
const PATTERN_CHAIN_BASE: usize = 0x2C4;
const SCALE_ROOT_OFF: usize = 0x26D0C;
const SCALE_TYPE_OFF: usize = 0x26D0D;
const DELAY_OFF: usize = 0x26D0E;
const REVERB_OFF: usize = 0x26D0F;

/// A buffer whose every checked value is inside its domain: no
/// diagnostics at all.
fn clean_buffer() -> Vec<u8> {
    let mut data = vec![0u8; BUF_LEN];
    data[TEMPO_OFF] = 120;
    data[SWING_OFF] = 50;
    data
}

fn count(diags: &Vec<Diagnostic>, kind: DiagKind, field: FieldId, loc: Loc) -> usize {
    diags
        .iter()
        .filter(|d| d.kind == kind && d.field == field && d.loc == loc)
        .count()
}

#[test]
fn clean_session_has_no_diagnostics() {
    let data = clean_buffer();
    let tables = standard_layout();
    let mut diags: Vec<Diagnostic> = Vec::new();
    let session = decode_session(&data, &tables, &mut diags).expect("decode");
    assert_eq!(diags.len(), 0);
    assert_eq!(session.timing.tempo, 120);
    assert_eq!(session.timing.swing, 50);
    assert_eq!(session.timing.swing_sync_rate, 0);
    assert_eq!(session.fx.delay_preset, 0);
    assert_eq!(session.scale.root, 0);
}

#[test]
fn fx_delay_preset_out_of_domain_reported_once() {
    // Scenario: delay preset 20 against its domain 0..=15.
    let mut data = clean_buffer();
    data[DELAY_OFF] = 20;
    let tables = standard_layout();
    let mut diags: Vec<Diagnostic> = Vec::new();
    let session = decode_session(&data, &tables, &mut diags).expect("decode");
    assert_eq!(session.fx.delay_preset, 20);
    assert_eq!(count(&diags, DiagKind::OutOfDomain, FieldId::DelayPreset, Loc::Global), 1);
    assert_eq!(diags.len(), 1);
    assert_eq!(diags[0].observed, 20);
    assert_eq!(diags[0].lo, 0);
    assert_eq!(diags[0].hi, 15);
}

#[test]
fn fx_reverb_preset_out_of_domain_reported() {
    let mut data = clean_buffer();
    data[REVERB_OFF] = 9;
    let tables = standard_layout();
    let mut diags: Vec<Diagnostic> = Vec::new();
    let session = decode_session(&data, &tables, &mut diags).expect("decode");
    assert_eq!(session.fx.reverb_preset, 9);
    assert_eq!(count(&diags, DiagKind::OutOfDomain, FieldId::ReverbPreset, Loc::Global), 1);
    assert_eq!(diags.len(), 1);
}

#[test]
fn fx_from_bytes_alone_reports_delay_out_of_domain() {
    let mut data = clean_buffer();
    data[DELAY_OFF] = 20;
    let tables = standard_layout();
    let mut diags: Vec<Diagnostic> = Vec::new();
    let fx = Fx::from_bytes(&data, &tables.fx, &mut diags).expect("decode fx");
    assert_eq!(fx.delay_preset, 20);
    assert_eq!(diags.len(), 1);
    assert_eq!(diags[0].kind, DiagKind::OutOfDomain);
    assert_eq!(diags[0].field, FieldId::DelayPreset);
}

#[test]
fn timing_out_of_domain_values_reported() {
    let mut data = clean_buffer();
    data[TEMPO_OFF] = 30; // below 40
    data[SWING_OFF] = 81; // above 80
    data[SWING_SYNC_OFF] = 8; // above 7
    let tables = standard_layout();
    let mut diags: Vec<Diagnostic> = Vec::new();
    let session = decode_session(&data, &tables, &mut diags).expect("decode");
    assert_eq!(session.timing.tempo, 30);
    assert_eq!(session.timing.swing, 81);
    assert_eq!(session.timing.swing_sync_rate, 8);
    assert_eq!(count(&diags, DiagKind::OutOfDomain, FieldId::Tempo, Loc::Global), 1);
    assert_eq!(count(&diags, DiagKind::OutOfDomain, FieldId::Swing, Loc::Global), 1);
    assert_eq!(count(&diags, DiagKind::OutOfDomain, FieldId::SwingSyncRate, Loc::Global), 1);
    assert_eq!(diags.len(), 3);
}

#[test]
fn timing_spare_word_little_endian_and_reported_once() {
    let mut data = clean_buffer();
    data[SPARE1_OFF] = 0x78;
    data[SPARE1_OFF + 1] = 0x56;
    data[SPARE1_OFF + 2] = 0x34;
    data[SPARE1_OFF + 3] = 0x12;
    let tables = standard_layout();
    let mut diags: Vec<Diagnostic> = Vec::new();
    let session = decode_session(&data, &tables, &mut diags).expect("decode");
    assert_eq!(session.timing.spare1, 0x12345678);
    assert_eq!(session.timing.spare2, 0);
    assert_eq!(count(&diags, DiagKind::NonZeroSpare, FieldId::TimingSpare1, Loc::Global), 1);
    assert_eq!(count(&diags, DiagKind::NonZeroSpare, FieldId::TimingSpare2, Loc::Global), 0);
    assert_eq!(diags.len(), 1);
    assert_eq!(diags[0].observed, 0x12345678);
}

#[test]
fn timing_second_spare_word_reported() {
    let mut data = clean_buffer();
    data[SPARE2_OFF + 1] = 1; // 0x100
    let tables = standard_layout();
    let mut diags: Vec<Diagnostic> = Vec::new();
    let session = decode_session(&data, &tables, &mut diags).expect("decode");
    assert_eq!(session.timing.spare2, 0x100);
    assert_eq!(count(&diags, DiagKind::NonZeroSpare, FieldId::TimingSpare2, Loc::Global), 1);
    assert_eq!(diags.len(), 1);
}

#[test]
fn scale_out_of_domain_values_reported() {
    let mut data = clean_buffer();
    data[SCALE_ROOT_OFF] = 12;
    data[SCALE_TYPE_OFF] = 16;
    let tables = standard_layout();
    let mut diags: Vec<Diagnostic> = Vec::new();
    let session = decode_session(&data, &tables, &mut diags).expect("decode");
    assert_eq!(session.scale.root, 12);
    assert_eq!(session.scale.scale_type, 16);
    assert_eq!(count(&diags, DiagKind::OutOfDomain, FieldId::ScaleRoot, Loc::Global), 1);
    assert_eq!(count(&diags, DiagKind::OutOfDomain, FieldId::ScaleType, Loc::Global), 1);
    assert_eq!(diags.len(), 2);
}

#[test]
fn scene_entry_ordering_violation_reported_once_value_kept() {
    let mut data = clean_buffer();
    // Scene 3, entry 5: end (2) precedes start (5).
    let idx = SCENES_BASE + 3 * SCENE_STRIDE + 5 * 4;
    data[idx] = 5;
    data[idx + 1] = 2;
    let tables = standard_layout();
    let mut diags: Vec<Diagnostic> = Vec::new();
    let session = decode_session(&data, &tables, &mut diags).expect("decode");
    let entry = session.scenes.scenes[3].entries[5];
    assert_eq!(entry.start, 5);
    assert_eq!(entry.end, 2);
    let loc = Loc::SceneEntry { scene: 3, entry: 5 };
    assert_eq!(count(&diags, DiagKind::OrderingViolation, FieldId::SceneEnd, loc), 1);
    assert_eq!(diags.len(), 1);
    assert_eq!(diags[0].observed, 2);
    assert_eq!(diags[0].lo, 5);
}

#[test]
fn scene_entry_nonzero_pad_reported_once_value_kept() {
    let mut data = clean_buffer();
    let idx = SCENES_BASE + 7 * SCENE_STRIDE + 2 * 4;
    data[idx + 2] = 0xAB;
    data[idx + 3] = 0x01;
    let tables = standard_layout();
    let mut diags: Vec<Diagnostic> = Vec::new();
    let session = decode_session(&data, &tables, &mut diags).expect("decode");
    let entry = session.scenes.scenes[7].entries[2];
    assert_eq!(entry.pad, 0x01AB);
    let loc = Loc::SceneEntry { scene: 7, entry: 2 };
    assert_eq!(count(&diags, DiagKind::NonZeroSpare, FieldId::ScenePad, loc), 1);
    assert_eq!(diags.len(), 1);
    assert_eq!(diags[0].observed, 0x01AB);
}

#[test]
fn scene_entry_out_of_domain_indices_reported() {
    let mut data = clean_buffer();
    let idx = SCENES_BASE; // scene 0, entry 0
    data[idx] = 8;
    data[idx + 1] = 9;
    let tables = standard_layout();
    let mut diags: Vec<Diagnostic> = Vec::new();
    let session = decode_session(&data, &tables, &mut diags).expect("decode");
    let entry = session.scenes.scenes[0].entries[0];
    assert_eq!(entry.start, 8);
    assert_eq!(entry.end, 9);
    let loc = Loc::SceneEntry { scene: 0, entry: 0 };
    assert_eq!(count(&diags, DiagKind::OutOfDomain, FieldId::SceneStart, loc), 1);
    assert_eq!(count(&diags, DiagKind::OutOfDomain, FieldId::SceneEnd, loc), 1);
    // 8 ..= 9 keeps the ordering, so no ordering violation.
    assert_eq!(count(&diags, DiagKind::OrderingViolation, FieldId::SceneEnd, loc), 0);
    assert_eq!(diags.len(), 2);
}

#[test]
fn scene_chain_ordering_and_pad_reported() {
    let mut data = clean_buffer();
    data[SCENE_CHAIN_BASE] = 10;
    data[SCENE_CHAIN_BASE + 1] = 4;
    data[SCENE_CHAIN_BASE + 2] = 1;
    let tables = standard_layout();
    let mut diags: Vec<Diagnostic> = Vec::new();
    let session = decode_session(&data, &tables, &mut diags).expect("decode");
    assert_eq!(session.scene_chain.start_scene, 10);
    assert_eq!(session.scene_chain.end_scene, 4);
    assert_eq!(session.scene_chain.pad, 1);
    assert_eq!(
        count(&diags, DiagKind::OrderingViolation, FieldId::SceneChainEnd, Loc::Global),
        1
    );
    assert_eq!(count(&diags, DiagKind::NonZeroSpare, FieldId::SceneChainPad, Loc::Global), 1);
    assert_eq!(diags.len(), 2);
}

#[test]
fn scene_chain_out_of_domain_indices_reported() {
    let mut data = clean_buffer();
    data[SCENE_CHAIN_BASE] = 16;
    data[SCENE_CHAIN_BASE + 1] = 16;
    let tables = standard_layout();
    let mut diags: Vec<Diagnostic> = Vec::new();
    decode_session(&data, &tables, &mut diags).expect("decode");
    assert_eq!(count(&diags, DiagKind::OutOfDomain, FieldId::SceneChainStart, Loc::Global), 1);
    assert_eq!(count(&diags, DiagKind::OutOfDomain, FieldId::SceneChainEnd, Loc::Global), 1);
    assert_eq!(diags.len(), 2);
}

#[test]
fn pattern_chain_lane_checks_reported() {
    let mut data = clean_buffer();
    // Lane 6: end (1) precedes start (7), pad nonzero.
    let idx = PATTERN_CHAIN_BASE + 6 * 4;
    data[idx] = 7;
    data[idx + 1] = 1;
    data[idx + 3] = 2;
    // Lane 0: start out of domain.
    data[PATTERN_CHAIN_BASE] = 8;
    let tables = standard_layout();
    let mut diags: Vec<Diagnostic> = Vec::new();
    let session = decode_session(&data, &tables, &mut diags).expect("decode");
    let lane6 = session.pattern_chains.entries[6];
    assert_eq!(lane6.start, 7);
    assert_eq!(lane6.end, 1);
    assert_eq!(lane6.pad, 0x0200);
    let loc6 = Loc::ChainEntry { lane: 6 };
    let loc0 = Loc::ChainEntry { lane: 0 };
    assert_eq!(count(&diags, DiagKind::OrderingViolation, FieldId::PatternChainEnd, loc6), 1);
    assert_eq!(count(&diags, DiagKind::NonZeroSpare, FieldId::PatternChainPad, loc6), 1);
    assert_eq!(count(&diags, DiagKind::OutOfDomain, FieldId::PatternChainStart, loc0), 1);
    // Lane 0's end (0) also precedes its out-of-domain start (8).
    assert_eq!(count(&diags, DiagKind::OrderingViolation, FieldId::PatternChainEnd, loc0), 1);
    assert_eq!(diags.len(), 4);
}

#[test]
fn short_buffer_fails_on_first_field() {
    let data = vec![0u8; 10];
    let tables = standard_layout();
    let mut diags: Vec<Diagnostic> = Vec::new();
    let err = decode_session(&data, &tables, &mut diags).expect_err("short buffer");
    assert_eq!(err.field, FieldId::Tempo);
    assert_eq!(err.offset, 0x34);
    assert_eq!(err.len, 10);
    assert_eq!(diags.len(), 0);
}

#[test]
fn empty_buffer_fails_and_reports_nothing() {
    let data: Vec<u8> = Vec::new();
    let tables = standard_layout();
    let mut diags: Vec<Diagnostic> = Vec::new();
    assert!(decode_session(&data, &tables, &mut diags).is_err());
    assert_eq!(diags.len(), 0);
}

#[test]
fn buffer_holding_timing_but_not_scale_names_scale_root() {
    // Decode order is timing, scale, fx, drums, ...: a buffer that holds
    // the timing block but ends before the scale byte fails on the scale.
    let data = vec![0u8; 0x1000];
    let tables = standard_layout();
    let mut diags: Vec<Diagnostic> = Vec::new();
    let err = decode_session(&data, &tables, &mut diags).expect_err("truncated");
    assert_eq!(err.field, FieldId::ScaleRoot);
    assert_eq!(err.offset, 0x26D0C);
    assert_eq!(diags.len(), 0);
}

#[test]
fn decode_is_deterministic() {
    let mut data = clean_buffer();
    data[DELAY_OFF] = 3;
    data[0x0CD74 + 100] = 42;
    let tables = standard_layout();
    let mut diags1: Vec<Diagnostic> = Vec::new();
    let mut diags2: Vec<Diagnostic> = Vec::new();
    let s1 = decode_session(&data, &tables, &mut diags1).expect("decode");
    let s2 = decode_session(&data, &tables, &mut diags2).expect("decode");
    assert_eq!(diags1, diags2);
    assert_eq!(s1.timing, s2.timing);
    assert_eq!(s1.scale, s2.scale);
    assert_eq!(s1.fx, s2.fx);
    assert_eq!(s1.scene_chain, s2.scene_chain);
    for t in 0..4 {
        for p in 0..8 {
            for s in 0..32 {
                assert_eq!(
                    s1.drums.tracks[t].patterns[p].steps[s],
                    s2.drums.tracks[t].patterns[p].steps[s]
                );
            }
        }
    }
    for si in 0..16 {
        for ei in 0..8 {
            assert_eq!(s1.scenes.scenes[si].entries[ei], s2.scenes.scenes[si].entries[ei]);
        }
    }
    for i in 0..8 {
        assert_eq!(s1.pattern_chains.entries[i], s2.pattern_chains.entries[i]);
    }
}
