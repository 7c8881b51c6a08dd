use ncs_tool::drums::DrumData;
use ncs_tool::layout::standard_offsets;

const VELOCITY_OFF: usize = 0x0CD74;
const PROB_OFF: usize = 0x0CD94;
const TRACK_STRIDE: usize = 0x3540;
const PATTERN_STRIDE: usize = 0x06A8;
const BUF_LEN: usize = 0x27000;

fn step_idx(track: usize, pat: usize, step: usize) -> usize {
    track * TRACK_STRIDE + pat * PATTERN_STRIDE + step
}

/// A session buffer whose track 2, pattern 2 carries the groove of the
/// deep sample: strong, weak, rest, weak, strong, weak, rest, weak over
/// the first bar, probability 7 on every hit.
fn deep_like_buffer() -> Vec<u8> {
    let mut data = vec![0u8; BUF_LEN];
    let hits: [(usize, u8); 8] = [
        (0, 100),
        (1, 20),
        (2, 0),
        (3, 24),
        (4, 112),
        (5, 18),
        (6, 0),
        (7, 30),
    ];
    for &(s, v) in hits.iter() {
        let i = step_idx(2, 2, s);
        data[VELOCITY_OFF + i] = v;
        if v > 0 {
            data[PROB_OFF + i] = 7;
        }
    }
    data
}

/// A session buffer whose track 2, pattern 2 carries the groove of the
/// funk sample: strong on beats, weak elsewhere in the first bar, and
/// bars three and four silent.
fn funk_like_buffer() -> Vec<u8> {
    let mut data = vec![0u8; BUF_LEN];
    let hits: [(usize, u8); 8] = [
        (0, 104),
        (1, 16),
        (2, 12),
        (3, 20),
        (4, 96),
        (5, 22),
        (6, 14),
        (7, 28),
    ];
    for &(s, v) in hits.iter() {
        let i = step_idx(2, 2, s);
        data[VELOCITY_OFF + i] = v;
        data[PROB_OFF + i] = 7;
    }
    for s in 8..16 {
        let i = step_idx(2, 2, s);
        data[VELOCITY_OFF + i] = 20;
        data[PROB_OFF + i] = 7;
    }
    // Steps 16..31 stay at velocity zero.
    data
}

fn load_drums(data: &Vec<u8>) -> DrumData {
    let offsets = standard_offsets();
    DrumData::from_bytes(data, &offsets).expect("parse drums")
}

#[test]
fn deep_track2_p2_structure() {
    let data = deep_like_buffer();
    let drums = load_drums(&data);
    let steps = &drums.tracks[2].patterns[2].steps;
    // First bar: strong, weak, rest, weak, strong, weak, rest, weak
    let weak = |v: u8| v > 0 && v <= 31;
    assert!(steps[0].velocity >= 96);
    assert!(weak(steps[1].velocity));
    assert_eq!(steps[2].velocity, 0);
    assert!(weak(steps[3].velocity));
    assert!(steps[4].velocity >= 96);
    assert!(weak(steps[5].velocity));
    assert_eq!(steps[6].velocity, 0);
    assert!(weak(steps[7].velocity));
    // Probability digit is 7 for played hits in our sample
    for &i in &[0usize, 1, 3, 4, 5, 7] {
        assert_eq!(steps[i].probability, 7, "Deep prob mismatch at step {}", i);
    }
}

#[test]
fn funk_track2_p2_structure() {
    let data = funk_like_buffer();
    let drums = load_drums(&data);
    let steps = &drums.tracks[2].patterns[2].steps;
    // First bar: strong, weak, weak, weak, strong, weak, weak, weak
    let weak = |v: u8| v > 0 && v <= 31;
    assert!(steps[0].velocity >= 96);
    for &i in &[1usize, 2, 3, 5, 6, 7] {
        assert!(weak(steps[i].velocity), "Funk weak expected at step {}", i);
    }
    assert!(steps[4].velocity >= 96);
    // Bars 3 and 4: rests
    for i in 16..32 {
        assert_eq!(steps[i].velocity, 0, "Funk rest expected at step {}", i);
    }
}

#[test]
fn deep_track2_pattern02_structure() {
    let data = deep_like_buffer();
    let drums = load_drums(&data);
    let steps = &drums.tracks[2].patterns[2].steps;
    // First bar (0..7): █ ▁ . ▁ █ ▁ . ▁
    assert!(steps[0].velocity >= 96, "step0 expected strong hit");
    assert!(steps[1].velocity > 0 && steps[1].velocity <= 31, "step1 expected weak hit");
    assert_eq!(steps[2].velocity, 0, "step2 expected rest");
    assert!(steps[3].velocity > 0 && steps[3].velocity <= 31, "step3 expected weak hit");
    assert!(steps[4].velocity >= 96, "step4 expected strong hit");
    assert!(steps[5].velocity > 0 && steps[5].velocity <= 31, "step5 expected weak hit");
    assert_eq!(steps[6].velocity, 0, "step6 expected rest");
    assert!(steps[7].velocity > 0 && steps[7].velocity <= 31, "step7 expected weak hit");
    // Probability commonly 7 for these datasets
    for &i in &[0usize, 1, 3, 4, 5, 7] {
        assert_eq!(steps[i].probability, 7, "prob mismatch at step {}", i);
    }
}

#[test]
fn funk_track2_pattern02_structure() {
    let data = funk_like_buffer();
    let drums = load_drums(&data);
    let steps = &drums.tracks[2].patterns[2].steps;
    // First bar (0..7): █ ▁ ▁ ▁ █ ▁ ▁ ▁
    assert!(steps[0].velocity >= 96, "step0 expected strong hit");
    for &i in &[1usize, 2, 3, 5, 6, 7] {
        assert!(
            steps[i].velocity > 0 && steps[i].velocity <= 31,
            "step{} expected weak hit",
            i
        );
    }
    assert!(steps[4].velocity >= 96, "step4 expected strong hit");
    // Bars 3 and 4 (16..31) were rests in Funk P02
    for i in 16..32 {
        assert_eq!(steps[i].velocity, 0, "expected rest at step {}", i);
    }
}

#[test]
fn drums_decode_reads_all_planes() {
    let mut data = vec![0u8; BUF_LEN];
    let i = step_idx(1, 3, 17);
    data[0x0CD74 + i] = 11; // velocity
    data[0x0CD94 + i] = 22; // probability
    data[0x0CDB4 + i] = 33; // choice
    data[0x0CDD4 + i] = 44; // mask
    data[0x0CDF4 + i] = 55; // pitch
    data[0x0CE14 + i] = 66; // decay
    data[0x0CE34 + i] = 77; // distortion
    data[0x0CE54 + i] = 88; // eq
    let drums = load_drums(&data);
    let st = &drums.tracks[1].patterns[3].steps[17];
    assert_eq!(st.velocity, 11);
    assert_eq!(st.probability, 22);
    assert_eq!(st.choice, 33);
    assert_eq!(st.mask, 44);
    assert_eq!(st.pitch, 55);
    assert_eq!(st.decay, 66);
    assert_eq!(st.distortion, 77);
    assert_eq!(st.eq, 88);
}

#[test]
fn drums_decode_truncated_buffer_fails() {
    let data = vec![0u8; 0x0CD74];
    let offsets = standard_offsets();
    assert!(DrumData::from_bytes(&data, &offsets).is_err());
}
