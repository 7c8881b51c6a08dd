use ncs_tool::drums::DrumData;
use ncs_tool::layout::standard_offsets;
use ncs_tool::render::{render_ascii, render_ascii_bool, render_pattern_labeled, step_symbol};

const VELOCITY_OFF: usize = 0x0CD74;
const PROB_OFF: usize = 0x0CD94;
const TRACK_STRIDE: usize = 0x3540;
const PATTERN_STRIDE: usize = 0x06A8;
const BUF_LEN: usize = 0x27000;

fn step_idx(track: usize, pat: usize, step: usize) -> usize {
    track * TRACK_STRIDE + pat * PATTERN_STRIDE + step
}

#[test]
fn step_symbol_rest_ignores_probability() {
    assert_eq!(step_symbol(0, 0), ".");
    assert_eq!(step_symbol(0, 7), ".");
    assert_eq!(step_symbol(0, 255), ".");
}

#[test]
fn step_symbol_levels_and_digit() {
    assert_eq!(step_symbol(1, 0), "▁0"); // 1*4/128 == 0
    assert_eq!(step_symbol(31, 7), "▁7"); // 31*4/128 == 0
    assert_eq!(step_symbol(32, 3), "▃3"); // 32*4/128 == 1
    assert_eq!(step_symbol(64, 5), "▅5"); // 64*4/128 == 2
    assert_eq!(step_symbol(96, 7), "█7"); // 96*4/128 == 3
    assert_eq!(step_symbol(255, 9), "█9"); // clamped to the top glyph
    assert_eq!(step_symbol(100, 17), "█7"); // digit is probability mod 10
}

#[test]
fn render_scenario_hits_and_rests_first_row() {
    // Track 2, pattern 2: velocity [96+, 1-31, 0, 1-31, 96+, 1-31, 0, 1-31]
    // over the first eight steps, probability 7 at the hit positions.
    let mut data = vec![0u8; BUF_LEN];
    let velocities: [u8; 8] = [100, 20, 0, 24, 112, 18, 0, 30];
    for (s, &v) in velocities.iter().enumerate() {
        let i = step_idx(2, 2, s);
        data[VELOCITY_OFF + i] = v;
        if v > 0 {
            data[PROB_OFF + i] = 7;
        }
    }
    let offsets = standard_offsets();
    let drums = DrumData::from_bytes(&data, &offsets).expect("parse drums");
    let ascii = render_ascii(&drums.tracks[2].patterns[2].steps, true);
    let first_row = ascii.lines().next().expect("a first row");
    assert_eq!(first_row, "█7 ▁7 . ▁7 █7 ▁7 . ▁7");
}

#[test]
fn render_scenario_silent_second_half() {
    // All velocities zero for steps 16..31: the last two of four rows show
    // only rests, whatever the other fields hold.
    let mut data = vec![0u8; BUF_LEN];
    for s in 0..16 {
        let i = step_idx(1, 4, s);
        data[VELOCITY_OFF + i] = 64;
        data[PROB_OFF + i] = 3;
    }
    for s in 16..32 {
        // Probability set without velocity: still a rest.
        let i = step_idx(1, 4, s);
        data[PROB_OFF + i] = 9;
    }
    let offsets = standard_offsets();
    let drums = DrumData::from_bytes(&data, &offsets).expect("parse drums");
    let ascii = render_ascii(&drums.tracks[1].patterns[4].steps, true);
    let rows: Vec<&str> = ascii.lines().collect();
    assert_eq!(rows.len(), 4);
    assert_eq!(rows[2], ". . . . . . . .");
    assert_eq!(rows[3], ". . . . . . . .");
}

#[test]
fn render_ascii_without_probability() {
    let mut data = vec![0u8; BUF_LEN];
    let i = step_idx(0, 0, 0);
    data[VELOCITY_OFF + i] = 100;
    data[PROB_OFF + i] = 7;
    let offsets = standard_offsets();
    let drums = DrumData::from_bytes(&data, &offsets).expect("parse drums");
    let ascii = render_ascii(&drums.tracks[0].patterns[0].steps, false);
    let first_row = ascii.lines().next().expect("a first row");
    assert_eq!(first_row, "█ . . . . . . .");
}

#[test]
fn render_ascii_bool_grid() {
    let mut steps = vec![false; 16];
    steps[0] = true;
    steps[9] = true;
    let out = render_ascii_bool(&steps);
    assert_eq!(out, "█ . . . . . . .\n. █ . . . . . .");
}

#[test]
fn render_labeled_indents_following_rows() {
    let mut data = vec![0u8; BUF_LEN];
    let i = step_idx(0, 3, 0);
    data[VELOCITY_OFF + i] = 96;
    data[PROB_OFF + i] = 2;
    let offsets = standard_offsets();
    let drums = DrumData::from_bytes(&data, &offsets).expect("parse drums");
    let out = render_pattern_labeled(3, &drums.tracks[0].patterns[3].steps, true);
    let rows: Vec<&str> = out.lines().collect();
    assert_eq!(rows.len(), 4);
    assert_eq!(rows[0], "P03: █2 . . . . . . .");
    assert_eq!(rows[1], "     . . . . . . . .");
    assert_eq!(rows[2], "     . . . . . . . .");
    assert_eq!(rows[3], "     . . . . . . . .");
}
