use ncs_tool::coverage::{compute_known_bytes, session_known_bytes};
use ncs_tool::layout::{standard_fx_offsets, standard_offsets};

#[test]
fn coverage_zero_for_empty_buffer() {
    let data: Vec<u8> = Vec::new();
    let off = standard_offsets();
    let fx = standard_fx_offsets();
    assert_eq!(compute_known_bytes(&data, &off, &fx), 0);
}

#[test]
fn coverage_full_buffer_counts_every_plane_and_fx_byte() {
    // Four planes of 4 * 8 * 32 step bytes each, plus the two FX bytes.
    let data = vec![0u8; 0x27000];
    let off = standard_offsets();
    let fx = standard_fx_offsets();
    assert_eq!(compute_known_bytes(&data, &off, &fx), 4 * 1024 + 2);
}

#[test]
fn coverage_session_adds_fixed_records() {
    // 3 timing bytes + 8 spare bytes + 16*8*4 scene bytes + 4 scene-chain
    // bytes + 8*4 pattern-chain bytes on top of the per-step count.
    let data = vec![0u8; 0x27000];
    let off = standard_offsets();
    let fx = standard_fx_offsets();
    assert_eq!(session_known_bytes(&data, &off, &fx), 4 * 1024 + 2 + 3 + 8 + 512 + 4 + 32);
}

#[test]
fn coverage_partial_buffer_counts_partial_planes() {
    // A buffer ending inside the velocity plane: only the step positions
    // below the end are known, and the FX bytes are out of reach.
    let off = standard_offsets();
    let fx = standard_fx_offsets();
    // Track 0, pattern 0 occupies velocity positions 0x0CD74 .. 0x0CD94.
    let data = vec![0u8; 0x0CD74 + 16];
    assert_eq!(compute_known_bytes(&data, &off, &fx), 16);
}

#[test]
fn coverage_monotone_in_buffer_size() {
    let off = standard_offsets();
    let fx = standard_fx_offsets();
    let sizes: [usize; 6] = [0, 0x40, 0x0CD74, 0x0CE00, 0x10000, 0x27000];
    let mut last: usize = 0;
    for &n in sizes.iter() {
        let data = vec![0u8; n];
        let known = compute_known_bytes(&data, &off, &fx);
        assert!(known >= last, "coverage shrank at size {}", n);
        last = known;
    }
}
