use solarscape::chunk::{
    case_index, cell_corners, index_of, plan_gather, sample_source, triangle_indices, upleveled_sample_source,
    SampleSource, UpleveledChunks,
};

#[test]
fn cell_index_layout() {
    assert_eq!(index_of(0, 0, 0), 0);
    assert_eq!(index_of(1, 2, 3), 256 + 32 + 3);
    assert_eq!(index_of(15, 15, 15), 4095);
}

#[test]
fn samples_reach_into_neighbouring_chunks() {
    assert_eq!(sample_source(0, 0, 0), (0, 0));
    assert_eq!(sample_source(15, 15, 15), (0, 4095));
    assert_eq!(sample_source(16, 0, 0), (4, 0));
    assert_eq!(sample_source(0, 16, 5), (2, 5));
    assert_eq!(sample_source(3, 4, 16), (1, 3 * 256 + 4 * 16));
    assert_eq!(sample_source(16, 16, 16), (7, 0));
}

#[test]
fn upleveled_samples_halve_the_resolution() {
    assert_eq!(upleveled_sample_source(false, false, false, 0, 0, 0), (0, 0));
    assert_eq!(upleveled_sample_source(true, false, false, 0, 0, 0), (0, 8 * 256));
    assert_eq!(upleveled_sample_source(false, false, false, 5, 7, 9), (0, 2 * 256 + 3 * 16 + 4));
    assert_eq!(upleveled_sample_source(true, true, true, 16, 16, 16), (7, 0));
}

#[test]
fn corners_of_a_cell() {
    assert_eq!(cell_corners(0, 0, 0), [1, 290, 289, 0, 18, 307, 306, 17]);
    let c = cell_corners(15, 15, 15);
    assert_eq!(c[5], 16 * 289 + 16 * 17 + 16);
}

#[test]
fn case_index_bits() {
    assert_eq!(case_index([false; 8]), 0);
    assert_eq!(case_index([true; 8]), 255);
    assert_eq!(case_index([true, false, false, false, false, false, false, false]), 1);
    assert_eq!(case_index([false, false, false, false, false, false, false, true]), 128);
    assert_eq!(case_index([false, true, false, true, false, false, false, false]), 10);
}

#[test]
fn triangle_index_buffer() {
    assert_eq!(triangle_indices(7), vec![[0, 1, 2], [3, 4, 5]]);
    assert_eq!(triangle_indices(2), Vec::<[u32; 3]>::new());
    assert_eq!(triangle_indices(9).len(), 3);
}

#[test]
fn gather_with_every_chunk_loaded() {
    let plan = plan_gather([true; 8], None);
    assert_eq!(plan.sources.len(), 4913);
    assert!(!plan.need_upleveled);
    assert_eq!(plan.sources[0], SampleSource::Level { chunk: 0, cell: 0 });
    assert_eq!(plan.sources[16], SampleSource::Level { chunk: 1, cell: 0 });
    assert_eq!(plan.sources[4912], SampleSource::Level { chunk: 7, cell: 0 });
}

#[test]
fn gather_stops_at_first_missing_sample_at_top_level() {
    let mut loaded = [false; 8];
    loaded[0] = true;
    let plan = plan_gather(loaded, None);
    assert_eq!(plan.sources.len(), 16);
    assert!(!plan.need_upleveled);
}

#[test]
fn gather_falls_back_to_upleveled_chunks() {
    let mut loaded = [false; 8];
    loaded[0] = true;
    let up = UpleveledChunks { loaded: [true; 8], odd_x: false, odd_y: false, odd_z: true };
    let plan = plan_gather(loaded, Some(up));
    assert_eq!(plan.sources.len(), 4913);
    assert!(!plan.need_upleveled);
    assert_eq!(plan.sources[16], SampleSource::Upleveled { chunk: 1, cell: 0 });
}

#[test]
fn gather_needs_upleveled_chunks_when_they_are_missing() {
    let mut loaded = [false; 8];
    loaded[0] = true;
    let up = UpleveledChunks { loaded: [false; 8], odd_x: false, odd_y: false, odd_z: false };
    let plan = plan_gather(loaded, Some(up));
    assert_eq!(plan.sources.len(), 16);
    assert!(plan.need_upleveled);
}
