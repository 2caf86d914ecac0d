use spectrum_canvas::period::can_transform;
use spectrum_canvas::period::mono_frames;
use spectrum_canvas::period::sample_count;
use spectrum_canvas::period::SAMPLE_BYTES;

#[test]
fn a_sample_has_four_bytes() {
    assert_eq!(SAMPLE_BYTES, 4);
}

#[test]
fn sample_count_drops_a_partial_sample() {
    assert_eq!(sample_count(0), 0);
    assert_eq!(sample_count(3), 0);
    assert_eq!(sample_count(4), 1);
    assert_eq!(sample_count(8192), 2048);
    assert_eq!(sample_count(8195), 2048);
}

#[test]
fn no_channels_no_frames() {
    assert_eq!(mono_frames(0, 0), None);
    assert_eq!(mono_frames(1024, 0), None);
}

#[test]
fn stereo_frames_are_pairs() {
    assert_eq!(mono_frames(0, 2), Some(0));
    assert_eq!(mono_frames(2, 2), Some(1));
    assert_eq!(mono_frames(2048, 2), Some(1024));
}

#[test]
fn a_short_last_frame_counts() {
    assert_eq!(mono_frames(1, 2), Some(1));
    assert_eq!(mono_frames(7, 2), Some(4));
    assert_eq!(mono_frames(7, 3), Some(3));
    assert_eq!(mono_frames(5, 8), Some(1));
}

#[test]
fn mono_frames_are_the_samples() {
    assert_eq!(mono_frames(480, 1), Some(480));
}

#[test]
fn frames_at_the_limits() {
    assert_eq!(mono_frames(usize::MAX, 1), Some(usize::MAX));
    assert_eq!(mono_frames(usize::MAX, 2), Some(usize::MAX / 2 + 1));
    assert_eq!(mono_frames(usize::MAX - 1, 2), Some(usize::MAX / 2));
    assert_eq!(mono_frames(3, u32::MAX), Some(1));
}

#[test]
fn short_block_is_skipped() {
    assert!(!can_transform(100, 2, 80));
    assert!(!can_transform(158, 2, 80));
    assert!(can_transform(159, 2, 80));
    assert!(can_transform(160, 2, 80));
    assert!(can_transform(4096, 2, 80));
}

#[test]
fn zero_channels_are_skipped() {
    assert!(!can_transform(4096, 0, 80));
    assert!(!can_transform(0, 0, 0));
}

#[test]
fn empty_transform_is_always_ready() {
    assert!(can_transform(0, 2, 0));
    assert!(can_transform(10, 1, 0));
}
