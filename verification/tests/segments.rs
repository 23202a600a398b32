use clips::segments::{ClipRange, ClipSegment};

#[test]
fn range_is_normalized() {
    assert_eq!(ClipRange::new(4_000, 1_000), ClipRange::new(1_000, 4_000));
    assert_eq!(ClipRange::new(1_000, 4_000).duration_ms(), 3_000);
}

#[test]
fn segment_keeps_source_and_range_together() {
    let segment = ClipSegment::new("second.mp4", 4_000, 1_000);
    assert_eq!(segment.source_name(), "second.mp4");
    assert_eq!(segment.range, ClipRange::new(1_000, 4_000));
    assert_eq!(segment.duration_ms(), 3_000);
}
