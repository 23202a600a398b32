use clips::adjustments::{PlaybackSpeed, Repeat, RepeatMode};

#[test]
fn quarter_speed_keeps_audio_and_duration_in_sync() {
    let speed = PlaybackSpeed::Quarter;

    assert_eq!(speed.output_duration_ms(1_000), 4_000);
    assert_eq!(speed.ffmpeg_audio_filter(), Some("atempo=0.5,atempo=0.5"));
}
