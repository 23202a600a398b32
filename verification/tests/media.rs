use clips::media::{
    csv_value, ffprobe_value, parse_audio_stream, parse_fraction, parse_video_stream,
    AudioProbe, MediaProbe, ProbeError, VideoStream,
};

fn probe_with_keyframes(keyframes: Vec<u64>, duration_ms: u64) -> MediaProbe {
    MediaProbe {
        format: "mov,mp4,m4a,3gp,3g2,mj2".to_string(),
        video_codec: "h264".to_string(),
        width: 1920,
        height: 1080,
        fps_n: 30,
        fps_d: 1,
        audio: None,
        duration_ms,
        keyframes_ms: keyframes,
    }
}

#[test]
fn reads_frame_rate_fractions() {
    assert_eq!(parse_fraction("30000/1001"), Some((30000, 1001)));
    assert_eq!(parse_fraction("  25/1\n"), Some((25, 1)));
    assert_eq!(parse_fraction("+5/2"), Some((5, 2)));
    assert_eq!(parse_fraction("30"), None);
    assert_eq!(parse_fraction("a/1"), None);
    assert_eq!(parse_fraction("1/ 2"), None);
    assert_eq!(parse_fraction("4294967296/1"), None);
}

#[test]
fn reads_the_video_stream_line() {
    let v = parse_video_stream("h264|1920|1080|30000/1001\n").unwrap();
    assert_eq!(v.codec, "h264");
    assert_eq!((v.width, v.height), (Some(1920), Some(1080)));
    assert_eq!((v.fps_n, v.fps_d), (30000, 1001));

    let odd = parse_video_stream("hevc|wide|720|24/1").unwrap();
    assert_eq!(odd.width, None);
    assert_eq!(odd.height, Some(720));

    assert_eq!(parse_video_stream("h264|1920").err(), Some(ProbeError::UnreadableVideo));
    assert_eq!(parse_video_stream("h264|1920|1080|fast").err(), Some(ProbeError::InvalidFps));
}

#[test]
fn reads_the_audio_stream_line() {
    let a = parse_audio_stream("aac|48000|2|stereo").unwrap();
    assert_eq!(
        (a.codec.as_str(), a.sample_rate.as_str(), a.channels.as_str(), a.layout.as_str()),
        ("aac", "48000", "2", "stereo")
    );
    assert_eq!(parse_audio_stream("|48000|2|stereo"), None);
    assert_eq!(parse_audio_stream("aac|48000"), None);
}

#[test]
fn trims_ffprobe_answers_and_refuses_empty_ones() {
    assert_eq!(csv_value("  webm \n").unwrap(), "webm");
    assert_eq!(csv_value(" \n ").err(), Some(ProbeError::NoStreamData));
    assert_eq!(ffprobe_value(b"matroska,webm\n").unwrap(), "matroska,webm");
    assert_eq!(ffprobe_value(b"\xffx").unwrap(), "\u{FFFD}x");
    assert_eq!(ffprobe_value(b"\n").err(), Some(ProbeError::NoStreamData));
}

#[test]
fn assembles_a_probe_in_the_order_of_its_checks() {
    let video = || VideoStream {
        codec: "vp9".to_string(),
        width: Some(640),
        height: None,
        fps_n: 25,
        fps_d: 1,
    };
    assert_eq!(
        MediaProbe::assemble(video(), None, "webm".to_string(), 1000, vec![]).err(),
        Some(ProbeError::NoKeyframes)
    );
    assert_eq!(
        MediaProbe::assemble(video(), None, "webm".to_string(), 1000, vec![0]).err(),
        Some(ProbeError::InvalidHeight)
    );
    let mut complete = video();
    complete.height = Some(480);
    let audio = AudioProbe {
        codec: "opus".to_string(),
        sample_rate: "48000".to_string(),
        channels: "2".to_string(),
        layout: "stereo".to_string(),
    };
    let probe = MediaProbe::assemble(complete, Some(audio), "webm".to_string(), 1000, vec![0, 500])
        .ok()
        .unwrap();
    assert_eq!((probe.width, probe.height), (640, 480));
    assert_eq!(probe.video_codec, "vp9");
    assert_eq!(probe.keyframes_ms, vec![0, 500]);
    assert_eq!(probe.audio.unwrap().codec, "opus");
}

#[test]
fn cuts_must_fall_near_keyframes() {
    let probe = probe_with_keyframes(vec![0, 2000, 4000], 6000);
    assert!(probe.keyframe_aligned(0, 4002));
    assert!(probe.keyframe_aligned(1996, 4004));
    assert!(!probe.keyframe_aligned(2005, 4000));
    assert!(!probe.keyframe_aligned(1000, 4000));
    assert!(probe.keyframe_aligned(2004, 5950));
    assert!(!probe.keyframe_aligned(2000, 5949));
    let bare = probe_with_keyframes(vec![], 30);
    assert!(bare.keyframe_aligned(0, 0));
    assert!(!bare.keyframe_aligned(1, 30));
}

#[test]
fn probe_errors_have_messages() {
    assert_eq!(ProbeError::InvalidFps.message(), "invalid source FPS");
    assert_eq!(ProbeError::NoKeyframes.message(), "ffprobe found no video keyframes");
    assert_eq!(ProbeError::Unavailable.message(), "ffprobe is unavailable");
}
