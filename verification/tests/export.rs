use clips::adjustments::{PlaybackSpeed, Repeat, RepeatMode};
use clips::export::{
    choose_renderer, copy_precheck, ffmpeg_can_handle, ges_profile, single_pass_range,
    stream_copy_plan, stream_copy_reason, CopyRefusal, GesProfile, Renderer, StreamCopyPlan,
};
use clips::media::{AudioProbe, Dimensions, Framerate, MediaProbe, ProbeError};
use clips::profiles::{AudioEncoding, ContainerFormat, OutputFormat, Quality, VideoEncoding};
use clips::segments::{ClipRange, ClipSegment};

fn mp4() -> OutputFormat {
    OutputFormat {
        container_format: ContainerFormat::Mpeg,
        video_encoding: Some(VideoEncoding::H264),
        audio_encoding: Some(AudioEncoding::Aac),
        quality: Quality::High,
    }
}

fn aac() -> AudioProbe {
    AudioProbe {
        codec: "aac".to_string(),
        sample_rate: "48000".to_string(),
        channels: "2".to_string(),
        layout: "stereo".to_string(),
    }
}

fn source(audio: Option<AudioProbe>) -> MediaProbe {
    MediaProbe {
        format: "mov,mp4,m4a,3gp,3g2,mj2".to_string(),
        video_codec: "h264".to_string(),
        width: 1920,
        height: 1080,
        fps_n: 30,
        fps_d: 1,
        audio,
        duration_ms: 10_000,
        keyframes_ms: vec![0, 2000, 4000, 6000, 8000],
    }
}

const FPS: Framerate = Framerate { nominator: 30, denominator: 1 };
const FULL_HD: Dimensions = Dimensions { width: 1920, height: 1080 };
const OFF: Repeat = Repeat { mode: RepeatMode::Off, count: 1 };

fn plan(
    format: &OutputFormat,
    mute: bool,
    crop_identity: bool,
    segments: &[ClipSegment],
    probes: &Result<Vec<MediaProbe>, ProbeError>,
) -> Result<StreamCopyPlan, CopyRefusal> {
    stream_copy_plan(
        format,
        FPS,
        FULL_HD,
        true,
        crop_identity,
        mute,
        OFF,
        PlaybackSpeed::Normal,
        segments,
        probes,
    )
}

#[test]
fn only_ffmpeg_formats_use_the_ffmpeg_path() {
    assert!(ffmpeg_can_handle(&mp4()));
    let mut same = mp4();
    same.container_format = ContainerFormat::Same;
    assert!(!ffmpeg_can_handle(&same));
    let gif = OutputFormat {
        container_format: ContainerFormat::GifContainer,
        video_encoding: Some(VideoEncoding::Gif),
        audio_encoding: None,
        quality: Quality::Low,
    };
    assert!(!ffmpeg_can_handle(&gif));
    let mut no_video = mp4();
    no_video.video_encoding = None;
    assert!(!ffmpeg_can_handle(&no_video));
}

#[test]
fn copies_matching_keyframe_aligned_sources() {
    let segments = vec![ClipSegment::new("a.mp4", 2000, 6000)];
    let probes = Ok(vec![source(Some(aac()))]);
    assert_eq!(plan(&mp4(), false, true, &segments, &probes), Ok(StreamCopyPlan { audio: true }));
    assert_eq!(plan(&mp4(), true, true, &segments, &probes), Ok(StreamCopyPlan { audio: false }));
    assert_eq!(
        stream_copy_reason(&mp4(), FPS, FULL_HD, true, true, false, OFF, PlaybackSpeed::Normal, &segments, &probes),
        Ok(())
    );
}

#[test]
fn refuses_copies_that_would_change_the_output() {
    let segments = vec![ClipSegment::new("a.mp4", 2000, 6000)];
    let probes = Ok(vec![source(Some(aac()))]);
    assert_eq!(plan(&mp4(), false, false, &segments, &probes), Err(CopyRefusal::Cropping));
    assert_eq!(plan(&mp4(), false, true, &[], &Ok(vec![])), Err(CopyRefusal::NoSections));
    assert_eq!(
        plan(&mp4(), false, true, &segments, &Err(ProbeError::InvalidFps)),
        Err(CopyRefusal::Probe(ProbeError::InvalidFps))
    );

    let mut hevc = mp4();
    hevc.video_encoding = Some(VideoEncoding::H265);
    assert_eq!(plan(&hevc, false, true, &segments, &probes), Err(CopyRefusal::VideoCodec));

    let mut mkv = mp4();
    mkv.container_format = ContainerFormat::Matroska;
    assert_eq!(plan(&mkv, false, true, &segments, &probes), Err(CopyRefusal::Container));

    let mut ntsc = source(Some(aac()));
    ntsc.fps_n = 30000;
    ntsc.fps_d = 1001;
    assert_eq!(plan(&mp4(), false, true, &segments, &Ok(vec![ntsc])), Err(CopyRefusal::Fps));

    let off_keyframe = vec![ClipSegment::new("a.mp4", 2500, 6000)];
    assert_eq!(plan(&mp4(), false, true, &off_keyframe, &probes), Err(CopyRefusal::Keyframes));

    let speed = stream_copy_plan(
        &mp4(), FPS, FULL_HD, true, true, false, OFF, PlaybackSpeed::Half, &segments, &probes,
    );
    assert_eq!(speed, Err(CopyRefusal::Speed));
    let looped = Repeat { mode: RepeatMode::Loop, count: 2 };
    assert_eq!(
        stream_copy_plan(&mp4(), FPS, FULL_HD, true, true, false, looped, PlaybackSpeed::Normal, &segments, &probes),
        Err(CopyRefusal::Repetition)
    );
    assert_eq!(
        stream_copy_plan(&mp4(), FPS, FULL_HD, false, true, false, OFF, PlaybackSpeed::Normal, &segments, &probes),
        Err(CopyRefusal::Orientation)
    );
}

#[test]
fn refuses_mixed_or_mismatched_audio() {
    let segments = vec![ClipSegment::new("a.mp4", 0, 4000), ClipSegment::new("b.mp4", 0, 10_000)];
    let mixed = Ok(vec![source(Some(aac())), source(None)]);
    assert_eq!(plan(&mp4(), false, true, &segments, &mixed), Err(CopyRefusal::MixedAudio));

    let silent = Ok(vec![source(None), source(None)]);
    assert_eq!(plan(&mp4(), false, true, &segments, &silent), Ok(StreamCopyPlan { audio: false }));

    let mut mono = aac();
    mono.channels = "1".to_string();
    let different = Ok(vec![source(Some(aac())), source(Some(mono))]);
    assert_eq!(plan(&mp4(), false, true, &segments, &different), Err(CopyRefusal::AudioIncompatible));

    let mut opus_out = mp4();
    opus_out.audio_encoding = Some(AudioEncoding::Opus);
    let same = Ok(vec![source(Some(aac())), source(Some(aac()))]);
    assert_eq!(plan(&opus_out, false, true, &segments, &same), Err(CopyRefusal::AudioIncompatible));

    let mut no_audio_codec = mp4();
    no_audio_codec.audio_encoding = None;
    assert_eq!(
        plan(&no_audio_codec, false, true, &segments, &same),
        Err(CopyRefusal::AudioCodecNotSelectable)
    );
}

#[test]
fn prechecks_come_before_probing() {
    let mut gif = mp4();
    gif.container_format = ContainerFormat::GifContainer;
    assert_eq!(
        copy_precheck(&gif, true, true, PlaybackSpeed::Normal, OFF, 1),
        Err(CopyRefusal::GesRenderer)
    );
    assert_eq!(copy_precheck(&mp4(), true, true, PlaybackSpeed::Normal, OFF, 1), Ok(()));
    assert_eq!(CopyRefusal::Cropping.message(), "cropping requires recoding");
    assert_eq!(
        CopyRefusal::Probe(ProbeError::NoKeyframes).message(),
        "ffprobe found no video keyframes"
    );
}

#[test]
fn picks_the_renderer() {
    let copy = Ok(StreamCopyPlan { audio: true });
    assert_eq!(choose_renderer(&copy, &mp4(), 3), Renderer::StreamCopy(StreamCopyPlan { audio: true }));
    let refused = Err(CopyRefusal::Cropping);
    assert_eq!(choose_renderer(&refused, &mp4(), 3), Renderer::FfmpegSections);
    assert_eq!(choose_renderer(&refused, &mp4(), 1), Renderer::FfmpegSingle);
    let mut same = mp4();
    same.container_format = ContainerFormat::Same;
    assert_eq!(choose_renderer(&refused, &same, 1), Renderer::Ges);
}

#[test]
fn single_pass_covers_the_first_section_or_the_clip() {
    let segments = vec![ClipSegment::new("a.mp4", 500, 1500), ClipSegment::new("b.mp4", 0, 10)];
    assert_eq!(single_pass_range(&segments, 0, 99), ClipRange::new(500, 1500));
    assert_eq!(single_pass_range(&[], 200, 300), ClipRange::new(200, 500));
}

#[test]
fn builds_gstreamer_profiles() {
    let encoder = VideoEncoding::H264.choose_encoder(true, true);
    match ges_profile(&mp4(), encoder, Some(4000), false) {
        GesProfile::Encoded { container_format, video_format, encoder, bitrate, audio_format } => {
            assert_eq!(container_format, "video/quicktime");
            assert_eq!(video_format, "video/x-h264");
            assert_eq!(encoder, "nvh264enc");
            assert_eq!(bitrate, Some(("bitrate", 4000)));
            assert_eq!(audio_format, Some("audio/mpeg"));
        }
        other => panic!("unexpected profile {other:?}"),
    }
    let vp9 = OutputFormat {
        container_format: ContainerFormat::WebM,
        video_encoding: Some(VideoEncoding::Vp9),
        audio_encoding: Some(AudioEncoding::Opus),
        quality: Quality::Medium,
    };
    let software = VideoEncoding::Vp9.choose_encoder(false, false);
    match ges_profile(&vp9, software, Some(300), true) {
        GesProfile::Encoded { bitrate, audio_format, encoder, .. } => {
            assert_eq!(encoder, "vp9enc");
            assert_eq!(bitrate, Some(("target-bitrate", 300_000)));
            assert_eq!(audio_format, None);
        }
        other => panic!("unexpected profile {other:?}"),
    }
    let mut same = mp4();
    same.container_format = ContainerFormat::Same;
    assert_eq!(ges_profile(&same, encoder, None, true), GesProfile::KeepSource { audio: false });
    let gif = OutputFormat {
        container_format: ContainerFormat::GifContainer,
        video_encoding: Some(VideoEncoding::Gif),
        audio_encoding: None,
        quality: Quality::Low,
    };
    assert_eq!(
        ges_profile(&gif, encoder, None, false),
        GesProfile::Gif { video_format: "image/gif", preset: "gifenc" }
    );
}
