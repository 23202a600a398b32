//! Choosing how an export is rendered: by copying the source streams as
//! they are, by ffmpeg, or by GStreamer Editing Services.
//!
//! Copying is only chosen when it gives exactly what a render would: every
//! source must already have the output's codec, size, frame rate and
//! container, every cut must fall on keyframes, and nothing may be
//! transformed on the way.
use vstd::prelude::*;

use crate::adjustments::{PlaybackSpeed, Repeat, repeat_is_off};
use crate::media::{
    keyframe_aligned_spec, same_audio, Dimensions, Framerate, MediaProbe,
    MediaView, ProbeError, probe_message,
};
use crate::profiles::{
    AudioEncoding, ContainerFormat, OutputFormat, ResolvedVideoEncoder, VideoEncoding, audio_mime,
    container_mime, video_mime, video_preset,
};
use crate::segments::{ClipRange, ClipSegment};
use crate::text::{chars_of, split_on, split_on_char, views};

verus! {

/// Whether the ffmpeg render path can produce this format; GIF and "keep
/// the source's container" are left to GStreamer.
pub open spec fn ffmpeg_can_handle_spec(f: OutputFormat) -> bool {
    &&& f.container_format != ContainerFormat::Same
    &&& f.container_format != ContainerFormat::GifContainer
    &&& f.video_encoding != Some(VideoEncoding::Gif)
    &&& f.video_encoding is Some
}

pub fn ffmpeg_can_handle(output_format: &OutputFormat) -> (r: bool)
    ensures
        r == ffmpeg_can_handle_spec(*output_format),
{
    let container_ok = match output_format.container_format {
        ContainerFormat::Same | ContainerFormat::GifContainer => false,
        _ => true,
    };
    let video_ok = match output_format.video_encoding {
        Some(VideoEncoding::Gif) | None => false,
        _ => true,
    };
    container_ok && video_ok
}

/// The name ffprobe gives a video codec.
pub open spec fn video_codec_name(v: VideoEncoding) -> Seq<char> {
    match v {
        VideoEncoding::Av1 => "av1"@,
        VideoEncoding::Vp8 => "vp8"@,
        VideoEncoding::Vp9 => "vp9"@,
        VideoEncoding::H264 => "h264"@,
        VideoEncoding::H265 => "hevc"@,
        VideoEncoding::Gif => "gif"@,
    }
}

fn video_codec_name_exec(v: VideoEncoding) -> (r: &'static str)
    ensures
        r@ == video_codec_name(v),
{
    match v {
        VideoEncoding::Av1 => "av1",
        VideoEncoding::Vp8 => "vp8",
        VideoEncoding::Vp9 => "vp9",
        VideoEncoding::H264 => "h264",
        VideoEncoding::H265 => "hevc",
        VideoEncoding::Gif => "gif",
    }
}

/// The name ffprobe gives an audio codec.
pub open spec fn audio_codec_name(a: AudioEncoding) -> Seq<char> {
    match a {
        AudioEncoding::Aac => "aac"@,
        AudioEncoding::Ac3 => "ac3"@,
        AudioEncoding::Opus => "opus"@,
        AudioEncoding::Vorbis => "vorbis"@,
        AudioEncoding::Flac => "flac"@,
    }
}

fn audio_codec_name_exec(a: AudioEncoding) -> (r: &'static str)
    ensures
        r@ == audio_codec_name(a),
{
    match a {
        AudioEncoding::Aac => "aac",
        AudioEncoding::Ac3 => "ac3",
        AudioEncoding::Opus => "opus",
        AudioEncoding::Vorbis => "vorbis",
        AudioEncoding::Flac => "flac",
    }
}

/// Whether a container name that ffprobe reports for a source can be copied
/// into the output container.
pub open spec fn container_accepts(c: ContainerFormat, name: Seq<char>) -> bool {
    match c {
        ContainerFormat::Mpeg => name == "mov"@ || name == "mp4"@ || name == "m4a"@ || name
            == "3gp"@ || name == "3g2"@ || name == "mj2"@,
        ContainerFormat::Matroska => name == "matroska"@,
        ContainerFormat::WebM | ContainerFormat::Best => name == "webm"@,
        ContainerFormat::Same | ContainerFormat::GifContainer => false,
    }
}

fn container_accepts_exec(c: ContainerFormat, name: &Vec<char>) -> (r: bool)
    ensures
        r == container_accepts(c, name@),
{
    let s = crate::text::string_of(name);
    match c {
        ContainerFormat::Mpeg => {
            let names = ["mov", "mp4", "m4a", "3gp", "3g2", "mj2"];
            let mut i: usize = 0;
            let mut found = false;
            while i < 6
                invariant
                    i <= 6,
                    s@ == name@,
                    names@ == seq!["mov", "mp4", "m4a", "3gp", "3g2", "mj2"],
                    found == exists|j: int| 0 <= j < i && name@ == (#[trigger] names@[j])@,
                decreases 6 - i,
            {
                let candidate = String::from_str(names[i]);
                if candidate == s {
                    found = true;
                }
                i = i + 1;
            }
            proof {
                if found {
                    let j = choose|j: int| 0 <= j < 6 && name@ == (#[trigger] names@[j])@;
                    assert(name@ == names@[j]@);
                } else {
                    assert(name@ != names@[0]@);
                    assert(name@ != names@[1]@);
                    assert(name@ != names@[2]@);
                    assert(name@ != names@[3]@);
                    assert(name@ != names@[4]@);
                    assert(name@ != names@[5]@);
                }
            }
            found
        },
        ContainerFormat::Matroska => s == String::from_str("matroska"),
        ContainerFormat::WebM | ContainerFormat::Best => s == String::from_str("webm"),
        ContainerFormat::Same | ContainerFormat::GifContainer => false,
    }
}

/// Some name in the comma-separated list can be copied into `c`.
pub open spec fn accepts_any(c: ContainerFormat, names: Seq<Seq<char>>) -> bool {
    exists|i: int| 0 <= i < names.len() && container_accepts(c, #[trigger] names[i])
}

fn accepts_any_exec(c: ContainerFormat, format: &String) -> (r: bool)
    ensures
        r == accepts_any(c, split_on(format@, ',')),
{
    let names = split_on_char(&chars_of(format.as_str()), ',');
    let ghost ns = split_on(format@, ',');
    assert(views(names@) == ns);
    let mut i: usize = 0;
    while i < names.len()
        invariant
            i <= names.len(),
            views(names@) == ns,
            ns == split_on(format@, ','),
            forall|j: int| 0 <= j < i ==> !container_accepts(c, #[trigger] ns[j]),
        decreases names.len() - i,
    {
        assert(ns[i as int] == names@[i as int]@);
        if container_accepts_exec(c, &names[i]) {
            assert(0 <= i < ns.len());
            assert(container_accepts(c, ns[i as int]));
            return true;
        }
        i = i + 1;
    }
    false
}

// ---------------------------------------------------------------------------
// Refusals
// ---------------------------------------------------------------------------

/// Why an export cannot copy the source streams.
#[derive(Debug, Clone, Copy, PartialEq, Eq, Structural)]
pub enum CopyRefusal {
    NoSections,
    GesRenderer,
    CodecNotSelectable,
    Orientation,
    Cropping,
    Speed,
    Repetition,
    Probe(ProbeError),
    VideoCodec,
    Resolution,
    Fps,
    Container,
    Keyframes,
    MixedAudio,
    AudioCodecNotSelectable,
    AudioIncompatible,
}

pub open spec fn refusal_message(r: CopyRefusal) -> Seq<char> {
    match r {
        CopyRefusal::NoSections => "no sections selected"@,
        CopyRefusal::GesRenderer => "the selected container uses the GES renderer"@,
        CopyRefusal::CodecNotSelectable => "the output video codec is not selectable"@,
        CopyRefusal::Orientation => "orientation changes require recoding"@,
        CopyRefusal::Cropping => "cropping requires recoding"@,
        CopyRefusal::Speed => "speed changes require recoding"@,
        CopyRefusal::Repetition => "repetition requires recoding"@,
        CopyRefusal::Probe(e) => probe_message(e),
        CopyRefusal::VideoCodec => "video codecs are incompatible with stream copy"@,
        CopyRefusal::Resolution => "resolution changes require recoding"@,
        CopyRefusal::Fps => "FPS changes require recoding"@,
        CopyRefusal::Container => "the source container is not compatible with the output"@,
        CopyRefusal::Keyframes => "cuts must start and end on video keyframes"@,
        CopyRefusal::MixedAudio => "mixed audio tracks require normalization"@,
        CopyRefusal::AudioCodecNotSelectable => "the output audio codec is not selectable"@,
        CopyRefusal::AudioIncompatible => "audio tracks are incompatible with stream copy"@,
    }
}

impl CopyRefusal {
    /// The reason, in words.
    pub fn message(&self) -> (r: &'static str)
        ensures
            r@ == refusal_message(*self),
    {
        match self {
            CopyRefusal::NoSections => "no sections selected",
            CopyRefusal::GesRenderer => "the selected container uses the GES renderer",
            CopyRefusal::CodecNotSelectable => "the output video codec is not selectable",
            CopyRefusal::Orientation => "orientation changes require recoding",
            CopyRefusal::Cropping => "cropping requires recoding",
            CopyRefusal::Speed => "speed changes require recoding",
            CopyRefusal::Repetition => "repetition requires recoding",
            CopyRefusal::Probe(e) => e.message(),
            CopyRefusal::VideoCodec => "video codecs are incompatible with stream copy",
            CopyRefusal::Resolution => "resolution changes require recoding",
            CopyRefusal::Fps => "FPS changes require recoding",
            CopyRefusal::Container => "the source container is not compatible with the output",
            CopyRefusal::Keyframes => "cuts must start and end on video keyframes",
            CopyRefusal::MixedAudio => "mixed audio tracks require normalization",
            CopyRefusal::AudioCodecNotSelectable => "the output audio codec is not selectable",
            CopyRefusal::AudioIncompatible => "audio tracks are incompatible with stream copy",
        }
    }
}

/// A stream copy that will be made, and whether it carries audio.
#[derive(Debug, Clone, Copy, PartialEq, Eq, Structural)]
pub struct StreamCopyPlan {
    pub audio: bool,
}

// ---------------------------------------------------------------------------
// The decision
// ---------------------------------------------------------------------------

/// The checks that need no probe of the sources, in the order they are made.
pub open spec fn precheck_spec(
    f: OutputFormat,
    orientation_identity: bool,
    crop_identity: bool,
    speed: PlaybackSpeed,
    repeat: Repeat,
    segment_count: nat,
) -> Result<(), CopyRefusal> {
    if segment_count == 0 {
        Err(CopyRefusal::NoSections)
    } else if !ffmpeg_can_handle_spec(f) {
        Err(CopyRefusal::GesRenderer)
    } else if f.video_encoding is None {
        Err(CopyRefusal::CodecNotSelectable)
    } else if !orientation_identity {
        Err(CopyRefusal::Orientation)
    } else if !crop_identity {
        Err(CopyRefusal::Cropping)
    } else if speed != PlaybackSpeed::Normal {
        Err(CopyRefusal::Speed)
    } else if !repeat_is_off(repeat) {
        Err(CopyRefusal::Repetition)
    } else {
        Ok(())
    }
}

/// Why one source cannot be copied for its cut, if it cannot.
pub open spec fn segment_refusal(
    video: VideoEncoding,
    container: ContainerFormat,
    framerate: Framerate,
    scaled: Dimensions,
    range: ClipRange,
    m: MediaView,
) -> Option<CopyRefusal> {
    if m.video_codec != video_codec_name(video) {
        Some(CopyRefusal::VideoCodec)
    } else if m.width != scaled.width || m.height != scaled.height {
        Some(CopyRefusal::Resolution)
    } else if m.fps_n * framerate.denominator != framerate.nominator * m.fps_d {
        Some(CopyRefusal::Fps)
    } else if !accepts_any(container, split_on(m.format, ',')) {
        Some(CopyRefusal::Container)
    } else if !keyframe_aligned_spec(m, range.start_ms, range.end_ms) {
        Some(CopyRefusal::Keyframes)
    } else {
        None
    }
}

/// The first refusal among the first `n` sources.
pub open spec fn refusal_upto(
    video: VideoEncoding,
    container: ContainerFormat,
    framerate: Framerate,
    scaled: Dimensions,
    ranges: Seq<ClipRange>,
    ms: Seq<MediaView>,
    n: int,
) -> Option<CopyRefusal>
    decreases n,
{
    if n <= 0 {
        None
    } else {
        match refusal_upto(video, container, framerate, scaled, ranges, ms, n - 1) {
            Some(r) => Some(r),
            None => segment_refusal(video, container, framerate, scaled, ranges[n - 1], ms[n - 1]),
        }
    }
}

/// Whether the copy carries audio: not when muted or when no source has
/// audio; refused when only some sources have it, when the output has no
/// audio codec, or when the sources' audio differs from each other or from
/// the output codec.
pub open spec fn audio_plan(mute: bool, audio: Option<AudioEncoding>, ms: Seq<MediaView>) -> Result<bool, CopyRefusal> {
    if mute {
        Ok(false)
    } else if forall|i: int| 0 <= i < ms.len() ==> (#[trigger] ms[i]).audio is None {
        Ok(false)
    } else if !(forall|i: int| 0 <= i < ms.len() ==> (#[trigger] ms[i]).audio is Some) {
        Err(CopyRefusal::MixedAudio)
    } else {
        match audio {
            None => Err(CopyRefusal::AudioCodecNotSelectable),
            Some(a) => if ms[0].audio->0.codec != audio_codec_name(a) || exists|i: int|
                0 <= i < ms.len() && (#[trigger] ms[i]).audio != ms[0].audio {
                Err(CopyRefusal::AudioIncompatible)
            } else {
                Ok(true)
            },
        }
    }
}

/// The whole decision: the checks without probes, then the probes' own
/// failure, then each source in order, then the audio.
pub open spec fn stream_copy_spec(
    f: OutputFormat,
    framerate: Framerate,
    scaled: Dimensions,
    orientation_identity: bool,
    crop_identity: bool,
    mute: bool,
    repeat: Repeat,
    speed: PlaybackSpeed,
    ranges: Seq<ClipRange>,
    probes: Result<Seq<MediaView>, ProbeError>,
) -> Result<bool, CopyRefusal> {
    match precheck_spec(f, orientation_identity, crop_identity, speed, repeat, ranges.len()) {
        Err(e) => Err(e),
        Ok(_) => match probes {
            Err(e) => Err(CopyRefusal::Probe(e)),
            Ok(ms) => match refusal_upto(
                f.video_encoding->0,
                f.container_format,
                framerate,
                scaled,
                ranges,
                ms,
                ranges.len() as int,
            ) {
                Some(r) => Err(r),
                None => audio_plan(mute, f.audio_encoding, ms),
            },
        },
    }
}

pub open spec fn segment_ranges(segments: Seq<ClipSegment>) -> Seq<ClipRange> {
    segments.map_values(|s: ClipSegment| s.range)
}

pub open spec fn probes_view(probes: Result<Vec<MediaProbe>, ProbeError>) -> Result<Seq<MediaView>, ProbeError> {
    match probes {
        Ok(v) => Ok(v@.map_values(|m: MediaProbe| m@)),
        Err(e) => Err(e),
    }
}

/// The checks that need no probe of the sources: a caller probes the
/// sources only once these pass.
pub fn copy_precheck(
    output_format: &OutputFormat,
    orientation_identity: bool,
    crop_identity: bool,
    speed: PlaybackSpeed,
    repeat: Repeat,
    segment_count: usize,
) -> (r: Result<(), CopyRefusal>)
    ensures
        r == precheck_spec(
            *output_format,
            orientation_identity,
            crop_identity,
            speed,
            repeat,
            segment_count as nat,
        ),
{
    if segment_count == 0 {
        return Err(CopyRefusal::NoSections);
    }
    if !ffmpeg_can_handle(output_format) {
        return Err(CopyRefusal::GesRenderer);
    }
    if output_format.video_encoding.is_none() {
        return Err(CopyRefusal::CodecNotSelectable);
    }
    if !orientation_identity {
        return Err(CopyRefusal::Orientation);
    }
    if !crop_identity {
        return Err(CopyRefusal::Cropping);
    }
    if !speed.is_normal() {
        return Err(CopyRefusal::Speed);
    }
    if !repeat.is_off() {
        return Err(CopyRefusal::Repetition);
    }
    Ok(())
}

fn check_segment(
    video: VideoEncoding,
    container: ContainerFormat,
    framerate: Framerate,
    scaled: Dimensions,
    range: ClipRange,
    media: &MediaProbe,
) -> (r: Option<CopyRefusal>)
    ensures
        r == segment_refusal(video, container, framerate, scaled, range, media@),
{
    let expected = String::from_str(video_codec_name_exec(video));
    if media.video_codec != expected {
        return Some(CopyRefusal::VideoCodec);
    }
    if media.width != scaled.width || media.height != scaled.height {
        return Some(CopyRefusal::Resolution);
    }
    let (a, b, c, d) = (media.fps_n as u64, framerate.denominator as u64, framerate.nominator as u64, media.fps_d as u64);
    assert(a * b <= u64::MAX && c * d <= u64::MAX) by (nonlinear_arith)
        requires
            a <= u32::MAX,
            b <= u32::MAX,
            c <= u32::MAX,
            d <= u32::MAX,
    ;
    if a * b != c * d {
        return Some(CopyRefusal::Fps);
    }
    if !accepts_any_exec(container, &media.format) {
        return Some(CopyRefusal::Container);
    }
    if !media.keyframe_aligned(range.start_ms, range.end_ms) {
        return Some(CopyRefusal::Keyframes);
    }
    None
}

fn plan_audio(mute: bool, audio: Option<AudioEncoding>, probes: &Vec<MediaProbe>) -> (r: Result<bool, CopyRefusal>)
    ensures
        r == audio_plan(mute, audio, probes@.map_values(|m: MediaProbe| m@)),
{
    let ghost ms = probes@.map_values(|m: MediaProbe| m@);
    if mute {
        return Ok(false);
    }
    let mut all_have = true;
    let mut none_have = true;
    let mut i: usize = 0;
    while i < probes.len()
        invariant
            i <= probes.len(),
            ms == probes@.map_values(|m: MediaProbe| m@),
            all_have == (forall|j: int| 0 <= j < i ==> (#[trigger] ms[j]).audio is Some),
            none_have == (forall|j: int| 0 <= j < i ==> (#[trigger] ms[j]).audio is None),
        decreases probes.len() - i,
    {
        assert(ms[i as int] == probes@[i as int]@);
        if probes[i].audio.is_some() {
            none_have = false;
        } else {
            all_have = false;
        }
        i = i + 1;
    }
    if none_have {
        return Ok(false);
    }
    if !all_have {
        return Err(CopyRefusal::MixedAudio);
    }
    let a = match audio {
        Some(a) => a,
        None => {
            return Err(CopyRefusal::AudioCodecNotSelectable);
        },
    };
    assert(ms[0] == probes@[0]@);
    let first = match &probes[0].audio {
        Some(x) => x,
        None => {
            return Err(CopyRefusal::MixedAudio);
        },
    };
    let expected = String::from_str(audio_codec_name_exec(a));
    if first.codec != expected {
        return Err(CopyRefusal::AudioIncompatible);
    }
    let mut k: usize = 0;
    while k < probes.len()
        invariant
            k <= probes.len(),
            probes.len() > 0,
            ms == probes@.map_values(|m: MediaProbe| m@),
            !mute,
            audio == Some(a),
            !(forall|j: int| 0 <= j < ms.len() ==> (#[trigger] ms[j]).audio is None),
            forall|j: int| 0 <= j < ms.len() ==> (#[trigger] ms[j]).audio is Some,
            ms[0].audio->0.codec == audio_codec_name(a),
            ms[0].audio == Some(first@),
            forall|j: int| 0 <= j < k ==> (#[trigger] ms[j]).audio == ms[0].audio,
        decreases probes.len() - k,
    {
        assert(ms[k as int] == probes@[k as int]@);
        let same = match &probes[k].audio {
            Some(x) => same_audio(x, first),
            None => false,
        };
        if !same {
            assert(ms[k as int].audio != ms[0].audio);
            return Err(CopyRefusal::AudioIncompatible);
        }
        k = k + 1;
    }
    Ok(true)
}

/// Whether the sources can be copied into the output as they are, and if
/// so whether the copy carries audio. `probes` is what probing each source
/// gave, in order; it is only looked at once the checks that need no probe
/// have passed.
pub fn stream_copy_plan(
    output_format: &OutputFormat,
    framerate: Framerate,
    scaled: Dimensions,
    orientation_identity: bool,
    crop_identity: bool,
    mute: bool,
    repeat: Repeat,
    speed: PlaybackSpeed,
    segments: &[ClipSegment],
    probes: &Result<Vec<MediaProbe>, ProbeError>,
) -> (r: Result<StreamCopyPlan, CopyRefusal>)
    requires
        precheck_spec(
            *output_format,
            orientation_identity,
            crop_identity,
            speed,
            repeat,
            segments@.len(),
        ) is Ok ==> (probes matches Ok(v) ==> v.len() == segments@.len()),
    ensures
        match r {
            Ok(p) => stream_copy_spec(
                *output_format,
                framerate,
                scaled,
                orientation_identity,
                crop_identity,
                mute,
                repeat,
                speed,
                segment_ranges(segments@),
                probes_view(*probes),
            ) == Ok::<bool, CopyRefusal>(p.audio),
            Err(e) => stream_copy_spec(
                *output_format,
                framerate,
                scaled,
                orientation_identity,
                crop_identity,
                mute,
                repeat,
                speed,
                segment_ranges(segments@),
                probes_view(*probes),
            ) == Err::<bool, CopyRefusal>(e),
        },
{
    let ghost ranges = segment_ranges(segments@);
    assert(ranges.len() == segments@.len());
    match copy_precheck(output_format, orientation_identity, crop_identity, speed, repeat, segments.len()) {
        Err(e) => {
            return Err(e);
        },
        Ok(_) => {},
    }
    let list = match probes {
        Err(e) => {
            return Err(CopyRefusal::Probe(*e));
        },
        Ok(v) => v,
    };
    let ghost ms = list@.map_values(|m: MediaProbe| m@);
    let video = match output_format.video_encoding {
        Some(v) => v,
        None => {
            return Err(CopyRefusal::CodecNotSelectable);
        },
    };
    let mut i: usize = 0;
    while i < segments.len()
        invariant
            i <= segments@.len(),
            list.len() == segments@.len(),
            ranges == segment_ranges(segments@),
            ms == list@.map_values(|m: MediaProbe| m@),
            output_format.video_encoding == Some(video),
            precheck_spec(
                *output_format,
                orientation_identity,
                crop_identity,
                speed,
                repeat,
                segments@.len(),
            ) is Ok,
            probes_view(*probes) == Ok::<Seq<MediaView>, ProbeError>(ms),
            refusal_upto(video, output_format.container_format, framerate, scaled, ranges, ms, i as int)
                is None,
        decreases segments@.len() - i,
    {
        assert(ranges[i as int] == segments@[i as int].range);
        assert(ms[i as int] == list@[i as int]@);
        match check_segment(video, output_format.container_format, framerate, scaled, segments[i].range, &list[i]) {
            Some(r) => {
                proof {
                    assert(refusal_upto(video, output_format.container_format, framerate, scaled, ranges, ms, i + 1) == Some(r));
                    let n = segments@.len() as int;
                    lemma_refusal_upto_stable(video, output_format.container_format, framerate, scaled, ranges, ms, i + 1, n);
                }
                return Err(r);
            },
            None => {},
        }
        i = i + 1;
    }
    match plan_audio(mute, output_format.audio_encoding, list) {
        Ok(audio) => Ok(StreamCopyPlan { audio }),
        Err(e) => Err(e),
    }
}

/// Once some source is refused, later sources do not change which refusal
/// comes first.
proof fn lemma_refusal_upto_stable(
    video: VideoEncoding,
    container: ContainerFormat,
    framerate: Framerate,
    scaled: Dimensions,
    ranges: Seq<ClipRange>,
    ms: Seq<MediaView>,
    k: int,
    n: int,
)
    requires
        1 <= k <= n,
        refusal_upto(video, container, framerate, scaled, ranges, ms, k) is Some,
    ensures
        refusal_upto(video, container, framerate, scaled, ranges, ms, n) == refusal_upto(
            video,
            container,
            framerate,
            scaled,
            ranges,
            ms,
            k,
        ),
    decreases n - k,
{
    if k < n {
        lemma_refusal_upto_stable(video, container, framerate, scaled, ranges, ms, k, n - 1);
    }
}

/// The same decision, keeping only whether a copy would be made.
pub fn stream_copy_reason(
    output_format: &OutputFormat,
    framerate: Framerate,
    scaled: Dimensions,
    orientation_identity: bool,
    crop_identity: bool,
    mute: bool,
    repeat: Repeat,
    speed: PlaybackSpeed,
    segments: &[ClipSegment],
    probes: &Result<Vec<MediaProbe>, ProbeError>,
) -> (r: Result<(), CopyRefusal>)
    requires
        precheck_spec(
            *output_format,
            orientation_identity,
            crop_identity,
            speed,
            repeat,
            segments@.len(),
        ) is Ok ==> (probes matches Ok(v) ==> v.len() == segments@.len()),
    ensures
        match r {
            Ok(_) => stream_copy_spec(
                *output_format,
                framerate,
                scaled,
                orientation_identity,
                crop_identity,
                mute,
                repeat,
                speed,
                segment_ranges(segments@),
                probes_view(*probes),
            ) is Ok,
            Err(e) => stream_copy_spec(
                *output_format,
                framerate,
                scaled,
                orientation_identity,
                crop_identity,
                mute,
                repeat,
                speed,
                segment_ranges(segments@),
                probes_view(*probes),
            ) == Err::<bool, CopyRefusal>(e),
        },
{
    match stream_copy_plan(
        output_format,
        framerate,
        scaled,
        orientation_identity,
        crop_identity,
        mute,
        repeat,
        speed,
        segments,
        probes,
    ) {
        Ok(_) => Ok(()),
        Err(e) => Err(e),
    }
}

// ---------------------------------------------------------------------------
// Which renderer
// ---------------------------------------------------------------------------

/// The way an export is rendered.
#[derive(Debug, Clone, Copy, PartialEq, Eq, Structural)]
pub enum Renderer {
    /// The sources' streams are copied without decoding.
    StreamCopy(StreamCopyPlan),
    /// ffmpeg renders each section and the parts are joined or kept apart.
    FfmpegSections,
    /// ffmpeg renders the one selection, looped or bounced as asked.
    FfmpegSingle,
    /// GStreamer Editing Services render the selection.
    Ges,
}

pub open spec fn renderer_spec(copy: Result<StreamCopyPlan, CopyRefusal>, f: OutputFormat, segment_count: nat) -> Renderer {
    match copy {
        Ok(p) => Renderer::StreamCopy(p),
        Err(_) => if ffmpeg_can_handle_spec(f) {
            if segment_count > 1 {
                Renderer::FfmpegSections
            } else {
                Renderer::FfmpegSingle
            }
        } else {
            Renderer::Ges
        },
    }
}

/// A copy where one is possible, else ffmpeg where it can make the format
/// (one pass per section when there are several), else GStreamer.
pub fn choose_renderer(
    copy: &Result<StreamCopyPlan, CopyRefusal>,
    output_format: &OutputFormat,
    segment_count: usize,
) -> (r: Renderer)
    ensures
        r == renderer_spec(*copy, *output_format, segment_count as nat),
{
    match copy {
        Ok(p) => Renderer::StreamCopy(*p),
        Err(_) => if ffmpeg_can_handle(output_format) {
            if segment_count > 1 {
                Renderer::FfmpegSections
            } else {
                Renderer::FfmpegSingle
            }
        } else {
            Renderer::Ges
        },
    }
}

/// The range a single-pass render covers: the first section, or, with no
/// section, the clip from its in-point for its duration.
pub fn single_pass_range(segments: &[ClipSegment], inpoint_ms: u64, duration_ms: u64) -> (r: ClipRange)
    requires
        segments@.len() == 0 ==> inpoint_ms + duration_ms <= u64::MAX,
    ensures
        segments@.len() > 0 ==> r == segments@[0].range,
        segments@.len() == 0 ==> r == (ClipRange {
            start_ms: inpoint_ms,
            end_ms: (inpoint_ms + duration_ms) as u64,
        }),
{
    if segments.len() > 0 {
        segments[0].range
    } else {
        ClipRange::new(inpoint_ms, inpoint_ms + duration_ms)
    }
}


// ---------------------------------------------------------------------------
// The GStreamer render profile
// ---------------------------------------------------------------------------

/// How GStreamer Editing Services encode an export.
#[derive(Debug, Clone, Copy, PartialEq, Eq)]
pub enum GesProfile {
    /// A GIF: the video alone, in its codec's format, by its preset.
    Gif { video_format: &'static str, preset: &'static str },
    /// The source's own container and codecs, as discovered in the source;
    /// its audio is kept unless muted.
    KeepSource { audio: bool },
    /// The chosen container, video codec and encoder, with a target bitrate
    /// where one is set and the encoder takes one, and audio unless muted.
    Encoded {
        container_format: &'static str,
        video_format: &'static str,
        encoder: &'static str,
        bitrate: Option<(&'static str, i32)>,
        audio_format: Option<&'static str>,
    },
}

/// The bitrate property set on the encoder: the target in the property's
/// unit, where a target is set and the encoder has such a property.
pub open spec fn ges_bitrate_spec(encoder: ResolvedVideoEncoder, target_kbps: Option<u32>) -> Option<(Seq<char>, int)> {
    match target_kbps {
        Some(kbps) => if encoder.bitrate_property.0@.len() == 0 {
            None
        } else {
            Some((encoder.bitrate_property.0@, (kbps as i32) * (encoder.bitrate_property.1 as i32)))
        },
        None => None,
    }
}

pub open spec fn ges_profile_ok(f: OutputFormat, encoder: ResolvedVideoEncoder, target_kbps: Option<u32>, mute: bool) -> bool {
    match f.container_format {
        ContainerFormat::GifContainer => f.video_encoding is Some,
        ContainerFormat::Same => true,
        _ => {
            &&& f.video_encoding is Some
            &&& (!mute ==> f.audio_encoding is Some)
            &&& (ges_bitrate_spec(encoder, target_kbps) matches Some((_, v)) ==> i32::MIN <= v
                <= i32::MAX)
        },
    }
}

/// The profile for a format. `encoder` is the video encoder chosen for
/// the codec and `target_kbps` the target bitrate of the quality setting,
/// if it sets one.
pub fn ges_profile(
    output_format: &OutputFormat,
    encoder: ResolvedVideoEncoder,
    target_kbps: Option<u32>,
    mute: bool,
) -> (r: GesProfile)
    requires
        ges_profile_ok(*output_format, encoder, target_kbps, mute),
    ensures
        match output_format.container_format {
            ContainerFormat::GifContainer => r matches GesProfile::Gif { video_format, preset }
                && video_format@ == video_mime(output_format.video_encoding->0) && preset@
                == video_preset(output_format.video_encoding->0),
            ContainerFormat::Same => r == GesProfile::KeepSource { audio: !mute },
            _ => r matches GesProfile::Encoded {
                container_format,
                video_format,
                encoder: element,
                bitrate,
                audio_format,
            } && container_format@ == container_mime(output_format.container_format)
                && video_format@ == video_mime(output_format.video_encoding->0) && element
                == encoder.element && (match bitrate {
                Some((p, v)) => ges_bitrate_spec(encoder, target_kbps) == Some((p@, v as int)),
                None => ges_bitrate_spec(encoder, target_kbps) is None,
            }) && (match audio_format {
                Some(a) => !mute && a@ == audio_mime(output_format.audio_encoding->0),
                None => mute,
            }),
        },
{
    match output_format.container_format {
        ContainerFormat::GifContainer => {
            let video = match output_format.video_encoding {
                Some(v) => v,
                None => VideoEncoding::Gif,
            };
            GesProfile::Gif { video_format: video.get_format(), preset: video.get_preset_name() }
        },
        ContainerFormat::Same => GesProfile::KeepSource { audio: !mute },
        _ => {
            let video = match output_format.video_encoding {
                Some(v) => v,
                None => VideoEncoding::Gif,
            };
            let bitrate = match target_kbps {
                Some(kbps) => {
                    let (property, multiplier) = encoder.bitrate_property;
                    if property.unicode_len() == 0 {
                        None
                    } else {
                        let k = kbps as i32;
                        let m = multiplier as i32;
                        Some((property, k * m))
                    }
                },
                None => None,
            };
            let audio_format = if mute {
                None
            } else {
                match output_format.audio_encoding {
                    Some(a) => Some(a.get_format()),
                    None => None,
                }
            };
            GesProfile::Encoded {
                container_format: output_format.container_format.format(),
                video_format: video.get_format(),
                encoder: encoder.element,
                bitrate,
                audio_format,
            }
        },
    }
}

// ---------------------------------------------------------------------------
// Laws
// ---------------------------------------------------------------------------

proof fn lemma_no_refusal_upto(
    video: VideoEncoding,
    container: ContainerFormat,
    framerate: Framerate,
    scaled: Dimensions,
    ranges: Seq<ClipRange>,
    ms: Seq<MediaView>,
    n: int,
    i: int,
)
    requires
        0 <= i < n,
        refusal_upto(video, container, framerate, scaled, ranges, ms, n) is None,
    ensures
        segment_refusal(video, container, framerate, scaled, ranges[i], ms[i]) is None,
    decreases n,
{
    if i < n - 1 {
        lemma_no_refusal_upto(video, container, framerate, scaled, ranges, ms, n - 1, i);
    }
}

/// The streams are only copied when copying gives what a render would:
/// nothing is sped up, repeated, turned or cropped, and every source
/// already has the output's codec, size, frame rate and a container the
/// output accepts, with its cut on keyframes. The copy carries audio only
/// when it is not muted and every source has the same audio, in the
/// output's codec.
pub proof fn law_copy_only_when_nothing_changes(
    f: OutputFormat,
    framerate: Framerate,
    scaled: Dimensions,
    orientation_identity: bool,
    crop_identity: bool,
    mute: bool,
    repeat: Repeat,
    speed: PlaybackSpeed,
    ranges: Seq<ClipRange>,
    ms: Seq<MediaView>,
    audio: bool,
)
    requires
        ms.len() == ranges.len(),
        stream_copy_spec(
            f,
            framerate,
            scaled,
            orientation_identity,
            crop_identity,
            mute,
            repeat,
            speed,
            ranges,
            Ok(ms),
        ) == Ok::<bool, CopyRefusal>(audio),
    ensures
        ranges.len() > 0,
        ffmpeg_can_handle_spec(f),
        orientation_identity && crop_identity,
        speed == PlaybackSpeed::Normal,
        repeat_is_off(repeat),
        forall|i: int|
            0 <= i < ms.len() ==> {
                &&& (#[trigger] ms[i]).video_codec == video_codec_name(f.video_encoding->0)
                &&& ms[i].width == scaled.width && ms[i].height == scaled.height
                &&& ms[i].fps_n * framerate.denominator == framerate.nominator * ms[i].fps_d
                &&& accepts_any(f.container_format, split_on(ms[i].format, ','))
                &&& keyframe_aligned_spec(ms[i], ranges[i].start_ms, ranges[i].end_ms)
            },
        audio ==> !mute && f.audio_encoding is Some && forall|i: int|
            0 <= i < ms.len() ==> (#[trigger] ms[i]).audio == ms[0].audio && ms[i].audio->0.codec
                == audio_codec_name(f.audio_encoding->0),
        !audio ==> mute || forall|i: int| 0 <= i < ms.len() ==> (#[trigger] ms[i]).audio is None,
{
    assert forall|i: int| 0 <= i < ms.len() implies {
        &&& (#[trigger] ms[i]).video_codec == video_codec_name(f.video_encoding->0)
        &&& ms[i].width == scaled.width && ms[i].height == scaled.height
        &&& ms[i].fps_n * framerate.denominator == framerate.nominator * ms[i].fps_d
        &&& accepts_any(f.container_format, split_on(ms[i].format, ','))
        &&& keyframe_aligned_spec(ms[i], ranges[i].start_ms, ranges[i].end_ms)
    } by {
        lemma_no_refusal_upto(
            f.video_encoding->0,
            f.container_format,
            framerate,
            scaled,
            ranges,
            ms,
            ranges.len() as int,
            i,
        );
    }
    if audio {
        assert forall|i: int| 0 <= i < ms.len() implies (#[trigger] ms[i]).audio == ms[0].audio
            && ms[i].audio->0.codec == audio_codec_name(f.audio_encoding->0) by {
            assert(ms[i].audio == ms[0].audio);
        }
    }
}

/// A refusal that needs no probe does not depend on what probing gave.
pub proof fn law_precheck_refusal_ignores_probes(
    f: OutputFormat,
    framerate: Framerate,
    scaled: Dimensions,
    orientation_identity: bool,
    crop_identity: bool,
    mute: bool,
    repeat: Repeat,
    speed: PlaybackSpeed,
    ranges: Seq<ClipRange>,
    probes: Result<Seq<MediaView>, ProbeError>,
    e: CopyRefusal,
)
    requires
        precheck_spec(f, orientation_identity, crop_identity, speed, repeat, ranges.len())
            == Err::<(), CopyRefusal>(e),
    ensures
        stream_copy_spec(
            f,
            framerate,
            scaled,
            orientation_identity,
            crop_identity,
            mute,
            repeat,
            speed,
            ranges,
            probes,
        ) == Err::<bool, CopyRefusal>(e),
{
}

/// A source passes the copy's video-codec check exactly when ffprobe names
/// its codec as the output encoding: `av1`, `vp8`, `vp9`, `h264`, `hevc`
/// for H.265, `gif`.
pub proof fn law_probe_codec_names_pass(
    video: VideoEncoding,
    container: ContainerFormat,
    framerate: Framerate,
    scaled: Dimensions,
    range: ClipRange,
    m: MediaView,
)
    ensures
        (segment_refusal(video, container, framerate, scaled, range, m) == Some(
            CopyRefusal::VideoCodec,
        )) <==> m.video_codec != match video {
            VideoEncoding::Av1 => "av1"@,
            VideoEncoding::Vp8 => "vp8"@,
            VideoEncoding::Vp9 => "vp9"@,
            VideoEncoding::H264 => "h264"@,
            VideoEncoding::H265 => "hevc"@,
            VideoEncoding::Gif => "gif"@,
        },
{
}

} // verus!
