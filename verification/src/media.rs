//! What ffprobe reports about a source video, read from its text output,
//! and whether a cut falls on a keyframe.
use vstd::prelude::*;

use crate::text::{
    chars_of, find, parse_u32, parse_u32_spec, split_on, split_on_char, split_once_char,
    string_of, trim, trimmed, views,
};

verus! {

/// A frame rate, as a fraction of frames per second.
#[derive(Debug, Clone, Copy, PartialEq, Eq, Structural)]
pub struct Framerate {
    pub nominator: u32,
    pub denominator: u32,
}

/// A frame size in pixels.
#[derive(Debug, Clone, Copy, PartialEq, Eq, Structural)]
pub struct Dimensions {
    pub width: u32,
    pub height: u32,
}

/// Why a source could not be probed.
#[derive(Debug, Clone, Copy, PartialEq, Eq, Structural)]
pub enum ProbeError {
    Unavailable,
    CannotInspect,
    NoStreamData,
    UnreadableVideo,
    InvalidFps,
    InvalidDuration,
    CannotInspectKeyframes,
    NoKeyframes,
    InvalidWidth,
    InvalidHeight,
}

pub open spec fn probe_message(e: ProbeError) -> Seq<char> {
    match e {
        ProbeError::Unavailable => "ffprobe is unavailable"@,
        ProbeError::CannotInspect => "ffprobe could not inspect the source"@,
        ProbeError::NoStreamData => "ffprobe returned no stream data"@,
        ProbeError::UnreadableVideo => "ffprobe could not read the video stream"@,
        ProbeError::InvalidFps => "invalid source FPS"@,
        ProbeError::InvalidDuration => "invalid source duration"@,
        ProbeError::CannotInspectKeyframes => "ffprobe could not inspect keyframes"@,
        ProbeError::NoKeyframes => "ffprobe found no video keyframes"@,
        ProbeError::InvalidWidth => "invalid source width"@,
        ProbeError::InvalidHeight => "invalid source height"@,
    }
}

impl ProbeError {
    /// The reason, in words.
    pub fn message(&self) -> (r: &'static str)
        ensures
            r@ == probe_message(*self),
    {
        match self {
            ProbeError::Unavailable => "ffprobe is unavailable",
            ProbeError::CannotInspect => "ffprobe could not inspect the source",
            ProbeError::NoStreamData => "ffprobe returned no stream data",
            ProbeError::UnreadableVideo => "ffprobe could not read the video stream",
            ProbeError::InvalidFps => "invalid source FPS",
            ProbeError::InvalidDuration => "invalid source duration",
            ProbeError::CannotInspectKeyframes => "ffprobe could not inspect keyframes",
            ProbeError::NoKeyframes => "ffprobe found no video keyframes",
            ProbeError::InvalidWidth => "invalid source width",
            ProbeError::InvalidHeight => "invalid source height",
        }
    }
}

// ---------------------------------------------------------------------------
// Streams
// ---------------------------------------------------------------------------

/// The first audio stream of a source, as ffprobe names its parameters.
#[derive(Debug, Clone, PartialEq, Eq)]
pub struct AudioProbe {
    pub codec: String,
    pub sample_rate: String,
    pub channels: String,
    pub layout: String,
}

pub struct AudioView {
    pub codec: Seq<char>,
    pub sample_rate: Seq<char>,
    pub channels: Seq<char>,
    pub layout: Seq<char>,
}

impl View for AudioProbe {
    type V = AudioView;

    open spec fn view(&self) -> AudioView {
        AudioView {
            codec: self.codec@,
            sample_rate: self.sample_rate@,
            channels: self.channels@,
            layout: self.layout@,
        }
    }
}

/// Whether two audio streams have the same parameters.
pub fn same_audio(a: &AudioProbe, b: &AudioProbe) -> (r: bool)
    ensures
        r == (a@ == b@),
{
    a.codec == b.codec && a.sample_rate == b.sample_rate && a.channels == b.channels && a.layout
        == b.layout
}

/// The first video stream of a source, with its size as read (a size that
/// is not a number is kept as `None`, and only refused once the rest of the
/// source has been probed).
pub struct VideoStream {
    pub codec: String,
    pub width: Option<u32>,
    pub height: Option<u32>,
    pub fps_n: u32,
    pub fps_d: u32,
}

pub struct VideoStreamView {
    pub codec: Seq<char>,
    pub width: Option<u32>,
    pub height: Option<u32>,
    pub fps_n: u32,
    pub fps_d: u32,
}

impl View for VideoStream {
    type V = VideoStreamView;

    open spec fn view(&self) -> VideoStreamView {
        VideoStreamView {
            codec: self.codec@,
            width: self.width,
            height: self.height,
            fps_n: self.fps_n,
            fps_d: self.fps_d,
        }
    }
}

/// Everything the stream-copy check needs to know about a source.
pub struct MediaProbe {
    /// The container's names, separated by commas (`mov,mp4,m4a,...`).
    pub format: String,
    pub video_codec: String,
    pub width: u32,
    pub height: u32,
    pub fps_n: u32,
    pub fps_d: u32,
    pub audio: Option<AudioProbe>,
    pub duration_ms: u64,
    pub keyframes_ms: Vec<u64>,
}

pub struct MediaView {
    pub format: Seq<char>,
    pub video_codec: Seq<char>,
    pub width: u32,
    pub height: u32,
    pub fps_n: u32,
    pub fps_d: u32,
    pub audio: Option<AudioView>,
    pub duration_ms: u64,
    pub keyframes_ms: Seq<u64>,
}

pub open spec fn audio_opt_view(a: Option<AudioProbe>) -> Option<AudioView> {
    match a {
        Some(x) => Some(x@),
        None => None,
    }
}

impl View for MediaProbe {
    type V = MediaView;

    open spec fn view(&self) -> MediaView {
        MediaView {
            format: self.format@,
            video_codec: self.video_codec@,
            width: self.width,
            height: self.height,
            fps_n: self.fps_n,
            fps_d: self.fps_d,
            audio: audio_opt_view(self.audio),
            duration_ms: self.duration_ms,
            keyframes_ms: self.keyframes_ms@,
        }
    }
}

// ---------------------------------------------------------------------------
// Reading ffprobe's output
// ---------------------------------------------------------------------------

/// A fraction `n/d` such as ffprobe prints a frame rate: the text is
/// trimmed and split at its first `/`, and both sides must be `u32`s.
pub open spec fn fraction_spec(s: Seq<char>) -> Option<(u32, u32)> {
    let t = trim(s);
    match find(t, seq!['/']) {
        Some(p) => match (parse_u32_spec(t.take(p)), parse_u32_spec(t.skip(p + 1))) {
            (Some(a), Some(b)) => Some((a, b)),
            _ => None,
        },
        None => None,
    }
}

fn fraction_of(v: &Vec<char>) -> (r: Option<(u32, u32)>)
    ensures
        r == fraction_spec(v@),
{
    let t = trimmed(v);
    match split_once_char(&t, '/') {
        Some((a, b)) => match (parse_u32(&a), parse_u32(&b)) {
            (Some(x), Some(y)) => Some((x, y)),
            _ => None,
        },
        None => None,
    }
}

/// Reads a fraction such as `30000/1001`.
pub fn parse_fraction(value: &str) -> (r: Option<(u32, u32)>)
    ensures
        r == fraction_spec(value@),
{
    fraction_of(&chars_of(value))
}

/// What ffprobe printed, trimmed; an empty answer is an error.
pub open spec fn csv_value_spec(out: Seq<char>) -> Result<Seq<char>, ProbeError> {
    let t = trim(out);
    if t.len() == 0 {
        Err(ProbeError::NoStreamData)
    } else {
        Ok(t)
    }
}

pub fn csv_value(out: &str) -> (r: Result<String, ProbeError>)
    ensures
        match r {
            Ok(s) => csv_value_spec(out@) == Ok::<Seq<char>, ProbeError>(s@),
            Err(e) => csv_value_spec(out@) == Err::<Seq<char>, ProbeError>(e),
        },
{
    let t = trimmed(&chars_of(out));
    if t.len() == 0 {
        Err(ProbeError::NoStreamData)
    } else {
        Ok(string_of(&t))
    }
}

/// The name for what `String::from_utf8_lossy` makes of some bytes.
pub uninterp spec fn utf8_lossy(bytes: Seq<u8>) -> Seq<char>;

/// `String::from_utf8_lossy`: the text of `bytes`, each invalid sequence
/// replaced by U+FFFD. Its result is named, not stated.
#[verifier::external_body]
fn lossy_text(bytes: &[u8]) -> (r: String)
    ensures
        r@ == utf8_lossy(bytes@),
{
    String::from_utf8_lossy(bytes).into_owned()
}

/// The answer of one ffprobe query, from the bytes it wrote.
pub fn ffprobe_value(stdout: &[u8]) -> (r: Result<String, ProbeError>)
    ensures
        match r {
            Ok(s) => csv_value_spec(utf8_lossy(stdout@)) == Ok::<Seq<char>, ProbeError>(s@),
            Err(e) => csv_value_spec(utf8_lossy(stdout@)) == Err::<Seq<char>, ProbeError>(e),
        },
{
    let text = lossy_text(stdout);
    csv_value(text.as_str())
}

/// The `codec|width|height|rate` line of the first video stream.
pub open spec fn video_stream_spec(csv: Seq<char>) -> Result<VideoStreamView, ProbeError> {
    let f = split_on(trim(csv), '|');
    if f.len() < 4 {
        Err(ProbeError::UnreadableVideo)
    } else {
        match fraction_spec(f[3]) {
            None => Err(ProbeError::InvalidFps),
            Some((n, d)) => Ok(
                VideoStreamView {
                    codec: f[0],
                    width: parse_u32_spec(f[1]),
                    height: parse_u32_spec(f[2]),
                    fps_n: n,
                    fps_d: d,
                },
            ),
        }
    }
}

pub fn parse_video_stream(csv: &str) -> (r: Result<VideoStream, ProbeError>)
    ensures
        match r {
            Ok(v) => video_stream_spec(csv@) == Ok::<VideoStreamView, ProbeError>(v@),
            Err(e) => video_stream_spec(csv@) == Err::<VideoStreamView, ProbeError>(e),
        },
{
    let t = trimmed(&chars_of(csv));
    let f = split_on_char(&t, '|');
    proof {
        assert(views(f@).len() == f.len());
    }
    if f.len() < 4 {
        return Err(ProbeError::UnreadableVideo);
    }
    assert(views(f@)[3] == f@[3]@);
    match fraction_of(&f[3]) {
        None => Err(ProbeError::InvalidFps),
        Some((n, d)) => {
            assert(views(f@)[0] == f@[0]@ && views(f@)[1] == f@[1]@ && views(f@)[2] == f@[2]@);
            Ok(
                VideoStream {
                    codec: string_of(&f[0]),
                    width: parse_u32(&f[1]),
                    height: parse_u32(&f[2]),
                    fps_n: n,
                    fps_d: d,
                },
            )
        },
    }
}

/// The `codec|rate|channels|layout` line of the first audio stream: a
/// stream with no codec name, or fewer fields, is no stream.
pub open spec fn audio_stream_spec(csv: Seq<char>) -> Option<AudioView> {
    let f = split_on(trim(csv), '|');
    if f.len() >= 4 && f[0].len() > 0 {
        Some(AudioView { codec: f[0], sample_rate: f[1], channels: f[2], layout: f[3] })
    } else {
        None
    }
}

pub fn parse_audio_stream(csv: &str) -> (r: Option<AudioProbe>)
    ensures
        audio_opt_view(r) == audio_stream_spec(csv@),
{
    let t = trimmed(&chars_of(csv));
    let f = split_on_char(&t, '|');
    proof {
        assert(views(f@).len() == f.len());
    }
    if f.len() >= 4 && f[0].len() > 0 {
        assert(views(f@)[0] == f@[0]@ && views(f@)[1] == f@[1]@ && views(f@)[2] == f@[2]@
            && views(f@)[3] == f@[3]@);
        Some(
            AudioProbe {
                codec: string_of(&f[0]),
                sample_rate: string_of(&f[1]),
                channels: string_of(&f[2]),
                layout: string_of(&f[3]),
            },
        )
    } else {
        assert(f.len() >= 4 ==> views(f@)[0] == f@[0]@);
        None
    }
}

/// How the parts of a probe make a whole: a source without keyframes, or
/// whose size could not be read, is refused, in that order.
pub open spec fn assemble_spec(video: VideoStreamView, keyframes: Seq<u64>) -> Result<(u32, u32), ProbeError> {
    if keyframes.len() == 0 {
        Err(ProbeError::NoKeyframes)
    } else {
        match (video.width, video.height) {
            (None, _) => Err(ProbeError::InvalidWidth),
            (Some(_), None) => Err(ProbeError::InvalidHeight),
            (Some(w), Some(h)) => Ok((w, h)),
        }
    }
}

impl MediaProbe {
    /// Puts a probe together from its parts.
    pub fn assemble(
        video: VideoStream,
        audio: Option<AudioProbe>,
        format: String,
        duration_ms: u64,
        keyframes_ms: Vec<u64>,
    ) -> (r: Result<MediaProbe, ProbeError>)
        ensures
            match r {
                Ok(m) => assemble_spec(video@, keyframes_ms@) == Ok::<(u32, u32), ProbeError>(
                    (m.width, m.height),
                ) && m@ == (MediaView {
                    format: format@,
                    video_codec: video.codec@,
                    width: m.width,
                    height: m.height,
                    fps_n: video.fps_n,
                    fps_d: video.fps_d,
                    audio: audio_opt_view(audio),
                    duration_ms,
                    keyframes_ms: keyframes_ms@,
                }),
                Err(e) => assemble_spec(video@, keyframes_ms@) == Err::<(u32, u32), ProbeError>(e),
            },
    {
        if keyframes_ms.len() == 0 {
            return Err(ProbeError::NoKeyframes);
        }
        let width = match video.width {
            Some(w) => w,
            None => {
                return Err(ProbeError::InvalidWidth);
            },
        };
        let height = match video.height {
            Some(h) => h,
            None => {
                return Err(ProbeError::InvalidHeight);
            },
        };
        Ok(
            MediaProbe {
                format,
                video_codec: video.codec,
                width,
                height,
                fps_n: video.fps_n,
                fps_d: video.fps_d,
                audio,
                duration_ms,
                keyframes_ms,
            },
        )
    }
}

// ---------------------------------------------------------------------------
// Keyframes
// ---------------------------------------------------------------------------

/// How far a cut may lie from a keyframe and still count as on it.
pub const KEYFRAME_TOLERANCE_MS: u64 = 4;

/// How close to the end of the source a cut counts as the end.
pub const END_SLACK_MS: u64 = 50;

pub open spec fn abs_diff(a: u64, b: u64) -> int {
    if a >= b {
        a - b
    } else {
        b - a
    }
}

/// Some keyframe lies within the tolerance of `t`.
pub open spec fn near_keyframe(keyframes: Seq<u64>, t: u64) -> bool {
    exists|i: int| 0 <= i < keyframes.len() && abs_diff(#[trigger] keyframes[i], t) <= KEYFRAME_TOLERANCE_MS
}

/// A cut from `start_ms` to `end_ms` can be copied without decoding: it
/// starts at the beginning or on a keyframe, and ends at (about) the end or
/// on a keyframe.
pub open spec fn keyframe_aligned_spec(m: MediaView, start_ms: u64, end_ms: u64) -> bool {
    &&& (start_ms == 0 || near_keyframe(m.keyframes_ms, start_ms))
    &&& (end_ms >= (if m.duration_ms >= END_SLACK_MS {
        m.duration_ms - END_SLACK_MS
    } else {
        0
    }) || near_keyframe(m.keyframes_ms, end_ms))
}

fn near_keyframe_exec(keyframes: &Vec<u64>, t: u64) -> (r: bool)
    ensures
        r == near_keyframe(keyframes@, t),
{
    let mut i: usize = 0;
    while i < keyframes.len()
        invariant
            i <= keyframes.len(),
            forall|j: int| 0 <= j < i ==> abs_diff(#[trigger] keyframes@[j], t) > KEYFRAME_TOLERANCE_MS,
        decreases keyframes.len() - i,
    {
        let k = keyframes[i];
        let d = if k >= t {
            k - t
        } else {
            t - k
        };
        if d <= KEYFRAME_TOLERANCE_MS {
            assert(abs_diff(keyframes@[i as int], t) <= KEYFRAME_TOLERANCE_MS);
            return true;
        }
        i = i + 1;
    }
    false
}

impl MediaProbe {
    /// Whether the cut from `start_ms` to `end_ms` falls on keyframes.
    pub fn keyframe_aligned(&self, start_ms: u64, end_ms: u64) -> (r: bool)
        ensures
            r == keyframe_aligned_spec(self@, start_ms, end_ms),
    {
        let start_ok = start_ms == 0 || near_keyframe_exec(&self.keyframes_ms, start_ms);
        let end_ok = end_ms >= self.duration_ms.saturating_sub(END_SLACK_MS) || near_keyframe_exec(
            &self.keyframes_ms,
            end_ms,
        );
        start_ok && end_ok
    }
}

} // verus!
