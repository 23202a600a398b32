//! Output containers, codecs and quality levels.
use vstd::prelude::*;


verus! {

#[derive(Debug, Copy, Clone, PartialEq, Eq, Structural)]
pub enum ContainerFormat {
    Best,
    Same,
    Matroska,
    Mpeg,
    WebM,
    GifContainer,
}

#[derive(Debug, Copy, Clone, PartialEq, Eq, Structural)]
pub enum VideoEncoding {
    Av1,
    Vp8,
    Vp9,
    H264,
    H265,
    Gif,
}

#[derive(Debug, Copy, Clone, PartialEq, Eq, Structural)]
pub enum AudioEncoding {
    Aac,
    Ac3,
    Opus,
    Vorbis,
    Flac,
}

pub open spec fn all_containers() -> Seq<ContainerFormat> {
    seq![
        ContainerFormat::Best,
        ContainerFormat::Same,
        ContainerFormat::Matroska,
        ContainerFormat::Mpeg,
        ContainerFormat::WebM,
        ContainerFormat::GifContainer,
    ]
}

/// The video and audio codecs each container can be paired with, in the
/// order they are offered.
pub open spec fn container_matchings(c: ContainerFormat) -> (Seq<VideoEncoding>, Seq<AudioEncoding>) {
    match c {
        ContainerFormat::Best => (seq![VideoEncoding::Av1], seq![AudioEncoding::Opus]),
        ContainerFormat::Same => (seq![], seq![]),
        ContainerFormat::Matroska => (
            seq![
                VideoEncoding::Av1,
                VideoEncoding::Vp9,
                VideoEncoding::Vp8,
                VideoEncoding::H264,
                VideoEncoding::H265,
            ],
            seq![
                AudioEncoding::Vorbis,
                AudioEncoding::Opus,
                AudioEncoding::Aac,
                AudioEncoding::Ac3,
                AudioEncoding::Flac,
            ],
        ),
        ContainerFormat::Mpeg => (
            seq![
                VideoEncoding::Av1,
                VideoEncoding::Vp9,
                VideoEncoding::Vp8,
                VideoEncoding::H264,
                VideoEncoding::H265,
            ],
            seq![AudioEncoding::Opus, AudioEncoding::Aac, AudioEncoding::Ac3, AudioEncoding::Flac],
        ),
        ContainerFormat::WebM => (
            seq![VideoEncoding::Av1, VideoEncoding::Vp8, VideoEncoding::Vp9],
            seq![AudioEncoding::Vorbis, AudioEncoding::Opus],
        ),
        ContainerFormat::GifContainer => (seq![VideoEncoding::Gif], seq![]),
    }
}

/// Every container offers exactly the codecs it can carry: MKV and MP4
/// every video codec but GIF, WebM AV1, VP8 and VP9, GIF only GIF, the
/// recommended format AV1; for sound, MKV Vorbis, Opus, AAC, AC3 and FLAC,
/// MP4 all of these but Vorbis, WebM Vorbis and Opus, the recommended
/// format Opus, and GIF none. Keeping the source's container offers nothing
/// to choose. No codec is offered twice.
pub proof fn law_containers_offer_what_they_carry(c: ContainerFormat, v: VideoEncoding, a: AudioEncoding)
    ensures
        container_matchings(c).0.contains(v) <==> match c {
            ContainerFormat::Matroska | ContainerFormat::Mpeg => v != VideoEncoding::Gif,
            ContainerFormat::WebM => v == VideoEncoding::Av1 || v == VideoEncoding::Vp8 || v
                == VideoEncoding::Vp9,
            ContainerFormat::GifContainer => v == VideoEncoding::Gif,
            ContainerFormat::Best => v == VideoEncoding::Av1,
            ContainerFormat::Same => false,
        },
        container_matchings(c).1.contains(a) <==> match c {
            ContainerFormat::Matroska => true,
            ContainerFormat::Mpeg => a != AudioEncoding::Vorbis,
            ContainerFormat::WebM => a == AudioEncoding::Vorbis || a == AudioEncoding::Opus,
            ContainerFormat::Best => a == AudioEncoding::Opus,
            ContainerFormat::GifContainer | ContainerFormat::Same => false,
        },
        container_matchings(c).0.no_duplicates(),
        container_matchings(c).1.no_duplicates(),
{
    lemma_contains_upto5(container_matchings(c).0, v);
    lemma_contains_upto5(container_matchings(c).1, a);
}

/// Membership in a sequence of at most five items, item by item.
proof fn lemma_contains_upto5<A>(s: Seq<A>, x: A)
    requires
        s.len() <= 5,
    ensures
        s.contains(x) <==> ((s.len() > 0 && s[0] == x) || (s.len() > 1 && s[1] == x) || (s.len() > 2
            && s[2] == x) || (s.len() > 3 && s[3] == x) || (s.len() > 4 && s[4] == x)),
{
    if s.contains(x) {
        let i = choose|i: int| 0 <= i < s.len() && s[i] == x;
        assert(i == 0 || i == 1 || i == 2 || i == 3 || i == 4);
    }
    if s.len() > 0 && s[0] == x {
        assert(s.contains(x));
    }
    if s.len() > 1 && s[1] == x {
        assert(s.contains(x));
    }
    if s.len() > 2 && s[2] == x {
        assert(s.contains(x));
    }
    if s.len() > 3 && s[3] == x {
        assert(s.contains(x));
    }
    if s.len() > 4 && s[4] == x {
        assert(s.contains(x));
    }
}

/// The media type of a container (undefined for `Same`, which keeps the
/// source's container).
pub open spec fn container_mime(c: ContainerFormat) -> Seq<char> {
    match c {
        ContainerFormat::Best => "video/webm"@,
        ContainerFormat::Matroska => "video/x-matroska"@,
        ContainerFormat::Mpeg => "video/quicktime"@,
        ContainerFormat::WebM => "video/webm"@,
        ContainerFormat::GifContainer => "image/gif"@,
        ContainerFormat::Same => seq![],
    }
}

pub open spec fn container_extension(c: ContainerFormat) -> Seq<char> {
    match c {
        ContainerFormat::Best => "webm"@,
        ContainerFormat::Matroska => "mkv"@,
        ContainerFormat::Mpeg => "mp4"@,
        ContainerFormat::WebM => "webm"@,
        ContainerFormat::GifContainer => "gif"@,
        ContainerFormat::Same => seq![],
    }
}

/// A container's files end in `.webm` exactly when its media type is WebM.
pub proof fn law_webm_extension_matches_type(c: ContainerFormat)
    requires
        c != ContainerFormat::Same,
    ensures
        (container_extension(c) == "webm"@) <==> (container_mime(c) == "video/webm"@),
{
    reveal_strlit("webm");
    reveal_strlit("mkv");
    reveal_strlit("mp4");
    reveal_strlit("gif");
    reveal_strlit("video/webm");
    reveal_strlit("video/x-matroska");
    reveal_strlit("video/quicktime");
    reveal_strlit("image/gif");
    assert("mkv"@.len() != "webm"@.len());
    assert("mp4"@.len() != "webm"@.len());
    assert("gif"@.len() != "webm"@.len());
    assert("video/x-matroska"@.len() != "video/webm"@.len());
    assert("video/quicktime"@.len() != "video/webm"@.len());
    assert("image/gif"@.len() != "video/webm"@.len());
}

impl ContainerFormat {
    pub fn get_all() -> (r: Vec<ContainerFormat>)
        ensures
            r@ == all_containers(),
    {
        let r = vec![
            ContainerFormat::Best,
            ContainerFormat::Same,
            ContainerFormat::Matroska,
            ContainerFormat::Mpeg,
            ContainerFormat::WebM,
            ContainerFormat::GifContainer,
        ];
        assert(r@ =~= all_containers());
        r
    }

    pub fn viable_matchings(&self) -> (r: (Vec<VideoEncoding>, Vec<AudioEncoding>))
        ensures
            r.0@ == container_matchings(*self).0,
            r.1@ == container_matchings(*self).1,
    {
        let r = match self {
            ContainerFormat::Best => (vec![VideoEncoding::Av1], vec![AudioEncoding::Opus]),
            ContainerFormat::Same => (vec![], vec![]),
            ContainerFormat::Matroska => (
                vec![
                    VideoEncoding::Av1,
                    VideoEncoding::Vp9,
                    VideoEncoding::Vp8,
                    VideoEncoding::H264,
                    VideoEncoding::H265,
                ],
                vec![
                    AudioEncoding::Vorbis,
                    AudioEncoding::Opus,
                    AudioEncoding::Aac,
                    AudioEncoding::Ac3,
                    AudioEncoding::Flac,
                ],
            ),
            ContainerFormat::Mpeg => (
                vec![
                    VideoEncoding::Av1,
                    VideoEncoding::Vp9,
                    VideoEncoding::Vp8,
                    VideoEncoding::H264,
                    VideoEncoding::H265,
                ],
                vec![AudioEncoding::Opus, AudioEncoding::Aac, AudioEncoding::Ac3, AudioEncoding::Flac],
            ),
            ContainerFormat::WebM => (
                vec![VideoEncoding::Av1, VideoEncoding::Vp8, VideoEncoding::Vp9],
                vec![AudioEncoding::Vorbis, AudioEncoding::Opus],
            ),
            ContainerFormat::GifContainer => (vec![VideoEncoding::Gif], vec![]),
        };
        assert(r.0@ =~= container_matchings(*self).0);
        assert(r.1@ =~= container_matchings(*self).1);
        r
    }

    pub fn format(&self) -> (r: &'static str)
        requires
            *self != ContainerFormat::Same,
        ensures
            r@ == container_mime(*self),
    {
        match self {
            ContainerFormat::Best => "video/webm",
            ContainerFormat::Matroska => "video/x-matroska",
            ContainerFormat::Mpeg => "video/quicktime",
            ContainerFormat::WebM => "video/webm",
            ContainerFormat::GifContainer => "image/gif",
            ContainerFormat::Same => unreached(),
        }
    }

    pub fn extension(&self) -> (r: &str)
        requires
            *self != ContainerFormat::Same,
        ensures
            r@ == container_extension(*self),
    {
        match self {
            ContainerFormat::Best => "webm",
            ContainerFormat::Matroska => "mkv",
            ContainerFormat::Mpeg => "mp4",
            ContainerFormat::WebM => "webm",
            ContainerFormat::GifContainer => "gif",
            ContainerFormat::Same => unreached(),
        }
    }

    /// The label of this format as written in the source language.
    pub fn display_msgid(&self) -> (r: &'static str)
        ensures
            r@ == match *self {
                ContainerFormat::Best => "Recommended (WEBM, AV1, Opus)"@,
                ContainerFormat::Same => "Keep as-is"@,
                ContainerFormat::Matroska => "MKV"@,
                ContainerFormat::Mpeg => "MP4"@,
                ContainerFormat::WebM => "WEBM"@,
                ContainerFormat::GifContainer => "GIF"@,
            },
    {
        proof {
            reveal_strlit("Recommended (WEBM, AV1, Opus)");
            reveal_strlit("Keep as-is");
            reveal_strlit("MKV");
            reveal_strlit("MP4");
            reveal_strlit("WEBM");
            reveal_strlit("GIF");
        }
        match self {
            ContainerFormat::Best => "Recommended (WEBM, AV1, Opus)",
            ContainerFormat::Same => "Keep as-is",
            ContainerFormat::Matroska => "MKV",
            ContainerFormat::Mpeg => "MP4",
            ContainerFormat::WebM => "WEBM",
            ContainerFormat::GifContainer => "GIF",
        }
    }

    /// Whether the label is translated before it is shown: only the two
    /// descriptive labels are; the format names are shown as they are.
    pub fn label_is_translated(&self) -> (r: bool)
        ensures
            r == (*self == ContainerFormat::Best || *self == ContainerFormat::Same),
    {
        match self {
            ContainerFormat::Best | ContainerFormat::Same => true,
            _ => false,
        }
    }
}

pub open spec fn video_mime(v: VideoEncoding) -> Seq<char> {
    match v {
        VideoEncoding::Av1 => "video/x-av1"@,
        VideoEncoding::Vp8 => "video/x-vp8"@,
        VideoEncoding::Vp9 => "video/x-vp9"@,
        VideoEncoding::H264 => "video/x-h264"@,
        VideoEncoding::H265 => "video/x-h265"@,
        VideoEncoding::Gif => "image/gif"@,
    }
}

/// The GStreamer software encoder element of each codec.
pub open spec fn video_preset(v: VideoEncoding) -> Seq<char> {
    match v {
        VideoEncoding::Av1 => "svtav1enc"@,
        VideoEncoding::Vp8 => "vp8enc"@,
        VideoEncoding::Vp9 => "vp9enc"@,
        VideoEncoding::H264 => "x264enc"@,
        VideoEncoding::H265 => "x265enc"@,
        VideoEncoding::Gif => "gifenc"@,
    }
}

/// `(property name, multiplier)` through which a software encoder takes its
/// target bitrate: the value to pass is the rate in kbit/s times the
/// multiplier. x264enc and x265enc take kbit/s; svtav1enc, vp8enc and
/// vp9enc take bits/s.
pub open spec fn video_bitrate_property(v: VideoEncoding) -> (Seq<char>, u32) {
    match v {
        VideoEncoding::H264 | VideoEncoding::H265 => ("bitrate"@, 1),
        VideoEncoding::Av1 => ("target-bitrate"@, 1000),
        VideoEncoding::Vp8 | VideoEncoding::Vp9 => ("target-bitrate"@, 1000),
        VideoEncoding::Gif => (seq![], 0),
    }
}

/// The NVENC encoder element of a codec and its bitrate property, if any.
pub open spec fn video_hardware_encoder(v: VideoEncoding) -> Option<(Seq<char>, (Seq<char>, u32))> {
    match v {
        VideoEncoding::H264 => Some(("nvh264enc"@, ("bitrate"@, 1))),
        VideoEncoding::H265 => Some(("nvh265enc"@, ("bitrate"@, 1))),
        VideoEncoding::Av1 => Some(("nvav1enc"@, ("bitrate"@, 1))),
        _ => None,
    }
}

pub open spec fn video_label(v: VideoEncoding) -> Seq<char> {
    match v {
        VideoEncoding::Av1 => "AV1"@,
        VideoEncoding::Vp8 => "VP8"@,
        VideoEncoding::Vp9 => "VP9"@,
        VideoEncoding::H264 => "H264"@,
        VideoEncoding::H265 => "H265"@,
        VideoEncoding::Gif => "GIF"@,
    }
}

/// The ffmpeg encoders of a codec: software, and NVENC where there is one.
pub open spec fn video_ffmpeg_encoders(v: VideoEncoding) -> (Seq<char>, Option<Seq<char>>) {
    match v {
        VideoEncoding::H264 => ("libx264"@, Some("h264_nvenc"@)),
        VideoEncoding::H265 => ("libx265"@, Some("hevc_nvenc"@)),
        VideoEncoding::Av1 => ("libsvtav1"@, Some("av1_nvenc"@)),
        VideoEncoding::Vp8 => ("libvpx"@, None),
        VideoEncoding::Vp9 => ("libvpx-vp9"@, None),
        VideoEncoding::Gif => ("gif"@, None),
    }
}

/// Views of an optional string slice.
pub open spec fn opt_str_view(o: Option<&str>) -> Option<Seq<char>> {
    match o {
        Some(s) => Some(s@),
        None => None,
    }
}

/// The encoder an export uses: NVENC when the GPU is preferred and the
/// codec's NVENC element is present, the software encoder otherwise.
pub open spec fn encoder_choice(
    v: VideoEncoding,
    prefer_gpu: bool,
    hardware_present: bool,
) -> (Seq<char>, bool, (Seq<char>, u32)) {
    match video_hardware_encoder(v) {
        Some((element, property)) if prefer_gpu && hardware_present => (element, true, property),
        _ => (video_preset(v), false, video_bitrate_property(v)),
    }
}

impl VideoEncoding {
    pub fn get_format(&self) -> (r: &'static str)
        ensures
            r@ == video_mime(*self),
    {
        match self {
            VideoEncoding::Av1 => "video/x-av1",
            VideoEncoding::Vp8 => "video/x-vp8",
            VideoEncoding::Vp9 => "video/x-vp9",
            VideoEncoding::H264 => "video/x-h264",
            VideoEncoding::H265 => "video/x-h265",
            VideoEncoding::Gif => "image/gif",
        }
    }

    pub fn get_preset_name(&self) -> (r: &'static str)
        ensures
            r@ == video_preset(*self),
    {
        match self {
            VideoEncoding::Av1 => "svtav1enc",
            VideoEncoding::Vp8 => "vp8enc",
            VideoEncoding::Vp9 => "vp9enc",
            VideoEncoding::H264 => "x264enc",
            VideoEncoding::H265 => "x265enc",
            VideoEncoding::Gif => "gifenc",
        }
    }

    /// Returns (property_name, unit_multiplier) for bitrate.
    pub fn bitrate_property(&self) -> (r: (&'static str, u32))
        ensures
            r.0@ == video_bitrate_property(*self).0,
            r.1 == video_bitrate_property(*self).1,
    {
        proof {
            reveal_strlit("");
        }
        match self {
            VideoEncoding::H264 | VideoEncoding::H265 => ("bitrate", 1),
            VideoEncoding::Av1 => ("target-bitrate", 1000),
            VideoEncoding::Vp8 | VideoEncoding::Vp9 => ("target-bitrate", 1000),
            VideoEncoding::Gif => ("", 0),
        }
    }

    /// NVENC hardware encoder factory and its bitrate property (in kbit/s),
    /// if one exists for this codec.
    pub fn hardware_encoder(&self) -> (r: Option<(&'static str, (&'static str, u32))>)
        ensures
            match r {
                Some((element, (property, multiplier))) => video_hardware_encoder(*self) == Some(
                    (element@, (property@, multiplier)),
                ),
                None => video_hardware_encoder(*self) is None,
            },
    {
        match self {
            VideoEncoding::H264 => Some(("nvh264enc", ("bitrate", 1))),
            VideoEncoding::H265 => Some(("nvh265enc", ("bitrate", 1))),
            VideoEncoding::Av1 => Some(("nvav1enc", ("bitrate", 1))),
            VideoEncoding::Vp8 | VideoEncoding::Vp9 | VideoEncoding::Gif => None,
        }
    }

    /// The encoder element to use, given whether the GPU is preferred and
    /// whether this codec's NVENC element is present in the registry.
    pub fn choose_encoder(&self, prefer_gpu: bool, hardware_present: bool) -> (r: ResolvedVideoEncoder)
        ensures
            (r.element@, r.hardware, (r.bitrate_property.0@, r.bitrate_property.1)) == encoder_choice(
                *self,
                prefer_gpu,
                hardware_present,
            ),
    {
        if prefer_gpu && hardware_present {
            if let Some((element, bitrate_property)) = self.hardware_encoder() {
                return ResolvedVideoEncoder { element, hardware: true, bitrate_property };
            }
        }
        ResolvedVideoEncoder {
            element: self.get_preset_name(),
            hardware: false,
            bitrate_property: self.bitrate_property(),
        }
    }

    pub fn for_display(&self) -> (r: &str)
        ensures
            r@ == video_label(*self),
    {
        match self {
            VideoEncoding::Av1 => "AV1",
            VideoEncoding::Vp8 => "VP8",
            VideoEncoding::Vp9 => "VP9",
            VideoEncoding::H264 => "H264",
            VideoEncoding::H265 => "H265",
            VideoEncoding::Gif => "GIF",
        }
    }

    /// ffmpeg encoders for this codec: (software, optional NVENC hardware).
    pub fn ffmpeg_encoders(&self) -> (r: (&'static str, Option<&'static str>))
        ensures
            r.0@ == video_ffmpeg_encoders(*self).0,
            opt_str_view(r.1) == video_ffmpeg_encoders(*self).1,
    {
        match self {
            VideoEncoding::H264 => ("libx264", Some("h264_nvenc")),
            VideoEncoding::H265 => ("libx265", Some("hevc_nvenc")),
            VideoEncoding::Av1 => ("libsvtav1", Some("av1_nvenc")),
            VideoEncoding::Vp8 => ("libvpx", None),
            VideoEncoding::Vp9 => ("libvpx-vp9", None),
            VideoEncoding::Gif => ("gif", None),
        }
    }
}

pub open spec fn audio_mime(a: AudioEncoding) -> Seq<char> {
    match a {
        AudioEncoding::Aac => "audio/mpeg"@,
        AudioEncoding::Ac3 => "audio/x-ac3"@,
        AudioEncoding::Opus => "audio/x-opus"@,
        AudioEncoding::Vorbis => "audio/x-vorbis"@,
        AudioEncoding::Flac => "audio/x-flac"@,
    }
}

pub open spec fn audio_label(a: AudioEncoding) -> Seq<char> {
    match a {
        AudioEncoding::Aac => "AAC"@,
        AudioEncoding::Ac3 => "AC3"@,
        AudioEncoding::Opus => "Opus"@,
        AudioEncoding::Vorbis => "Vorbis"@,
        AudioEncoding::Flac => "FLAC"@,
    }
}

pub open spec fn audio_ffmpeg_codec(a: AudioEncoding) -> Seq<char> {
    match a {
        AudioEncoding::Aac => "aac"@,
        AudioEncoding::Ac3 => "ac3"@,
        AudioEncoding::Opus => "libopus"@,
        AudioEncoding::Vorbis => "libvorbis"@,
        AudioEncoding::Flac => "flac"@,
    }
}

impl AudioEncoding {
    pub fn get_format(&self) -> (r: &'static str)
        ensures
            r@ == audio_mime(*self),
    {
        match self {
            AudioEncoding::Aac => "audio/mpeg",
            AudioEncoding::Ac3 => "audio/x-ac3",
            AudioEncoding::Opus => "audio/x-opus",
            AudioEncoding::Vorbis => "audio/x-vorbis",
            AudioEncoding::Flac => "audio/x-flac",
        }
    }

    pub fn for_display(&self) -> (r: &str)
        ensures
            r@ == audio_label(*self),
    {
        match self {
            AudioEncoding::Aac => "AAC",
            AudioEncoding::Ac3 => "AC3",
            AudioEncoding::Opus => "Opus",
            AudioEncoding::Vorbis => "Vorbis",
            AudioEncoding::Flac => "FLAC",
        }
    }

    /// ffmpeg audio encoder name for this codec.
    pub fn ffmpeg_codec(&self) -> (r: &'static str)
        ensures
            r@ == audio_ffmpeg_codec(*self),
    {
        match self {
            AudioEncoding::Aac => "aac",
            AudioEncoding::Ac3 => "ac3",
            AudioEncoding::Opus => "libopus",
            AudioEncoding::Vorbis => "libvorbis",
            AudioEncoding::Flac => "flac",
        }
    }
}

#[derive(Debug, Copy, Clone, PartialEq, Eq, Structural)]
pub enum Quality {
    Low,
    Medium,
    High,
    Unchanged,
}

impl Quality {
    pub fn from_index(index: u32) -> (r: Self)
        ensures
            r == match index {
                0 => Quality::Low,
                1 => Quality::Medium,
                2 => Quality::High,
                _ => Quality::Unchanged,
            },
    {
        match index {
            0 => Quality::Low,
            1 => Quality::Medium,
            2 => Quality::High,
            _ => Quality::Unchanged,
        }
    }
}

#[derive(Debug)]
pub struct OutputFormat {
    pub container_format: ContainerFormat,
    pub video_encoding: Option<VideoEncoding>,
    pub audio_encoding: Option<AudioEncoding>,
    pub quality: Quality,
}

/// The concrete encoder chosen for an export, after deciding between GPU and CPU.
#[derive(Debug, Clone, Copy)]
pub struct ResolvedVideoEncoder {
    /// GStreamer element factory name (e.g. `nvh264enc`, `x264enc`).
    pub element: &'static str,
    /// Whether this is a hardware (GPU) encoder.
    pub hardware: bool,
    /// (property_name, unit_multiplier) for setting the target bitrate.
    pub bitrate_property: (&'static str, u32),
}

impl ResolvedVideoEncoder {
    /// Short human-readable label for the UI, e.g. "GPU · NVENC (nvh264enc)".
    pub fn label(&self) -> (r: String)
        ensures
            r@ == if self.hardware {
                "GPU · NVENC ("@ + self.element@ + ")"@
            } else {
                "CPU · "@ + self.element@ + " (software)"@
            },
    {
        if self.hardware {
            let mut s = String::from_str("GPU · NVENC (");
            s.append(self.element);
            s.append(")");
            s
        } else {
            let mut s = String::from_str("CPU · ");
            s.append(self.element);
            s.append(" (software)");
            s
        }
    }
}

// ---------------------------------------------------------------------------
// Laws
// ---------------------------------------------------------------------------

/// Every container but `Same` has a media type, an extension and at least
/// one video codec to pair with.
pub proof fn law_containers_are_complete(c: ContainerFormat)
    requires
        c != ContainerFormat::Same,
    ensures
        container_mime(c).len() > 0,
        container_extension(c).len() > 0,
        container_matchings(c).0.len() > 0,
{
    reveal_strlit("video/webm");
    reveal_strlit("video/x-matroska");
    reveal_strlit("video/quicktime");
    reveal_strlit("image/gif");
    reveal_strlit("webm");
    reveal_strlit("mkv");
    reveal_strlit("mp4");
    reveal_strlit("gif");
}

/// A hardware encoder is only chosen when the GPU is preferred and its
/// element is present; otherwise the software encoder and its bitrate
/// property are used.
pub proof fn law_encoder_choice(v: VideoEncoding, prefer_gpu: bool, hardware_present: bool)
    ensures
        encoder_choice(v, prefer_gpu, hardware_present).1 ==> prefer_gpu && hardware_present
            && video_hardware_encoder(v) is Some,
        !encoder_choice(v, prefer_gpu, hardware_present).1 ==> encoder_choice(
            v,
            prefer_gpu,
            hardware_present,
        ) == (video_preset(v), false, video_bitrate_property(v)),
{
}

} // verus!
