//! The ffmpeg command lines of an export, the order of its passes and how
//! far along it is.
//!
//! Every command starts with the shared prefix and is given a progress
//! pipe by whoever runs it; what lies between is built here as a list of
//! arguments. Paths are passed as text.
use vstd::prelude::*;

use crate::adjustments::{
    PlaybackSpeed, Repeat, RepeatMode, repeat_is_off, speed_audio_filter,
    speed_output_ms,
};
use crate::media::{Dimensions, Framerate};
use crate::profiles::{
    OutputFormat, Quality, VideoEncoding, audio_ffmpeg_codec, video_ffmpeg_encoders,
};
use crate::paths::{file_stem_of, path_file_stem};
use crate::segments::{ClipSegment, SegmentExportMode, monus};
use crate::text::{
    chars_of, decimal, decimal_string, padded, padded_decimal, replace, replace_exec, string_of,
    strip_trailing, strip_trailing_char, texts,
};

verus! {

// ---------------------------------------------------------------------------
// Argument lists
// ---------------------------------------------------------------------------

fn push_text(v: &mut Vec<String>, s: &str)
    ensures
        texts(final(v)@) == texts(old(v)@).push(s@),
{
    v.push(String::from_str(s));
    assert(texts(v@) =~= texts(old(v)@).push(s@));
}

fn push_string(v: &mut Vec<String>, s: String)
    ensures
        texts(final(v)@) == texts(old(v)@).push(s@),
{
    let ghost t = s@;
    v.push(s);
    assert(texts(v@) =~= texts(old(v)@).push(t));
}

fn push_all(v: &mut Vec<String>, items: &Vec<String>)
    ensures
        texts(final(v)@) == texts(old(v)@) + texts(items@),
{
    let mut i: usize = 0;
    while i < items.len()
        invariant
            i <= items.len(),
            texts(v@) == texts(old(v)@) + texts(items@).take(i as int),
        decreases items.len() - i,
    {
        let s = items[i].clone();
        push_string(v, s);
        assert(texts(items@).take(i + 1) =~= texts(items@).take(i as int).push(items@[i as int]@));
        i = i + 1;
    }
    assert(texts(items@).take(items.len() as int) =~= texts(items@));
}

/// The prefix of every ffmpeg command: overwrite, never read the terminal,
/// print errors only.
pub open spec fn base_args_spec() -> Seq<Seq<char>> {
    seq!["-y"@, "-nostdin"@, "-hide_banner"@, "-loglevel"@, "error"@]
}

pub fn ffmpeg_base_args() -> (r: Vec<String>)
    ensures
        texts(r@) == base_args_spec(),
{
    let mut v: Vec<String> = Vec::new();
    push_text(&mut v, "-y");
    push_text(&mut v, "-nostdin");
    push_text(&mut v, "-hide_banner");
    push_text(&mut v, "-loglevel");
    push_text(&mut v, "error");
    assert(texts(v@) =~= base_args_spec());
    v
}

/// What a stage adds so that its progress can be followed.
pub open spec fn progress_args_spec() -> Seq<Seq<char>> {
    seq!["-progress"@, "pipe:1"@, "-nostats"@]
}

pub fn ffmpeg_progress_args() -> (r: Vec<String>)
    ensures
        texts(r@) == progress_args_spec(),
{
    let mut v: Vec<String> = Vec::new();
    push_text(&mut v, "-progress");
    push_text(&mut v, "pipe:1");
    push_text(&mut v, "-nostats");
    assert(texts(v@) =~= progress_args_spec());
    v
}

// ---------------------------------------------------------------------------
// Encoders and quality
// ---------------------------------------------------------------------------

/// The ffmpeg encoder for a codec: the hardware one when it is preferred
/// and usable, else the software one.
pub open spec fn ffmpeg_encoder_spec(v: VideoEncoding, prefer_gpu: bool, hardware_usable: bool) -> Seq<char> {
    match video_ffmpeg_encoders(v).1 {
        Some(h) => if prefer_gpu && hardware_usable {
            h
        } else {
            video_ffmpeg_encoders(v).0
        },
        None => video_ffmpeg_encoders(v).0,
    }
}

/// Picks the encoder; `hardware_usable` says whether the codec's hardware
/// encoder works on this machine (it is not asked when there is none or it
/// is not preferred).
pub fn choose_ffmpeg_encoder(v: VideoEncoding, prefer_gpu: bool, hardware_usable: bool) -> (r: &'static str)
    ensures
        r@ == ffmpeg_encoder_spec(v, prefer_gpu, hardware_usable),
{
    let (software, hardware) = v.ffmpeg_encoders();
    match hardware {
        Some(h) => if prefer_gpu && hardware_usable {
            h
        } else {
            software
        },
        None => software,
    }
}

/// The hardware encoders whose use is tried on the machine before they are
/// offered.
pub open spec fn is_known_hardware_encoder(name: Seq<char>) -> bool {
    name == "h264_nvenc"@ || name == "hevc_nvenc"@ || name == "av1_nvenc"@
}

fn str_eq(a: &str, b: &str) -> (r: bool)
    ensures
        r == (a@ == b@),
{
    String::from_str(a) == String::from_str(b)
}

pub fn known_hardware_encoder(name: &str) -> (r: bool)
    ensures
        r == is_known_hardware_encoder(name@),
{
    str_eq(name, "h264_nvenc") || str_eq(name, "hevc_nvenc") || str_eq(name, "av1_nvenc")
}

/// The constant-quality level for a quality setting (lower is better).
pub open spec fn constant_quality(q: Quality) -> nat {
    match q {
        Quality::High => 23,
        Quality::Medium => 27,
        Quality::Low => 31,
        Quality::Unchanged => 24,
    }
}

/// Rate-control arguments for an encoder.
pub open spec fn quality_args_spec(encoder: Seq<char>, q: Quality) -> Seq<Seq<char>> {
    let cq = constant_quality(q);
    if is_known_hardware_encoder(encoder) {
        seq!["-rc"@, "vbr"@, "-cq"@, decimal(cq), "-b:v"@, "0"@]
    } else if encoder == "libx264"@ || encoder == "libx265"@ {
        seq!["-crf"@, decimal(cq)]
    } else if encoder == "libsvtav1"@ {
        seq!["-crf"@, decimal(cq + 10)]
    } else if encoder == "libvpx-vp9"@ {
        seq!["-crf"@, decimal(cq), "-b:v"@, "0"@]
    } else if encoder == "libvpx"@ {
        seq!["-crf"@, decimal(cq), "-b:v"@, "2M"@]
    } else {
        seq![]
    }
}

pub fn ffmpeg_quality_args(encoder: &str, quality: Quality) -> (r: Vec<String>)
    ensures
        texts(r@) == quality_args_spec(encoder@, quality),
{
    let cq: u64 = match quality {
        Quality::High => 23,
        Quality::Medium => 27,
        Quality::Low => 31,
        Quality::Unchanged => 24,
    };
    let mut v: Vec<String> = Vec::new();
    if known_hardware_encoder(encoder) {
        push_text(&mut v, "-rc");
        push_text(&mut v, "vbr");
        push_text(&mut v, "-cq");
        push_string(&mut v, decimal_string(cq));
        push_text(&mut v, "-b:v");
        push_text(&mut v, "0");
    } else if str_eq(encoder, "libx264") || str_eq(encoder, "libx265") {
        push_text(&mut v, "-crf");
        push_string(&mut v, decimal_string(cq));
    } else if str_eq(encoder, "libsvtav1") {
        push_text(&mut v, "-crf");
        push_string(&mut v, decimal_string(cq + 10));
    } else if str_eq(encoder, "libvpx-vp9") {
        push_text(&mut v, "-crf");
        push_string(&mut v, decimal_string(cq));
        push_text(&mut v, "-b:v");
        push_text(&mut v, "0");
    } else if str_eq(encoder, "libvpx") {
        push_text(&mut v, "-crf");
        push_string(&mut v, decimal_string(cq));
        push_text(&mut v, "-b:v");
        push_text(&mut v, "2M");
    }
    assert(texts(v@) =~= quality_args_spec(encoder@, quality));
    v
}

/// The audio encoder of an export: none when muted or when the format has
/// no audio codec.
pub open spec fn audio_codec_spec(f: OutputFormat, mute: bool) -> Option<Seq<char>> {
    if mute {
        None
    } else {
        match f.audio_encoding {
            Some(a) => Some(audio_ffmpeg_codec(a)),
            None => None,
        }
    }
}

pub fn export_audio_codec(output_format: &OutputFormat, mute: bool) -> (r: Option<&'static str>)
    ensures
        match r {
            Some(c) => audio_codec_spec(*output_format, mute) == Some(c@),
            None => audio_codec_spec(*output_format, mute) is None,
        },
{
    if mute {
        None
    } else {
        match output_format.audio_encoding {
            Some(a) => Some(a.ffmpeg_codec()),
            None => None,
        }
    }
}

/// The audio layout every part of a joined export is brought to, followed
/// by the speed change, if any.
pub open spec fn joined_audio_filter_spec(speed: PlaybackSpeed) -> Seq<char> {
    match speed_audio_filter(speed) {
        None => "aformat=sample_rates=48000:channel_layouts=stereo"@,
        Some(f) => "aformat=sample_rates=48000:channel_layouts=stereo"@ + ","@ + f,
    }
}

pub fn joined_audio_filter(speed: PlaybackSpeed) -> (r: String)
    ensures
        r@ == joined_audio_filter_spec(speed),
{
    let mut s = String::from_str("aformat=sample_rates=48000:channel_layouts=stereo");
    match speed.ffmpeg_audio_filter() {
        Some(f) => {
            s.append(",");
            s.append(f);
        },
        None => {},
    }
    s
}

// ---------------------------------------------------------------------------
// Times
// ---------------------------------------------------------------------------

/// Milliseconds as seconds with three decimals, as `{:.3}` prints
/// `ms / 1000.0`.
pub open spec fn seconds3(ms: u64) -> Seq<char> {
    decimal((ms / 1000) as nat) + "."@ + padded((ms % 1000) as nat, 3)
}

pub fn seconds3_text(ms: u64) -> (r: String)
    ensures
        r@ == seconds3(ms),
{
    let mut s = decimal_string(ms / 1000);
    s.append(".");
    let frac = padded_decimal(ms % 1000, 3);
    s.append(frac.as_str());
    s
}

/// Nanoseconds as seconds in the shortest form, as `{}` prints
/// `ns / 1e9`: no decimals for whole seconds, else the decimals without
/// trailing zeros.
pub open spec fn seconds_shortest(ns: u64) -> Seq<char> {
    let whole = decimal((ns / 1_000_000_000) as nat);
    if ns % 1_000_000_000 == 0 {
        whole
    } else {
        whole + "."@ + strip_trailing(padded((ns % 1_000_000_000) as nat, 9), '0')
    }
}

pub fn seconds_shortest_text(ns: u64) -> (r: String)
    ensures
        r@ == seconds_shortest(ns),
{
    let mut s = decimal_string(ns / 1_000_000_000);
    if ns % 1_000_000_000 != 0 {
        s.append(".");
        let frac = padded_decimal(ns % 1_000_000_000, 9);
        let kept = strip_trailing_char(&chars_of(frac.as_str()), '0');
        let t = string_of(&kept);
        s.append(t.as_str());
    }
    s
}

// ---------------------------------------------------------------------------
// Concat lists
// ---------------------------------------------------------------------------

/// One line of a concat list: the path quoted, with each quote in it
/// closed, escaped and reopened.
pub open spec fn concat_entry_spec(path: Seq<char>) -> Seq<char> {
    "file '"@ + replace(path, "'"@, "'\\''"@) + "'\n"@
}

pub fn concat_entry(path: &str) -> (r: String)
    ensures
        r@ == concat_entry_spec(path@),
{
    let quote = vec!['\''];
    let escaped = vec!['\'', '\\', '\'', '\''];
    proof {
        reveal_strlit("'");
        reveal_strlit("'\\''");
        assert(quote@ =~= "'"@);
        assert(escaped@ =~= "'\\''"@);
    }
    let body = replace_exec(&chars_of(path), &quote, &escaped);
    let mut s = String::from_str("file '");
    let b = string_of(&body);
    s.append(b.as_str());
    s.append("'\n");
    s
}

/// The lines for the paths, in order.
pub open spec fn entries(paths: Seq<Seq<char>>) -> Seq<char>
    decreases paths.len(),
{
    if paths.len() == 0 {
        seq![]
    } else {
        entries(paths.drop_last()) + concat_entry_spec(paths.last())
    }
}

/// The lines for the paths, last path first.
pub open spec fn entries_backwards(paths: Seq<Seq<char>>) -> Seq<char>
    decreases paths.len(),
{
    if paths.len() == 0 {
        seq![]
    } else {
        concat_entry_spec(paths.last()) + entries_backwards(paths.drop_last())
    }
}

/// A list joining the parts in order.
pub fn concat_list(parts: &Vec<String>) -> (r: String)
    ensures
        r@ == entries(texts(parts@)),
{
    let mut s = String::new();
    let mut i: usize = 0;
    while i < parts.len()
        invariant
            i <= parts.len(),
            s@ == entries(texts(parts@).take(i as int)),
        decreases parts.len() - i,
    {
        let e = concat_entry(parts[i].as_str());
        s.append(e.as_str());
        assert(texts(parts@).take(i + 1).drop_last() =~= texts(parts@).take(i as int));
        i = i + 1;
    }
    assert(texts(parts@).take(parts.len() as int) =~= texts(parts@));
    s
}

fn backwards_list(parts: &Vec<String>) -> (r: String)
    ensures
        r@ == entries_backwards(texts(parts@)),
{
    let mut s = String::new();
    let mut i: usize = parts.len();
    assert(texts(parts@).take(parts.len() as int) =~= texts(parts@));
    assert(s@ + entries_backwards(texts(parts@)) =~= entries_backwards(texts(parts@)));
    while i > 0
        invariant
            i <= parts.len(),
            s@ + entries_backwards(texts(parts@).take(i as int)) == entries_backwards(texts(parts@)),
        decreases i,
    {
        let e = concat_entry(parts[i - 1].as_str());
        let ghost before = s@;
        s.append(e.as_str());
        proof {
            let t = texts(parts@).take(i as int);
            assert(t.drop_last() =~= texts(parts@).take(i - 1));
            assert(t.last() == parts@[i - 1]@);
            assert(before + entries_backwards(t) == before + (e@ + entries_backwards(
                texts(parts@).take(i - 1),
            )));
            assert(before + (e@ + entries_backwards(texts(parts@).take(i - 1))) =~= s@
                + entries_backwards(texts(parts@).take(i - 1)));
        }
        i = i - 1;
    }
    assert(texts(parts@).take(0) =~= Seq::<Seq<char>>::empty());
    assert(s@ + Seq::<char>::empty() =~= s@);
    s
}

/// The list of a looped or bounced export: per cycle, the forward render
/// and then the reversed chunks, the last chunk of the forward render first.
pub open spec fn repeat_list_spec(forward: Seq<char>, chunks: Seq<Seq<char>>, cycles: nat) -> Seq<char>
    decreases cycles,
{
    if cycles == 0 {
        seq![]
    } else {
        repeat_list_spec(forward, chunks, (cycles - 1) as nat) + concat_entry_spec(forward)
            + entries_backwards(chunks)
    }
}

/// `chunks` are the reversed chunks in the order they were rendered.
pub fn repeat_concat_list(forward: &str, chunks: &Vec<String>, cycles: u32) -> (r: String)
    ensures
        r@ == repeat_list_spec(forward@, texts(chunks@), cycles as nat),
{
    let one_forward = concat_entry(forward);
    let back = backwards_list(chunks);
    let mut s = String::new();
    let mut k: u32 = 0;
    while k < cycles
        invariant
            k <= cycles,
            one_forward@ == concat_entry_spec(forward@),
            back@ == entries_backwards(texts(chunks@)),
            s@ == repeat_list_spec(forward@, texts(chunks@), k as nat),
        decreases cycles - k,
    {
        s.append(one_forward.as_str());
        s.append(back.as_str());
        k = k + 1;
        assert(s@ =~= repeat_list_spec(forward@, texts(chunks@), k as nat));
    }
    s
}

// ---------------------------------------------------------------------------
// Video filters
// ---------------------------------------------------------------------------

/// A crop in pixels of the oriented source.
#[derive(Debug, Clone, Copy, PartialEq, Eq, Structural)]
pub struct CropBox {
    pub width: u64,
    pub height: u64,
    pub x: u64,
    pub y: u64,
}

pub open spec fn crop_filter(c: CropBox) -> Seq<char> {
    "crop="@ + decimal(c.width as nat) + ":"@ + decimal(c.height as nat) + ":"@ + decimal(
        c.x as nat,
    ) + ":"@ + decimal(c.y as nat)
}

pub open spec fn scale_filter(d: Dimensions) -> Seq<char> {
    "libplacebo=w="@ + decimal(d.width as nat) + ":h="@ + decimal(d.height as nat)
        + ":upscaler=ewa_lanczossharp"@
}

/// The speed factor with four decimals, as `{:.4}` prints it.
pub open spec fn setpts_factor(speed: PlaybackSpeed) -> Seq<char> {
    match speed {
        PlaybackSpeed::Normal => "1.0000"@,
        PlaybackSpeed::ThreeQuarter => "0.7500"@,
        PlaybackSpeed::Half => "0.5000"@,
        PlaybackSpeed::Quarter => "0.2500"@,
    }
}

pub open spec fn fps_filter(f: Framerate) -> Seq<char> {
    "fps="@ + decimal(f.nominator as nat) + "/"@ + decimal(
        (if f.denominator >= 1 {
            f.denominator
        } else {
            1
        }) as nat,
    )
}

/// The video filters of a render, in order: orientation, crop, colour,
/// scaling (only when the size changes), speed, frame rate. `source` is the
/// oriented source's size, which is the size before scaling when nothing is
/// cropped.
pub open spec fn filter_chain_spec(
    orientation: Seq<Seq<char>>,
    crop: Option<CropBox>,
    color: Seq<Seq<char>>,
    source: (u64, u64),
    scaled: Dimensions,
    speed: PlaybackSpeed,
    framerate: Framerate,
) -> Seq<Seq<char>> {
    let cropped = match crop {
        Some(c) => orientation.push(crop_filter(c)),
        None => orientation,
    };
    let current = match crop {
        Some(c) => (c.width, c.height),
        None => source,
    };
    let scaling = if scaled.width != current.0 || scaled.height != current.1 {
        seq![scale_filter(scaled)]
    } else {
        seq![]
    };
    let timing = if speed != PlaybackSpeed::Normal {
        seq!["setpts=PTS/"@ + setpts_factor(speed)]
    } else {
        seq![]
    };
    cropped + color + scaling + timing + seq![fps_filter(framerate)]
}

fn setpts_factor_exec(speed: PlaybackSpeed) -> (r: &'static str)
    ensures
        r@ == setpts_factor(speed),
{
    match speed {
        PlaybackSpeed::Normal => "1.0000",
        PlaybackSpeed::ThreeQuarter => "0.7500",
        PlaybackSpeed::Half => "0.5000",
        PlaybackSpeed::Quarter => "0.2500",
    }
}

pub fn ffmpeg_filter_chain(
    orientation: &Vec<String>,
    crop: Option<CropBox>,
    color: &Vec<String>,
    source: (u64, u64),
    scaled: Dimensions,
    speed: PlaybackSpeed,
    framerate: Framerate,
) -> (r: Vec<String>)
    ensures
        texts(r@) == filter_chain_spec(
            texts(orientation@),
            crop,
            texts(color@),
            source,
            scaled,
            speed,
            framerate,
        ),
{
    let mut v: Vec<String> = Vec::new();
    push_all(&mut v, orientation);
    assert(texts(v@) =~= texts(orientation@));
    let current = match crop {
        Some(c) => {
            let mut f = String::from_str("crop=");
            f.append(decimal_string(c.width).as_str());
            f.append(":");
            f.append(decimal_string(c.height).as_str());
            f.append(":");
            f.append(decimal_string(c.x).as_str());
            f.append(":");
            f.append(decimal_string(c.y).as_str());
            push_string(&mut v, f);
            (c.width, c.height)
        },
        None => source,
    };
    push_all(&mut v, color);
    if scaled.width as u64 != current.0 || scaled.height as u64 != current.1 {
        let mut f = String::from_str("libplacebo=w=");
        f.append(decimal_string(scaled.width as u64).as_str());
        f.append(":h=");
        f.append(decimal_string(scaled.height as u64).as_str());
        f.append(":upscaler=ewa_lanczossharp");
        push_string(&mut v, f);
    }
    if !speed.is_normal() {
        let mut f = String::from_str("setpts=PTS/");
        f.append(setpts_factor_exec(speed));
        push_string(&mut v, f);
    }
    let den: u32 = if framerate.denominator >= 1 {
        framerate.denominator
    } else {
        1
    };
    let mut f = String::from_str("fps=");
    f.append(decimal_string(framerate.nominator as u64).as_str());
    f.append("/");
    f.append(decimal_string(den as u64).as_str());
    push_string(&mut v, f);
    assert(texts(v@) =~= filter_chain_spec(
        texts(orientation@),
        crop,
        texts(color@),
        source,
        scaled,
        speed,
        framerate,
    ));
    v
}

/// `items` joined by `sep`.
pub fn join_texts(items: &Vec<String>, sep: &str) -> (r: String)
    ensures
        r@ == crate::text::join(texts(items@), sep@),
{
    let mut s = String::new();
    let mut i: usize = 0;
    while i < items.len()
        invariant
            i <= items.len(),
            s@ == crate::text::join(texts(items@).take(i as int), sep@),
        decreases items.len() - i,
    {
        if i > 0 {
            s.append(sep);
        }
        s.append(items[i].as_str());
        assert(texts(items@).take(i + 1).drop_last() =~= texts(items@).take(i as int));
        i = i + 1;
    }
    assert(texts(items@).take(items.len() as int) =~= texts(items@));
    s
}

// ---------------------------------------------------------------------------
// Passes of a single-selection render
// ---------------------------------------------------------------------------

/// The length of the rendered selection: the source selection (at least a
/// millisecond) at the chosen speed.
pub open spec fn selection_spec(speed: PlaybackSpeed, duration_ms: u64) -> u64 {
    speed_output_ms(
        speed,
        if duration_ms >= 1 {
            duration_ms
        } else {
            1
        },
    )
}

/// How much of the export's progress each pass takes, in milliseconds of
/// material: the forward render, the reversed render (bouncing only) and
/// the final join (repeating only), which copies streams and so counts a
/// tenth.
pub struct PassPlan {
    pub selection_ms: u64,
    pub reverse_weight: u64,
    pub concat_weight: u64,
    pub total_ms: u64,
}

pub open spec fn reverse_weight_spec(speed: PlaybackSpeed, repeat: Repeat, duration_ms: u64) -> int {
    if repeat.mode == RepeatMode::Boomerang {
        selection_spec(speed, duration_ms) as int
    } else {
        0
    }
}

pub open spec fn concat_weight_spec(speed: PlaybackSpeed, repeat: Repeat, duration_ms: u64) -> int {
    if repeat_is_off(repeat) {
        0
    } else {
        selection_spec(speed, duration_ms) / 10 + 1
    }
}

pub open spec fn pass_total_spec(speed: PlaybackSpeed, repeat: Repeat, duration_ms: u64) -> int {
    selection_spec(speed, duration_ms) + reverse_weight_spec(speed, repeat, duration_ms)
        + concat_weight_spec(speed, repeat, duration_ms)
}

pub fn pass_plan(speed: PlaybackSpeed, repeat: Repeat, duration_ms: u64) -> (r: PassPlan)
    requires
        pass_total_spec(speed, repeat, duration_ms) <= u64::MAX,
    ensures
        r.selection_ms == selection_spec(speed, duration_ms),
        r.reverse_weight == reverse_weight_spec(speed, repeat, duration_ms),
        r.concat_weight == concat_weight_spec(speed, repeat, duration_ms),
        r.total_ms == pass_total_spec(speed, repeat, duration_ms),
{
    let source: u64 = if duration_ms >= 1 {
        duration_ms
    } else {
        1
    };
    let selection_ms = speed.output_duration_ms(source);
    let reverse_weight = if repeat.is_boomerang() {
        selection_ms
    } else {
        0
    };
    let concat_weight = if repeat.is_off() {
        0
    } else {
        selection_ms / 10 + 1
    };
    PassPlan {
        selection_ms,
        reverse_weight,
        concat_weight,
        total_ms: selection_ms + reverse_weight + concat_weight,
    }
}

// ---------------------------------------------------------------------------
// Reversed chunks
// ---------------------------------------------------------------------------

/// The memory the reversing filter may use for one chunk's frames.
pub const REVERSE_BUDGET_BYTES: u64 = 1_200_000_000;

/// How many frames of the scaled size fit the reversing budget, at two
/// bytes a pixel and at least one frame.
pub open spec fn chunk_frames_spec(scaled: Dimensions) -> int {
    let frame = scaled.width * scaled.height * 2;
    let frame_bytes = if frame >= 1 {
        frame
    } else {
        1
    };
    let frames = (REVERSE_BUDGET_BYTES as int) / frame_bytes;
    if frames >= 1 {
        frames
    } else {
        1
    }
}

pub fn reverse_chunk_frames(scaled: Dimensions) -> (r: u64)
    requires
        scaled.width * scaled.height * 2 <= u64::MAX,
    ensures
        r == chunk_frames_spec(scaled),
{
    let (w, h) = (scaled.width as u64, scaled.height as u64);
    assert(w * h <= u64::MAX) by (nonlinear_arith)
        requires
            w * h * 2 <= u64::MAX,
            w >= 0,
            h >= 0,
    ;
    let frame = w * h * 2;
    let frame_bytes: u64 = if frame >= 1 {
        frame
    } else {
        1
    };
    let frames = REVERSE_BUDGET_BYTES / frame_bytes;
    if frames >= 1 {
        frames
    } else {
        1
    }
}

/// A chunk length between one second and one minute.
pub open spec fn clamp_chunk_spec(ms: u64) -> u64 {
    if ms < 1000 {
        1000
    } else if ms > 60000 {
        60000
    } else {
        ms
    }
}

pub fn clamp_chunk_ms(ms: u64) -> (r: u64)
    ensures
        r == clamp_chunk_spec(ms),
{
    if ms < 1000 {
        1000
    } else if ms > 60000 {
        60000
    } else {
        ms
    }
}

/// How many chunks cover the selection: the selection divided by the chunk
/// length, rounded up, and at least one.
pub open spec fn chunk_count(selection_ms: u64, chunk_ms: u64) -> nat {
    let c = selection_ms / chunk_ms + (if selection_ms % chunk_ms == 0 {
        0nat
    } else {
        1nat
    });
    if c >= 1 {
        c as nat
    } else {
        1
    }
}

pub open spec fn chunk_start(i: nat, chunk_ms: u64) -> nat {
    (i * chunk_ms) as nat
}

/// A chunk is as long as the chunk length, or as what is left of the
/// selection.
pub open spec fn chunk_len(i: nat, selection_ms: u64, chunk_ms: u64) -> int {
    let rest = selection_ms - chunk_start(i, chunk_ms);
    if chunk_ms <= rest {
        chunk_ms as int
    } else {
        rest
    }
}

/// One chunk of the reversed pass: where it starts in the forward render,
/// how long it is, and its share of the reversed pass's progress.
#[derive(Debug, Clone, Copy, PartialEq, Eq, Structural)]
pub struct ChunkPass {
    pub start_ms: u64,
    pub len_ms: u64,
    pub span_ms: u64,
}

proof fn lemma_chunk_bounds(selection_ms: u64, chunk_ms: u64)
    requires
        selection_ms > 0,
        chunk_ms > 0,
    ensures
        (chunk_count(selection_ms, chunk_ms) - 1) * chunk_ms < selection_ms,
        selection_ms <= chunk_count(selection_ms, chunk_ms) * chunk_ms,
{
    let q = selection_ms / chunk_ms;
    let m = selection_ms % chunk_ms;
    assert(q * chunk_ms + m == selection_ms && 0 <= m < chunk_ms) by (nonlinear_arith)
        requires
            q == selection_ms / chunk_ms,
            m == selection_ms % chunk_ms,
            chunk_ms > 0,
    ;
    let c = chunk_count(selection_ms, chunk_ms);
    if m == 0 {
        assert(q >= 1) by (nonlinear_arith)
            requires
                q * chunk_ms == selection_ms,
                selection_ms > 0,
                chunk_ms > 0,
        ;
        assert(c == q);
        assert((q - 1) * chunk_ms == q * chunk_ms - chunk_ms) by (nonlinear_arith);
    } else {
        assert(c == q + 1);
        assert((q + 1) * chunk_ms == q * chunk_ms + chunk_ms) by (nonlinear_arith);
    }
}

proof fn lemma_chunk_start_below(i: nat, selection_ms: u64, chunk_ms: u64)
    requires
        selection_ms > 0,
        chunk_ms > 0,
        i < chunk_count(selection_ms, chunk_ms),
    ensures
        chunk_start(i, chunk_ms) < selection_ms,
        0 < chunk_len(i, selection_ms, chunk_ms) <= chunk_ms,
{
    lemma_chunk_bounds(selection_ms, chunk_ms);
    let c = chunk_count(selection_ms, chunk_ms);
    assert(i * chunk_ms <= (c - 1) * chunk_ms) by (nonlinear_arith)
        requires
            i <= c - 1,
            chunk_ms > 0,
    ;
}

/// The chunks of the reversed pass, in the order they are rendered.
pub fn reverse_chunks(selection_ms: u64, chunk_ms: u64, reverse_weight: u64) -> (r: Vec<ChunkPass>)
    requires
        selection_ms > 0,
        chunk_ms > 0,
        reverse_weight * chunk_ms <= u64::MAX,
    ensures
        r.len() == chunk_count(selection_ms, chunk_ms),
        forall|i: int|
            0 <= i < r.len() ==> {
                &&& (#[trigger] r@[i]).start_ms == chunk_start(i as nat, chunk_ms)
                &&& r@[i].len_ms == chunk_len(i as nat, selection_ms, chunk_ms)
                &&& r@[i].span_ms == (reverse_weight * r@[i].len_ms) / (selection_ms as int)
            },
{
    let q = selection_ms / chunk_ms;
    proof {
        let m = selection_ms % chunk_ms;
        assert(q * chunk_ms + m == selection_ms && (m != 0 ==> q < u64::MAX)) by (nonlinear_arith)
            requires
                q == selection_ms / chunk_ms,
                m == selection_ms % chunk_ms,
                chunk_ms > 0,
                selection_ms <= u64::MAX,
        ;
    }
    let count: u64 = if selection_ms % chunk_ms == 0 {
        q
    } else {
        q + 1
    };
    let count: u64 = if count >= 1 {
        count
    } else {
        1
    };
    assert(count == chunk_count(selection_ms, chunk_ms));
    let mut r: Vec<ChunkPass> = Vec::new();
    let mut i: u64 = 0;
    while i < count
        invariant
            selection_ms > 0,
            chunk_ms > 0,
            reverse_weight * chunk_ms <= u64::MAX,
            count == chunk_count(selection_ms, chunk_ms),
            i <= count,
            r.len() == i,
            forall|j: int|
                0 <= j < r.len() ==> {
                    &&& (#[trigger] r@[j]).start_ms == chunk_start(j as nat, chunk_ms)
                    &&& r@[j].len_ms == chunk_len(j as nat, selection_ms, chunk_ms)
                    &&& r@[j].span_ms == (reverse_weight * r@[j].len_ms) / (selection_ms as int)
                },
        decreases count - i,
    {
        proof {
            lemma_chunk_start_below(i as nat, selection_ms, chunk_ms);
        }
        let start = i * chunk_ms;
        let rest = selection_ms - start;
        let len = if chunk_ms <= rest {
            chunk_ms
        } else {
            rest
        };
        assert(reverse_weight * len <= reverse_weight * chunk_ms) by (nonlinear_arith)
            requires
                len <= chunk_ms,
        ;
        let span = reverse_weight * len / selection_ms;
        r.push(ChunkPass { start_ms: start, len_ms: len, span_ms: span });
        i = i + 1;
    }
    r
}

/// The chunks of the reversed pass follow each other without gap or
/// overlap and together cover the whole forward render: each is non-empty,
/// each ends where the next starts, and the last ends at the end of the
/// selection.
pub proof fn law_reverse_chunks_tile(selection_ms: u64, chunk_ms: u64)
    requires
        selection_ms > 0,
        chunk_ms > 0,
    ensures
        chunk_count(selection_ms, chunk_ms) >= 1,
        chunk_start(0, chunk_ms) == 0,
        forall|i: nat|
            i < chunk_count(selection_ms, chunk_ms) ==> #[trigger] chunk_len(i, selection_ms, chunk_ms)
                > 0,
        forall|i: nat|
            i + 1 < chunk_count(selection_ms, chunk_ms) ==> chunk_start(i, chunk_ms) + chunk_len(
                i,
                selection_ms,
                chunk_ms,
            ) == #[trigger] chunk_start(i + 1, chunk_ms),
        chunk_start((chunk_count(selection_ms, chunk_ms) - 1) as nat, chunk_ms) + chunk_len(
            (chunk_count(selection_ms, chunk_ms) - 1) as nat,
            selection_ms,
            chunk_ms,
        ) == selection_ms,
{
    lemma_chunk_bounds(selection_ms, chunk_ms);
    let c = chunk_count(selection_ms, chunk_ms);
    assert forall|i: nat| i < c implies #[trigger] chunk_len(i, selection_ms, chunk_ms) > 0 by {
        lemma_chunk_start_below(i, selection_ms, chunk_ms);
    }
    assert forall|i: nat| i + 1 < c implies chunk_start(i, chunk_ms) + chunk_len(
        i,
        selection_ms,
        chunk_ms,
    ) == #[trigger] chunk_start(i + 1, chunk_ms) by {
        assert((i + 1) * chunk_ms == i * chunk_ms + chunk_ms) by (nonlinear_arith);
        assert((i + 1) * chunk_ms <= (c - 1) * chunk_ms) by (nonlinear_arith)
            requires
                i + 1 <= c - 1,
                chunk_ms > 0,
        ;
    }
    let last = (c - 1) as nat;
    assert(c * chunk_ms == last * chunk_ms + chunk_ms) by (nonlinear_arith)
        requires
            last == c - 1,
    ;
}

// ---------------------------------------------------------------------------
// Sections
// ---------------------------------------------------------------------------

pub open spec fn has_length(s: ClipSegment) -> bool {
    monus(s.range.end_ms, s.range.start_ms) > 0
}

/// The sections with a length, in order; empty ones are skipped.
pub open spec fn playable(segments: Seq<ClipSegment>) -> Seq<ClipSegment>
    decreases segments.len(),
{
    if segments.len() == 0 {
        seq![]
    } else if has_length(segments.last()) {
        playable(segments.drop_last()).push(segments.last())
    } else {
        playable(segments.drop_last())
    }
}

pub fn playable_sections(segments: &[ClipSegment]) -> (r: Vec<ClipSegment>)
    ensures
        r@ == playable(segments@),
{
    let mut r: Vec<ClipSegment> = Vec::new();
    let mut i: usize = 0;
    while i < segments.len()
        invariant
            i <= segments@.len(),
            r@ == playable(segments@.take(i as int)),
        decreases segments@.len() - i,
    {
        assert(segments@.take(i + 1).drop_last() =~= segments@.take(i as int));
        assert(segments@.take(i + 1).last() == segments@[i as int]);
        if segments[i].duration_ms() > 0 {
            r.push(segments[i].duplicate());
        }
        i = i + 1;
    }
    assert(segments@.take(segments@.len() as int) =~= segments@);
    r
}

/// The summed length of the sections.
pub open spec fn total_duration(segments: Seq<ClipSegment>) -> int
    decreases segments.len(),
{
    if segments.len() == 0 {
        0
    } else {
        total_duration(segments.drop_last()) + monus(
            segments.last().range.end_ms,
            segments.last().range.start_ms,
        )
    }
}

proof fn lemma_total_duration_prefix(segments: Seq<ClipSegment>, i: int)
    requires
        0 <= i <= segments.len(),
    ensures
        0 <= total_duration(segments.take(i)) <= total_duration(segments),
    decreases segments.len(),
{
    if segments.len() > 0 {
        if i < segments.len() {
            lemma_total_duration_prefix(segments.drop_last(), i);
            assert(segments.drop_last().take(i) =~= segments.take(i));
        } else {
            assert(segments.take(i) =~= segments);
            lemma_total_duration_prefix(segments.drop_last(), i - 1);
        }
    } else {
        assert(segments.take(i) =~= segments);
    }
}

/// The summed length of the first `count` sections.
pub fn duration_before(segments: &[ClipSegment], count: usize) -> (r: u64)
    requires
        count <= segments@.len(),
        total_duration(segments@) <= u64::MAX,
    ensures
        r == total_duration(segments@.take(count as int)),
{
    let mut sum: u64 = 0;
    let mut i: usize = 0;
    while i < count
        invariant
            i <= count <= segments@.len(),
            total_duration(segments@) <= u64::MAX,
            sum == total_duration(segments@.take(i as int)),
        decreases count - i,
    {
        proof {
            lemma_total_duration_prefix(segments@, i + 1);
            assert(segments@.take(i + 1).drop_last() =~= segments@.take(i as int));
        }
        sum = sum + segments[i].duration_ms();
        i = i + 1;
    }
    sum
}

/// The progress measure of a sections render: the rendered length of all
/// sections, plus a tenth for the final join when the sections are joined.
pub struct SectionsPlan {
    pub source_ms: u64,
    pub concat_ms: u64,
    pub total_ms: u64,
}

pub open spec fn sections_source_spec(speed: PlaybackSpeed, segments: Seq<ClipSegment>) -> u64 {
    speed_output_ms(speed, total_duration(segments) as u64)
}

pub open spec fn sections_concat_spec(speed: PlaybackSpeed, mode: SegmentExportMode, segments: Seq<ClipSegment>) -> int {
    if mode == SegmentExportMode::Join {
        sections_source_spec(speed, segments) / 10 + 1
    } else {
        0
    }
}

pub fn sections_plan(speed: PlaybackSpeed, mode: SegmentExportMode, segments: &[ClipSegment]) -> (r: SectionsPlan)
    requires
        total_duration(segments@) <= u64::MAX,
        sections_source_spec(speed, segments@) + sections_concat_spec(speed, mode, segments@)
            <= u64::MAX,
    ensures
        r.source_ms == sections_source_spec(speed, segments@),
        r.concat_ms == sections_concat_spec(speed, mode, segments@),
        r.total_ms == r.source_ms + r.concat_ms,
{
    let total = duration_before(segments, segments.len());
    assert(segments@.take(segments@.len() as int) =~= segments@);
    let source_ms = speed.output_duration_ms(total);
    let concat_ms = match mode {
        SegmentExportMode::Join => source_ms / 10 + 1,
        SegmentExportMode::Separate => 0,
    };
    SectionsPlan { source_ms, concat_ms, total_ms: source_ms + concat_ms }
}

/// Whether a sections render can be planned: there is a section, and its
/// lengths and the render's total can be summed in milliseconds.
pub open spec fn sections_plannable(speed: PlaybackSpeed, mode: SegmentExportMode, segments: Seq<ClipSegment>) -> bool {
    segments.len() > 0 && total_duration(segments) <= u64::MAX && sections_source_spec(speed, segments)
        + sections_concat_spec(speed, mode, segments) <= u64::MAX
}

/// The summed length of the sections, or nothing where it does not fit in
/// milliseconds.
fn checked_total_duration(segments: &[ClipSegment]) -> (r: Option<u64>)
    ensures
        match r {
            Some(t) => t == total_duration(segments@),
            None => total_duration(segments@) > u64::MAX,
        },
{
    let mut sum: u64 = 0;
    let mut i: usize = 0;
    while i < segments.len()
        invariant
            i <= segments@.len(),
            sum == total_duration(segments@.take(i as int)),
        decreases segments@.len() - i,
    {
        proof {
            lemma_total_duration_prefix(segments@, i + 1);
            assert(segments@.take(i + 1).drop_last() =~= segments@.take(i as int));
        }
        match sum.checked_add(segments[i].duration_ms()) {
            Some(next) => sum = next,
            None => return None,
        }
        i = i + 1;
    }
    assert(segments@.take(segments@.len() as int) =~= segments@);
    Some(sum)
}

/// The plan of a sections render over the playable sections, or nothing
/// where there is no section or its totals do not fit in milliseconds: an
/// export with nothing to render is refused.
pub fn sections_render_plan(speed: PlaybackSpeed, mode: SegmentExportMode, segments: &[ClipSegment]) -> (r: Option<SectionsPlan>)
    ensures
        r is Some <==> sections_plannable(speed, mode, segments@),
        r matches Some(p) ==> p.source_ms == sections_source_spec(speed, segments@)
            && p.concat_ms == sections_concat_spec(speed, mode, segments@) && p.total_ms
            == p.source_ms + p.concat_ms,
{
    if segments.len() == 0 {
        return None;
    }
    let total = match checked_total_duration(segments) {
        Some(t) => t,
        None => return None,
    };
    let source_ms = speed.output_duration_ms(total);
    let concat_ms = match mode {
        SegmentExportMode::Join => source_ms / 10 + 1,
        SegmentExportMode::Separate => 0,
    };
    if source_ms > u64::MAX - concat_ms {
        return None;
    }
    Some(sections_plan(speed, mode, segments))
}

/// The summed length of sections to copy, or nothing where there is no
/// section or the sum does not fit in milliseconds.
pub fn copy_total_ms(segments: &[ClipSegment]) -> (r: Option<u64>)
    ensures
        r is Some <==> segments@.len() > 0 && total_duration(segments@) <= u64::MAX,
        r matches Some(t) ==> t == total_duration(segments@),
{
    if segments.len() == 0 {
        return None;
    }
    checked_total_duration(segments)
}

/// Where a rendered or copied part is written.
#[derive(Debug, Clone, Copy, PartialEq, Eq, Structural)]
pub enum PartTarget {
    /// The export's own output file.
    Output,
    /// A temporary file, joined into the output afterwards.
    Temporary,
    /// A file of its own next to the chosen folder's other clips.
    Separate,
}

/// A lone joined part of a copy is written straight to the output.
pub open spec fn copy_part_target_spec(mode: SegmentExportMode, count: nat) -> PartTarget {
    match mode {
        SegmentExportMode::Join => if count == 1 {
            PartTarget::Output
        } else {
            PartTarget::Temporary
        },
        SegmentExportMode::Separate => PartTarget::Separate,
    }
}

pub fn copy_part_target(mode: SegmentExportMode, count: usize) -> (r: PartTarget)
    ensures
        r == copy_part_target_spec(mode, count as nat),
{
    match mode {
        SegmentExportMode::Join => if count == 1 {
            PartTarget::Output
        } else {
            PartTarget::Temporary
        },
        SegmentExportMode::Separate => PartTarget::Separate,
    }
}

pub fn render_part_target(mode: SegmentExportMode) -> (r: PartTarget)
    ensures
        r == match mode {
            SegmentExportMode::Join => PartTarget::Temporary,
            SegmentExportMode::Separate => PartTarget::Separate,
        },
{
    match mode {
        SegmentExportMode::Join => PartTarget::Temporary,
        SegmentExportMode::Separate => PartTarget::Separate,
    }
}

/// Whether copied parts still have to be joined: not when kept apart, nor
/// when the one part was written to the output.
pub fn copy_needs_join(mode: SegmentExportMode, parts: usize) -> (r: bool)
    ensures
        r == (mode == SegmentExportMode::Join && parts != 1),
{
    match mode {
        SegmentExportMode::Join => parts != 1,
        SegmentExportMode::Separate => false,
    }
}

// ---------------------------------------------------------------------------
// Command lines
// ---------------------------------------------------------------------------

pub open spec fn opt_texts(o: Option<&str>) -> Option<Seq<char>> {
    match o {
        Some(s) => Some(s@),
        None => None,
    }
}

/// Copies a section's streams without decoding: video, and audio when the
/// copy carries it.
pub open spec fn copy_section_args_spec(
    start_ms: u64,
    duration_ms: u64,
    source: Seq<char>,
    audio: bool,
    part: Seq<char>,
) -> Seq<Seq<char>> {
    seq!["-ss"@, seconds3(start_ms), "-i"@, source, "-t"@, seconds3(duration_ms), "-map"@, "0:v:0"@]
        + (if audio {
        seq!["-map"@, "0:a:0"@]
    } else {
        seq![]
    }) + seq!["-c"@, "copy"@, "-avoid_negative_ts"@, "make_zero"@, part]
}

pub fn copy_section_args(start_ms: u64, duration_ms: u64, source: &str, audio: bool, part: &str) -> (r: Vec<String>)
    ensures
        texts(r@) == copy_section_args_spec(start_ms, duration_ms, source@, audio, part@),
{
    let mut v: Vec<String> = Vec::new();
    push_text(&mut v, "-ss");
    push_string(&mut v, seconds3_text(start_ms));
    push_text(&mut v, "-i");
    push_text(&mut v, source);
    push_text(&mut v, "-t");
    push_string(&mut v, seconds3_text(duration_ms));
    push_text(&mut v, "-map");
    push_text(&mut v, "0:v:0");
    if audio {
        push_text(&mut v, "-map");
        push_text(&mut v, "0:a:0");
    }
    push_text(&mut v, "-c");
    push_text(&mut v, "copy");
    push_text(&mut v, "-avoid_negative_ts");
    push_text(&mut v, "make_zero");
    push_text(&mut v, part);
    assert(texts(v@) =~= copy_section_args_spec(start_ms, duration_ms, source@, audio, part@));
    v
}

/// Joins copied parts by copying again.
pub open spec fn copy_join_args_spec(list: Seq<char>, output: Seq<char>) -> Seq<Seq<char>> {
    seq![
        "-f"@,
        "concat"@,
        "-safe"@,
        "0"@,
        "-i"@,
        list,
        "-c"@,
        "copy"@,
        "-avoid_negative_ts"@,
        "make_zero"@,
        output,
    ]
}

pub fn copy_join_args(list: &str, output: &str) -> (r: Vec<String>)
    ensures
        texts(r@) == copy_join_args_spec(list@, output@),
{
    let mut v: Vec<String> = Vec::new();
    push_text(&mut v, "-f");
    push_text(&mut v, "concat");
    push_text(&mut v, "-safe");
    push_text(&mut v, "0");
    push_text(&mut v, "-i");
    push_text(&mut v, list);
    push_text(&mut v, "-c");
    push_text(&mut v, "copy");
    push_text(&mut v, "-avoid_negative_ts");
    push_text(&mut v, "make_zero");
    push_text(&mut v, output);
    assert(texts(v@) =~= copy_join_args_spec(list@, output@));
    v
}

/// Joins rendered parts by copying their streams.
pub open spec fn concat_copy_args_spec(list: Seq<char>, output: Seq<char>) -> Seq<Seq<char>> {
    seq!["-f"@, "concat"@, "-safe"@, "0"@, "-i"@, list, "-c"@, "copy"@, output]
}

pub fn concat_copy_args(list: &str, output: &str) -> (r: Vec<String>)
    ensures
        texts(r@) == concat_copy_args_spec(list@, output@),
{
    let mut v: Vec<String> = Vec::new();
    push_text(&mut v, "-f");
    push_text(&mut v, "concat");
    push_text(&mut v, "-safe");
    push_text(&mut v, "0");
    push_text(&mut v, "-i");
    push_text(&mut v, list);
    push_text(&mut v, "-c");
    push_text(&mut v, "copy");
    push_text(&mut v, output);
    assert(texts(v@) =~= concat_copy_args_spec(list@, output@));
    v
}

pub open spec fn audio_codec_args(codec: Option<Seq<char>>) -> Seq<Seq<char>> {
    match codec {
        Some(c) => seq!["-c:a"@, c],
        None => seq!["-an"@],
    }
}

/// Joins the rendered parts of a selection by encoding them again, for when
/// the muxer refuses to copy them.
pub open spec fn concat_encode_args_spec(
    list: Seq<char>,
    encoder: Seq<char>,
    quality: Seq<Seq<char>>,
    codec: Option<Seq<char>>,
    output: Seq<char>,
) -> Seq<Seq<char>> {
    seq!["-f"@, "concat"@, "-safe"@, "0"@, "-i"@, list, "-c:v"@, encoder] + quality
        + audio_codec_args(codec) + seq![output]
}

pub fn concat_encode_args(
    list: &str,
    encoder: &str,
    quality: &Vec<String>,
    codec: Option<&str>,
    output: &str,
) -> (r: Vec<String>)
    ensures
        texts(r@) == concat_encode_args_spec(list@, encoder@, texts(quality@), opt_texts(codec), output@),
{
    let mut v: Vec<String> = Vec::new();
    push_text(&mut v, "-f");
    push_text(&mut v, "concat");
    push_text(&mut v, "-safe");
    push_text(&mut v, "0");
    push_text(&mut v, "-i");
    push_text(&mut v, list);
    push_text(&mut v, "-c:v");
    push_text(&mut v, encoder);
    push_all(&mut v, quality);
    match codec {
        Some(c) => {
            push_text(&mut v, "-c:a");
            push_text(&mut v, c);
        },
        None => {
            push_text(&mut v, "-an");
        },
    }
    push_text(&mut v, output);
    assert(texts(v@) =~= concat_encode_args_spec(list@, encoder@, texts(quality@), opt_texts(codec), output@));
    v
}

/// The same for joined sections, which keep the first video stream and the
/// first audio stream where there is one.
pub open spec fn sections_encode_args_spec(
    list: Seq<char>,
    encoder: Seq<char>,
    quality: Seq<Seq<char>>,
    codec: Option<Seq<char>>,
    output: Seq<char>,
) -> Seq<Seq<char>> {
    seq![
        "-f"@,
        "concat"@,
        "-safe"@,
        "0"@,
        "-i"@,
        list,
        "-map"@,
        "0:v:0"@,
        "-map"@,
        "0:a:0?"@,
        "-c:v"@,
        encoder,
    ] + quality + audio_codec_args(codec) + seq![output]
}

pub fn sections_encode_args(
    list: &str,
    encoder: &str,
    quality: &Vec<String>,
    codec: Option<&str>,
    output: &str,
) -> (r: Vec<String>)
    ensures
        texts(r@) == sections_encode_args_spec(list@, encoder@, texts(quality@), opt_texts(codec), output@),
{
    let mut v: Vec<String> = Vec::new();
    push_text(&mut v, "-f");
    push_text(&mut v, "concat");
    push_text(&mut v, "-safe");
    push_text(&mut v, "0");
    push_text(&mut v, "-i");
    push_text(&mut v, list);
    push_text(&mut v, "-map");
    push_text(&mut v, "0:v:0");
    push_text(&mut v, "-map");
    push_text(&mut v, "0:a:0?");
    push_text(&mut v, "-c:v");
    push_text(&mut v, encoder);
    push_all(&mut v, quality);
    match codec {
        Some(c) => {
            push_text(&mut v, "-c:a");
            push_text(&mut v, c);
        },
        None => {
            push_text(&mut v, "-an");
        },
    }
    push_text(&mut v, output);
    assert(texts(v@) =~= sections_encode_args_spec(list@, encoder@, texts(quality@), opt_texts(codec), output@));
    v
}

/// The audio input of a section: its own first stream, or, when it has
/// none but the joined export carries audio, a silent stereo stream so
/// that every part has the same streams.
pub open spec fn section_audio_input(audio_enabled: bool, source_has_audio: bool) -> Seq<Seq<char>> {
    if !audio_enabled {
        seq![]
    } else if source_has_audio {
        seq!["-map"@, "0:a:0"@]
    } else {
        seq![
            "-f"@,
            "lavfi"@,
            "-i"@,
            "anullsrc=channel_layout=stereo:sample_rate=48000"@,
            "-map"@,
            "1:a:0"@,
        ]
    }
}

pub open spec fn section_audio_output(audio_enabled: bool, codec: Option<Seq<char>>, speed: PlaybackSpeed) -> Seq<Seq<char>> {
    match codec {
        Some(c) => if audio_enabled {
            seq![
                "-af"@,
                joined_audio_filter_spec(speed),
                "-c:a"@,
                c,
                "-ar"@,
                "48000"@,
                "-ac"@,
                "2"@,
                "-shortest"@,
            ]
        } else {
            seq!["-an"@]
        },
        None => seq!["-an"@],
    }
}

/// Renders one section of a sections export.
pub open spec fn section_render_args_spec(
    start_ms: u64,
    duration_ms: u64,
    source: Seq<char>,
    audio_enabled: bool,
    source_has_audio: bool,
    filters: Seq<Seq<char>>,
    encoder: Seq<char>,
    quality: Seq<Seq<char>>,
    codec: Option<Seq<char>>,
    speed: PlaybackSpeed,
    part: Seq<char>,
) -> Seq<Seq<char>> {
    seq!["-ss"@, seconds3(start_ms), "-t"@, seconds3(duration_ms), "-i"@, source, "-map"@, "0:v:0"@]
        + section_audio_input(audio_enabled, source_has_audio) + seq![
        "-vf"@,
        crate::text::join(filters, ","@),
        "-c:v"@,
        encoder,
    ] + quality + section_audio_output(audio_enabled, codec, speed) + seq![part]
}

fn section_audio_input_args(audio_enabled: bool, source_has_audio: bool) -> (r: Vec<String>)
    ensures
        texts(r@) == section_audio_input(audio_enabled, source_has_audio),
{
    let mut v: Vec<String> = Vec::new();
    if audio_enabled {
        if source_has_audio {
            push_text(&mut v, "-map");
            push_text(&mut v, "0:a:0");
        } else {
            push_text(&mut v, "-f");
            push_text(&mut v, "lavfi");
            push_text(&mut v, "-i");
            push_text(&mut v, "anullsrc=channel_layout=stereo:sample_rate=48000");
            push_text(&mut v, "-map");
            push_text(&mut v, "1:a:0");
        }
    }
    assert(texts(v@) =~= section_audio_input(audio_enabled, source_has_audio));
    v
}

fn section_audio_output_args(audio_enabled: bool, codec: Option<&str>, speed: PlaybackSpeed) -> (r: Vec<String>)
    ensures
        texts(r@) == section_audio_output(audio_enabled, opt_texts(codec), speed),
{
    let mut v: Vec<String> = Vec::new();
    match codec {
        Some(c) => if audio_enabled {
            push_text(&mut v, "-af");
            push_string(&mut v, joined_audio_filter(speed));
            push_text(&mut v, "-c:a");
            push_text(&mut v, c);
            push_text(&mut v, "-ar");
            push_text(&mut v, "48000");
            push_text(&mut v, "-ac");
            push_text(&mut v, "2");
            push_text(&mut v, "-shortest");
        } else {
            push_text(&mut v, "-an");
        },
        None => {
            push_text(&mut v, "-an");
        },
    }
    assert(texts(v@) =~= section_audio_output(audio_enabled, opt_texts(codec), speed));
    v
}

pub fn section_render_args(
    start_ms: u64,
    duration_ms: u64,
    source: &str,
    audio_enabled: bool,
    source_has_audio: bool,
    filters: &Vec<String>,
    encoder: &str,
    quality: &Vec<String>,
    codec: Option<&str>,
    speed: PlaybackSpeed,
    part: &str,
) -> (r: Vec<String>)
    ensures
        texts(r@) == section_render_args_spec(
            start_ms,
            duration_ms,
            source@,
            audio_enabled,
            source_has_audio,
            texts(filters@),
            encoder@,
            texts(quality@),
            opt_texts(codec),
            speed,
            part@,
        ),
{
    let mut v: Vec<String> = Vec::new();
    push_text(&mut v, "-ss");
    push_string(&mut v, seconds3_text(start_ms));
    push_text(&mut v, "-t");
    push_string(&mut v, seconds3_text(duration_ms));
    push_text(&mut v, "-i");
    push_text(&mut v, source);
    push_text(&mut v, "-map");
    push_text(&mut v, "0:v:0");
    let ghost head = texts(v@);
    assert(head =~= seq!["-ss"@, seconds3(start_ms), "-t"@, seconds3(duration_ms), "-i"@, source@, "-map"@, "0:v:0"@]);
    let input = section_audio_input_args(audio_enabled, source_has_audio);
    push_all(&mut v, &input);
    let ghost with_input = texts(v@);
    push_text(&mut v, "-vf");
    push_string(&mut v, join_texts(filters, ","));
    push_text(&mut v, "-c:v");
    push_text(&mut v, encoder);
    let ghost middle = seq!["-vf"@, crate::text::join(texts(filters@), ","@), "-c:v"@, encoder@];
    assert(texts(v@) =~= with_input + middle);
    push_all(&mut v, quality);
    let output = section_audio_output_args(audio_enabled, codec, speed);
    push_all(&mut v, &output);
    push_text(&mut v, part);
    assert(texts(v@) =~= head + section_audio_input(audio_enabled, source_has_audio) + middle + texts(quality@)
        + section_audio_output(audio_enabled, opt_texts(codec), speed) + seq![part@]);
    v
}

/// The audio of the forward render: the speed change, if any, then the
/// codec; or no audio.
pub open spec fn forward_audio_args(codec: Option<Seq<char>>, speed: PlaybackSpeed) -> Seq<Seq<char>> {
    match codec {
        Some(c) => match speed_audio_filter(speed) {
            Some(f) => seq!["-af"@, f, "-c:a"@, c],
            None => seq!["-c:a"@, c],
        },
        None => seq!["-an"@],
    }
}

/// The forward render of a single selection, from `start_ns` for
/// `duration_ns` of the source.
pub open spec fn forward_args_spec(
    start_ns: u64,
    duration_ns: u64,
    input: Seq<char>,
    filters: Seq<Seq<char>>,
    encoder: Seq<char>,
    quality: Seq<Seq<char>>,
    codec: Option<Seq<char>>,
    speed: PlaybackSpeed,
    output: Seq<char>,
) -> Seq<Seq<char>> {
    seq![
        "-ss"@,
        seconds_shortest(start_ns),
        "-t"@,
        seconds_shortest(duration_ns),
        "-i"@,
        input,
        "-vf"@,
        crate::text::join(filters, ","@),
        "-c:v"@,
        encoder,
    ] + quality + forward_audio_args(codec, speed) + seq![output]
}

pub fn forward_args(
    start_ns: u64,
    duration_ns: u64,
    input: &str,
    filters: &Vec<String>,
    encoder: &str,
    quality: &Vec<String>,
    codec: Option<&str>,
    speed: PlaybackSpeed,
    output: &str,
) -> (r: Vec<String>)
    ensures
        texts(r@) == forward_args_spec(
            start_ns,
            duration_ns,
            input@,
            texts(filters@),
            encoder@,
            texts(quality@),
            opt_texts(codec),
            speed,
            output@,
        ),
{
    let mut v: Vec<String> = Vec::new();
    push_text(&mut v, "-ss");
    push_string(&mut v, seconds_shortest_text(start_ns));
    push_text(&mut v, "-t");
    push_string(&mut v, seconds_shortest_text(duration_ns));
    push_text(&mut v, "-i");
    push_text(&mut v, input);
    push_text(&mut v, "-vf");
    push_string(&mut v, join_texts(filters, ","));
    push_text(&mut v, "-c:v");
    push_text(&mut v, encoder);
    push_all(&mut v, quality);
    match codec {
        Some(c) => {
            match speed.ffmpeg_audio_filter() {
                Some(f) => {
                    push_text(&mut v, "-af");
                    push_text(&mut v, f);
                },
                None => {},
            }
            push_text(&mut v, "-c:a");
            push_text(&mut v, c);
        },
        None => {
            push_text(&mut v, "-an");
        },
    }
    push_text(&mut v, output);
    assert(texts(v@) =~= forward_args_spec(
        start_ns,
        duration_ns,
        input@,
        texts(filters@),
        encoder@,
        texts(quality@),
        opt_texts(codec),
        speed,
        output@,
    ));
    v
}

/// Reverses one chunk of the forward render, video and audio alike.
pub open spec fn reverse_chunk_args_spec(
    chunk: ChunkPass,
    forward: Seq<char>,
    encoder: Seq<char>,
    quality: Seq<Seq<char>>,
    codec: Option<Seq<char>>,
    path: Seq<char>,
) -> Seq<Seq<char>> {
    seq![
        "-ss"@,
        seconds3(chunk.start_ms),
        "-t"@,
        seconds3(chunk.len_ms),
        "-i"@,
        forward,
        "-vf"@,
        "reverse"@,
        "-c:v"@,
        encoder,
    ] + quality + (match codec {
        Some(c) => seq!["-af"@, "areverse"@, "-c:a"@, c],
        None => seq!["-an"@],
    }) + seq![path]
}

pub fn reverse_chunk_args(
    chunk: ChunkPass,
    forward: &str,
    encoder: &str,
    quality: &Vec<String>,
    codec: Option<&str>,
    path: &str,
) -> (r: Vec<String>)
    ensures
        texts(r@) == reverse_chunk_args_spec(chunk, forward@, encoder@, texts(quality@), opt_texts(codec), path@),
{
    let mut v: Vec<String> = Vec::new();
    push_text(&mut v, "-ss");
    push_string(&mut v, seconds3_text(chunk.start_ms));
    push_text(&mut v, "-t");
    push_string(&mut v, seconds3_text(chunk.len_ms));
    push_text(&mut v, "-i");
    push_text(&mut v, forward);
    push_text(&mut v, "-vf");
    push_text(&mut v, "reverse");
    push_text(&mut v, "-c:v");
    push_text(&mut v, encoder);
    push_all(&mut v, quality);
    match codec {
        Some(c) => {
            push_text(&mut v, "-af");
            push_text(&mut v, "areverse");
            push_text(&mut v, "-c:a");
            push_text(&mut v, c);
        },
        None => {
            push_text(&mut v, "-an");
        },
    }
    push_text(&mut v, path);
    assert(texts(v@) =~= reverse_chunk_args_spec(chunk, forward@, encoder@, texts(quality@), opt_texts(codec), path@));
    v
}

// ---------------------------------------------------------------------------
// File names
// ---------------------------------------------------------------------------

/// The name of an intermediate file: hidden, marked with the process and
/// the file's role.
pub open spec fn temp_name_spec(pid: u32, tag: Seq<char>, ext: Seq<char>) -> Seq<char> {
    ".clips-"@ + decimal(pid as nat) + "-"@ + tag + "."@ + ext
}

pub fn temp_file_name(pid: u32, tag: &str, ext: &str) -> (r: String)
    ensures
        r@ == temp_name_spec(pid, tag@, ext@),
{
    let mut s = String::from_str(".clips-");
    s.append(decimal_string(pid as u64).as_str());
    s.append("-");
    s.append(tag);
    s.append(".");
    s.append(ext);
    s
}

/// A role followed by a number, such as `section-3`.
pub fn numbered_tag(prefix: &str, index: u64) -> (r: String)
    ensures
        r@ == prefix@ + decimal(index as nat),
{
    let mut s = String::from_str(prefix);
    s.append(decimal_string(index).as_str());
    s
}

/// The name of a section saved on its own: the source's stem, the section's
/// number from one on with at least two digits, and, from the second try
/// on, the try's number, so that no existing file is overwritten.
pub open spec fn section_file_spec(stem: Seq<char>, index: nat, ext: Seq<char>, copy: nat) -> Seq<char> {
    let base = stem + "-section-"@ + padded(index + 1, 2);
    if copy <= 1 {
        base + "."@ + ext
    } else {
        base + "-"@ + decimal(copy) + "."@ + ext
    }
}

pub fn section_file_name(stem: &str, index: u64, ext: &str, copy: u64) -> (r: String)
    requires
        index < u64::MAX,
    ensures
        r@ == section_file_spec(stem@, index as nat, ext@, copy as nat),
{
    let mut s = String::from_str(stem);
    s.append("-section-");
    s.append(padded_decimal(index + 1, 2).as_str());
    if copy > 1 {
        s.append("-");
        s.append(decimal_string(copy).as_str());
    }
    s.append(".");
    s.append(ext);
    s
}

/// The stem section files are named after: the source's, or `clip` where
/// it has none.
pub open spec fn section_stem_spec(source: Seq<char>) -> Seq<char> {
    match path_file_stem(source) {
        Some(stem) => if stem.len() > 0 {
            stem
        } else {
            "clip"@
        },
        None => "clip"@,
    }
}

pub fn section_stem(source: &str) -> (r: String)
    ensures
        r@ == section_stem_spec(source@),
{
    match file_stem_of(source) {
        Some(stem) => if stem.unicode_len() > 0 {
            String::from_str(stem)
        } else {
            String::from_str("clip")
        },
        None => String::from_str("clip"),
    }
}

// ---------------------------------------------------------------------------
// Progress
// ---------------------------------------------------------------------------

/// A line that ffmpeg writes to its progress pipe.
#[derive(Debug, Clone, Copy, PartialEq, Eq, Structural)]
pub enum ProgressLine {
    /// How much output time has been written, in microseconds.
    OutTime(u64),
    /// The stage is finished.
    End,
    Other,
}

pub open spec fn progress_line_spec(line: Seq<char>) -> ProgressLine {
    if crate::text::starts_with(line, "out_time_us="@) {
        match crate::text::parse_u64_spec(crate::text::trim(line.skip(12))) {
            Some(us) => ProgressLine::OutTime(us),
            None => ProgressLine::Other,
        }
    } else if crate::text::starts_with(line, "progress=end"@) {
        ProgressLine::End
    } else {
        ProgressLine::Other
    }
}

pub fn parse_progress_line(line: &str) -> (r: ProgressLine)
    ensures
        r == progress_line_spec(line@),
{
    let v = chars_of(line);
    let out_time = chars_of("out_time_us=");
    let end = chars_of("progress=end");
    proof {
        reveal_strlit("out_time_us=");
    }
    if crate::text::has_prefix(&v, &out_time) {
        let rest = crate::text::copy_range(&v, 12, v.len());
        assert(rest@ =~= v@.skip(12));
        let t = crate::text::trimmed(&rest);
        match crate::text::parse_u64(&t) {
            Some(us) => ProgressLine::OutTime(us),
            None => ProgressLine::Other,
        }
    } else if crate::text::has_prefix(&v, &end) {
        ProgressLine::End
    } else {
        ProgressLine::Other
    }
}

/// What a stage reports: the amount done, held below the total, since only
/// the end of the whole export may report the total itself.
pub open spec fn stage_report_spec(done: u64, total: u64) -> (u64, u64) {
    (
        if done <= monus(total, 1) {
            done
        } else {
            monus(total, 1)
        },
        total,
    )
}

pub fn stage_report(done: u64, total: u64) -> (r: (u64, u64))
    ensures
        r == stage_report_spec(done, total),
{
    let cap = total.saturating_sub(1);
    (if done <= cap {
        done
    } else {
        cap
    }, total)
}

/// A stage's report never claims that the export is finished, whatever the
/// stage measured.
pub proof fn law_stage_report_is_never_final(done: u64, total: u64)
    requires
        total > 0,
    ensures
        stage_report_spec(done, total).0 < stage_report_spec(done, total).1,
{
}

// ---------------------------------------------------------------------------
// Laws
// ---------------------------------------------------------------------------

/// The GPU encoder is only used when it is preferred and works here; in
/// every other case the codec's software encoder is.
pub proof fn law_ffmpeg_encoder_falls_back(v: VideoEncoding, prefer_gpu: bool, hardware_usable: bool)
    ensures
        ffmpeg_encoder_spec(v, prefer_gpu, hardware_usable) != video_ffmpeg_encoders(v).0
            ==> prefer_gpu && hardware_usable && video_ffmpeg_encoders(v).1 == Some(
            ffmpeg_encoder_spec(v, prefer_gpu, hardware_usable),
        ),
        !(prefer_gpu && hardware_usable) ==> ffmpeg_encoder_spec(v, prefer_gpu, hardware_usable)
            == video_ffmpeg_encoders(v).0,
{
}

/// Every part of a joined export with audio gets the same audio: the same
/// filter, codec, rate and channels whether its source has audio or not,
/// and exactly one audio stream, silence standing in for a missing one.
pub proof fn law_joined_parts_share_audio_layout(
    codec: Seq<char>,
    speed: PlaybackSpeed,
    with_audio: bool,
    without_audio: bool,
)
    ensures
        section_audio_output(true, Some(codec), speed) == seq![
            "-af"@,
            joined_audio_filter_spec(speed),
            "-c:a"@,
            codec,
            "-ar"@,
            "48000"@,
            "-ac"@,
            "2"@,
            "-shortest"@,
        ],
        section_audio_input(true, with_audio).len() > 0,
        section_audio_input(true, with_audio).last() == (if with_audio {
            "0:a:0"@
        } else {
            "1:a:0"@
        }),
        section_audio_input(false, without_audio).len() == 0,
{
}

/// x264 and x265 take the quality setting as a constant rate factor: 23
/// for high, 27 for medium and 31 for low quality, 24 when the quality is
/// kept; so every encoder that an H.264 or H.265 export can pick is given
/// rate-control arguments.
pub proof fn law_x26x_quality_is_crf(q: Quality, v: VideoEncoding, prefer_gpu: bool, hardware_usable: bool)
    ensures
        ({
            let crf: nat = match q {
                Quality::High => 23,
                Quality::Medium => 27,
                Quality::Low => 31,
                Quality::Unchanged => 24,
            };
            &&& quality_args_spec("libx264"@, q) == seq!["-crf"@, decimal(crf)]
            &&& quality_args_spec("libx265"@, q) == seq!["-crf"@, decimal(crf)]
        }),
        (v == VideoEncoding::H264 || v == VideoEncoding::H265) ==> quality_args_spec(
            ffmpeg_encoder_spec(v, prefer_gpu, hardware_usable),
            q,
        ).len() > 0,
{
    reveal_strlit("libx264");
    reveal_strlit("libx265");
    reveal_strlit("h264_nvenc");
    reveal_strlit("hevc_nvenc");
    reveal_strlit("av1_nvenc");
    assert("libx264"@.len() != "h264_nvenc"@.len());
    assert("libx264"@.len() != "hevc_nvenc"@.len());
    assert("libx264"@.len() != "av1_nvenc"@.len());
    assert("libx265"@.len() != "h264_nvenc"@.len());
    assert("libx265"@.len() != "hevc_nvenc"@.len());
    assert("libx265"@.len() != "av1_nvenc"@.len());
    assert("libx265"@[6] != "libx264"@[6]);
}

/// The render's frame ends at the requested size: right after the
/// orientation, crop and colour filters comes a scale to the requested size
/// exactly when that size differs from the size after cropping (the crop
/// box when cropping, the oriented source otherwise); the crop, when there
/// is one, comes right after the orientation, and the frame-rate filter
/// comes last.
pub proof fn law_filter_chain_scales_to_request(
    orientation: Seq<Seq<char>>,
    crop: Option<CropBox>,
    color: Seq<Seq<char>>,
    source: (u64, u64),
    scaled: Dimensions,
    speed: PlaybackSpeed,
    framerate: Framerate,
)
    ensures
        ({
            let chain = filter_chain_spec(orientation, crop, color, source, scaled, speed, framerate);
            let after: (u64, u64) = match crop {
                Some(c) => (c.width, c.height),
                None => source,
            };
            let k = orientation.len() + (if crop is Some {
                1int
            } else {
                0int
            }) + color.len();
            let scale_text = "libplacebo=w="@ + decimal(scaled.width as nat) + ":h="@ + decimal(
                scaled.height as nat,
            ) + ":upscaler=ewa_lanczossharp"@;
            &&& chain.len() > k
            &&& (chain[k] == scale_text) <==> (scaled.width != after.0 || scaled.height != after.1)
            &&& chain.take(orientation.len() as int) == orientation
            &&& crop matches Some(c) ==> chain[orientation.len() as int] == "crop="@ + decimal(
                c.width as nat,
            ) + ":"@ + decimal(c.height as nat) + ":"@ + decimal(c.x as nat) + ":"@ + decimal(
                c.y as nat,
            )
            &&& chain.last() == "fps="@ + decimal(framerate.nominator as nat) + "/"@ + decimal(
                (if framerate.denominator >= 1 {
                    framerate.denominator
                } else {
                    1
                }) as nat,
            )
            &&& chain.subrange(k - color.len(), k) == color
            &&& ({
                let t = k + if scaled.width != after.0 || scaled.height != after.1 {
                    1int
                } else {
                    0int
                };
                &&& chain.len() == t + 1 + if speed != PlaybackSpeed::Normal {
                    1int
                } else {
                    0int
                }
                &&& speed != PlaybackSpeed::Normal ==> chain[t] == "setpts=PTS/"@ + match speed {
                    PlaybackSpeed::ThreeQuarter => "0.7500"@,
                    PlaybackSpeed::Half => "0.5000"@,
                    _ => "0.2500"@,
                }
            })
        }),
{
    reveal_strlit("libplacebo=w=");
    reveal_strlit("setpts=PTS/");
    reveal_strlit("fps=");
    let chain = filter_chain_spec(orientation, crop, color, source, scaled, speed, framerate);
    let cropped = match crop {
        Some(c) => orientation.push(crop_filter(c)),
        None => orientation,
    };
    let k = cropped.len() + color.len();
    let scale_text = scale_filter(scaled);
    let timing = if speed != PlaybackSpeed::Normal {
        seq!["setpts=PTS/"@ + setpts_factor(speed)]
    } else {
        seq![]
    };
    let tail = timing + seq![fps_filter(framerate)];
    assert(scale_text[0] == 'l');
    assert(fps_filter(framerate)[0] == 'f');
    assert(("setpts=PTS/"@ + setpts_factor(speed))[0] == 's');
    assert(tail[0] != scale_text) by {
        assert(tail[0][0] != 'l');
    }
    assert(chain.take(orientation.len() as int) =~= orientation);
    if crop is Some {
        assert(chain[orientation.len() as int] == cropped[orientation.len() as int]);
    }
    assert(chain.last() == fps_filter(framerate));
    assert(chain.subrange(k - color.len(), k as int) =~= color);
}

/// The rate control each encoder gets for a quality setting with constant
/// quality `cq` (23 high, 27 medium, 31 low, 24 kept): the NVENC encoders
/// variable bitrate at that quality with no bitrate cap, SVT-AV1 a rate
/// factor ten above it, libvpx-vp9 that rate factor with no bitrate cap,
/// libvpx that rate factor with a 2M cap, and the GIF encoder nothing.
pub proof fn law_encoder_rate_control(q: Quality)
    ensures
        ({
            let cq: nat = match q {
                Quality::High => 23,
                Quality::Medium => 27,
                Quality::Low => 31,
                Quality::Unchanged => 24,
            };
            &&& quality_args_spec("h264_nvenc"@, q) == seq!["-rc"@, "vbr"@, "-cq"@, decimal(cq), "-b:v"@, "0"@]
            &&& quality_args_spec("hevc_nvenc"@, q) == seq!["-rc"@, "vbr"@, "-cq"@, decimal(cq), "-b:v"@, "0"@]
            &&& quality_args_spec("av1_nvenc"@, q) == seq!["-rc"@, "vbr"@, "-cq"@, decimal(cq), "-b:v"@, "0"@]
            &&& quality_args_spec("libsvtav1"@, q) == seq!["-crf"@, decimal(cq + 10)]
            &&& quality_args_spec("libvpx-vp9"@, q) == seq!["-crf"@, decimal(cq), "-b:v"@, "0"@]
            &&& quality_args_spec("libvpx"@, q) == seq!["-crf"@, decimal(cq), "-b:v"@, "2M"@]
            &&& quality_args_spec("gif"@, q) == Seq::<Seq<char>>::empty()
        }),
{
    reveal_strlit("libx264");
    reveal_strlit("libx265");
    reveal_strlit("libsvtav1");
    reveal_strlit("libvpx-vp9");
    reveal_strlit("libvpx");
    reveal_strlit("gif");
    reveal_strlit("h264_nvenc");
    reveal_strlit("hevc_nvenc");
    reveal_strlit("av1_nvenc");
    assert("libsvtav1"@[0] != "av1_nvenc"@[0]);
    assert("libsvtav1"@.len() != "h264_nvenc"@.len());
    assert("libsvtav1"@.len() != "hevc_nvenc"@.len());
    assert("libsvtav1"@.len() != "libx264"@.len());
    assert("libsvtav1"@.len() != "libx265"@.len());
    assert("libvpx-vp9"@[0] != "h264_nvenc"@[0]);
    assert("libvpx-vp9"@[0] != "hevc_nvenc"@[0]);
    assert("libvpx-vp9"@.len() != "av1_nvenc"@.len());
    assert("libvpx-vp9"@.len() != "libx264"@.len());
    assert("libvpx-vp9"@.len() != "libx265"@.len());
    assert("libvpx-vp9"@.len() != "libsvtav1"@.len());
    assert("libvpx"@.len() != "h264_nvenc"@.len());
    assert("libvpx"@.len() != "hevc_nvenc"@.len());
    assert("libvpx"@.len() != "av1_nvenc"@.len());
    assert("libvpx"@.len() != "libx264"@.len());
    assert("libvpx"@.len() != "libx265"@.len());
    assert("libvpx"@.len() != "libsvtav1"@.len());
    assert("libvpx"@.len() != "libvpx-vp9"@.len());
    assert("gif"@.len() != "h264_nvenc"@.len());
    assert("gif"@.len() != "hevc_nvenc"@.len());
    assert("gif"@.len() != "av1_nvenc"@.len());
    assert("gif"@.len() != "libx264"@.len());
    assert("gif"@.len() != "libx265"@.len());
    assert("gif"@.len() != "libsvtav1"@.len());
    assert("gif"@.len() != "libvpx-vp9"@.len());
    assert("gif"@.len() != "libvpx"@.len());
}

} // verus!
