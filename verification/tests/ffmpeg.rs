use clips::adjustments::{PlaybackSpeed, Repeat, RepeatMode};
use clips::ffmpeg::{
    choose_ffmpeg_encoder, clamp_chunk_ms, concat_copy_args, concat_encode_args, concat_entry,
    concat_list, copy_join_args, copy_needs_join, copy_part_target, copy_section_args,
    duration_before, export_audio_codec, ffmpeg_base_args, ffmpeg_filter_chain,
    ffmpeg_progress_args, ffmpeg_quality_args, forward_args, join_texts, joined_audio_filter,
    known_hardware_encoder, numbered_tag, parse_progress_line, pass_plan, playable_sections,
    render_part_target, repeat_concat_list, reverse_chunk_args, reverse_chunk_frames,
    reverse_chunks, seconds3_text, seconds_shortest_text, section_file_name, section_render_args,
    section_stem, sections_encode_args, sections_plan, stage_report, temp_file_name, ChunkPass,
    CropBox, PartTarget, ProgressLine,
};
use clips::media::{Dimensions, Framerate};
use clips::profiles::{AudioEncoding, ContainerFormat, OutputFormat, Quality, VideoEncoding};
use clips::segments::{ClipSegment, SegmentExportMode};

fn strings(items: &[&str]) -> Vec<String> {
    items.iter().map(|s| s.to_string()).collect()
}

#[test]
fn quality_arguments_follow_the_encoder() {
    assert_eq!(ffmpeg_quality_args("libx264", Quality::High), strings(&["-crf", "23"]));
    assert_eq!(
        ffmpeg_quality_args("h264_nvenc", Quality::Medium),
        strings(&["-rc", "vbr", "-cq", "27", "-b:v", "0"])
    );
    assert_eq!(ffmpeg_quality_args("libsvtav1", Quality::Low), strings(&["-crf", "41"]));
    assert_eq!(
        ffmpeg_quality_args("libvpx-vp9", Quality::Unchanged),
        strings(&["-crf", "24", "-b:v", "0"])
    );
    assert_eq!(
        ffmpeg_quality_args("libvpx", Quality::High),
        strings(&["-crf", "23", "-b:v", "2M"])
    );
    assert!(ffmpeg_quality_args("gif", Quality::High).is_empty());
}

#[test]
fn encoder_choice_respects_preference_and_hardware() {
    assert_eq!(choose_ffmpeg_encoder(VideoEncoding::H264, true, true), "h264_nvenc");
    assert_eq!(choose_ffmpeg_encoder(VideoEncoding::H264, true, false), "libx264");
    assert_eq!(choose_ffmpeg_encoder(VideoEncoding::H265, false, true), "libx265");
    assert_eq!(choose_ffmpeg_encoder(VideoEncoding::Vp9, true, true), "libvpx-vp9");
    assert!(known_hardware_encoder("av1_nvenc"));
    assert!(!known_hardware_encoder("libx264"));
}

#[test]
fn audio_codec_and_filters() {
    let format = OutputFormat {
        container_format: ContainerFormat::WebM,
        video_encoding: Some(VideoEncoding::Vp9),
        audio_encoding: Some(AudioEncoding::Opus),
        quality: Quality::High,
    };
    assert_eq!(export_audio_codec(&format, false), Some("libopus"));
    assert_eq!(export_audio_codec(&format, true), None);
    assert_eq!(
        joined_audio_filter(PlaybackSpeed::Half),
        "aformat=sample_rates=48000:channel_layouts=stereo,atempo=0.5"
    );
    assert_eq!(
        joined_audio_filter(PlaybackSpeed::Normal),
        "aformat=sample_rates=48000:channel_layouts=stereo"
    );
}

#[test]
fn times_are_printed_like_floats() {
    assert_eq!(seconds3_text(1234), "1.234");
    assert_eq!(seconds3_text(5), "0.005");
    assert_eq!(seconds3_text(60_000), "60.000");
    assert_eq!(seconds_shortest_text(1_500_000_000), "1.5");
    assert_eq!(seconds_shortest_text(2_000_000_000), "2");
    assert_eq!(seconds_shortest_text(1), "0.000000001");
    assert_eq!(seconds_shortest_text(0), "0");
    assert_eq!(seconds_shortest_text(12_345_000_000), format!("{}", 12_345_000_000u64 as f64 / 1e9));
    assert_eq!(seconds3_text(987_654), format!("{:.3}", 987_654u64 as f64 / 1000.0));
}

#[test]
fn concat_lists_quote_paths() {
    assert_eq!(concat_entry("/tmp/it's.mp4"), "file '/tmp/it'\\''s.mp4'\n");
    assert_eq!(
        concat_list(&strings(&["a.mp4", "b.mp4"])),
        "file 'a.mp4'\nfile 'b.mp4'\n"
    );
    assert_eq!(
        repeat_concat_list("f.mp4", &strings(&["r0.mp4", "r1.mp4"]), 2),
        "file 'f.mp4'\nfile 'r1.mp4'\nfile 'r0.mp4'\nfile 'f.mp4'\nfile 'r1.mp4'\nfile 'r0.mp4'\n"
    );
    assert_eq!(repeat_concat_list("f.mp4", &vec![], 3), "file 'f.mp4'\n".repeat(3));
}

#[test]
fn filter_chain_orders_its_stages() {
    let crop = Some(CropBox { width: 1280, height: 720, x: 10, y: 20 });
    let chain = ffmpeg_filter_chain(
        &strings(&["transpose=1"]),
        crop,
        &strings(&["eq=brightness=0.1"]),
        (1920, 1080),
        Dimensions { width: 1280, height: 720 },
        PlaybackSpeed::ThreeQuarter,
        Framerate { nominator: 30000, denominator: 1001 },
    );
    assert_eq!(
        chain,
        strings(&[
            "transpose=1",
            "crop=1280:720:10:20",
            "eq=brightness=0.1",
            "setpts=PTS/0.7500",
            "fps=30000/1001"
        ])
    );
    let scaled = ffmpeg_filter_chain(
        &vec![],
        None,
        &vec![],
        (1920, 1080),
        Dimensions { width: 3840, height: 2160 },
        PlaybackSpeed::Normal,
        Framerate { nominator: 25, denominator: 0 },
    );
    assert_eq!(
        scaled,
        strings(&["libplacebo=w=3840:h=2160:upscaler=ewa_lanczossharp", "fps=25/1"])
    );
    assert_eq!(join_texts(&scaled, ","), scaled.join(","));
}

#[test]
fn bounced_passes_are_weighted() {
    let bounce = Repeat { mode: RepeatMode::Boomerang, count: 2 };
    let plan = pass_plan(PlaybackSpeed::Half, bounce, 3000);
    assert_eq!(
        (plan.selection_ms, plan.reverse_weight, plan.concat_weight, plan.total_ms),
        (6000, 6000, 601, 12_601)
    );
    let single = pass_plan(PlaybackSpeed::Normal, Repeat { mode: RepeatMode::Off, count: 1 }, 0);
    assert_eq!((single.selection_ms, single.reverse_weight, single.concat_weight, single.total_ms), (1, 0, 0, 1));
    let looped = pass_plan(PlaybackSpeed::Normal, Repeat { mode: RepeatMode::Loop, count: 3 }, 2000);
    assert_eq!((looped.reverse_weight, looped.concat_weight, looped.total_ms), (0, 201, 2201));
}

#[test]
fn reversed_chunks_cover_the_selection() {
    let chunks = reverse_chunks(125_000, 60_000, 125_000);
    assert_eq!(
        chunks,
        vec![
            ChunkPass { start_ms: 0, len_ms: 60_000, span_ms: 60_000 },
            ChunkPass { start_ms: 60_000, len_ms: 60_000, span_ms: 60_000 },
            ChunkPass { start_ms: 120_000, len_ms: 5_000, span_ms: 5_000 },
        ]
    );
    let total: u64 = chunks.iter().map(|c| c.len_ms).sum();
    assert_eq!(total, 125_000);
    let exact = reverse_chunks(2000, 1000, 4000);
    assert_eq!(exact.len(), 2);
    assert_eq!(exact[1], ChunkPass { start_ms: 1000, len_ms: 1000, span_ms: 2000 });
    assert_eq!(reverse_chunks(500, 1000, 500).len(), 1);
    assert_eq!(reverse_chunk_frames(Dimensions { width: 1920, height: 1080 }), 289);
    assert_eq!(reverse_chunk_frames(Dimensions { width: 0, height: 0 }), 1_200_000_000);
    assert_eq!(clamp_chunk_ms(10), 1000);
    assert_eq!(clamp_chunk_ms(90_000), 60_000);
    assert_eq!(clamp_chunk_ms(9_600), 9_600);
}

#[test]
fn sections_skip_empty_ranges_and_weigh_the_join() {
    let segments = vec![
        ClipSegment::new("a.mp4", 0, 1000),
        ClipSegment::new("b.mp4", 500, 500),
        ClipSegment::new("c.mp4", 2000, 5000),
    ];
    let playable = playable_sections(&segments);
    assert_eq!(playable, vec![segments[0].clone(), segments[2].clone()]);
    assert_eq!(duration_before(&segments, 2), 1000);
    let plan = sections_plan(PlaybackSpeed::Half, SegmentExportMode::Join, &playable);
    assert_eq!((plan.source_ms, plan.concat_ms, plan.total_ms), (8000, 801, 8801));
    let apart = sections_plan(PlaybackSpeed::Normal, SegmentExportMode::Separate, &playable);
    assert_eq!((apart.source_ms, apart.concat_ms, apart.total_ms), (4000, 0, 4000));
}

#[test]
fn parts_go_where_the_mode_says() {
    assert_eq!(copy_part_target(SegmentExportMode::Join, 1), PartTarget::Output);
    assert_eq!(copy_part_target(SegmentExportMode::Join, 2), PartTarget::Temporary);
    assert_eq!(copy_part_target(SegmentExportMode::Separate, 1), PartTarget::Separate);
    assert_eq!(render_part_target(SegmentExportMode::Join), PartTarget::Temporary);
    assert!(copy_needs_join(SegmentExportMode::Join, 3));
    assert!(!copy_needs_join(SegmentExportMode::Join, 1));
    assert!(!copy_needs_join(SegmentExportMode::Separate, 3));
}

#[test]
fn file_names_of_parts() {
    assert_eq!(temp_file_name(42, "fwd", "mp4"), ".clips-42-fwd.mp4");
    assert_eq!(numbered_tag("copy-section-", 3), "copy-section-3");
    assert_eq!(section_file_name("movie", 0, "mp4", 1), "movie-section-01.mp4");
    assert_eq!(section_file_name("movie", 11, "webm", 3), "movie-section-12-3.webm");
    assert_eq!(section_stem("/videos/holiday.final.mkv"), "holiday.final");
    assert_eq!(section_stem(""), "clip");
}

#[test]
fn reads_progress_lines() {
    assert_eq!(parse_progress_line("out_time_us=1500000"), ProgressLine::OutTime(1_500_000));
    assert_eq!(parse_progress_line("out_time_us= 42 "), ProgressLine::OutTime(42));
    assert_eq!(parse_progress_line("out_time_us=N/A"), ProgressLine::Other);
    assert_eq!(parse_progress_line("progress=end"), ProgressLine::End);
    assert_eq!(parse_progress_line("progress=continue"), ProgressLine::Other);
    assert_eq!(parse_progress_line("frame=12"), ProgressLine::Other);
}

#[test]
fn stage_reports_stay_below_the_total() {
    assert_eq!(stage_report(100, 100), (99, 100));
    assert_eq!(stage_report(150, 100), (99, 100));
    assert_eq!(stage_report(5, 100), (5, 100));
    assert_eq!(stage_report(5, 0), (0, 0));
}

#[test]
fn command_lines() {
    assert_eq!(ffmpeg_base_args(), strings(&["-y", "-nostdin", "-hide_banner", "-loglevel", "error"]));
    assert_eq!(ffmpeg_progress_args(), strings(&["-progress", "pipe:1", "-nostats"]));
    assert_eq!(
        copy_section_args(2000, 1500, "in.mp4", true, "out.mp4"),
        strings(&[
            "-ss", "2.000", "-i", "in.mp4", "-t", "1.500", "-map", "0:v:0", "-map", "0:a:0", "-c",
            "copy", "-avoid_negative_ts", "make_zero", "out.mp4"
        ])
    );
    assert_eq!(
        copy_join_args("list.txt", "out.mp4"),
        strings(&[
            "-f", "concat", "-safe", "0", "-i", "list.txt", "-c", "copy", "-avoid_negative_ts",
            "make_zero", "out.mp4"
        ])
    );
    assert_eq!(
        concat_copy_args("list.txt", "out.mkv"),
        strings(&["-f", "concat", "-safe", "0", "-i", "list.txt", "-c", "copy", "out.mkv"])
    );
    let quality = strings(&["-crf", "23"]);
    assert_eq!(
        concat_encode_args("list.txt", "libx264", &quality, None, "out.mp4"),
        strings(&[
            "-f", "concat", "-safe", "0", "-i", "list.txt", "-c:v", "libx264", "-crf", "23", "-an",
            "out.mp4"
        ])
    );
    assert_eq!(
        sections_encode_args("list.txt", "libx264", &quality, Some("aac"), "out.mp4"),
        strings(&[
            "-f", "concat", "-safe", "0", "-i", "list.txt", "-map", "0:v:0", "-map", "0:a:0?",
            "-c:v", "libx264", "-crf", "23", "-c:a", "aac", "out.mp4"
        ])
    );
    let filters = strings(&["fps=30/1"]);
    assert_eq!(
        section_render_args(
            1000, 2000, "b.mp4", true, false, &filters, "libx264", &quality, Some("aac"),
            PlaybackSpeed::Normal, "part.mp4"
        ),
        strings(&[
            "-ss", "1.000", "-t", "2.000", "-i", "b.mp4", "-map", "0:v:0", "-f", "lavfi", "-i",
            "anullsrc=channel_layout=stereo:sample_rate=48000", "-map", "1:a:0", "-vf", "fps=30/1",
            "-c:v", "libx264", "-crf", "23", "-af",
            "aformat=sample_rates=48000:channel_layouts=stereo", "-c:a", "aac", "-ar", "48000",
            "-ac", "2", "-shortest", "part.mp4"
        ])
    );
    assert_eq!(
        forward_args(
            1_250_000_000, 4_000_000_000, "in.mov", &filters, "libx265", &quality, Some("aac"),
            PlaybackSpeed::Quarter, "fwd.mp4"
        ),
        strings(&[
            "-ss", "1.25", "-t", "4", "-i", "in.mov", "-vf", "fps=30/1", "-c:v", "libx265", "-crf",
            "23", "-af", "atempo=0.5,atempo=0.5", "-c:a", "aac", "fwd.mp4"
        ])
    );
    assert_eq!(
        reverse_chunk_args(
            ChunkPass { start_ms: 60_000, len_ms: 5_000, span_ms: 5_000 },
            "fwd.mp4", "libx264", &quality, None, "rev1.mp4"
        ),
        strings(&[
            "-ss", "60.000", "-t", "5.000", "-i", "fwd.mp4", "-vf", "reverse", "-c:v", "libx264",
            "-crf", "23", "-an", "rev1.mp4"
        ])
    );
}
