use clips::adjustments::{PlaybackSpeed, Repeat, RepeatMode};
use clips::editor::{
    describe_saved, linked_size_text, resulting_length, resulting_length_message, saved_message,
    section_subtitle_message, section_title_message,
};
use clips::ffmpeg::{copy_total_ms, pass_plan, sections_render_plan};
use clips::profiles::{ContainerFormat, VideoEncoding};
use clips::segments::{ClipRange, ClipSegment, SegmentExportMode};
use clips::stages::{
    copy_export_start, copy_export_step, final_report, joined_output_ms, section_lengths, section_spans, sections_export_start,
    sections_export_step, sections_spans_fit, single_export_start, single_export_step,
    single_inputs_fit, CopyState, SectionsState, SingleState, StageAction, StageEvent,
};

fn segment(start_ms: u64, end_ms: u64) -> ClipSegment {
    ClipSegment { source: "/v/a.mp4".to_owned(), range: ClipRange { start_ms, end_ms } }
}

#[test]
fn sections_render_in_order_then_join() {
    let spans = vec![1000, 2000];
    let (s, a) = sections_export_start(&spans);
    assert_eq!(a, StageAction::RenderSection { index: 0, base_ms: 0, span_ms: 1000 });
    let (s, a) = sections_export_step(SegmentExportMode::Join, &spans, 301, s, StageEvent::Done);
    assert_eq!(a, StageAction::RenderSection { index: 1, base_ms: 1000, span_ms: 2000 });
    let (s, a) = sections_export_step(SegmentExportMode::Join, &spans, 301, s, StageEvent::Done);
    assert_eq!(s, SectionsState::WritingList { done_ms: 3000 });
    assert_eq!(a, StageAction::WriteList);
    let (s, a) = sections_export_step(SegmentExportMode::Join, &spans, 301, s, StageEvent::Done);
    assert_eq!(a, StageAction::JoinCopy { base_ms: 3000, span_ms: 301 });
    let (s, a) = sections_export_step(SegmentExportMode::Join, &spans, 301, s, StageEvent::Failed);
    assert_eq!(a, StageAction::JoinEncode { base_ms: 3000, span_ms: 301 });
    let (s, a) = sections_export_step(SegmentExportMode::Join, &spans, 301, s, StageEvent::Done);
    assert_eq!((s, a), (SectionsState::Finished, StageAction::Finish { ok: true }));
}

#[test]
fn separate_sections_end_after_the_last_render() {
    let spans = vec![500];
    let (s, _) = sections_export_start(&spans);
    let (s, a) = sections_export_step(SegmentExportMode::Separate, &spans, 0, s, StageEvent::Done);
    assert_eq!((s, a), (SectionsState::Finished, StageAction::Finish { ok: true }));
}

#[test]
fn a_failed_encoding_join_is_not_retried() {
    let spans = vec![500];
    let s = SectionsState::JoiningEncode { done_ms: 500 };
    let (s, a) = sections_export_step(SegmentExportMode::Join, &spans, 51, s, StageEvent::Failed);
    assert_eq!((s, a), (SectionsState::Finished, StageAction::Finish { ok: false }));
}

#[test]
fn a_cancelled_section_ends_the_render() {
    let spans = vec![500, 700];
    let (s, _) = sections_export_start(&spans);
    let (s, a) = sections_export_step(SegmentExportMode::Join, &spans, 121, s, StageEvent::Cancelled);
    assert_eq!((s, a), (SectionsState::Finished, StageAction::Finish { ok: false }));
    let s = SectionsState::JoiningCopy { done_ms: 1200 };
    let (_, a) = sections_export_step(SegmentExportMode::Join, &spans, 121, s, StageEvent::Cancelled);
    assert_eq!(a, StageAction::Finish { ok: false });
}

#[test]
fn a_failed_copy_is_rendered_instead() {
    let lengths = vec![1000, 2000];
    let (s, a) = copy_export_start(&lengths);
    assert_eq!(a, StageAction::CopySection { index: 0, base_ms: 0, span_ms: 1000 });
    let (s2, a) = copy_export_step(SegmentExportMode::Join, &lengths, s, StageEvent::Failed);
    assert_eq!((s2, a), (CopyState::Finished, StageAction::RenderInstead));
    let (s, _) = copy_export_step(SegmentExportMode::Join, &lengths, s, StageEvent::Done);
    let (s, a) = copy_export_step(SegmentExportMode::Join, &lengths, s, StageEvent::Done);
    assert_eq!(a, StageAction::WriteList);
    let (_, a) = copy_export_step(SegmentExportMode::Join, &lengths, s, StageEvent::Failed);
    assert_eq!(a, StageAction::RenderInstead);
    let (s, a) = copy_export_step(SegmentExportMode::Join, &lengths, s, StageEvent::Done);
    assert_eq!(a, StageAction::JoinCopy { base_ms: 2999, span_ms: 1 });
    let (_, a) = copy_export_step(SegmentExportMode::Join, &lengths, s, StageEvent::Failed);
    assert_eq!(a, StageAction::RenderInstead);
    let (_, a) = copy_export_step(SegmentExportMode::Join, &lengths, s, StageEvent::Cancelled);
    assert_eq!(a, StageAction::Finish { ok: false });
    let (_, a) = copy_export_step(SegmentExportMode::Join, &lengths, s, StageEvent::Done);
    assert_eq!(a, StageAction::Finish { ok: true });
}

#[test]
fn a_single_copied_part_needs_no_join() {
    let lengths = vec![4000];
    let (s, _) = copy_export_start(&lengths);
    let (s, a) = copy_export_step(SegmentExportMode::Join, &lengths, s, StageEvent::Done);
    assert_eq!((s, a), (CopyState::Finished, StageAction::Finish { ok: true }));
}

#[test]
fn a_bounce_renders_reversed_chunks_then_joins() {
    let repeat = Repeat { mode: RepeatMode::Boomerang, count: 2 };
    let plan = pass_plan(PlaybackSpeed::Normal, repeat, 10_000);
    assert_eq!(plan.total_ms, 21_001);
    let chunks = vec![6000, 4000];
    assert!(single_inputs_fit(&plan, &chunks));
    let (s, a) = single_export_start(&plan);
    assert_eq!(a, StageAction::RenderForward { span_ms: 10_000 });
    let (s, a) = single_export_step(&plan, repeat, &chunks, s, StageEvent::Done);
    assert_eq!(a, StageAction::RenderReversed { index: 0, base_ms: 10_000, span_ms: 6000 });
    let (s, a) = single_export_step(&plan, repeat, &chunks, s, StageEvent::Done);
    assert_eq!(a, StageAction::RenderReversed { index: 1, base_ms: 16_000, span_ms: 4000 });
    let (s, a) = single_export_step(&plan, repeat, &chunks, s, StageEvent::Done);
    assert_eq!((s, a), (SingleState::WritingList { done_ms: 20_000 }, StageAction::WriteList));
    let (s, a) = single_export_step(&plan, repeat, &chunks, s, StageEvent::Done);
    assert_eq!(a, StageAction::JoinCopy { base_ms: 20_000, span_ms: 1001 });
    let (s, a) = single_export_step(&plan, repeat, &chunks, s, StageEvent::Failed);
    assert_eq!(a, StageAction::JoinEncode { base_ms: 20_000, span_ms: 1001 });
    let (_, a) = single_export_step(&plan, repeat, &chunks, s, StageEvent::Done);
    assert_eq!(a, StageAction::Finish { ok: true });
}

#[test]
fn a_plain_render_ends_after_the_forward_pass() {
    let repeat = Repeat { mode: RepeatMode::Off, count: 1 };
    let plan = pass_plan(PlaybackSpeed::Half, repeat, 3000);
    let chunks: Vec<u64> = Vec::new();
    let (s, a) = single_export_start(&plan);
    assert_eq!(a, StageAction::RenderForward { span_ms: 6000 });
    let (_, a) = single_export_step(&plan, repeat, &chunks, s, StageEvent::Done);
    assert_eq!(a, StageAction::Finish { ok: true });
    let (_, a) = single_export_step(&plan, repeat, &chunks, s, StageEvent::Failed);
    assert_eq!(a, StageAction::Finish { ok: false });
}

#[test]
fn a_loop_lists_and_joins_without_reversing() {
    let repeat = Repeat { mode: RepeatMode::Loop, count: 3 };
    let plan = pass_plan(PlaybackSpeed::Normal, repeat, 1000);
    let chunks: Vec<u64> = Vec::new();
    let (s, _) = single_export_start(&plan);
    let (s, a) = single_export_step(&plan, repeat, &chunks, s, StageEvent::Done);
    assert_eq!((s, a), (SingleState::WritingList { done_ms: 1000 }, StageAction::WriteList));
    let (_, a) = single_export_step(&plan, repeat, &chunks, s, StageEvent::Failed);
    assert_eq!(a, StageAction::Finish { ok: false });
}

#[test]
fn spans_follow_speed_and_length() {
    let segments = vec![segment(0, 1000), segment(5000, 5600)];
    assert_eq!(section_spans(PlaybackSpeed::Half, &segments), vec![2000, 1200]);
    assert_eq!(section_lengths(&segments), vec![1000, 600]);
    assert!(sections_spans_fit(&vec![1, 2]));
    assert!(!sections_spans_fit(&Vec::new()));
    assert!(!sections_spans_fit(&vec![u64::MAX, 1]));
}

#[test]
fn messages_before_translation() {
    assert_eq!(saved_message(SegmentExportMode::Separate), "Saved {} clips in {}");
    assert_eq!(saved_message(SegmentExportMode::Join), "Saved as {}");
    assert_eq!(section_title_message(), "{} · Section {}");
    assert_eq!(section_subtitle_message(), "{} – {} · {}");
    assert_eq!(resulting_length_message(), "Resulting length: {}");
    assert_eq!(
        describe_saved(saved_message(SegmentExportMode::Separate), SegmentExportMode::Separate, 3, "/tmp"),
        "Saved 3 clips in /tmp"
    );
    assert_eq!(resulting_length(resulting_length_message(), 61_000), "Resulting length: 1:01");
}

#[test]
fn container_labels() {
    assert_eq!(ContainerFormat::Best.display_msgid(), "Recommended (WEBM, AV1, Opus)");
    assert_eq!(ContainerFormat::Same.display_msgid(), "Keep as-is");
    assert_eq!(ContainerFormat::Matroska.display_msgid(), "MKV");
    assert_eq!(ContainerFormat::GifContainer.display_msgid(), "GIF");
    assert!(ContainerFormat::Best.label_is_translated());
    assert!(!ContainerFormat::Mpeg.label_is_translated());
}

#[test]
fn linked_size_fields() {
    assert_eq!(linked_size_text("1920", "", 1080, 1920), None);
    assert_eq!(linked_size_text("1920", "1080", 1080, 1920), None);
    assert_eq!(linked_size_text("1920", "720", 1080, 1280), Some("1280".to_owned()));
    assert_eq!(linked_size_text("1280", "720", 1080, 1280), None);
    assert_eq!(linked_size_text("1920", "0", 1080, 0), None);
}

#[test]
fn av1_software_bitrate_is_in_bits_per_second() {
    assert_eq!(VideoEncoding::Av1.bitrate_property(), ("target-bitrate", 1000));
    assert_eq!(VideoEncoding::H264.bitrate_property(), ("bitrate", 1));
    assert_eq!(VideoEncoding::Vp9.bitrate_property(), ("target-bitrate", 1000));
}

#[test]
fn final_reports() {
    assert_eq!(final_report(true, 900), Ok((900, 900)));
    assert_eq!(final_report(false, 900), Err(()));
}

#[test]
fn nothing_playable_is_refused() {
    assert!(sections_render_plan(PlaybackSpeed::Normal, SegmentExportMode::Join, &[]).is_none());
    assert_eq!(copy_total_ms(&[]), None);
    let segments = vec![segment(0, 1000), segment(2000, 4000)];
    let plan = sections_render_plan(PlaybackSpeed::Half, SegmentExportMode::Join, &segments).unwrap();
    assert_eq!((plan.source_ms, plan.concat_ms, plan.total_ms), (6000, 601, 6601));
    assert_eq!(copy_total_ms(&segments), Some(3000));
    let huge = vec![segment(0, u64::MAX), segment(0, 10)];
    assert_eq!(copy_total_ms(&huge), None);
    assert!(sections_render_plan(PlaybackSpeed::Normal, SegmentExportMode::Separate, &huge).is_none());
}

#[test]
fn joined_output_length() {
    assert_eq!(joined_output_ms(Repeat { mode: RepeatMode::Boomerang, count: 3 }, 1000), Some(6000));
    assert_eq!(joined_output_ms(Repeat { mode: RepeatMode::Loop, count: 2 }, 1000), Some(2000));
    assert_eq!(joined_output_ms(Repeat { mode: RepeatMode::Loop, count: 4 }, u64::MAX / 4), None);
}

#[test]
fn webm_extension_goes_with_webm_type() {
    for c in ContainerFormat::get_all() {
        if c != ContainerFormat::Same {
            assert_eq!(c.extension() == "webm", c.format() == "video/webm");
        }
    }
}

#[test]
fn atempo_stages_multiply_to_the_speed() {
    assert_eq!(PlaybackSpeed::Normal.ffmpeg_audio_filter(), None);
    assert_eq!(PlaybackSpeed::ThreeQuarter.ffmpeg_audio_filter(), Some("atempo=0.75"));
    assert_eq!(PlaybackSpeed::Quarter.ffmpeg_audio_filter(), Some("atempo=0.5,atempo=0.5"));
}
