use clips::adjustments::{PlaybackSpeed, Repeat, RepeatMode};
use clips::editor::{
    effects_change, resume_position, EffectsChange,
    default_repeat_count, describe_saved, encoder_icon, encoder_status, enhance_ui, export_step,
    fill_every_placeholder, fill_placeholder, format_duration_ms, multi_segments_supported,
    parse_size_field, preview_position, preview_tick, repeat_hint, repeat_is_supported,
    repeat_length, resulting_length, scaled_size, section_subtitle, section_title,
    seek_in_section, selected_audio_encoding, selected_container, selected_playback_speed,
    selected_repeat, selected_segment_export_mode, selected_video_encoding, sequence_starts,
    should_mirror,
    speed_hint, suggested_file_name, ExportAction, ExportEvent, GpuHint, RepeatHint,
    ResizeRequest, SaveProblem, SectionList, SpeedHint,
};
use clips::media::Dimensions;
use clips::profiles::{AudioEncoding, ContainerFormat, VideoEncoding};
use clips::segments::{ClipRange, ClipSegment, SegmentExportMode};

#[test]
fn durations_round_up_to_seconds() {
    assert_eq!(format_duration_ms(0), "0:00");
    assert_eq!(format_duration_ms(1), "0:01");
    assert_eq!(format_duration_ms(61_000), "1:01");
    assert_eq!(format_duration_ms(3_599_000), "59:59");
    assert_eq!(format_duration_ms(3_600_000), "1:00:00");
    assert_eq!(format_duration_ms(3_661_001), "1:01:02");
}

#[test]
fn placeholders_are_filled_in_order() {
    assert_eq!(fill_placeholder("{} · Section {}", "a.mp4"), "a.mp4 · Section {}");
    assert_eq!(fill_placeholder("no slot", "x"), "no slot");
    assert_eq!(fill_every_placeholder("{}/{}", "x"), "x/x");
    let segment = ClipSegment::new("/videos/a.mp4", 1000, 61_000);
    assert_eq!(section_title("{} · Section {}", &segment, 0), "a.mp4 · Section 1");
    assert_eq!(section_subtitle("{} – {} · {}", segment.range), "0:01 – 1:01 · 1:00");
    assert_eq!(resulting_length("Resulting length: {}", 90_500), "Resulting length: 1:31");
    assert_eq!(
        describe_saved("Saved {} clips in {}", SegmentExportMode::Separate, 3, "out"),
        "Saved 3 clips in out"
    );
    assert_eq!(
        describe_saved("Saved as {}", SegmentExportMode::Join, 3, "out.mp4"),
        "Saved as out.mp4"
    );
}

#[test]
fn sections_are_added_moved_and_removed() {
    let mut list = SectionList::new();
    assert_eq!(list.len(), 0);
    assert_eq!(list.remove_active(), None);
    list.reset("a.mp4", 20_000);
    assert_eq!(list.to_vec(), vec![ClipSegment::new("a.mp4", 0, 20_000)]);

    assert_eq!(list.add_at_playhead(false, 20_000, 1000), None);
    assert_eq!(list.add_at_playhead(true, 0, 1000), None);
    assert_eq!(list.add_at_playhead(true, 20_000, 18_000), Some(1));
    assert_eq!(list.segments()[1].range, ClipRange::new(15_000, 20_000));
    assert_eq!(list.segments()[1].source, "a.mp4");
    assert_eq!(list.add_at_playhead(true, 20_000, 1000), Some(2));
    assert_eq!(list.segments()[2].range, ClipRange::new(1000, 6000));
    assert_eq!(list.active(), 2);

    assert!(list.move_active(-1));
    assert_eq!(list.active(), 1);
    assert_eq!(list.segments()[1].range, ClipRange::new(1000, 6000));
    assert!(!list.move_active(-5));
    assert!(list.move_active(1));
    assert_eq!(list.segments()[2].range, ClipRange::new(1000, 6000));

    list.update_active(3000, 2000);
    assert_eq!(list.segments()[2].range, ClipRange::new(2000, 3000));

    assert!(!list.select(7));
    assert!(list.select(0));
    assert_eq!(list.remove_active(), Some(0));
    assert_eq!(list.len(), 2);
    assert_eq!(list.segments()[0].range, ClipRange::new(15_000, 20_000));
    assert!(list.select(1));
    assert_eq!(list.remove_active(), Some(0));
    assert_eq!(list.remove_active(), None);
    assert_eq!(list.len(), 1);

    list.push_source("b.mp4", 3000);
    assert_eq!(list.segments()[1], ClipSegment::new("b.mp4", 0, 3000));
    assert_eq!(list.total_duration_ms(), 5000 + 3000);
    assert_eq!(list.preview_index(), 0);
}

#[test]
fn a_short_clip_gets_a_short_section() {
    let mut list = SectionList::new();
    list.reset("a.mp4", 3000);
    assert_eq!(list.add_at_playhead(true, 3000, 2500), Some(1));
    assert_eq!(list.segments()[1].range, ClipRange::new(0, 3000));
}

#[test]
fn moving_back_restores_the_order() {
    let mut list = SectionList::new();
    list.reset("a.mp4", 20_000);
    list.add_at_playhead(true, 20_000, 5000);
    list.add_at_playhead(true, 20_000, 10_000);
    let before = list.to_vec();
    assert!(list.move_active(-2));
    assert!(list.move_active(2));
    assert_eq!(list.to_vec(), before);
    assert_eq!(list.active(), 2);
}

#[test]
fn section_controls_follow_the_list() {
    let mut list = SectionList::new();
    list.reset("a.mp4", 20_000);
    let single = list.ui_state(false, 1);
    assert!(!single.can_remove && !single.show_export_mode && single.can_save);
    assert!(!single.saves_clips);
    assert_eq!(single.save_label_msgid(), "Save Video");
    list.add_at_playhead(true, 20_000, 0);
    let two = list.ui_state(true, 1);
    assert!(two.can_remove && two.can_move_up && !two.can_move_down && two.saves_clips);
    assert_eq!(two.save_label_msgid(), "Save Clips");
    let unsupported = list.ui_state(false, 0);
    assert_eq!(unsupported.save_problem, Some(SaveProblem::SingleSectionFormat));
    assert!(!unsupported.can_save);
    assert_eq!(
        unsupported.add_tooltip_msgid(),
        "Multiple sections are not available for this container format"
    );
    list.update_active(4000, 4000);
    assert_eq!(list.ui_state(true, 0).save_problem, Some(SaveProblem::EmptySection));
    assert_eq!(SaveProblem::EmptySection.msgid(), "Every section must have a duration");
}

#[test]
fn options_follow_the_container() {
    assert!(multi_segments_supported(ContainerFormat::Mpeg));
    assert!(!multi_segments_supported(ContainerFormat::Same));
    assert!(repeat_is_supported(1, ContainerFormat::WebM));
    assert!(!repeat_is_supported(2, ContainerFormat::WebM));
    assert_eq!(selected_repeat(false, 2, 4), Repeat { mode: RepeatMode::Off, count: 1 });
    assert_eq!(selected_repeat(true, 2, 4), Repeat { mode: RepeatMode::Boomerang, count: 4 });
    assert_eq!(default_repeat_count(RepeatMode::Boomerang), 1);
    assert_eq!(default_repeat_count(RepeatMode::Loop), 2);
    assert_eq!(selected_playback_speed(false, 2), PlaybackSpeed::Normal);
    assert_eq!(selected_playback_speed(true, 2), PlaybackSpeed::Half);
    assert_eq!(selected_segment_export_mode(1, 1), SegmentExportMode::Join);
    assert_eq!(selected_segment_export_mode(2, 1), SegmentExportMode::Separate);
    assert_eq!(selected_container(3), ContainerFormat::Mpeg);
    assert_eq!(selected_video_encoding(ContainerFormat::WebM, 2), Some(VideoEncoding::Vp9));
    assert_eq!(selected_video_encoding(ContainerFormat::Same, 5), None);
    assert_eq!(selected_audio_encoding(ContainerFormat::Mpeg, 1), Some(AudioEncoding::Aac));
    assert_eq!(selected_audio_encoding(ContainerFormat::GifContainer, 0), None);
}

#[test]
fn hints_describe_the_result() {
    let bounce = Repeat { mode: RepeatMode::Boomerang, count: 2 };
    assert_eq!(speed_hint(false, PlaybackSpeed::Half, 1000, bounce), SpeedHint::Unavailable);
    assert_eq!(speed_hint(true, PlaybackSpeed::Normal, 1000, bounce), SpeedHint::Describe);
    assert_eq!(speed_hint(true, PlaybackSpeed::Half, 1000, bounce), SpeedHint::ResultingLength(8000));
    assert_eq!(SpeedHint::Describe.msgid(), "Change video and audio speed");
    assert_eq!(repeat_hint(true, 3), RepeatHint::Available);
    assert_eq!(repeat_hint(false, 3), RepeatHint::MultipleSections);
    assert_eq!(repeat_hint(false, 1).msgid(), Some("Not available for this container format"));
    assert_eq!(RepeatHint::Available.msgid(), None);
    let looped = Repeat { mode: RepeatMode::Loop, count: 3 };
    assert_eq!(repeat_length(true, looped, PlaybackSpeed::Quarter, 1000, 3000), Some(24_000));
    assert_eq!(repeat_length(false, looped, PlaybackSpeed::Quarter, 1000, 3000), None);
    assert_eq!(repeat_length(true, Repeat { mode: RepeatMode::Off, count: 1 }, PlaybackSpeed::Normal, 0, 10), None);
    let enhance = enhance_ui(false, true);
    assert!(!enhance.enhance_active && enhance.resize_sensitive);
    assert_eq!(enhance.enhance_msgid(), "Choose MP4, WebM or Matroska in Export");
    assert_eq!(enhance_ui(true, true).resize_msgid(), Some("Controlled by Improve Quality · 200%"));
}

#[test]
fn encoder_row_names_the_encoder() {
    let gpu = encoder_status(VideoEncoding::H264, true, true, true);
    assert!(gpu.hardware_active && gpu.gpu_sensitive);
    assert_eq!(gpu.hint, GpuHint::Available);
    assert_eq!(gpu.label, "GPU · NVENC (h264_nvenc)");
    let ges = encoder_status(VideoEncoding::H265, false, true, true);
    assert_eq!(ges.label, "GPU · NVENC (nvh265enc)");
    let declined = encoder_status(VideoEncoding::H264, true, true, false);
    assert!(!declined.hardware_active);
    assert_eq!(declined.label, "CPU · libx264 (software)");
    let missing = encoder_status(VideoEncoding::Av1, true, false, true);
    assert_eq!(missing.hint, GpuHint::NotFound);
    assert!(!missing.gpu_sensitive);
    let vp9 = encoder_status(VideoEncoding::Vp9, false, true, true);
    assert_eq!(vp9.hint, GpuHint::Unsupported);
    assert_eq!(vp9.label, "CPU · vp9enc (software)");
    assert_eq!(vp9.hint.msgid(), "Not supported by the selected video codec");
    assert_eq!(encoder_icon(true), "power-profile-performance-symbolic");
}

#[test]
fn output_sizes_are_even() {
    let selected = Dimensions { width: 1921, height: 1081 };
    assert_eq!(scaled_size(ResizeRequest::Enhance, selected), Dimensions { width: 3842, height: 2162 });
    assert_eq!(
        scaled_size(ResizeRequest::Percent { width: 50, height: 50 }, Dimensions { width: 1920, height: 1080 }),
        Dimensions { width: 960, height: 540 }
    );
    assert_eq!(
        scaled_size(ResizeRequest::Exact { width: 1001, height: 501 }, selected),
        Dimensions { width: 1000, height: 500 }
    );
    assert_eq!(
        scaled_size(ResizeRequest::Enhance, Dimensions { width: u32::MAX, height: 2 }),
        Dimensions { width: u32::MAX - 1, height: 4 }
    );
    assert_eq!(parse_size_field("720"), Some(720));
    assert_eq!(parse_size_field("72a"), None);
    assert_eq!(parse_size_field(""), None);
    assert!(should_mirror("100", "50"));
    assert!(!should_mirror("50", "50"));
    assert!(!should_mirror("50", ""));
}

#[test]
fn suggests_a_file_name() {
    assert_eq!(suggested_file_name("/v/movie.mov", ContainerFormat::Mpeg).as_deref(), Some("movie.mp4"));
    assert_eq!(suggested_file_name("/v/movie.mov", ContainerFormat::Same).as_deref(), Some("movie.mov"));
    assert_eq!(suggested_file_name("/v/movie", ContainerFormat::Same), None);
    assert_eq!(suggested_file_name("/v/movie", ContainerFormat::WebM).as_deref(), Some("movie.webm"));
}

#[test]
fn follows_an_export() {
    let (action, most) = export_step(0, true, ExportEvent::Progress { done: 40, total: 100 });
    assert_eq!(action, ExportAction::Show { done: 40, total: 100 });
    let (action, most) = export_step(most, true, ExportEvent::Progress { done: 30, total: 100 });
    assert_eq!(action, ExportAction::Show { done: 40, total: 100 });
    assert_eq!(most, 40);
    let (action, _) = export_step(most, true, ExportEvent::Progress { done: 100, total: 100 });
    assert_eq!(action, ExportAction::Finish);
    let (action, _) = export_step(most, true, ExportEvent::Failed);
    assert_eq!(action, ExportAction::Fail { clear_running: true });
    let (action, _) = export_step(most, false, ExportEvent::Progress { done: 100, total: 100 });
    assert_eq!(action, ExportAction::Fail { clear_running: false });
}

#[test]
fn preview_reports_positions_in_the_active_section() {
    assert_eq!(preview_position(12_500, 10_000, 1000, 6000), Some(3500));
    assert_eq!(preview_position(9_999, 10_000, 1000, 6000), None);
    assert_eq!(preview_position(15_001, 10_000, 1000, 6000), None);
    assert_eq!(preview_position(15_000, 10_000, 1000, 6000), Some(6000));
    let first = preview_tick(false, false, 0, 0, 0, 10);
    assert!(first.announce_ready);
    assert_eq!(first.position, None);
    let later = preview_tick(true, true, 5, 0, 0, 10);
    assert!(!later.announce_ready);
    assert_eq!(later.position, Some(5));
    assert_eq!(seek_in_section(500, 1000, 3000), (0, false));
    assert_eq!(seek_in_section(3000, 1000, 3000), (2000, true));
}

#[test]
fn sequence_clips_follow_each_other() {
    assert_eq!(sequence_starts(&vec![1000, 2500, 500]), vec![0, 1000, 3500]);
    assert_eq!(sequence_starts(&vec![u64::MAX, 5]), vec![0, u64::MAX]);
    assert!(sequence_starts(&vec![]).is_empty());
}

#[test]
fn colour_changes_rebuild_only_when_effects_come_or_go() {

    assert_eq!(effects_change(true, false, false, false, false), EffectsChange::Rebuild);
    assert_eq!(effects_change(false, false, true, true, false), EffectsChange::Update);
    assert_eq!(effects_change(false, false, false, false, true), EffectsChange::Nothing);
    assert_eq!(resume_position(Some(1500), 1000, 2000), 2000);
    assert_eq!(resume_position(Some(500), 1000, 2000), 1500);
    assert_eq!(resume_position(None, 1000, 2000), 1000);
}
