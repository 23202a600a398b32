use clips::adjustments::{PlaybackSpeed, Repeat, RepeatMode};
use clips::ffmpeg::section_render_args;
use clips::profiles::{ContainerFormat, VideoEncoding};
use clips::segments::{ClipRange, ClipSegment};
use clips::subtitles::{SubtitleDiagnostic, SubtitleFormat, SubtitleParseError, SubtitleTrack};
use clips::text::{chars_of, decimal_string, padded_decimal, parse_u64};

#[test]
fn printed_numbers_parse_back() {
    for n in [0u64, 7, 10, 99, 1_000_001, u64::MAX] {
        let text = decimal_string(n);
        assert_eq!(text, n.to_string());
        assert_eq!(parse_u64(&chars_of(&text)), Some(n));
    }
    assert_eq!(padded_decimal(7, 3), "007");
    assert_eq!(padded_decimal(1234, 2), "1234");
}

#[test]
fn an_added_cue_is_found_and_a_removed_one_is_gone() {
    let mut track = SubtitleTrack::new(SubtitleFormat::Srt);
    let first = track.add_cue(5000, 6000, "later");
    let second = track.add_cue(1000, 2000, "earlier");
    assert_ne!(first, second);
    assert_eq!(track.cue(second).unwrap().text, "earlier");
    assert_eq!(track.cues()[0].id, second);
    assert!(track.remove_cue(first));
    assert!(track.cue(first).is_none());
    assert!(!track.remove_cue(first));
    assert_eq!(track.cues().len(), 1);
}

#[test]
fn clean_cues_have_no_diagnostics() {
    let mut track = SubtitleTrack::new(SubtitleFormat::WebVtt);
    track.add_cue(0, 1000, "one");
    track.add_cue(1000, 2500, "two");
    track.add_cue(3000, 4000, "three");
    assert!(track.diagnostics(4000).is_empty());
    assert!(!track.diagnostics(3999).is_empty());
}

#[test]
fn retimed_pieces_stay_within_their_ranges() {
    let mut track = SubtitleTrack::new(SubtitleFormat::Srt);
    track.add_cue(500, 3500, "long");
    let ranges = [ClipRange::new(1000, 2000), ClipRange::new(3000, 6000)];
    let retimed = track.retimed_for_ranges(&ranges);
    let spans: Vec<(u64, u64)> = retimed.cues().iter().map(|c| (c.start_ms, c.end_ms)).collect();
    assert_eq!(spans, vec![(0, 1000), (1000, 1500)]);
    for cue in retimed.cues() {
        assert!(cue.start_ms < cue.end_ms && cue.end_ms <= 4000);
    }
}

#[test]
fn repeat_is_off_exactly_for_a_single_pass() {
    assert!(Repeat { mode: RepeatMode::Off, count: 9 }.is_off());
    assert!(Repeat { mode: RepeatMode::Loop, count: 1 }.is_off());
    assert!(Repeat { mode: RepeatMode::Loop, count: 0 }.is_off());
    assert!(!Repeat { mode: RepeatMode::Loop, count: 2 }.is_off());
    assert!(!Repeat { mode: RepeatMode::Boomerang, count: 1 }.is_off());
    assert_eq!(Repeat { mode: RepeatMode::Boomerang, count: 3 }.output_duration_ms(1000), 6000);
    assert_eq!(Repeat::default(), Repeat { mode: RepeatMode::Off, count: 1 });
}

#[test]
fn speed_changes_length_and_audio_together() {
    assert_eq!(PlaybackSpeed::ThreeQuarter.output_duration_ms(3000), 4000);
    assert_eq!(PlaybackSpeed::ThreeQuarter.output_duration_ms(1), 1);
    assert_eq!(PlaybackSpeed::ThreeQuarter.output_duration_ms(2), 3);
    assert_eq!(PlaybackSpeed::ThreeQuarter.ffmpeg_audio_filter(), Some("atempo=0.75"));
    assert_eq!(PlaybackSpeed::Normal.ffmpeg_audio_filter(), None);
    assert_eq!(PlaybackSpeed::Half.output_duration_ms(u64::MAX), u64::MAX);
}

#[test]
fn every_container_but_same_is_complete() {
    for c in ContainerFormat::get_all() {
        if c == ContainerFormat::Same {
            assert!(c.viable_matchings().0.is_empty());
            continue;
        }
        assert!(!c.format().is_empty());
        assert!(!c.extension().is_empty());
        assert!(!c.viable_matchings().0.is_empty());
    }
}

#[test]
fn encoders_fall_back_to_software() {
    let soft = VideoEncoding::H264.choose_encoder(false, true);
    assert_eq!((soft.element, soft.hardware), ("x264enc", false));
    let absent = VideoEncoding::H264.choose_encoder(true, false);
    assert_eq!((absent.element, absent.hardware), ("x264enc", false));
    let gpu = VideoEncoding::H264.choose_encoder(true, true);
    assert_eq!((gpu.element, gpu.hardware), ("nvh264enc", true));
    assert_eq!(gpu.label(), "GPU · NVENC (nvh264enc)");
    assert_eq!(VideoEncoding::Vp8.choose_encoder(true, true).element, "vp8enc");
}

#[test]
fn joined_parts_share_their_audio_layout() {
    let filters = vec!["fps=25/1".to_string()];
    let quality = vec!["-crf".to_string(), "23".to_string()];
    let with_audio = section_render_args(
        0, 1000, "a.mp4", true, true, &filters, "libx264", &quality, Some("aac"),
        PlaybackSpeed::Half, "p0.mp4",
    );
    let silent = section_render_args(
        0, 1000, "b.mp4", true, false, &filters, "libx264", &quality, Some("aac"),
        PlaybackSpeed::Half, "p1.mp4",
    );
    let tail = |args: &Vec<String>| args[args.len() - 10..args.len() - 1].to_vec();
    assert_eq!(tail(&with_audio), tail(&silent));
    assert!(with_audio.windows(2).any(|w| w[0] == "-map" && w[1] == "0:a:0"));
    assert!(silent.windows(2).any(|w| w[0] == "-map" && w[1] == "1:a:0"));
}

#[test]
fn a_segment_is_named_after_its_file() {
    let segment = ClipSegment::new("/videos/holiday.mp4", 0, 10);
    assert_eq!(segment.source_name(), "holiday.mp4");
    assert_eq!(ClipSegment::new("", 0, 1).source_name(), "");
}

#[test]
fn updating_a_cue_keeps_every_id() {
    let mut track = SubtitleTrack::new(SubtitleFormat::Ass);
    let a = track.add_cue(0, 1000, "a");
    let b = track.add_cue(2000, 3000, "b");
    assert!(track.update_cue(b, 100, 200, "moved"));
    assert!(!track.update_cue(99, 0, 1, "none"));
    let mut ids: Vec<u64> = track.cues().iter().map(|c| c.id).collect();
    ids.sort();
    assert_eq!(ids, vec![a, b]);
    assert_eq!(track.cue(b).unwrap().text, "moved");
    assert_eq!(track.cues()[1].id, b);
}

#[test]
fn ass_without_an_events_format_is_refused() {
    for input in [
        "[Script Info]\nTitle: X\n",
        "[Events]\nDialogue: 0,0:00:01.00,0:00:02.00,x\n",
        "[Script Info]\nFormat: Start, End, Text\n[Events]\nComment: nothing\n",
    ] {
        assert_eq!(
            SubtitleTrack::parse(SubtitleFormat::Ass, input),
            Err(SubtitleParseError::MissingAssEventsFormat)
        );
    }
}

#[test]
fn only_the_first_line_decides_the_webvtt_header() {
    assert_eq!(
        SubtitleTrack::parse(SubtitleFormat::WebVtt, ""),
        Err(SubtitleParseError::MissingWebVttHeader)
    );
    assert_eq!(
        SubtitleTrack::parse(SubtitleFormat::WebVtt, "00:01.000 --> 00:02.000\nHi\n"),
        Err(SubtitleParseError::MissingWebVttHeader)
    );
    assert!(SubtitleTrack::parse(SubtitleFormat::WebVtt, "\u{feff}WEBVTT\r\n\r\n00:01.000 --> 00:02.000\r\nHi\r\n").is_ok());
    assert!(!matches!(
        SubtitleTrack::parse(SubtitleFormat::WebVtt, "WEBVTT\n\nbroken --> cue\nHi\n"),
        Err(SubtitleParseError::MissingWebVttHeader)
    ));
}

#[test]
fn parsed_cues_are_numbered_in_file_order_and_sorted() {
    let mut track = SubtitleTrack::parse(
        SubtitleFormat::Srt,
        "1\n00:00:05,000 --> 00:00:06,000\nlate\n\n2\n00:00:01,000 --> 00:00:02,000\nearly\n",
    )
    .unwrap();
    assert_eq!(track.format, SubtitleFormat::Srt);
    let order: Vec<(u64, &str)> = track.cues().iter().map(|c| (c.id, c.text.as_str())).collect();
    assert_eq!(order, vec![(2, "early"), (1, "late")]);
    assert_eq!(track.add_cue(0, 500, "new"), 3);
}

#[test]
fn diagnostics_name_exactly_the_problems() {
    let mut track = SubtitleTrack::new(SubtitleFormat::Srt);
    let a = track.add_cue(0, 2000, "one");
    let b = track.add_cue(1000, 1000, " ");
    let found = track.diagnostics(1500);
    assert!(found.contains(&SubtitleDiagnostic::OutsideMedia { cue_id: a, media_duration_ms: 1500 }));
    assert!(found.contains(&SubtitleDiagnostic::InvalidDuration { cue_id: b }));
    assert!(found.contains(&SubtitleDiagnostic::EmptyText { cue_id: b }));
    assert!(found.contains(&SubtitleDiagnostic::Overlap { first_cue_id: a, second_cue_id: b }));
    assert_eq!(found.len(), 4);
}

#[test]
fn retimed_cues_keep_their_text_and_style() {
    let mut track = SubtitleTrack::new(SubtitleFormat::Ass);
    let id = track.add_cue(500, 3500, "long");
    assert!(track.update_cue(id, 500, 3500, "still long"));
    let ranges = [ClipRange::new(1000, 2000), ClipRange::new(3000, 6000)];
    let retimed = track.retimed_for_ranges(&ranges);
    assert_eq!(retimed.format, SubtitleFormat::Ass);
    assert_eq!(retimed.cues().len(), 2);
    for cue in retimed.cues() {
        assert_eq!(cue.text, "still long");
        assert!(cue.start_ms < cue.end_ms && cue.end_ms <= 4000);
    }
    assert_eq!(track.cues().len(), 1);
}
