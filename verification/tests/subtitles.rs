use clips::segments::ClipRange;
use clips::subtitles::{SubtitleDiagnostic, SubtitleFormat, SubtitleTrack};

#[test]
fn parses_multiline_srt_and_preserves_identifier() {
    let track = SubtitleTrack::parse(
        SubtitleFormat::Srt,
        "1\r\n00:00:01,250 --> 00:00:03,500\r\nPrimera\r\nsegunda\r\n\r\n2\r\n00:00:04,000 --> 00:00:05,000\r\nFin\r\n",
    )
    .unwrap();

    assert_eq!(track.cues().len(), 2);
    assert_eq!(track.cues()[0].identifier.as_deref(), Some("1"));
    assert_eq!(track.cues()[0].text, "Primera\nsegunda");
    assert_eq!(
        (track.cues()[0].start_ms, track.cues()[0].end_ms),
        (1_250, 3_500)
    );
}

#[test]
fn parses_webvtt_identifiers_settings_and_minute_timestamps() {
    let track = SubtitleTrack::parse(
        SubtitleFormat::WebVtt,
        "\u{feff}WEBVTT\nKind: captions\n\nintro\n01:02.300 --> 01:04.000 align:start\nHello\n",
    )
    .unwrap();

    assert_eq!(
        track.metadata.get("Kind").map(String::as_str),
        Some("captions")
    );
    assert_eq!(track.cues()[0].identifier.as_deref(), Some("intro"));
    assert_eq!(track.cues()[0].settings.as_deref(), Some("align:start"));
    assert_eq!(track.cues()[0].start_ms, 62_300);
}

#[test]
fn parses_ass_format_order_commas_and_known_metadata() {
    let track = SubtitleTrack::parse(
        SubtitleFormat::Ass,
        "[Script Info]\nTitle: Demo\nLanguage: es\n[Events]\nFormat: Layer, Start, End, Style, Name, Text\nDialogue: 0,0:00:01.20,0:00:03.40,Default,Ana,Hola, mundo\\Nsegunda línea\n",
    )
    .unwrap();

    assert_eq!(track.title.as_deref(), Some("Demo"));
    assert_eq!(track.language.as_deref(), Some("es"));
    assert_eq!(track.cues()[0].text, "Hola, mundo\nsegunda línea");
    assert_eq!(track.cues()[0].speaker.as_deref(), Some("Ana"));
    assert_eq!(
        (track.cues()[0].start_ms, track.cues()[0].end_ms),
        (1_200, 3_400)
    );
}

#[test]
fn reports_invalid_durations_overlaps_empty_text_and_outside_media() {
    let mut track = SubtitleTrack::new(SubtitleFormat::Srt);
    let first = track.add_cue(1_000, 3_000, "One");
    let second = track.add_cue(2_500, 2_000, " ");

    assert_eq!(
        track.diagnostics(2_700),
        vec![
            SubtitleDiagnostic::OutsideMedia {
                cue_id: first,
                media_duration_ms: 2_700,
            },
            SubtitleDiagnostic::InvalidDuration { cue_id: second },
            SubtitleDiagnostic::EmptyText { cue_id: second },
            SubtitleDiagnostic::Overlap {
                first_cue_id: first,
                second_cue_id: second,
            },
        ]
    );
}

#[test]
fn reports_every_overlap_with_a_long_running_cue() {
    let mut track = SubtitleTrack::new(SubtitleFormat::Srt);
    let long = track.add_cue(0, 10_000, "Long");
    let first = track.add_cue(1_000, 2_000, "First");
    let second = track.add_cue(3_000, 4_000, "Second");

    let overlaps = track
        .diagnostics(10_000)
        .into_iter()
        .filter(|diagnostic| matches!(diagnostic, SubtitleDiagnostic::Overlap { .. }))
        .collect::<Vec<_>>();
    assert_eq!(
        overlaps,
        vec![
            SubtitleDiagnostic::Overlap {
                first_cue_id: long,
                second_cue_id: first,
            },
            SubtitleDiagnostic::Overlap {
                first_cue_id: long,
                second_cue_id: second,
            },
        ]
    );
}

#[test]
fn editing_resorts_cues_and_keeps_ids_stable() {
    let mut track = SubtitleTrack::new(SubtitleFormat::Srt);
    let late = track.add_cue(5_000, 6_000, "Late");
    let early = track.add_cue(1_000, 2_000, "Early");

    assert_eq!(track.cues()[0].id, early);
    assert!(track.update_cue(late, 500, 900, "Now first"));
    assert_eq!(track.cues()[0].id, late);
    assert!(track.remove_cue(early));
    assert!(!track.remove_cue(999));
}

#[test]
fn retimes_and_clips_subtitles_across_joined_ranges() {
    let mut track = SubtitleTrack::new(SubtitleFormat::Srt);
    track.add_cue(500, 1_500, "A");
    track.add_cue(4_500, 5_500, "B");
    track.add_cue(8_000, 9_000, "Excluded");

    let output =
        track.retimed_for_ranges(&[ClipRange::new(1_000, 5_000), ClipRange::new(5_000, 6_000)]);

    assert_eq!(output.cues().len(), 3);
    assert_eq!(
        (output.cues()[0].start_ms, output.cues()[0].end_ms),
        (0, 500)
    );
    assert_eq!(
        (output.cues()[1].start_ms, output.cues()[1].end_ms),
        (3_500, 4_000)
    );
    assert_eq!(
        (output.cues()[2].start_ms, output.cues()[2].end_ms),
        (4_000, 4_500)
    );
}
