use clips::subtitles::{select_sidecars, SubtitleLoadError, SubtitleParseError, SubtitleTrack};

fn paths(names: &[&str]) -> Vec<String> {
    names.iter().map(|n| format!("/videos/{n}")).collect()
}

#[test]
fn selects_only_compatible_sidecar_names() {
    let candidates = paths(&[
        "movie.final.srt",
        "movie.final.es.vtt",
        "movie.final-forced.ass",
        "movie.srt",
        "movie.final.txt",
    ]);
    let found = select_sidecars("/videos/movie.final.mp4", &candidates);
    assert_eq!(
        found,
        paths(&["movie.final-forced.ass", "movie.final.es.vtt", "movie.final.srt"])
    );
}

#[test]
fn sidecar_names_ignore_ascii_case() {
    let candidates = paths(&["Movie.EN.SRT", "moviex.srt", "movie-forced.ssa", "MOVIE.vtt"]);
    let found = select_sidecars("/videos/movie.mkv", &candidates);
    assert_eq!(found, paths(&["MOVIE.vtt", "Movie.EN.SRT", "movie-forced.ssa"]));
    assert!(select_sidecars("", &candidates).is_empty());
}

#[test]
fn loading_checks_the_format_first() {
    let unsupported = SubtitleTrack::from_contents("notes.txt", Ok("1\n".to_string()));
    assert!(matches!(unsupported, Err(SubtitleLoadError::UnsupportedFormat)));
    let unreadable = SubtitleTrack::from_contents(
        "a.srt",
        Err(std::io::Error::new(std::io::ErrorKind::NotFound, "gone")),
    );
    assert!(matches!(unreadable, Err(SubtitleLoadError::Io(ref e)) if e.kind() == std::io::ErrorKind::NotFound));
    let refused = SubtitleTrack::from_contents("a.vtt", Ok("00:00.000 --> 00:01.000\nHi\n".to_string()));
    assert!(matches!(refused, Err(SubtitleLoadError::Parse(SubtitleParseError::MissingWebVttHeader))));
    let loaded = SubtitleTrack::from_contents("a.SRT", Ok("1\n00:00:01,000 --> 00:00:02,000\nHi\n".to_string()))
        .ok()
        .unwrap();
    assert_eq!(loaded.cues().len(), 1);
    assert_eq!(loaded.cues()[0].text, "Hi");
}
