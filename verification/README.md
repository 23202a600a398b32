# clips

The editing and export rules of a video clipping application, as a Verus
library. The functions in `src/` are verified against their contracts; the
few calls into `std::path` and `String` that Verus has no specification for
go through small trusted wrappers in `paths`, `media` and `text`, whose
contracts state what std documents of them.

- `segments`: source ranges and sections, and how several are exported.
- `adjustments`: playback speed and looping or bouncing, with exact lengths.
- `profiles`: output containers, codecs, quality levels and encoder choice.
- `subtitles` (with `subtitles/parse`): SubRip, WebVTT and ASS/SSA reading,
  cue editing that keeps cues ordered and ids stable, diagnostics,
  retiming across joined ranges, and finding subtitle files beside a video.
- `media`: what ffprobe reports about a source, and keyframe alignment.
- `export`: whether the sources can be copied as they are, and which
  renderer takes an export.
- `ffmpeg`: the command lines, passes, chunking and progress of an export.
- `stages`: the order of an export's ffmpeg stages as state machines: the
  progress slices, the retried join, the fallback from a stream copy to a
  render and the one final report.
- `editor`: the editing session: the section list, the options a format
  allows, hints and their messages, the encoder row and the progress of a
  running export.
- `text`, `paths`: characters and numbers as text, and what `Path` finds in
  a path.

`app/` holds what the library does not take: colour correction and other
floating-point work, running ffmpeg and ffprobe and driving the stage
machines, reading files, and translating messages through gettext.
