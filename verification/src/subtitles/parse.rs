//! Reading SubRip, WebVTT and ASS/SSA text into subtitle tracks.
use vstd::prelude::*;

use crate::subtitles::{
    format_of_path, id_at, lemma_renumber_push, opt_view, renumber, sorted_cues, CueView, SubtitleCue, SubtitleFormat, SubtitleTrack,
};
use crate::text::{
    blank, chars_eq, contains_seq, eq_ignore_case, equal_ignoring_case, has_prefix, is_blank,
    lowercase, lowercased, normalized_lines, normalized_lines_spec, occurs_at, replace, replace_exec, splitn, splitn_exec, starts_with, strip_leading,
    strip_leading_char,
    copy_range, find, find_exec, join, join_range, lemma_find_from_bounds, lemma_rfind_before_bounds,
    parse_u64, parse_u64_spec, rfind, split_once_char, rfind_before, rfind_exec, split_on, split_on_char, string_of, trim,
    trimmed, views, words, words_exec, all_digits, decimal_value, digit_value, is_digit, split_when,
    char_is, lemma_split_when_len,
};

verus! {

#[derive(Debug, Clone, PartialEq, Eq)]
pub enum SubtitleParseError {
    MissingWebVttHeader,
    InvalidTimestamp { line: usize, value: String },
    MissingText { line: usize },
    MissingAssEventsFormat,
}

/// The mathematical value of a parse error.
pub enum ParseErrorView {
    MissingWebVttHeader,
    InvalidTimestamp { line: usize, value: Seq<char> },
    MissingText { line: usize },
    MissingAssEventsFormat,
}

impl View for SubtitleParseError {
    type V = ParseErrorView;

    open spec fn view(&self) -> ParseErrorView {
        match self {
            SubtitleParseError::MissingWebVttHeader => ParseErrorView::MissingWebVttHeader,
            SubtitleParseError::InvalidTimestamp { line, value } => ParseErrorView::InvalidTimestamp {
                line: *line,
                value: value@,
            },
            SubtitleParseError::MissingText { line } => ParseErrorView::MissingText { line: *line },
            SubtitleParseError::MissingAssEventsFormat => ParseErrorView::MissingAssEventsFormat,
        }
    }
}

// ---------------------------------------------------------------------------
// Timestamps
// ---------------------------------------------------------------------------

/// `a * b`, saturating at `u64::MAX`.
pub open spec fn sat_mul(a: u64, b: u64) -> u64 {
    if a * b > u64::MAX {
        u64::MAX
    } else {
        (a * b) as u64
    }
}

/// `a + b`, saturating at `u64::MAX`.
pub open spec fn sat_add(a: u64, b: u64) -> u64 {
    if a + b > u64::MAX {
        u64::MAX
    } else {
        (a + b) as u64
    }
}

fn saturating_mul(a: u64, b: u64) -> (r: u64)
    ensures
        r == sat_mul(a, b),
{
    match a.checked_mul(b) {
        Some(v) => v,
        None => u64::MAX,
    }
}

/// Hours, minutes and seconds of a clock `[h:]m:s`.
pub open spec fn clock_parts(clock: Seq<char>) -> Option<(u64, u64, u64)> {
    let parts = split_on(clock, ':');
    if parts.len() == 2 {
        match (parse_u64_spec(parts[0]), parse_u64_spec(parts[1])) {
            (Some(m), Some(s)) => Some((0u64, m, s)),
            _ => None,
        }
    } else if parts.len() == 3 {
        match (parse_u64_spec(parts[0]), parse_u64_spec(parts[1]), parse_u64_spec(parts[2])) {
            (Some(h), Some(m), Some(s)) => Some((h, m, s)),
            _ => None,
        }
    } else {
        None
    }
}

/// Milliseconds of a fraction of one, two or three digits.
pub open spec fn fraction_ms(fraction: Seq<char>) -> Option<u64> {
    if fraction.len() == 1 {
        match parse_u64_spec(fraction) {
            Some(v) => Some(sat_mul(v, 100)),
            None => None,
        }
    } else if fraction.len() == 2 {
        match parse_u64_spec(fraction) {
            Some(v) => Some(sat_mul(v, 10)),
            None => None,
        }
    } else if fraction.len() == 3 {
        parse_u64_spec(fraction)
    } else {
        None
    }
}

/// A timestamp `[h:]m:s<sep>f` in milliseconds: minutes and seconds below
/// 60, the fraction after the last separator, the sum saturating.
pub open spec fn timestamp_spec(value: Seq<char>, sep: char) -> Option<u64> {
    match rfind(value, sep) {
        None => None,
        Some(k) => match clock_parts(value.take(k)) {
            None => None,
            Some((h, m, s)) => if m >= 60 || s >= 60 {
                None
            } else {
                match fraction_ms(value.skip(k + 1)) {
                    None => None,
                    Some(f) => Some(
                        sat_add(sat_add(sat_add(sat_mul(h, 3_600_000), sat_mul(m, 60_000)), sat_mul(s, 1000)), f),
                    ),
                }
            },
        },
    }
}

pub fn parse_timestamp(value: &Vec<char>, sep: char) -> (r: Option<u64>)
    ensures
        r == timestamp_spec(value@, sep),
{
    let k = match rfind_exec(value, sep) {
        Some(k) => k,
        None => return None,
    };
    proof {
        lemma_rfind_before_bounds(value@, sep, value@.len() as int);
        assert(rfind_before(value@, sep, value@.len() as int) == Some(k as int));
    }
    assert(k < value.len());
    let clock = copy_range(value, 0, k);
    let fraction = copy_range(value, k + 1, value.len());
    assert(clock@ =~= value@.take(k as int));
    assert(fraction@ =~= value@.skip(k + 1));
    let parts = split_on_char(&clock, ':');
    let (h, m, s) = if parts.len() == 2 {
        assert(parts@[0]@ == views(parts@)[0]);
        assert(parts@[1]@ == views(parts@)[1]);
        let m = match parse_u64(&parts[0]) {
            Some(v) => v,
            None => return None,
        };
        let s = match parse_u64(&parts[1]) {
            Some(v) => v,
            None => return None,
        };
        (0u64, m, s)
    } else if parts.len() == 3 {
        assert(parts@[0]@ == views(parts@)[0]);
        assert(parts@[1]@ == views(parts@)[1]);
        assert(parts@[2]@ == views(parts@)[2]);
        let h = match parse_u64(&parts[0]) {
            Some(v) => v,
            None => return None,
        };
        let m = match parse_u64(&parts[1]) {
            Some(v) => v,
            None => return None,
        };
        let s = match parse_u64(&parts[2]) {
            Some(v) => v,
            None => return None,
        };
        (h, m, s)
    } else {
        return None;
    };
    if m >= 60 || s >= 60 {
        return None;
    }
    let f = if fraction.len() == 1 {
        match parse_u64(&fraction) {
            Some(v) => saturating_mul(v, 100),
            None => return None,
        }
    } else if fraction.len() == 2 {
        match parse_u64(&fraction) {
            Some(v) => saturating_mul(v, 10),
            None => return None,
        }
    } else if fraction.len() == 3 {
        match parse_u64(&fraction) {
            Some(v) => v,
            None => return None,
        }
    } else {
        return None;
    };
    Some(
        saturating_mul(h, 3_600_000).saturating_add(saturating_mul(m, 60_000)).saturating_add(
            saturating_mul(s, 1000),
        ).saturating_add(f),
    )
}

/// The cue timing arrow.
pub open spec fn arrow() -> Seq<char> {
    seq!['-', '-', '>']
}

/// Start, end and settings of a timing line `start --> end [settings]`; on
/// failure, the text that is not a timestamp.
pub open spec fn timing_spec(line: Seq<char>, sep: char) -> Result<(u64, u64, Option<Seq<char>>), Seq<char>> {
    match find(line, arrow()) {
        None => Err(line),
        Some(k) => {
            let start = line.take(k);
            let ws = words(line.skip(k + 3));
            let end = if ws.len() > 0 {
                ws[0]
            } else {
                seq![]
            };
            let joined = if ws.len() > 1 {
                join(ws.skip(1), seq![' '])
            } else {
                seq![]
            };
            let settings = if joined.len() > 0 {
                Some(joined)
            } else {
                None
            };
            match timestamp_spec(trim(start), sep) {
                None => Err(trim(start)),
                Some(s) => match timestamp_spec(trim(end), sep) {
                    None => Err(trim(end)),
                    Some(e) => Ok((s, e, settings)),
                },
            }
        },
    }
}

pub fn parse_timing_line(line: &Vec<char>, sep: char) -> (r: Result<(u64, u64, Option<String>), Vec<char>>)
    ensures
        match r {
            Ok((s, e, settings)) => timing_spec(line@, sep) == Ok::<(u64, u64, Option<Seq<char>>), Seq<char>>((s, e, crate::subtitles::opt_view(settings))),
            Err(v) => timing_spec(line@, sep) == Err::<(u64, u64, Option<Seq<char>>), Seq<char>>(v@),
        },
{
    let pattern = vec!['-', '-', '>'];
    assert(pattern@ =~= arrow());
    let k = match find_exec(line, &pattern) {
        Some(k) => k,
        None => {
            let whole = copy_range(line, 0, line.len());
            assert(whole@ =~= line@);
            return Err(whole);
        },
    };
    proof {
        lemma_find_from_bounds(line@, arrow(), 0);
        assert(find(line@, arrow()) == Some(k as int));
        assert(occurs_at(line@, pattern@, k as int));
        assert(pattern@.len() == 3);
    }
    assert(k + 3 <= line.len());
    let start = copy_range(line, 0, k);
    assert(start@ =~= line@.take(k as int));
    let rest = copy_range(line, k + 3, line.len());
    assert(rest@ =~= line@.skip(k + 3));
    let ws = words_exec(&rest);
    let end: Vec<char> = if ws.len() > 0 {
        assert(ws@[0]@ == views(ws@)[0]);
        copy_range(&ws[0], 0, ws[0].len())
    } else {
        Vec::new()
    };
    assert(end@ =~= (if views(ws@).len() > 0 {
        views(ws@)[0]
    } else {
        seq![]
    }));
    let space = vec![' '];
    assert(space@ =~= seq![' ']);
    let joined: Vec<char> = if ws.len() > 1 {
        let j = join_range(&ws, 1, ws.len(), &space);
        assert(views(ws@).subrange(1, ws@.len() as int) =~= views(ws@).skip(1));
        j
    } else {
        Vec::new()
    };
    assert(joined@ =~= (if views(ws@).len() > 1 {
        join(views(ws@).skip(1), seq![' '])
    } else {
        seq![]
    }));
    let settings = if joined.len() > 0 {
        Some(string_of(&joined))
    } else {
        None
    };
    let start_t = trimmed(&start);
    let s = match parse_timestamp(&start_t, sep) {
        Some(s) => s,
        None => return Err(start_t),
    };
    let end_t = trimmed(&end);
    let e = match parse_timestamp(&end_t, sep) {
        Some(e) => e,
        None => return Err(end_t),
    };
    Ok((s, e, settings))
}

} // verus!

verus! {

// ---------------------------------------------------------------------------
// Cue blocks (SubRip and WebVTT)
// ---------------------------------------------------------------------------

/// The first index at or after `j` holding a blank line, or the end.
pub open spec fn text_end(lines: Seq<Seq<char>>, j: int) -> int
    decreases lines.len() - j,
{
    if j < 0 || j >= lines.len() || is_blank(lines[j]) {
        j
    } else {
        text_end(lines, j + 1)
    }
}

pub proof fn lemma_text_end(lines: Seq<Seq<char>>, j: int)
    requires
        0 <= j,
    ensures
        j <= text_end(lines, j),
        j <= lines.len() ==> text_end(lines, j) <= lines.len(),
        forall|k: int| j <= k < text_end(lines, j) ==> !is_blank(#[trigger] lines[k]),
        text_end(lines, j) < lines.len() ==> is_blank(lines[text_end(lines, j)]),
    decreases lines.len() - j,
{
    if j < lines.len() && !is_blank(lines[j]) {
        lemma_text_end(lines, j + 1);
    }
}

pub fn text_end_exec(lines: &Vec<Vec<char>>, j: usize) -> (r: usize)
    requires
        j <= lines.len(),
    ensures
        r == text_end(views(lines@), j as int),
        j <= r <= lines.len(),
{
    let mut k = j;
    while k < lines.len() && !blank(&lines[k])
        invariant
            j <= k <= lines.len(),
            text_end(views(lines@), j as int) == text_end(views(lines@), k as int),
        decreases lines.len() - k,
    {
        assert(views(lines@)[k as int] == lines@[k as int]@);
        k = k + 1;
    }
    proof {
        if k < lines.len() {
            assert(views(lines@)[k as int] == lines@[k as int]@);
        }
    }
    k
}

pub open spec fn newline() -> Seq<char> {
    seq!['\n']
}

pub open spec fn bom() -> char {
    '\u{feff}'
}

/// The cue block starting at the non-blank line `i`: an optional identifier
/// line, a timing line and at least one text line. Gives the cue and the
/// index after its text.
pub open spec fn cue_block(lines: Seq<Seq<char>>, i: int, strip_bom: bool, sep: char) -> Result<
    (CueView, int),
    ParseErrorView,
> {
    let arrow_here = contains_seq(lines[i], arrow());
    let t = if arrow_here {
        i
    } else {
        i + 1
    };
    let identifier = if arrow_here {
        None
    } else if strip_bom {
        Some(strip_leading(trim(lines[i]), bom()))
    } else {
        Some(trim(lines[i]))
    };
    if t >= lines.len() {
        Err(ParseErrorView::InvalidTimestamp { line: (i + 1) as usize, value: seq![] })
    } else {
        match timing_spec(lines[t], sep) {
            Err(v) => Err(ParseErrorView::InvalidTimestamp { line: (t + 1) as usize, value: v }),
            Ok((s, e, settings)) => {
                let te = text_end(lines, t + 1);
                if te == t + 1 {
                    Err(ParseErrorView::MissingText { line: (i + 1) as usize })
                } else {
                    Ok(
                        (
                            CueView {
                                id: 0,
                                start_ms: s,
                                end_ms: e,
                                text: join(lines.subrange(t + 1, te), newline()),
                                identifier,
                                settings,
                                style: None,
                                speaker: None,
                            },
                            te,
                        ),
                    )
                }
            },
        }
    }
}

pub proof fn lemma_cue_block_advances(lines: Seq<Seq<char>>, i: int, strip_bom: bool, sep: char)
    requires
        0 <= i < lines.len(),
    ensures
        cue_block(lines, i, strip_bom, sep) matches Ok((c, j)) ==> i < j <= lines.len(),
{
    let arrow_here = contains_seq(lines[i], arrow());
    let t = if arrow_here {
        i
    } else {
        i + 1
    };
    if t < lines.len() {
        lemma_text_end(lines, t + 1);
    }
}

fn cue_block_exec(lines: &Vec<Vec<char>>, i: usize, strip_bom: bool, sep: char) -> (r: Result<
    (SubtitleCue, usize),
    SubtitleParseError,
>)
    requires
        i < lines.len(),
    ensures
        match r {
            Ok((c, j)) => cue_block(views(lines@), i as int, strip_bom, sep) == Ok::<
                (CueView, int),
                ParseErrorView,
            >((c@, j as int)) && j <= lines.len(),
            Err(e) => cue_block(views(lines@), i as int, strip_bom, sep) == Err::<
                (CueView, int),
                ParseErrorView,
            >(e@),
        },
{
    let ghost ls = views(lines@);
    assert(ls[i as int] == lines@[i as int]@);
    let pattern = vec!['-', '-', '>'];
    assert(pattern@ =~= arrow());
    let arrow_here = find_exec(&lines[i], &pattern).is_some();
    let mut t = i;
    let identifier = if arrow_here {
        None
    } else {
        let tr = trimmed(&lines[i]);
        let id = if strip_bom {
            strip_leading_char(&tr, '\u{feff}')
        } else {
            tr
        };
        t = i + 1;
        Some(string_of(&id))
    };
    if t >= lines.len() {
        return Err(SubtitleParseError::InvalidTimestamp { line: i + 1, value: String::new() });
    }
    assert(ls[t as int] == lines@[t as int]@);
    let (s, e, settings) = match parse_timing_line(&lines[t], sep) {
        Ok(v) => v,
        Err(v) => return Err(SubtitleParseError::InvalidTimestamp { line: t + 1, value: string_of(&v) }),
    };
    let te = text_end_exec(lines, t + 1);
    if te == t + 1 {
        return Err(SubtitleParseError::MissingText { line: i + 1 });
    }
    let nl = vec!['\n'];
    assert(nl@ =~= newline());
    let text = join_range(lines, t + 1, te, &nl);
    assert(views(lines@).subrange(t + 1, te as int) == ls.subrange(t + 1, te as int));
    let cue = SubtitleCue {
        id: 0,
        start_ms: s,
        end_ms: e,
        text: string_of(&text),
        identifier,
        settings,
        style: None,
        speaker: None,
    };
    Ok((cue, te))
}

// ---------------------------------------------------------------------------
// Parsed tracks
// ---------------------------------------------------------------------------

/// What a parser reads out of a file: the track's header values and its cues
/// in file order (their ids are handed out afterwards, from 1 in that order).
pub struct ParsedTrack {
    pub language: Option<Seq<char>>,
    pub title: Option<Seq<char>>,
    pub metadata: Map<Seq<char>, Seq<char>>,
    pub cues: Seq<CueView>,
}

/// `track` holds the cues `acc`, numbered from 1 in order, and nothing else.
pub open spec fn holds_cues(track: SubtitleTrack, acc: Seq<CueView>) -> bool {
    &&& track.cue_list@.to_multiset() == renumber(acc, 1).to_multiset()
    &&& track.cue_list.next_id() == id_at(1, acc.len() as int)
}

/// Adds a parsed cue to `track`, numbering it after the ones before it.
fn push_parsed(track: &mut SubtitleTrack, cue: SubtitleCue, Ghost(acc): Ghost<Seq<CueView>>)
    requires
        holds_cues(*old(track), acc),
    ensures
        holds_cues(*final(track), acc.push(cue@)),
        final(track).format == old(track).format,
        final(track).language == old(track).language,
        final(track).title == old(track).title,
        final(track).metadata == old(track).metadata,
{
    let ghost c = cue@;
    let id = track.cue_list.insert_with_new_id(cue);
    proof {
        broadcast use vstd::seq_lib::group_to_multiset_ensures;

        lemma_renumber_push(acc, 1, c);
    }
}

pub fn empty_track(format: SubtitleFormat) -> (r: SubtitleTrack)
    ensures
        holds_cues(r, seq![]),
        r.format == format,
        r.language is None,
        r.title is None,
        r.metadata@ == Map::<Seq<char>, Seq<char>>::empty(),
{
    let r = SubtitleTrack::new(format);
    proof {
        broadcast use vstd::seq_lib::group_to_multiset_ensures;

        assert(renumber(seq![], 1) =~= seq![]);
        assert(r.cue_list@ =~= seq![]);
    }
    r
}

// ---------------------------------------------------------------------------
// SubRip
// ---------------------------------------------------------------------------

/// The cues of the SubRip blocks from line `i` on, appended to `acc`.
pub open spec fn srt_from(lines: Seq<Seq<char>>, i: int, acc: Seq<CueView>) -> Result<
    Seq<CueView>,
    ParseErrorView,
>
    decreases lines.len() - i,
{
    if i < 0 || i >= lines.len() {
        Ok(acc)
    } else if is_blank(lines[i]) {
        srt_from(lines, i + 1, acc)
    } else {
        match cue_block(lines, i, true, ',') {
            Err(e) => Err(e),
            Ok((c, j)) => {
                proof {
                    lemma_cue_block_advances(lines, i, true, ',');
                }
                srt_from(lines, j, acc.push(c))
            },
        }
    }
}

pub open spec fn srt_spec(lines: Seq<Seq<char>>) -> Result<ParsedTrack, ParseErrorView> {
    match srt_from(lines, 0, seq![]) {
        Ok(cues) => Ok(ParsedTrack { language: None, title: None, metadata: Map::empty(), cues }),
        Err(e) => Err(e),
    }
}

pub fn parse_srt(lines: &Vec<Vec<char>>) -> (r: Result<SubtitleTrack, SubtitleParseError>)
    ensures
        match r {
            Ok(t) => srt_spec(views(lines@)) matches Ok(p) && t.format == SubtitleFormat::Srt
                && t.language is None && t.title is None && t.metadata@ == p.metadata && holds_cues(
                t,
                p.cues,
            ),
            Err(e) => srt_spec(views(lines@)) == Err::<ParsedTrack, ParseErrorView>(e@),
        },
{
    let ghost ls = views(lines@);
    let mut track = empty_track(SubtitleFormat::Srt);
    let ghost mut acc: Seq<CueView> = seq![];
    let mut index: usize = 0;
    while index < lines.len()
        invariant
            ls == views(lines@),
            index <= lines.len(),
            srt_from(ls, 0, seq![]) == srt_from(ls, index as int, acc),
            holds_cues(track, acc),
            track.format == SubtitleFormat::Srt,
            track.language is None,
            track.title is None,
            track.metadata@ == Map::<Seq<char>, Seq<char>>::empty(),
        decreases lines.len() - index,
    {
        assert(ls[index as int] == lines@[index as int]@);
        if blank(&lines[index]) {
            index = index + 1;
        } else {
            let (cue, next) = match cue_block_exec(lines, index, true, ',') {
                Ok(v) => v,
                Err(e) => return Err(e),
            };
            proof {
                lemma_cue_block_advances(ls, index as int, true, ',');
            }
            let ghost c = cue@;
            push_parsed(&mut track, cue, Ghost(acc));
            proof {
                acc = acc.push(c);
            }
            index = next;
        }
    }
    Ok(track)
}

} // verus!

verus! {

// ---------------------------------------------------------------------------
// WebVTT
// ---------------------------------------------------------------------------

pub open spec fn webvtt_word() -> Seq<char> {
    seq!['W', 'E', 'B', 'V', 'T', 'T']
}

pub open spec fn note_word() -> Seq<char> {
    seq!['N', 'O', 'T', 'E']
}

pub open spec fn style_word() -> Seq<char> {
    seq!['S', 'T', 'Y', 'L', 'E']
}

pub open spec fn region_word() -> Seq<char> {
    seq!['R', 'E', 'G', 'I', 'O', 'N']
}

/// `NOTE`, `STYLE` and `REGION` blocks carry no cue.
pub open spec fn vtt_skipped_block(line: Seq<char>) -> bool {
    starts_with(line, note_word()) || line == style_word() || line == region_word()
}

/// The `key: value` lines of the header, lines `1..k`.
pub open spec fn header_metadata(lines: Seq<Seq<char>>, k: int) -> Map<Seq<char>, Seq<char>>
    decreases k,
{
    if k <= 1 {
        Map::empty()
    } else {
        let m = header_metadata(lines, k - 1);
        let line = lines[k - 1];
        match find(line, seq![':']) {
            Some(p) => m.insert(trim(line.take(p)), trim(line.skip(p + 1))),
            None => m,
        }
    }
}

/// The cues of the WebVTT blocks from line `i` on, appended to `acc`.
pub open spec fn vtt_from(lines: Seq<Seq<char>>, i: int, acc: Seq<CueView>) -> Result<
    Seq<CueView>,
    ParseErrorView,
>
    decreases lines.len() - i,
{
    if i < 0 || i >= lines.len() {
        Ok(acc)
    } else if is_blank(lines[i]) {
        vtt_from(lines, i + 1, acc)
    } else if vtt_skipped_block(lines[i]) {
        proof {
            lemma_text_end(lines, i);
        }
        vtt_from(lines, text_end(lines, i), acc)
    } else {
        match cue_block(lines, i, false, '.') {
            Err(e) => Err(e),
            Ok((c, j)) => {
                proof {
                    lemma_cue_block_advances(lines, i, false, '.');
                }
                vtt_from(lines, j, acc.push(c))
            },
        }
    }
}

pub open spec fn vtt_spec(lines: Seq<Seq<char>>) -> Result<ParsedTrack, ParseErrorView> {
    if lines.len() == 0 || !starts_with(strip_leading(lines[0], bom()), webvtt_word()) {
        Err(ParseErrorView::MissingWebVttHeader)
    } else {
        let header_end = text_end(lines, 1);
        match vtt_from(lines, header_end, seq![]) {
            Ok(cues) => Ok(
                ParsedTrack {
                    language: None,
                    title: None,
                    metadata: header_metadata(lines, header_end),
                    cues,
                },
            ),
            Err(e) => Err(e),
        }
    }
}

pub fn parse_webvtt(lines: &Vec<Vec<char>>) -> (r: Result<SubtitleTrack, SubtitleParseError>)
    ensures
        match r {
            Ok(t) => vtt_spec(views(lines@)) matches Ok(p) && t.format == SubtitleFormat::WebVtt
                && t.language is None && t.title is None && t.metadata@ == p.metadata && holds_cues(
                t,
                p.cues,
            ),
            Err(e) => vtt_spec(views(lines@)) == Err::<ParsedTrack, ParseErrorView>(e@),
        },
{
    let ghost ls = views(lines@);
    if lines.len() == 0 {
        return Err(SubtitleParseError::MissingWebVttHeader);
    }
    assert(ls[0] == lines@[0]@);
    let first = strip_leading_char(&lines[0], '\u{feff}');
    let word = vec!['W', 'E', 'B', 'V', 'T', 'T'];
    assert(word@ =~= webvtt_word());
    if !has_prefix(&first, &word) {
        return Err(SubtitleParseError::MissingWebVttHeader);
    }
    let mut track = empty_track(SubtitleFormat::WebVtt);
    let mut index: usize = 1;
    while index < lines.len() && !blank(&lines[index])
        invariant
            ls == views(lines@),
            1 <= index <= lines.len(),
            starts_with(strip_leading(ls[0], bom()), webvtt_word()),
            text_end(ls, 1) == text_end(ls, index as int),
            track.metadata@ == header_metadata(ls, index as int),
            holds_cues(track, seq![]),
            track.format == SubtitleFormat::WebVtt,
            track.language is None,
            track.title is None,
        decreases lines.len() - index,
    {
        assert(ls[index as int] == lines@[index as int]@);
        if let Some((key, value)) = split_once_char(&lines[index], ':') {
            let k = trimmed(&key);
            let v = trimmed(&value);
            track.metadata.insert(string_of(&k), string_of(&v));
        }
        index = index + 1;
    }
    proof {
        if index < lines.len() {
            assert(ls[index as int] == lines@[index as int]@);
        }
        assert(text_end(ls, index as int) == index);
    }
    let ghost mut acc: Seq<CueView> = seq![];
    let note = vec!['N', 'O', 'T', 'E'];
    let style = vec!['S', 'T', 'Y', 'L', 'E'];
    let region = vec!['R', 'E', 'G', 'I', 'O', 'N'];
    assert(note@ =~= note_word());
    assert(style@ =~= style_word());
    assert(region@ =~= region_word());
    while index < lines.len()
        invariant
            ls == views(lines@),
            index <= lines.len(),
            note@ == note_word(),
            style@ == style_word(),
            region@ == region_word(),
            lines.len() > 0,
            starts_with(strip_leading(ls[0], bom()), webvtt_word()),
            track.metadata@ == header_metadata(ls, text_end(ls, 1)),
            vtt_from(ls, text_end(ls, 1), seq![]) == vtt_from(ls, index as int, acc),
            holds_cues(track, acc),
            track.format == SubtitleFormat::WebVtt,
            track.language is None,
            track.title is None,
        decreases lines.len() - index,
    {
        assert(ls[index as int] == lines@[index as int]@);
        if blank(&lines[index]) {
            index = index + 1;
        } else if has_prefix(&lines[index], &note) || chars_eq(&lines[index], &style) || chars_eq(
            &lines[index],
            &region,
        ) {
            proof {
                lemma_text_end(ls, index as int);
            }
            index = text_end_exec(lines, index);
        } else {
            let (cue, next) = match cue_block_exec(lines, index, false, '.') {
                Ok(v) => v,
                Err(e) => return Err(e),
            };
            proof {
                lemma_cue_block_advances(ls, index as int, false, '.');
            }
            let ghost c = cue@;
            push_parsed(&mut track, cue, Ghost(acc));
            proof {
                acc = acc.push(c);
            }
            index = next;
        }
    }
    Ok(track)
}

} // verus!

verus! {

// ---------------------------------------------------------------------------
// ASS / SSA
// ---------------------------------------------------------------------------

pub open spec fn script_info_header() -> Seq<char> {
    seq!['[', 'S', 'c', 'r', 'i', 'p', 't', ' ', 'I', 'n', 'f', 'o', ']']
}

pub open spec fn events_header() -> Seq<char> {
    seq!['[', 'E', 'v', 'e', 'n', 't', 's', ']']
}

pub open spec fn format_prefix() -> Seq<char> {
    seq!['F', 'o', 'r', 'm', 'a', 't', ':']
}

pub open spec fn dialogue_prefix() -> Seq<char> {
    seq!['D', 'i', 'a', 'l', 'o', 'g', 'u', 'e', ':']
}

/// The state of an ASS scan after some lines: the current section, the
/// event field names once a `Format:` line was read, and what has been
/// collected so far.
pub struct AssState {
    pub section: Seq<char>,
    pub fields: Option<Seq<Seq<char>>>,
    pub title: Option<Seq<char>>,
    pub language: Option<Seq<char>>,
    pub metadata: Map<Seq<char>, Seq<char>>,
    pub cues: Seq<CueView>,
}

pub open spec fn ass_initial() -> AssState {
    AssState {
        section: seq![],
        fields: None,
        title: None,
        language: None,
        metadata: Map::empty(),
        cues: seq![],
    }
}

/// The first index at or after `i` of a field called `name`.
pub open spec fn position_from(fields: Seq<Seq<char>>, name: Seq<char>, i: int) -> Option<int>
    decreases fields.len() - i,
{
    if i < 0 || i >= fields.len() {
        None
    } else if fields[i] == name {
        Some(i)
    } else {
        position_from(fields, name, i + 1)
    }
}

/// The value of the field called `name` in a dialogue line.
pub open spec fn field_value(fields: Seq<Seq<char>>, values: Seq<Seq<char>>, name: Seq<char>) -> Option<
    Seq<char>,
> {
    match position_from(fields, name, 0) {
        Some(p) => if 0 <= p < values.len() {
            Some(values[p])
        } else {
            None
        },
        None => None,
    }
}

pub open spec fn or_empty(o: Option<Seq<char>>) -> Seq<char> {
    match o {
        Some(v) => v,
        None => seq![],
    }
}

pub open spec fn present(o: Option<Seq<char>>) -> Option<Seq<char>> {
    match o {
        Some(v) => if v.len() > 0 {
            Some(v)
        } else {
            None
        },
        None => None,
    }
}

/// The cue text of a dialogue line: `\N` and `\n` stand for line breaks.
pub open spec fn dialogue_text(raw: Seq<char>) -> Seq<char> {
    replace(replace(raw, seq!['\\', 'N'], newline()), seq!['\\', 'n'], newline())
}

/// One `Dialogue:` line, once the fields are known.
pub open spec fn ass_dialogue(st: AssState, fields: Seq<Seq<char>>, dialogue: Seq<char>, index: int) -> Result<
    AssState,
    ParseErrorView,
> {
    let values = splitn(dialogue, fields.len(), ',').map_values(|v: Seq<char>| trim(v));
    if values.len() != fields.len() {
        Ok(st)
    } else {
        let start_text = or_empty(field_value(fields, values, seq!['s', 't', 'a', 'r', 't']));
        let end_text = or_empty(field_value(fields, values, seq!['e', 'n', 'd']));
        match timestamp_spec(start_text, '.') {
            None => Err(ParseErrorView::InvalidTimestamp { line: (index + 1) as usize, value: start_text }),
            Some(s) => match timestamp_spec(end_text, '.') {
                None => Err(
                    ParseErrorView::InvalidTimestamp { line: (index + 1) as usize, value: end_text },
                ),
                Some(e) => {
                    let text = dialogue_text(
                        or_empty(field_value(fields, values, seq!['t', 'e', 'x', 't'])),
                    );
                    if is_blank(text) {
                        Err(ParseErrorView::MissingText { line: (index + 1) as usize })
                    } else {
                        Ok(
                            AssState {
                                cues: st.cues.push(
                                    CueView {
                                        id: 0,
                                        start_ms: s,
                                        end_ms: e,
                                        text,
                                        identifier: None,
                                        settings: None,
                                        style: present(
                                            field_value(fields, values, seq!['s', 't', 'y', 'l', 'e']),
                                        ),
                                        speaker: present(
                                            field_value(fields, values, seq!['n', 'a', 'm', 'e']),
                                        ),
                                    },
                                ),
                                ..st
                            },
                        )
                    }
                },
            },
        }
    }
}

/// One line of an ASS file: a `[...]` line opens a section; in
/// `[Script Info]` a `key: value` line sets metadata (and the title and
/// language); in `[Events]` a `Format:` line names the fields and a
/// `Dialogue:` line adds a cue.
pub open spec fn ass_step(st: AssState, line: Seq<char>, index: int) -> Result<AssState, ParseErrorView> {
    let trimmed = trim(line);
    if trimmed.len() > 0 && trimmed[0] == '[' && trimmed.last() == ']' {
        Ok(AssState { section: trimmed, ..st })
    } else if eq_ignore_case(st.section, script_info_header()) {
        match find(trimmed, seq![':']) {
            None => Ok(st),
            Some(p) => {
                let key = trim(trimmed.take(p));
                let value = trim(trimmed.skip(p + 1));
                Ok(
                    AssState {
                        title: if eq_ignore_case(key, seq!['T', 'i', 't', 'l', 'e']) {
                            Some(value)
                        } else {
                            st.title
                        },
                        language: if eq_ignore_case(
                            key,
                            seq!['L', 'a', 'n', 'g', 'u', 'a', 'g', 'e'],
                        ) {
                            Some(value)
                        } else {
                            st.language
                        },
                        metadata: st.metadata.insert(key, value),
                        ..st
                    },
                )
            },
        }
    } else if eq_ignore_case(st.section, events_header()) {
        if starts_with(trimmed, format_prefix()) {
            Ok(
                AssState {
                    fields: Some(
                        split_on(trimmed.skip(7), ',').map_values(|f: Seq<char>| lowercase(trim(f))),
                    ),
                    ..st
                },
            )
        } else if !starts_with(trimmed, dialogue_prefix()) {
            Ok(st)
        } else {
            match st.fields {
                None => Err(ParseErrorView::MissingAssEventsFormat),
                Some(fields) => ass_dialogue(st, fields, trimmed.skip(9), index),
            }
        }
    } else {
        Ok(st)
    }
}

/// The state after the lines from `i` on.
pub open spec fn ass_from(lines: Seq<Seq<char>>, i: int, st: AssState) -> Result<AssState, ParseErrorView>
    decreases lines.len() - i,
{
    if i < 0 || i >= lines.len() {
        Ok(st)
    } else {
        match ass_step(st, lines[i], i) {
            Err(e) => Err(e),
            Ok(next) => ass_from(lines, i + 1, next),
        }
    }
}

pub open spec fn ass_spec(lines: Seq<Seq<char>>) -> Result<ParsedTrack, ParseErrorView> {
    match ass_from(lines, 0, ass_initial()) {
        Err(e) => Err(e),
        Ok(st) => if st.fields is None {
            Err(ParseErrorView::MissingAssEventsFormat)
        } else {
            Ok(
                ParsedTrack {
                    language: st.language,
                    title: st.title,
                    metadata: st.metadata,
                    cues: st.cues,
                },
            )
        },
    }
}

pub open spec fn opt_views(o: Option<Vec<Vec<char>>>) -> Option<Seq<Seq<char>>> {
    match o {
        Some(v) => Some(views(v@)),
        None => None,
    }
}

/// An ASS scan in progress.
struct AssScan {
    section: Vec<char>,
    fields: Option<Vec<Vec<char>>>,
    track: SubtitleTrack,
    cues: Ghost<Seq<CueView>>,
}

spec fn scan_state(s: AssScan) -> AssState {
    AssState {
        section: s.section@,
        fields: opt_views(s.fields),
        title: opt_view(s.track.title),
        language: opt_view(s.track.language),
        metadata: s.track.metadata@,
        cues: s.cues@,
    }
}

spec fn scan_ok(s: AssScan) -> bool {
    holds_cues(s.track, s.cues@) && s.track.format == SubtitleFormat::Ass
}

fn position_exec(fields: &Vec<Vec<char>>, name: &Vec<char>) -> (r: Option<usize>)
    ensures
        match r {
            Some(p) => position_from(views(fields@), name@, 0) == Some(p as int),
            None => position_from(views(fields@), name@, 0) is None,
        },
{
    let mut i: usize = 0;
    while i < fields.len()
        invariant
            i <= fields.len(),
            position_from(views(fields@), name@, 0) == position_from(views(fields@), name@, i as int),
        decreases fields.len() - i,
    {
        assert(views(fields@)[i as int] == fields@[i as int]@);
        if chars_eq(&fields[i], name) {
            return Some(i);
        }
        i = i + 1;
    }
    None
}

fn field_value_exec(fields: &Vec<Vec<char>>, values: &Vec<Vec<char>>, name: &Vec<char>) -> (r: Option<Vec<char>>)
    ensures
        match r {
            Some(v) => field_value(views(fields@), views(values@), name@) == Some(v@),
            None => field_value(views(fields@), views(values@), name@) is None,
        },
{
    match position_exec(fields, name) {
        Some(p) => if p < values.len() {
            assert(views(values@)[p as int] == values@[p as int]@);
            Some(copy_range(&values[p], 0, values[p].len()))
        } else {
            None
        },
        None => None,
    }
}

fn or_empty_exec(o: Option<Vec<char>>) -> (r: Vec<char>)
    ensures
        r@ == or_empty(match o {
            Some(v) => Some(v@),
            None => None,
        }),
{
    match o {
        Some(v) => v,
        None => Vec::new(),
    }
}

fn present_string(o: Option<Vec<char>>) -> (r: Option<String>)
    ensures
        opt_view(r) == present(match o {
            Some(v) => Some(v@),
            None => None,
        }),
{
    match o {
        Some(v) => if v.len() > 0 {
            Some(string_of(&v))
        } else {
            None
        },
        None => None,
    }
}

fn ass_dialogue_exec(
    scan: &mut AssScan,
    fields: &Vec<Vec<char>>,
    dialogue: &Vec<char>,
    index: usize,
) -> (r: Result<(), SubtitleParseError>)
    requires
        scan_ok(*old(scan)),
        index < usize::MAX,
    ensures
        match r {
            Ok(()) => ass_dialogue(scan_state(*old(scan)), views(fields@), dialogue@, index as int)
                == Ok::<AssState, ParseErrorView>(scan_state(*final(scan))) && scan_ok(*final(scan)),
            Err(e) => ass_dialogue(scan_state(*old(scan)), views(fields@), dialogue@, index as int)
                == Err::<AssState, ParseErrorView>(e@),
        },
{
    let ghost fv = views(fields@);
    let pieces = splitn_exec(dialogue, fields.len(), ',');
    let mut values: Vec<Vec<char>> = Vec::new();
    let mut i: usize = 0;
    while i < pieces.len()
        invariant
            i <= pieces.len(),
            views(values@) == views(pieces@).take(i as int).map_values(|v: Seq<char>| trim(v)),
        decreases pieces.len() - i,
    {
        let t = trimmed(&pieces[i]);
        let ghost prev = values@;
        values.push(t);
        assert(views(values@) =~= views(prev).push(t@));
        assert(views(pieces@)[i as int] == pieces@[i as int]@);
        assert(views(values@) =~= views(pieces@).take(i + 1).map_values(|v: Seq<char>| trim(v)));
        i = i + 1;
    }
    assert(views(pieces@).take(i as int) =~= views(pieces@));
    let ghost vv = views(values@);
    assert(vv =~= splitn(dialogue@, fields.len() as nat, ',').map_values(|v: Seq<char>| trim(v)));
    if values.len() != fields.len() {
        return Ok(());
    }
    let w_start = vec!['s', 't', 'a', 'r', 't'];
    let w_end = vec!['e', 'n', 'd'];
    let w_text = vec!['t', 'e', 'x', 't'];
    let w_style = vec!['s', 't', 'y', 'l', 'e'];
    let w_name = vec!['n', 'a', 'm', 'e'];
    let esc_upper = vec!['\\', 'N'];
    let esc_lower = vec!['\\', 'n'];
    let nl = vec!['\n'];
    assert(w_start@ =~= seq!['s', 't', 'a', 'r', 't']);
    assert(w_end@ =~= seq!['e', 'n', 'd']);
    assert(w_text@ =~= seq!['t', 'e', 'x', 't']);
    assert(w_style@ =~= seq!['s', 't', 'y', 'l', 'e']);
    assert(w_name@ =~= seq!['n', 'a', 'm', 'e']);
    assert(esc_upper@ =~= seq!['\\', 'N']);
    assert(esc_lower@ =~= seq!['\\', 'n']);
    assert(nl@ =~= newline());
    let start_text = or_empty_exec(field_value_exec(fields, &values, &w_start));
    let end_text = or_empty_exec(field_value_exec(fields, &values, &w_end));
    let start_ms = match parse_timestamp(&start_text, '.') {
        Some(v) => v,
        None => return Err(
            SubtitleParseError::InvalidTimestamp { line: index + 1, value: string_of(&start_text) },
        ),
    };
    let end_ms = match parse_timestamp(&end_text, '.') {
        Some(v) => v,
        None => return Err(
            SubtitleParseError::InvalidTimestamp { line: index + 1, value: string_of(&end_text) },
        ),
    };
    let raw = or_empty_exec(field_value_exec(fields, &values, &w_text));
    let text1 = replace_exec(&raw, &esc_upper, &nl);
    let text = replace_exec(&text1, &esc_lower, &nl);
    if blank(&text) {
        return Err(SubtitleParseError::MissingText { line: index + 1 });
    }
    let style = present_string(field_value_exec(fields, &values, &w_style));
    let speaker = present_string(field_value_exec(fields, &values, &w_name));
    let cue = SubtitleCue {
        id: 0,
        start_ms,
        end_ms,
        text: string_of(&text),
        identifier: None,
        settings: None,
        style,
        speaker,
    };
    let ghost c = cue@;
    let ghost acc = scan.cues@;
    push_parsed(&mut scan.track, cue, Ghost(acc));
    proof {
        scan.cues = Ghost(acc.push(c));
    }
    Ok(())
}

fn ass_line(scan: &mut AssScan, line: &Vec<char>, index: usize) -> (r: Result<(), SubtitleParseError>)
    requires
        scan_ok(*old(scan)),
        index < usize::MAX,
    ensures
        match r {
            Ok(()) => ass_step(scan_state(*old(scan)), line@, index as int) == Ok::<
                AssState,
                ParseErrorView,
            >(scan_state(*final(scan))) && scan_ok(*final(scan)),
            Err(e) => ass_step(scan_state(*old(scan)), line@, index as int) == Err::<
                AssState,
                ParseErrorView,
            >(e@),
        },
{
    let trimmed_line = trimmed(line);
    let n = trimmed_line.len();
    if n > 0 && trimmed_line[0] == '[' && trimmed_line[n - 1] == ']' {
        scan.section = trimmed_line;
        return Ok(());
    }
    let info = vec!['[', 'S', 'c', 'r', 'i', 'p', 't', ' ', 'I', 'n', 'f', 'o', ']'];
    let events = vec!['[', 'E', 'v', 'e', 'n', 't', 's', ']'];
    assert(info@ =~= script_info_header());
    assert(events@ =~= events_header());
    if equal_ignoring_case(&scan.section, &info) {
        if let Some((k, v)) = split_once_char(&trimmed_line, ':') {
            let key = trimmed(&k);
            let value = trimmed(&v);
            let title_word = vec!['T', 'i', 't', 'l', 'e'];
            let language_word = vec!['L', 'a', 'n', 'g', 'u', 'a', 'g', 'e'];
            assert(title_word@ =~= seq!['T', 'i', 't', 'l', 'e']);
            assert(language_word@ =~= seq!['L', 'a', 'n', 'g', 'u', 'a', 'g', 'e']);
            if equal_ignoring_case(&key, &title_word) {
                scan.track.title = Some(string_of(&value));
            }
            if equal_ignoring_case(&key, &language_word) {
                scan.track.language = Some(string_of(&value));
            }
            scan.track.metadata.insert(string_of(&key), string_of(&value));
        }
        Ok(())
    } else if equal_ignoring_case(&scan.section, &events) {
        let format = vec!['F', 'o', 'r', 'm', 'a', 't', ':'];
        let dialogue = vec!['D', 'i', 'a', 'l', 'o', 'g', 'u', 'e', ':'];
        assert(format@ =~= format_prefix());
        assert(dialogue@ =~= dialogue_prefix());
        if has_prefix(&trimmed_line, &format) {
            let rest = copy_range(&trimmed_line, 7, n);
            assert(rest@ =~= trimmed_line@.skip(7));
            let raw = split_on_char(&rest, ',');
            let mut names: Vec<Vec<char>> = Vec::new();
            let mut i: usize = 0;
            while i < raw.len()
                invariant
                    i <= raw.len(),
                    views(names@) == views(raw@).take(i as int).map_values(
                        |f: Seq<char>| lowercase(trim(f)),
                    ),
                decreases raw.len() - i,
            {
                let f = lowercased(&trimmed(&raw[i]));
                let ghost prev = names@;
                names.push(f);
                assert(views(names@) =~= views(prev).push(f@));
                assert(views(raw@)[i as int] == raw@[i as int]@);
                assert(views(names@) =~= views(raw@).take(i + 1).map_values(
                    |f: Seq<char>| lowercase(trim(f)),
                ));
                i = i + 1;
            }
            assert(views(raw@).take(i as int) =~= views(raw@));
            scan.fields = Some(names);
            return Ok(());
        }
        if !has_prefix(&trimmed_line, &dialogue) {
            return Ok(());
        }
        let fields = match &scan.fields {
            Some(f) => copy_lines(f),
            None => return Err(SubtitleParseError::MissingAssEventsFormat),
        };
        let body = copy_range(&trimmed_line, 9, n);
        assert(body@ =~= trimmed_line@.skip(9));
        ass_dialogue_exec(scan, &fields, &body, index)
    } else {
        Ok(())
    }
}

fn copy_lines(v: &Vec<Vec<char>>) -> (r: Vec<Vec<char>>)
    ensures
        views(r@) == views(v@),
{
    let mut r: Vec<Vec<char>> = Vec::new();
    let mut i: usize = 0;
    while i < v.len()
        invariant
            i <= v.len(),
            views(r@) == views(v@).take(i as int),
        decreases v.len() - i,
    {
        let line = copy_range(&v[i], 0, v[i].len());
        assert(line@ =~= v@[i as int]@);
        let ghost prev = r@;
        r.push(line);
        assert(views(r@) =~= views(prev).push(line@));
        assert(views(v@)[i as int] == v@[i as int]@);
        assert(views(r@) =~= views(v@).take(i + 1));
        i = i + 1;
    }
    assert(views(v@).take(i as int) =~= views(v@));
    r
}

pub fn parse_ass(lines: &Vec<Vec<char>>) -> (r: Result<SubtitleTrack, SubtitleParseError>)
    ensures
        match r {
            Ok(t) => ass_spec(views(lines@)) matches Ok(p) && t.format == SubtitleFormat::Ass
                && opt_view(t.language) == p.language && opt_view(t.title) == p.title
                && t.metadata@ == p.metadata && holds_cues(t, p.cues),
            Err(e) => ass_spec(views(lines@)) == Err::<ParsedTrack, ParseErrorView>(e@),
        },
{
    let ghost ls = views(lines@);
    let ghost no_cues: Seq<CueView> = seq![];
    let mut scan = AssScan {
        section: Vec::new(),
        fields: None,
        track: empty_track(SubtitleFormat::Ass),
        cues: Ghost(no_cues),
    };
    assert(scan_state(scan) =~= ass_initial());
    let mut index: usize = 0;
    while index < lines.len()
        invariant
            ls == views(lines@),
            index <= lines.len(),
            scan_ok(scan),
            ass_from(ls, 0, ass_initial()) == ass_from(ls, index as int, scan_state(scan)),
        decreases lines.len() - index,
    {
        assert(ls[index as int] == lines@[index as int]@);
        match ass_line(&mut scan, &lines[index], index) {
            Ok(()) => {},
            Err(e) => return Err(e),
        }
        index = index + 1;
    }
    if scan.fields.is_none() {
        return Err(SubtitleParseError::MissingAssEventsFormat);
    }
    Ok(scan.track)
}

} // verus!

verus! {

/// What parsing `input` in `format` gives.
pub open spec fn parse_spec(format: SubtitleFormat, input: Seq<char>) -> Result<ParsedTrack, ParseErrorView> {
    let lines = normalized_lines_spec(input);
    match format {
        SubtitleFormat::Srt => srt_spec(lines),
        SubtitleFormat::WebVtt => vtt_spec(lines),
        SubtitleFormat::Ass => ass_spec(lines),
    }
}

/// `t` is the track that `input`, read as `format`, describes: its header
/// values, and its cues numbered from 1 in file order and kept ordered by
/// (start, end, id).
pub open spec fn parsed_from(t: SubtitleTrack, format: SubtitleFormat, input: Seq<char>) -> bool {
    parse_spec(format, input) matches Ok(p) && t.format == format && opt_view(t.language)
        == p.language && opt_view(t.title) == p.title && t.metadata@ == p.metadata
        && t.cue_list@.to_multiset() == renumber(p.cues, 1).to_multiset() && t.cue_list.next_id()
        == id_at(1, p.cues.len() as int) && sorted_cues(t.cue_list@)
}

impl SubtitleTrack {
    /// Reads a whole subtitle file. On success the track holds the file's
    /// header values and its cues, numbered from 1 in file order and kept
    /// ordered by (start, end, id); otherwise the first problem met is
    /// returned.
    pub fn parse(format: SubtitleFormat, input: &str) -> (r: Result<Self, SubtitleParseError>)
        ensures
            match r {
                Ok(t) => parsed_from(t, format, input@),
                Err(e) => parse_spec(format, input@) == Err::<ParsedTrack, ParseErrorView>(e@),
            },
    {
        let lines = normalized_lines(input);
        let r = match format {
            SubtitleFormat::Srt => parse_srt(&lines),
            SubtitleFormat::WebVtt => parse_webvtt(&lines),
            SubtitleFormat::Ass => parse_ass(&lines),
        };
        if let Ok(t) = &r {
            t.cue_list.check_invariant();
        }
        r
    }
}

/// `std::io::Error`, carried through unopened: nothing here looks inside
/// one.
#[verifier::external_type_specification]
#[verifier::external_body]
pub struct ExIoError(std::io::Error);

/// Why a subtitle file could not be loaded.
#[derive(Debug)]
pub enum SubtitleLoadError {
    /// Its extension names no subtitle format.
    UnsupportedFormat,
    /// It could not be read.
    Io(std::io::Error),
    /// Its text is not a valid subtitle file of its format.
    Parse(SubtitleParseError),
}

impl SubtitleTrack {
    /// Loads the subtitle file at `path`, given what reading it gave: a path
    /// whose extension names no format is refused whatever was read, then a
    /// failed read is reported, then the text is parsed as the extension's
    /// format.
    pub fn from_contents(path: &str, contents: Result<String, std::io::Error>) -> (r: Result<
        Self,
        SubtitleLoadError,
    >)
        ensures
            match format_of_path(path@) {
                None => r matches Err(SubtitleLoadError::UnsupportedFormat),
                Some(f) => match contents {
                    Err(e) => r matches Err(SubtitleLoadError::Io(x)) && x == e,
                    Ok(text) => match r {
                        Ok(t) => parsed_from(t, f, text@),
                        Err(SubtitleLoadError::Parse(pe)) => parse_spec(f, text@) == Err::<
                            ParsedTrack,
                            ParseErrorView,
                        >(pe@),
                        Err(_) => false,
                    },
                },
            },
    {
        let format = match SubtitleFormat::from_path(path) {
            Some(f) => f,
            None => {
                return Err(SubtitleLoadError::UnsupportedFormat);
            },
        };
        match contents {
            Err(e) => Err(SubtitleLoadError::Io(e)),
            Ok(text) => match SubtitleTrack::parse(format, text.as_str()) {
                Ok(t) => Ok(t),
                Err(pe) => Err(SubtitleLoadError::Parse(pe)),
            },
        }
    }
}


// ---------------------------------------------------------------------------
// Laws of reading
// ---------------------------------------------------------------------------

/// Whether `line` opens a section of an ASS file.
pub open spec fn is_section_line(line: Seq<char>) -> bool {
    let t = trim(line);
    t.len() > 0 && t[0] == '[' && t.last() == ']'
}

/// The section that line `i` of an ASS file stands in: the last section
/// line before it, trimmed, or none before the first.
pub open spec fn section_at(lines: Seq<Seq<char>>, i: int) -> Seq<char>
    decreases i,
{
    if i <= 0 {
        seq![]
    } else if is_section_line(lines[i - 1]) {
        trim(lines[i - 1])
    } else {
        section_at(lines, i - 1)
    }
}

/// Whether line `i` names the fields of the `[Events]` section.
pub open spec fn events_format_line(lines: Seq<Seq<char>>, i: int) -> bool {
    !is_section_line(lines[i]) && eq_ignore_case(section_at(lines, i), events_header())
        && starts_with(trim(lines[i]), format_prefix())
}

proof fn lemma_ass_from_without_format(lines: Seq<Seq<char>>, i: int, st: AssState)
    requires
        0 <= i <= lines.len(),
        st.fields is None,
        st.section == section_at(lines, i),
        forall|j: int| i <= j < lines.len() ==> !events_format_line(lines, j),
    ensures
        match ass_from(lines, i, st) {
            Ok(end) => end.fields is None,
            Err(e) => e == ParseErrorView::MissingAssEventsFormat,
        },
    decreases lines.len() - i,
{
    if i < lines.len() {
        assert(!events_format_line(lines, i));
        match ass_step(st, lines[i], i) {
            Ok(next) => {
                assert(next.fields is None);
                assert(next.section == section_at(lines, i + 1));
                lemma_ass_from_without_format(lines, i + 1, next);
            },
            Err(e) => {},
        }
    }
}

/// An ASS file whose `[Events]` section never names its fields is refused
/// as missing them, whatever else it holds: a dialogue line met before a
/// `Format:` line is refused so, and so is a file that ends without one.
pub proof fn law_ass_needs_events_format(input: Seq<char>)
    requires
        forall|j: int|
            0 <= j < normalized_lines_spec(input).len() ==> !events_format_line(
                normalized_lines_spec(input),
                j,
            ),
    ensures
        parse_spec(SubtitleFormat::Ass, input) == Err::<ParsedTrack, ParseErrorView>(
            ParseErrorView::MissingAssEventsFormat,
        ),
{
    lemma_ass_from_without_format(normalized_lines_spec(input), 0, ass_initial());
}

proof fn lemma_vtt_from_error(lines: Seq<Seq<char>>, i: int, acc: Seq<CueView>)
    ensures
        vtt_from(lines, i, acc) matches Err(e) ==> e != ParseErrorView::MissingWebVttHeader,
    decreases lines.len() - i,
{
    if 0 <= i < lines.len() {
        if is_blank(lines[i]) {
            lemma_vtt_from_error(lines, i + 1, acc);
        } else if vtt_skipped_block(lines[i]) {
            lemma_text_end(lines, i);
            lemma_vtt_from_error(lines, text_end(lines, i), acc);
        } else {
            match cue_block(lines, i, false, '.') {
                Err(e) => {},
                Ok((c, j)) => {
                    lemma_cue_block_advances(lines, i, false, '.');
                    lemma_vtt_from_error(lines, j, acc.push(c));
                },
            }
        }
    }
}

/// A WebVTT file is refused as missing its header exactly when its first
/// line, without a byte-order mark, does not start with `WEBVTT` (or there
/// is no line at all): nothing after the first line leads to that error.
pub proof fn law_webvtt_header(input: Seq<char>)
    ensures
        (parse_spec(SubtitleFormat::WebVtt, input) == Err::<ParsedTrack, ParseErrorView>(
            ParseErrorView::MissingWebVttHeader,
        )) <==> !(normalized_lines_spec(input).len() > 0 && starts_with(
            strip_leading(normalized_lines_spec(input)[0], bom()),
            webvtt_word(),
        )),
{
    let lines = normalized_lines_spec(input);
    lemma_vtt_from_error(lines, text_end(lines, 1), seq![]);
}

/// A track read from a file has the file's format and its cues ordered by
/// (start, end, id); there is one cue per cue of the file, each the file's
/// cue numbered by its place in the file from 1, and the next cue added
/// gets the number after the last.
pub proof fn law_parsed_track(t: SubtitleTrack, format: SubtitleFormat, input: Seq<char>)
    requires
        parsed_from(t, format, input),
    ensures
        parse_spec(format, input) matches Ok(p) && {
            &&& t.format == format
            &&& sorted_cues(t.cue_list@)
            &&& t.cue_list@.len() == p.cues.len()
            &&& forall|k: int|
                #![trigger t.cue_list@[k]]
                0 <= k < t.cue_list@.len() ==> exists|i: int|
                    #![trigger p.cues[i]]
                    0 <= i < p.cues.len() && t.cue_list@[k] == (CueView {
                        id: id_at(1, i),
                        ..p.cues[i]
                    })
            &&& t.cue_list.next_id() == id_at(1, p.cues.len() as int)
        },
{
    broadcast use vstd::seq_lib::group_to_multiset_ensures;

    let p = parse_spec(format, input)->Ok_0;
    let r = renumber(p.cues, 1);
    assert(t.cue_list@.to_multiset() == r.to_multiset());
    assert(t.cue_list@.len() == r.len()) by {
        assert(t.cue_list@.to_multiset().len() == t.cue_list@.len());
        assert(r.to_multiset().len() == r.len());
    }
    assert forall|k: int| #![trigger t.cue_list@[k]] 0 <= k < t.cue_list@.len() implies exists|i: int|
        #![trigger p.cues[i]]
        0 <= i < p.cues.len() && t.cue_list@[k] == (CueView { id: id_at(1, i), ..p.cues[i] }) by {
        let c = t.cue_list@[k];
        assert(t.cue_list@.contains(c));
        assert(t.cue_list@.to_multiset().contains(c));
        assert(r.contains(c));
        let i = choose|i: int| 0 <= i < r.len() && r[i] == c;
        assert(r[i] == (CueView { id: id_at(1, i), ..p.cues[i] }));
    }
}

proof fn lemma_split_plain(p: Seq<char>, b: Seq<char>, c: char)
    requires
        forall|i: int| 0 <= i < b.len() ==> b[i] != c,
    ensures
        split_when(p + b, char_is(c)).len() == split_when(p, char_is(c)).len(),
        split_when(p + b, char_is(c)) == split_when(p, char_is(c)).update(
            split_when(p, char_is(c)).len() - 1,
            split_when(p, char_is(c)).last() + b,
        ),
    decreases b.len(),
{
    lemma_split_when_len(p, char_is(c));
    let sp = split_when(p, char_is(c));
    if b.len() == 0 {
        assert(p + b =~= p);
        assert(sp.last() + b =~= sp.last());
        assert(sp.update(sp.len() - 1, sp.last() + b) =~= sp);
    } else {
        let b1 = b.drop_last();
        lemma_split_plain(p, b1, c);
        assert((p + b).drop_last() =~= p + b1);
        assert((p + b).last() == b.last());
        let init = split_when(p + b1, char_is(c));
        assert(init.last() == sp.last() + b1);
        assert(init.last().push(b.last()) =~= sp.last() + b);
        assert(split_when(p + b, char_is(c)) == init.update(init.len() - 1, init.last().push(b.last())));
        assert(init.update(init.len() - 1, init.last().push(b.last())) =~= sp.update(
            sp.len() - 1,
            sp.last() + b,
        ));
    }
}

proof fn lemma_split_at(p: Seq<char>, c: char)
    ensures
        split_when(p + seq![c], char_is(c)) == split_when(p, char_is(c)).push(Seq::<char>::empty()),
{
    assert((p + seq![c]).drop_last() =~= p);
    assert((p + seq![c]).last() == c);
}

proof fn lemma_decimal_value_nonneg(d: Seq<char>)
    requires
        all_digits(d),
    ensures
        decimal_value(d) >= 0,
    decreases d.len(),
{
    if d.len() > 0 {
        assert(is_digit(d.last()));
        assert(all_digits(d.drop_last())) by {
            assert forall|i: int| 0 <= i < d.drop_last().len() implies is_digit(#[trigger] d.drop_last()[i]) by {
                assert(d.drop_last()[i] == d[i]);
            }
        }
        lemma_decimal_value_nonneg(d.drop_last());
    }
}

proof fn lemma_digits_parse(d: Seq<char>)
    requires
        d.len() > 0,
        all_digits(d),
        decimal_value(d) <= u64::MAX,
    ensures
        parse_u64_spec(d) == Some(decimal_value(d) as u64),
{
    assert(is_digit(d[0]));
}

proof fn lemma_short_digits(d: Seq<char>)
    requires
        1 <= d.len() <= 3,
        all_digits(d),
    ensures
        0 <= decimal_value(d) < if d.len() == 1 {
            10int
        } else if d.len() == 2 {
            100int
        } else {
            1000int
        },
    decreases d.len(),
{
    assert(is_digit(d.last()));
    assert(0 <= digit_value(d.last()) <= 9);
    let p = d.drop_last();
    assert(decimal_value(d) == decimal_value(p) * 10 + digit_value(d.last()));
    if d.len() == 1 {
        assert(p.len() == 0);
        assert(decimal_value(p) == 0);
    } else {
        assert(all_digits(p)) by {
            assert forall|i: int| 0 <= i < p.len() implies is_digit(#[trigger] p[i]) by {
                assert(p[i] == d[i]);
            }
        }
        lemma_short_digits(p);
    }
}

proof fn lemma_rfind_tail(p: Seq<char>, sep: char, tail: Seq<char>)
    requires
        all_digits(tail),
        !is_digit(sep),
    ensures
        rfind(p + seq![sep] + tail, sep) == Some(p.len() as int),
    decreases tail.len(),
{
    let v = p + seq![sep] + tail;
    if tail.len() == 0 {
        assert(v[v.len() - 1] == sep);
    } else {
        let t = tail.drop_last();
        assert(all_digits(t)) by {
            assert forall|i: int| 0 <= i < t.len() implies is_digit(#[trigger] t[i]) by {
                assert(t[i] == tail[i]);
            }
        }
        lemma_rfind_tail(p, sep, t);
        let w = p + seq![sep] + t;
        assert(is_digit(tail.last()));
        assert(v[v.len() - 1] != sep);
        assert(v.len() - 1 == w.len());
        lemma_rfind_prefix(v, w, sep, w.len() as int);
    }
}

/// Looking back from `k` finds the same in two sequences that agree before `k`.
proof fn lemma_rfind_prefix(v: Seq<char>, w: Seq<char>, c: char, k: int)
    requires
        0 <= k <= w.len(),
        k <= v.len(),
        forall|i: int| 0 <= i < k ==> v[i] == w[i],
    ensures
        rfind_before(v, c, k) == rfind_before(w, c, k),
    decreases k,
{
    if k > 0 {
        lemma_rfind_prefix(v, w, c, k - 1);
    }
}

/// What a fraction of one to three digits is worth in milliseconds: tenths,
/// hundredths or thousandths of a second.
pub open spec fn fraction_worth(fd: Seq<char>) -> int {
    decimal_value(fd) * if fd.len() == 1 {
        100int
    } else if fd.len() == 2 {
        10int
    } else {
        1int
    }
}

/// A timestamp `h:m:s<sep>f` — hours, minutes and seconds written in
/// digits, minutes and seconds below 60, and a fraction of one to three
/// digits — lasts `h` hours, `m` minutes, `s` seconds and the fraction of a
/// second, held at `u64::MAX`.
pub proof fn law_timestamp_value(hd: Seq<char>, md: Seq<char>, sd: Seq<char>, fd: Seq<char>, sep: char)
    requires
        hd.len() > 0 && md.len() > 0 && sd.len() > 0 && 1 <= fd.len() <= 3,
        all_digits(hd) && all_digits(md) && all_digits(sd) && all_digits(fd),
        decimal_value(hd) <= u64::MAX,
        decimal_value(md) < 60,
        decimal_value(sd) < 60,
        !is_digit(sep),
    ensures
        ({
            let total = decimal_value(hd) * 3_600_000 + decimal_value(md) * 60_000 + decimal_value(sd)
                * 1000 + fraction_worth(fd);
            timestamp_spec(hd + seq![':'] + md + seq![':'] + sd + seq![sep] + fd, sep) == Some(
                if total > u64::MAX {
                    u64::MAX
                } else {
                    total as u64
                },
            )
        }),
{
    let clock = hd + seq![':'] + md + seq![':'] + sd;
    let value = clock + seq![sep] + fd;
    let k = clock.len() as int;
    lemma_rfind_tail(clock, sep, fd);
    assert(value.take(k) =~= clock);
    assert(value.skip(k + 1) =~= fd);
    // The clock splits at its two colons.
    assert forall|i: int| 0 <= i < hd.len() implies hd[i] != ':' by {
        assert(is_digit(hd[i]));
    }
    assert forall|i: int| 0 <= i < md.len() implies md[i] != ':' by {
        assert(is_digit(md[i]));
    }
    assert forall|i: int| 0 <= i < sd.len() implies sd[i] != ':' by {
        assert(is_digit(sd[i]));
    }
    let e = Seq::<char>::empty();
    assert(split_when(e, char_is(':')) == seq![e]);
    lemma_split_plain(e, hd, ':');
    assert(e + hd =~= hd);
    assert(seq![e].update(0, e + hd) =~= seq![hd]);
    let a1 = hd + seq![':'];
    lemma_split_at(hd, ':');
    lemma_split_plain(a1, md, ':');
    assert(seq![hd, e].update(1, e + md) =~= seq![hd, md]);
    assert(seq![hd].push(e) =~= seq![hd, e]);
    let a2 = a1 + md;
    lemma_split_at(a2, ':');
    let a3 = a2 + seq![':'];
    lemma_split_plain(a3, sd, ':');
    assert(seq![hd, md].push(e) =~= seq![hd, md, e]);
    assert(seq![hd, md, e].update(2, e + sd) =~= seq![hd, md, sd]);
    assert(e + md =~= md);
    assert(e + sd =~= sd);
    assert(split_on(clock, ':') == seq![hd, md, sd]);
    lemma_digits_parse(hd);
    lemma_digits_parse(md);
    lemma_digits_parse(sd);
    lemma_short_digits(fd);
    lemma_digits_parse(fd);
    lemma_decimal_value_nonneg(hd);
    lemma_decimal_value_nonneg(md);
    lemma_decimal_value_nonneg(sd);
    let h = decimal_value(hd) as u64;
    let m = decimal_value(md) as u64;
    let sec = decimal_value(sd) as u64;
    let f = fraction_worth(fd) as u64;
    assert(clock_parts(clock) == Some((h, m, sec)));
    assert(fraction_ms(fd) == Some(f));
    assert(rfind(value, sep) == Some(k));
    assert(timestamp_spec(value, sep) == Some(
        sat_add(sat_add(sat_add(sat_mul(h, 3_600_000), sat_mul(m, 60_000)), sat_mul(sec, 1000)), f),
    ));
    assert(sat_mul(m, 60_000) == m * 60_000);
    assert(sat_mul(sec, 1000) == sec * 1000);
}

/// A timestamp without hours, `m:s<sep>f` — minutes and seconds written in
/// digits, both below 60, and a fraction of one to three digits — lasts `m`
/// minutes, `s` seconds and the fraction of a second.
pub proof fn law_short_timestamp_value(md: Seq<char>, sd: Seq<char>, fd: Seq<char>, sep: char)
    requires
        md.len() > 0 && sd.len() > 0 && 1 <= fd.len() <= 3,
        all_digits(md) && all_digits(sd) && all_digits(fd),
        decimal_value(md) < 60,
        decimal_value(sd) < 60,
        !is_digit(sep),
    ensures
        timestamp_spec(md + seq![':'] + sd + seq![sep] + fd, sep) == Some(
            (decimal_value(md) * 60_000 + decimal_value(sd) * 1000 + fraction_worth(fd)) as u64,
        ),
{
    let clock = md + seq![':'] + sd;
    let value = clock + seq![sep] + fd;
    let k = clock.len() as int;
    lemma_rfind_tail(clock, sep, fd);
    assert(value.take(k) =~= clock);
    assert(value.skip(k + 1) =~= fd);
    assert forall|i: int| 0 <= i < md.len() implies md[i] != ':' by {
        assert(is_digit(md[i]));
    }
    assert forall|i: int| 0 <= i < sd.len() implies sd[i] != ':' by {
        assert(is_digit(sd[i]));
    }
    let e = Seq::<char>::empty();
    assert(split_when(e, char_is(':')) == seq![e]);
    lemma_split_plain(e, md, ':');
    assert(e + md =~= md);
    assert(seq![e].update(0, e + md) =~= seq![md]);
    let a1 = md + seq![':'];
    lemma_split_at(md, ':');
    lemma_split_plain(a1, sd, ':');
    assert(seq![md].push(e) =~= seq![md, e]);
    assert(e + sd =~= sd);
    assert(seq![md, e].update(1, e + sd) =~= seq![md, sd]);
    assert(split_on(clock, ':') == seq![md, sd]);
    lemma_digits_parse(md);
    lemma_digits_parse(sd);
    lemma_short_digits(fd);
    lemma_digits_parse(fd);
    lemma_decimal_value_nonneg(md);
    lemma_decimal_value_nonneg(sd);
    let m = decimal_value(md) as u64;
    let sec = decimal_value(sd) as u64;
    let f = fraction_worth(fd) as u64;
    assert(clock_parts(clock) == Some((0u64, m, sec)));
    assert(fraction_ms(fd) == Some(f));
    assert(rfind(value, sep) == Some(k));
    assert(sat_mul(0, 3_600_000) == 0);
    assert(sat_mul(m, 60_000) == m * 60_000);
    assert(sat_mul(sec, 1000) == sec * 1000);
}

} // verus!
