//! The editing session's rules: the list of sections and which one is being
//! edited, which options a format allows, the hints shown beside them, and
//! what an export in progress reports.
use vstd::prelude::*;

use crate::adjustments::{
    PlaybackSpeed, Repeat, RepeatMode, repeat_output_ms, speed_output_ms,
};
use crate::media::Dimensions;
use crate::paths::{extension_of, file_stem_of, path_extension, path_file_stem};
use crate::profiles::{
    AudioEncoding, ContainerFormat, VideoEncoding, container_extension,
    container_matchings, encoder_choice, video_ffmpeg_encoders,
};
use crate::segments::{ClipRange, ClipSegment, SegmentExportMode, SegmentView, monus};
use crate::text::{
    chars_of, copy_range, decimal, decimal_string, find, find_exec, lemma_find_from_bounds,
    occurs_at, padded, padded_decimal, parse_u32, parse_u32_spec, replace, replace_exec,
    string_of,
};

verus! {

// ---------------------------------------------------------------------------
// Durations and placeholders
// ---------------------------------------------------------------------------

/// A length rounded up to whole seconds, as `m:ss`, or `h:mm:ss` from an
/// hour on.
pub open spec fn duration_text(ms: u64) -> Seq<char> {
    let t = (ms + 999) / 1000;
    let h = t / 3600;
    let m = (t / 60) % 60;
    let s = t % 60;
    if h > 0 {
        decimal(h as nat) + ":"@ + padded(m as nat, 2) + ":"@ + padded(s as nat, 2)
    } else {
        decimal(m as nat) + ":"@ + padded(s as nat, 2)
    }
}

pub fn format_duration_ms(ms: u64) -> (r: String)
    requires
        ms + 999 <= u64::MAX,
    ensures
        r@ == duration_text(ms),
{
    let total_seconds = (ms + 999) / 1000;
    let hours = total_seconds / 3600;
    let minutes = (total_seconds / 60) % 60;
    let seconds = total_seconds % 60;
    if hours > 0 {
        let mut s = decimal_string(hours);
        s.append(":");
        s.append(padded_decimal(minutes, 2).as_str());
        s.append(":");
        s.append(padded_decimal(seconds, 2).as_str());
        s
    } else {
        let mut s = decimal_string(minutes);
        s.append(":");
        s.append(padded_decimal(seconds, 2).as_str());
        s
    }
}

/// The template with its first `{}` replaced by `value` (`replacen(.., 1)`).
pub open spec fn fill_first(template: Seq<char>, value: Seq<char>) -> Seq<char> {
    match find(template, seq!['{', '}']) {
        Some(p) => template.take(p) + value + template.skip(p + 2),
        None => template,
    }
}

pub fn fill_placeholder(template: &str, value: &str) -> (r: String)
    ensures
        r@ == fill_first(template@, value@),
{
    let t = chars_of(template);
    let pat = vec!['{', '}'];
    assert(pat@ =~= seq!['{', '}']);
    match find_exec(&t, &pat) {
        Some(p) => {
            proof {
                lemma_find_from_bounds(t@, pat@, 0);
                assert(occurs_at(t@, pat@, p as int));
            }
            assert(p + 2 <= t.len());
            let head = copy_range(&t, 0, p);
            let tail = copy_range(&t, p + 2, t.len());
            let mut s = string_of(&head);
            s.append(value);
            s.append(string_of(&tail).as_str());
            assert(head@ =~= t@.take(p as int));
            assert(tail@ =~= t@.skip(p + 2));
            s
        },
        None => String::from_str(template),
    }
}

/// The template with every `{}` replaced by `value` (`replace`).
pub fn fill_every_placeholder(template: &str, value: &str) -> (r: String)
    ensures
        r@ == replace(template@, seq!['{', '}'], value@),
{
    let pat = vec!['{', '}'];
    assert(pat@ =~= seq!['{', '}']);
    let out = replace_exec(&chars_of(template), &pat, &chars_of(value));
    string_of(&out)
}

/// The name a section's source is shown by: its file name, or the whole
/// path where it has none.
pub open spec fn shown_name(source: Seq<char>) -> Seq<char> {
    match crate::paths::path_file_name(source) {
        Some(name) => name,
        None => source,
    }
}

/// The title of a section's row: its source's name and its number from one.
pub open spec fn section_title_spec(template: Seq<char>, name: Seq<char>, index: nat) -> Seq<char> {
    fill_first(fill_first(template, name), decimal(index + 1))
}

pub fn section_title(template: &str, segment: &ClipSegment, index: u64) -> (r: String)
    requires
        index < u64::MAX,
    ensures
        r@ == section_title_spec(
            template@,
            match crate::paths::path_file_name(segment.source@) {
                Some(name) => name,
                None => segment.source@,
            },
            index as nat,
        ),
{
    let named = fill_placeholder(template, segment.source_name());
    fill_placeholder(named.as_str(), decimal_string(index + 1).as_str())
}

/// The subtitle of a section's row: where it starts and ends and how long
/// it is.
pub open spec fn section_subtitle_spec(template: Seq<char>, range: ClipRange) -> Seq<char> {
    fill_first(
        fill_first(fill_first(template, duration_text(range.start_ms)), duration_text(range.end_ms)),
        duration_text(monus(range.end_ms, range.start_ms)),
    )
}

pub fn section_subtitle(template: &str, range: ClipRange) -> (r: String)
    requires
        range.start_ms + 999 <= u64::MAX,
        range.end_ms + 999 <= u64::MAX,
    ensures
        r@ == section_subtitle_spec(template@, range),
{
    let a = fill_placeholder(template, format_duration_ms(range.start_ms).as_str());
    let b = fill_placeholder(a.as_str(), format_duration_ms(range.end_ms).as_str());
    fill_placeholder(b.as_str(), format_duration_ms(range.duration_ms()).as_str())
}

/// A length hint: every `{}` of the template replaced by the length.
pub open spec fn length_hint_spec(template: Seq<char>, ms: u64) -> Seq<char> {
    replace(template, seq!['{', '}'], duration_text(ms))
}

/// A "Resulting length: {}" hint.
pub fn resulting_length(template: &str, ms: u64) -> (r: String)
    requires
        ms + 999 <= u64::MAX,
    ensures
        r@ == replace(template@, seq!['{', '}'], duration_text(ms)),
{
    fill_every_placeholder(template, format_duration_ms(ms).as_str())
}

/// What the finished export says: how many clips were saved in the folder,
/// or under which name the video was saved.
pub open spec fn saved_description_spec(template: Seq<char>, mode: SegmentExportMode, count: nat, name: Seq<char>) -> Seq<char> {
    match mode {
        SegmentExportMode::Separate => fill_first(fill_first(template, decimal(count)), name),
        SegmentExportMode::Join => replace(template, seq!['{', '}'], name),
    }
}

pub fn describe_saved(template: &str, mode: SegmentExportMode, count: u64, name: &str) -> (r: String)
    ensures
        r@ == saved_description_spec(template@, mode, count as nat, name@),
{
    match mode {
        SegmentExportMode::Separate => {
            let a = fill_placeholder(template, decimal_string(count).as_str());
            fill_placeholder(a.as_str(), name)
        },
        SegmentExportMode::Join => fill_every_placeholder(template, name),
    }
}

/// The untranslated message for a finished export.
pub open spec fn saved_msgid(mode: SegmentExportMode) -> Seq<char> {
    match mode {
        SegmentExportMode::Separate => "Saved {} clips in {}"@,
        SegmentExportMode::Join => "Saved as {}"@,
    }
}

/// The message for a finished export in `mode`, before translation; the
/// caller translates it and hands the text to `describe_saved`.
pub fn saved_message(mode: SegmentExportMode) -> (r: &'static str)
    ensures
        r@ == saved_msgid(mode),
{
    proof {
        reveal_strlit("Saved {} clips in {}");
        reveal_strlit("Saved as {}");
    }
    match mode {
        SegmentExportMode::Separate => "Saved {} clips in {}",
        SegmentExportMode::Join => "Saved as {}",
    }
}

// ---------------------------------------------------------------------------
// Sections
// ---------------------------------------------------------------------------

/// How long a section added at the playhead lasts, where the clip allows.
pub const DEFAULT_SECTION_MS: u64 = 5_000;

/// The sections being edited and which of them is active.
pub struct SectionsView {
    pub segments: Seq<SegmentView>,
    pub active: nat,
}

/// The active section exists whenever there is a section.
pub open spec fn sections_wf(v: SectionsView) -> bool {
    if v.segments.len() == 0 {
        v.active == 0
    } else {
        v.active < v.segments.len()
    }
}

/// The list of sections of an editing session.
pub struct SectionList {
    segments: Vec<ClipSegment>,
    active: usize,
}

pub open spec fn segment_views(s: Seq<ClipSegment>) -> Seq<SegmentView> {
    s.map_values(|c: ClipSegment| c@)
}

impl View for SectionList {
    type V = SectionsView;

    closed spec fn view(&self) -> SectionsView {
        SectionsView { segments: segment_views(self.segments@), active: self.active as nat }
    }
}

pub open spec fn normalized(start_ms: u64, end_ms: u64) -> ClipRange {
    ClipRange {
        start_ms: if start_ms <= end_ms {
            start_ms
        } else {
            end_ms
        },
        end_ms: if start_ms <= end_ms {
            end_ms
        } else {
            start_ms
        },
    }
}

/// One section covering the whole of a new source.
pub open spec fn reset_spec(source: Seq<char>, duration_ms: u64) -> SectionsView {
    SectionsView {
        segments: seq![SegmentView { source, range: normalized(0, duration_ms) }],
        active: 0,
    }
}

/// The active section's range replaced.
pub open spec fn update_spec(v: SectionsView, start_ms: u64, end_ms: u64) -> SectionsView {
    if v.active < v.segments.len() {
        SectionsView {
            segments: v.segments.update(
                v.active as int,
                SegmentView { source: v.segments[v.active as int].source, range: normalized(start_ms, end_ms) },
            ),
            active: v.active,
        }
    } else {
        v
    }
}

/// Where a section added at the playhead goes: from the playhead (held
/// within the clip) for the default length, or the clip's last default
/// length where the playhead is too close to the end.
pub open spec fn added_range(duration_ms: u64, position_ms: u64) -> (u64, u64) {
    let p = if position_ms <= duration_ms {
        position_ms
    } else {
        duration_ms
    };
    if p + DEFAULT_SECTION_MS <= duration_ms {
        (p, (p + DEFAULT_SECTION_MS) as u64)
    } else {
        (monus(duration_ms, DEFAULT_SECTION_MS), duration_ms)
    }
}

pub open spec fn first_source(v: SectionsView) -> Seq<char> {
    if v.segments.len() > 0 {
        v.segments[0].source
    } else {
        seq![]
    }
}

/// A section added at the playhead, from the first section's source, made
/// the active one; nothing happens where the format allows one section
/// only, or the clip has no length.
pub open spec fn add_spec(v: SectionsView, supported: bool, duration_ms: u64, position_ms: u64) -> SectionsView {
    if !supported || duration_ms == 0 {
        v
    } else {
        let (start, end) = added_range(duration_ms, position_ms);
        SectionsView {
            segments: v.segments.push(SegmentView { source: first_source(v), range: normalized(start, end) }),
            active: v.segments.len(),
        }
    }
}

/// The active section removed, unless it is the only one; the section that
/// took its place, or the new last one, becomes active.
pub open spec fn remove_spec(v: SectionsView) -> SectionsView {
    if v.segments.len() <= 1 {
        v
    } else {
        let rest = v.segments.remove(v.active as int);
        SectionsView {
            segments: rest,
            active: if v.active <= rest.len() - 1 {
                v.active
            } else {
                (rest.len() - 1) as nat
            },
        }
    }
}

/// The active section swapped with its neighbour `direction` places away,
/// staying active; nothing happens past either end.
pub open spec fn move_spec(v: SectionsView, direction: int) -> SectionsView {
    let target = v.active + direction;
    if target < 0 || target >= v.segments.len() {
        v
    } else {
        SectionsView {
            segments: v.segments.update(v.active as int, v.segments[target]).update(
                target,
                v.segments[v.active as int],
            ),
            active: target as nat,
        }
    }
}

/// Another section made active, if it exists.
pub open spec fn select_spec(v: SectionsView, index: nat) -> SectionsView {
    if index < v.segments.len() {
        SectionsView { segments: v.segments, active: index }
    } else {
        v
    }
}

/// A whole new source appended as a section.
pub open spec fn push_source_spec(v: SectionsView, source: Seq<char>, duration_ms: u64) -> SectionsView {
    SectionsView {
        segments: v.segments.push(SegmentView { source, range: normalized(0, duration_ms) }),
        active: v.active,
    }
}

impl SectionList {
    #[verifier::type_invariant]
    spec fn well_formed(self) -> bool {
        sections_wf(self@)
    }

    /// No sections yet.
    pub fn new() -> (r: Self)
        ensures
            r@.segments.len() == 0,
            r@.active == 0,
            sections_wf(r@),
    {
        SectionList { segments: Vec::new(), active: 0 }
    }

    pub fn len(&self) -> (r: usize)
        ensures
            r == self@.segments.len(),
    {
        self.segments.len()
    }

    pub fn active(&self) -> (r: usize)
        ensures
            r == self@.active,
            sections_wf(self@),
    {
        proof {
            use_type_invariant(self);
        }
        self.active
    }

    pub fn segments(&self) -> (r: &[ClipSegment])
        ensures
            segment_views(r@) == self@.segments,
    {
        self.segments.as_slice()
    }

    /// A copy of the sections, in order.
    pub fn to_vec(&self) -> (r: Vec<ClipSegment>)
        ensures
            segment_views(r@) == self@.segments,
    {
        let mut v: Vec<ClipSegment> = Vec::new();
        let mut i: usize = 0;
        while i < self.segments.len()
            invariant
                i <= self.segments.len(),
                segment_views(v@) == segment_views(self.segments@).take(i as int),
            decreases self.segments.len() - i,
        {
            let ghost before = v@;
            v.push(self.segments[i].duplicate());
            assert(segment_views(v@) =~= segment_views(before).push(self.segments@[i as int]@));
            assert(segment_views(self.segments@).take(i + 1) =~= segment_views(self.segments@).take(
                i as int,
            ).push(self.segments@[i as int]@));
            i = i + 1;
        }
        assert(segment_views(self.segments@).take(self.segments.len() as int) =~= segment_views(
            self.segments@,
        ));
        v
    }

    /// Starts over with one section covering a new source.
    pub fn reset(&mut self, source: &str, duration_ms: u64)
        ensures
            final(self)@ == reset_spec(source@, duration_ms),
            sections_wf(final(self)@),
    {
        let mut segments: Vec<ClipSegment> = Vec::new();
        segments.push(ClipSegment::new(source, 0, duration_ms));
        *self = SectionList { segments, active: 0 };
        assert(self@.segments =~= reset_spec(source@, duration_ms).segments);
    }

    /// Sets the active section's range.
    pub fn update_active(&mut self, start_ms: u64, end_ms: u64)
        ensures
            final(self)@ == update_spec(old(self)@, start_ms, end_ms),
            sections_wf(final(self)@),
    {
        proof {
            use_type_invariant(&*self);
        }
        let ghost before = self@;
        if self.active < self.segments.len() {
            let active = self.active;
            self.active = 0;
            let mut segments: Vec<ClipSegment> = Vec::new();
            std::mem::swap(&mut segments, &mut self.segments);
            let updated = ClipSegment {
                source: segments[active].source.clone(),
                range: ClipRange::new(start_ms, end_ms),
            };
            segments.set(active, updated);
            *self = SectionList { segments, active };
            assert(self@.segments =~= update_spec(before, start_ms, end_ms).segments);
        }
    }

    /// Adds a section at the playhead and makes it active; returns its
    /// index, or nothing where no section was added.
    pub fn add_at_playhead(&mut self, supported: bool, duration_ms: u64, position_ms: u64) -> (r: Option<usize>)
        requires
            duration_ms + DEFAULT_SECTION_MS <= u64::MAX,
        ensures
            final(self)@ == add_spec(old(self)@, supported, duration_ms, position_ms),
            sections_wf(final(self)@),
            r == (if !supported || duration_ms == 0 {
                None
            } else {
                Some(old(self)@.segments.len() as usize)
            }),
    {
        proof {
            use_type_invariant(&*self);
        }
        let ghost before = self@;
        if !supported || duration_ms == 0 {
            return None;
        }
        let position = if position_ms <= duration_ms {
            position_ms
        } else {
            duration_ms
        };
        let (start, end) = if position + DEFAULT_SECTION_MS <= duration_ms {
            (position, position + DEFAULT_SECTION_MS)
        } else {
            (duration_ms.saturating_sub(DEFAULT_SECTION_MS), duration_ms)
        };
        self.active = 0;
        let mut segments: Vec<ClipSegment> = Vec::new();
        std::mem::swap(&mut segments, &mut self.segments);
        let source = if segments.len() > 0 {
            segments[0].source.clone()
        } else {
            String::new()
        };
        assert(source@ == first_source(before));
        segments.push(ClipSegment::new(source.as_str(), start, end));
        let index = segments.len() - 1;
        *self = SectionList { segments, active: index };
        assert(self@.segments =~= add_spec(before, supported, duration_ms, position_ms).segments);
        Some(index)
    }

    /// Removes the active section unless it is the only one; returns the
    /// index that became active.
    pub fn remove_active(&mut self) -> (r: Option<usize>)
        ensures
            final(self)@ == remove_spec(old(self)@),
            sections_wf(final(self)@),
            r == (if old(self)@.segments.len() <= 1 {
                None
            } else {
                Some(final(self)@.active as usize)
            }),
    {
        proof {
            use_type_invariant(&*self);
        }
        let ghost before = self@;
        if self.segments.len() <= 1 {
            return None;
        }
        let index = self.active;
        self.active = 0;
        let mut segments: Vec<ClipSegment> = Vec::new();
        std::mem::swap(&mut segments, &mut self.segments);
        segments.remove(index);
        let last = segments.len() - 1;
        let next = if index <= last {
            index
        } else {
            last
        };
        *self = SectionList { segments, active: next };
        assert(self@.segments =~= remove_spec(before).segments);
        Some(next)
    }

    /// Swaps the active section with its neighbour `direction` places away;
    /// returns whether anything moved.
    pub fn move_active(&mut self, direction: isize) -> (r: bool)
        ensures
            final(self)@ == move_spec(old(self)@, direction as int),
            sections_wf(final(self)@),
            r == (0 <= old(self)@.active + direction < old(self)@.segments.len()),
    {
        proof {
            use_type_invariant(&*self);
        }
        let ghost before = self@;
        let target: i128 = self.active as i128 + direction as i128;
        if target < 0 || target >= self.segments.len() as i128 {
            return false;
        }
        let t = target as usize;
        let index = self.active;
        self.active = 0;
        let mut segments: Vec<ClipSegment> = Vec::new();
        std::mem::swap(&mut segments, &mut self.segments);
        let a = segments[index].duplicate();
        let b = segments[t].duplicate();
        segments.set(index, b);
        segments.set(t, a);
        *self = SectionList { segments, active: t };
        assert(self@.segments =~= move_spec(before, direction as int).segments);
        true
    }

    /// Makes the section at `index` active; returns whether it exists.
    pub fn select(&mut self, index: usize) -> (r: bool)
        ensures
            final(self)@ == select_spec(old(self)@, index as nat),
            sections_wf(final(self)@),
            r == (index < old(self)@.segments.len()),
    {
        proof {
            use_type_invariant(&*self);
        }
        if index < self.segments.len() {
            self.active = index;
            true
        } else {
            false
        }
    }

    /// Appends a whole new source as a section.
    pub fn push_source(&mut self, source: &str, duration_ms: u64)
        ensures
            final(self)@ == push_source_spec(old(self)@, source@, duration_ms),
            sections_wf(final(self)@),
    {
        proof {
            use_type_invariant(&*self);
        }
        let ghost before = self@;
        let active = self.active;
        self.active = 0;
        let mut segments: Vec<ClipSegment> = Vec::new();
        std::mem::swap(&mut segments, &mut self.segments);
        segments.push(ClipSegment::new(source, 0, duration_ms));
        *self = SectionList { segments, active };
        assert(self@.segments =~= push_source_spec(before, source@, duration_ms).segments);
    }
}

// ---------------------------------------------------------------------------
// What a container allows
// ---------------------------------------------------------------------------

/// Several sections, speed changes and the enhanced export need the ffmpeg
/// render path, which neither GIF nor "keep the source's container" takes.
pub open spec fn multi_sections_spec(c: ContainerFormat) -> bool {
    c != ContainerFormat::Same && c != ContainerFormat::GifContainer
}

pub fn multi_segments_supported(container: ContainerFormat) -> (r: bool)
    ensures
        r == multi_sections_spec(container),
{
    match container {
        ContainerFormat::Same | ContainerFormat::GifContainer => false,
        _ => true,
    }
}

/// Looping and bouncing are only offered for a single section on the
/// ffmpeg path.
pub fn repeat_is_supported(segment_count: usize, container: ContainerFormat) -> (r: bool)
    ensures
        r == (segment_count <= 1 && multi_sections_spec(container)),
{
    segment_count <= 1 && multi_segments_supported(container)
}

/// The repeat the export uses: off where repeating is not offered.
pub fn selected_repeat(supported: bool, mode_index: u32, count: u32) -> (r: Repeat)
    ensures
        r == (if supported {
            Repeat {
                mode: if mode_index < 3 {
                    crate::adjustments::all_repeat_modes()[mode_index as int]
                } else {
                    RepeatMode::Off
                },
                count,
            }
        } else {
            Repeat { mode: RepeatMode::Off, count: 1 }
        }),
{
    if !supported {
        Repeat { mode: RepeatMode::Off, count: 1 }
    } else {
        Repeat { mode: RepeatMode::from_index(mode_index), count }
    }
}

/// The cycle count offered when a repeat mode is picked: one bounce is
/// already there and back, while one loop would change nothing.
pub fn default_repeat_count(mode: RepeatMode) -> (r: u32)
    ensures
        r == (if mode == RepeatMode::Boomerang {
            1u32
        } else {
            2u32
        }),
{
    match mode {
        RepeatMode::Boomerang => 1,
        _ => 2,
    }
}

/// The speed the export uses: normal where speed changes are not offered.
pub fn selected_playback_speed(supported: bool, index: u32) -> (r: PlaybackSpeed)
    ensures
        r == (if supported {
            if index < 4 {
                crate::adjustments::all_speeds()[index as int]
            } else {
                PlaybackSpeed::Normal
            }
        } else {
            PlaybackSpeed::Normal
        }),
{
    if supported {
        PlaybackSpeed::from_index(index)
    } else {
        PlaybackSpeed::Normal
    }
}

/// A single section is always joined; with several, the chosen mode holds.
pub fn selected_segment_export_mode(segment_count: usize, mode_index: u32) -> (r: SegmentExportMode)
    ensures
        r == (if segment_count <= 1 {
            SegmentExportMode::Join
        } else if mode_index == 1 {
            SegmentExportMode::Separate
        } else {
            SegmentExportMode::Join
        }),
{
    if segment_count <= 1 {
        SegmentExportMode::Join
    } else {
        SegmentExportMode::from_index(mode_index)
    }
}

/// The container chosen in the list of all containers.
pub fn selected_container(index: u32) -> (r: ContainerFormat)
    requires
        index < 6,
    ensures
        r == crate::profiles::all_containers()[index as int],
{
    let all = ContainerFormat::get_all();
    all[index as usize]
}

/// The video codec chosen among those the container offers, if it offers
/// any.
pub fn selected_video_encoding(container: ContainerFormat, index: u32) -> (r: Option<VideoEncoding>)
    requires
        container_matchings(container).0.len() > 0 ==> index < container_matchings(container).0.len(),
    ensures
        r == (if container_matchings(container).0.len() == 0 {
            None
        } else {
            Some(container_matchings(container).0[index as int])
        }),
{
    let (video, _) = container.viable_matchings();
    if video.len() == 0 {
        None
    } else {
        Some(video[index as usize])
    }
}

/// The audio codec chosen among those the container offers, if it offers
/// any.
pub fn selected_audio_encoding(container: ContainerFormat, index: u32) -> (r: Option<AudioEncoding>)
    requires
        container_matchings(container).1.len() > 0 ==> index < container_matchings(container).1.len(),
    ensures
        r == (if container_matchings(container).1.len() == 0 {
            None
        } else {
            Some(container_matchings(container).1[index as int])
        }),
{
    let (_, audio) = container.viable_matchings();
    if audio.len() == 0 {
        None
    } else {
        Some(audio[index as usize])
    }
}

// ---------------------------------------------------------------------------
// Hints
// ---------------------------------------------------------------------------

/// What the speed row says.
#[derive(Debug, Clone, Copy, PartialEq, Eq, Structural)]
pub enum SpeedHint {
    /// Speed changes are not offered for the format.
    Unavailable,
    /// The normal speed is chosen.
    Describe,
    /// The export will last this long.
    ResultingLength(u64),
}

pub open spec fn speed_hint_spec(supported: bool, speed: PlaybackSpeed, source_ms: u64, repeat: Repeat) -> SpeedHint {
    if !supported {
        SpeedHint::Unavailable
    } else if speed == PlaybackSpeed::Normal {
        SpeedHint::Describe
    } else {
        SpeedHint::ResultingLength(repeat_output_ms(repeat, speed_output_ms(speed, source_ms)) as u64)
    }
}

pub fn speed_hint(supported: bool, speed: PlaybackSpeed, source_ms: u64, repeat: Repeat) -> (r: SpeedHint)
    requires
        repeat_output_ms(repeat, speed_output_ms(speed, source_ms)) <= u64::MAX,
    ensures
        r == speed_hint_spec(supported, speed, source_ms, repeat),
{
    if !supported {
        SpeedHint::Unavailable
    } else if speed.is_normal() {
        SpeedHint::Describe
    } else {
        let slowed = speed.output_duration_ms(source_ms);
        SpeedHint::ResultingLength(repeat.output_duration_ms(slowed))
    }
}

/// Why the repeat row is unavailable, if it is.
#[derive(Debug, Clone, Copy, PartialEq, Eq, Structural)]
pub enum RepeatHint {
    Available,
    MultipleSections,
    Container,
}

pub fn repeat_hint(supported: bool, segment_count: usize) -> (r: RepeatHint)
    ensures
        r == (if supported {
            RepeatHint::Available
        } else if segment_count > 1 {
            RepeatHint::MultipleSections
        } else {
            RepeatHint::Container
        }),
{
    if supported {
        RepeatHint::Available
    } else if segment_count > 1 {
        RepeatHint::MultipleSections
    } else {
        RepeatHint::Container
    }
}

/// How long a repeated selection will last, where a repeat is active: the
/// trimmed selection at the chosen speed, repeated.
pub open spec fn repeat_length_spec(
    supported: bool,
    repeat: Repeat,
    speed: PlaybackSpeed,
    inpoint_ms: u64,
    outpoint_ms: u64,
) -> Option<u64> {
    if supported && repeat.mode != RepeatMode::Off {
        Some(repeat_output_ms(repeat, speed_output_ms(speed, monus(outpoint_ms, inpoint_ms))) as u64)
    } else {
        None
    }
}

pub fn repeat_length(
    supported: bool,
    repeat: Repeat,
    speed: PlaybackSpeed,
    inpoint_ms: u64,
    outpoint_ms: u64,
) -> (r: Option<u64>)
    requires
        repeat_output_ms(repeat, speed_output_ms(speed, monus(outpoint_ms, inpoint_ms))) <= u64::MAX,
    ensures
        r == repeat_length_spec(supported, repeat, speed, inpoint_ms, outpoint_ms),
{
    let active = match repeat.mode {
        RepeatMode::Off => false,
        _ => supported,
    };
    if !active {
        return None;
    }
    let selection_ms = speed.output_duration_ms(outpoint_ms.saturating_sub(inpoint_ms));
    Some(repeat.output_duration_ms(selection_ms))
}

/// What is wrong with the sections, for the save button's tooltip.
#[derive(Debug, Clone, Copy, PartialEq, Eq, Structural)]
pub enum SaveProblem {
    /// Some section has no length.
    EmptySection,
    /// The format takes one section only.
    SingleSectionFormat,
}

/// Which controls of the sections panel are usable.
#[derive(Debug, Clone, Copy, PartialEq, Eq, Structural)]
pub struct SectionsUi {
    pub can_remove: bool,
    pub can_move_up: bool,
    pub can_move_down: bool,
    pub show_export_mode: bool,
    pub can_add: bool,
    pub can_save: bool,
    pub save_problem: Option<SaveProblem>,
    /// The save button saves several clips rather than one video.
    pub saves_clips: bool,
}

pub open spec fn all_have_length(segments: Seq<SegmentView>) -> bool {
    forall|i: int| 0 <= i < segments.len() ==> monus(
        (#[trigger] segments[i]).range.end_ms,
        segments[i].range.start_ms,
    ) > 0
}

pub open spec fn sections_ui_spec(v: SectionsView, supported: bool, mode_index: u32) -> SectionsUi {
    let multiple = v.segments.len() > 1;
    let valid = all_have_length(v.segments);
    let ok = valid && (!multiple || supported);
    SectionsUi {
        can_remove: multiple,
        can_move_up: multiple && v.active > 0,
        can_move_down: multiple && v.active + 1 < v.segments.len(),
        show_export_mode: multiple,
        can_add: supported,
        can_save: ok,
        save_problem: if ok {
            None
        } else if !valid {
            Some(SaveProblem::EmptySection)
        } else {
            Some(SaveProblem::SingleSectionFormat)
        },
        saves_clips: multiple && mode_index == 1,
    }
}

/// The summed length of the sections.
pub open spec fn sections_total(segments: Seq<SegmentView>) -> int
    decreases segments.len(),
{
    if segments.len() == 0 {
        0
    } else {
        sections_total(segments.drop_last()) + monus(
            segments.last().range.end_ms,
            segments.last().range.start_ms,
        )
    }
}

proof fn lemma_sections_total(s: Seq<ClipSegment>)
    ensures
        sections_total(segment_views(s)) == crate::ffmpeg::total_duration(s),
    decreases s.len(),
{
    if s.len() > 0 {
        lemma_sections_total(s.drop_last());
        assert(segment_views(s).drop_last() =~= segment_views(s.drop_last()));
    }
}

impl SectionList {
    /// Which controls of the sections panel are usable, for a format that
    /// does (`supported`) or does not take several sections.
    pub fn ui_state(&self, supported: bool, mode_index: u32) -> (r: SectionsUi)
        ensures
            r == sections_ui_spec(self@, supported, mode_index),
    {
        proof {
            use_type_invariant(self);
        }
        let n = self.segments.len();
        let multiple = n > 1;
        let mut valid = true;
        let mut i: usize = 0;
        while i < n
            invariant
                i <= n,
                n == self.segments.len(),
                valid == (forall|j: int| 0 <= j < i ==> monus(
                    (#[trigger] segment_views(self.segments@)[j]).range.end_ms,
                    segment_views(self.segments@)[j].range.start_ms,
                ) > 0),
            decreases n - i,
        {
            assert(segment_views(self.segments@)[i as int] == self.segments@[i as int]@);
            if self.segments[i].duration_ms() == 0 {
                valid = false;
            }
            i = i + 1;
        }
        let ok = valid && (!multiple || supported);
        let active = self.active;
        SectionsUi {
            can_remove: multiple,
            can_move_up: multiple && active > 0,
            can_move_down: multiple && active.saturating_add(1) < n,
            show_export_mode: multiple,
            can_add: supported,
            can_save: ok,
            save_problem: if ok {
                None
            } else if !valid {
                Some(SaveProblem::EmptySection)
            } else {
                Some(SaveProblem::SingleSectionFormat)
            },
            saves_clips: multiple && mode_index == 1,
        }
    }

    /// The section the preview shows: the active one, held within the list.
    pub fn preview_index(&self) -> (r: usize)
        ensures
            r == (if self@.active < self@.segments.len() {
                self@.active as int
            } else {
                monus(self@.segments.len() as u64, 1) as int
            }),
    {
        let last = self.segments.len().saturating_sub(1);
        if self.active < self.segments.len() {
            self.active
        } else {
            last
        }
    }

    /// The summed length of the sections.
    pub fn total_duration_ms(&self) -> (r: u64)
        requires
            sections_total(self@.segments) <= u64::MAX,
        ensures
            r == sections_total(self@.segments),
    {
        proof {
            lemma_sections_total(self.segments@);
        }
        let r = crate::ffmpeg::duration_before(self.segments.as_slice(), self.segments.len());
        assert(self.segments@.take(self.segments@.len() as int) =~= self.segments@);
        r
    }
}

/// Whether the enhanced export can be chosen, whether it stays on, and
/// whether the resize controls are usable.
#[derive(Debug, Clone, Copy, PartialEq, Eq, Structural)]
pub struct EnhanceUi {
    pub enhance_sensitive: bool,
    pub enhance_active: bool,
    pub resize_sensitive: bool,
}

/// The enhanced export is switched off where the format cannot take it,
/// and while it is on it sets the size.
pub fn enhance_ui(supported: bool, enhance_active: bool) -> (r: EnhanceUi)
    ensures
        r == (EnhanceUi {
            enhance_sensitive: supported,
            enhance_active: supported && enhance_active,
            resize_sensitive: !(supported && enhance_active),
        }),
{
    let active = supported && enhance_active;
    EnhanceUi { enhance_sensitive: supported, enhance_active: active, resize_sensitive: !active }
}

// ---------------------------------------------------------------------------
// The encoder row
// ---------------------------------------------------------------------------

/// What the GPU switch says.
#[derive(Debug, Clone, Copy, PartialEq, Eq, Structural)]
pub enum GpuHint {
    /// The codec has no hardware encoder.
    Unsupported,
    /// The codec has one, but this machine cannot use it.
    NotFound,
    Available,
}

/// The state of the encoder rows.
pub struct EncoderStatus {
    pub gpu_sensitive: bool,
    pub gpu_active: bool,
    pub hint: GpuHint,
    /// Whether the export will encode on the GPU.
    pub hardware_active: bool,
    pub label: String,
}

/// The hardware encoder that would be used, if any: the ffmpeg one on the
/// ffmpeg path, the GStreamer one (where its element is present) otherwise.
pub open spec fn hardware_name_spec(v: VideoEncoding, ffmpeg_path: bool, hardware_usable: bool) -> Option<Seq<char>> {
    if ffmpeg_path {
        video_ffmpeg_encoders(v).1
    } else if encoder_choice(v, true, hardware_usable).1 {
        Some(encoder_choice(v, true, hardware_usable).0)
    } else {
        None
    }
}

pub open spec fn hardware_available_spec(v: VideoEncoding, ffmpeg_path: bool, hardware_usable: bool) -> bool {
    if ffmpeg_path {
        video_ffmpeg_encoders(v).1 is Some && hardware_usable
    } else {
        encoder_choice(v, true, hardware_usable).1
    }
}

pub open spec fn encoder_label_spec(v: VideoEncoding, ffmpeg_path: bool, hardware_usable: bool, gpu_preference: bool) -> Seq<char> {
    if hardware_available_spec(v, ffmpeg_path, hardware_usable) && gpu_preference {
        "GPU · NVENC ("@ + hardware_name_spec(v, ffmpeg_path, hardware_usable)->0 + ")"@
    } else if ffmpeg_path {
        "CPU · "@ + video_ffmpeg_encoders(v).0 + " (software)"@
    } else {
        "CPU · "@ + encoder_choice(v, false, false).0 + " (software)"@
    }
}

/// The encoder rows for a codec. `hardware_usable` says whether the
/// hardware encoder of the path in use works here: on the ffmpeg path
/// whether ffmpeg's can encode, otherwise whether GStreamer has its element.
pub fn encoder_status(
    video: VideoEncoding,
    ffmpeg_path: bool,
    hardware_usable: bool,
    gpu_preference: bool,
) -> (r: EncoderStatus)
    ensures
        r.gpu_sensitive == hardware_available_spec(video, ffmpeg_path, hardware_usable),
        r.gpu_active == (hardware_available_spec(video, ffmpeg_path, hardware_usable) && gpu_preference),
        r.hardware_active == r.gpu_active,
        r.hint == (match hardware_name_spec(video, ffmpeg_path, hardware_usable) {
            None => GpuHint::Unsupported,
            Some(_) => if hardware_available_spec(video, ffmpeg_path, hardware_usable) {
                GpuHint::Available
            } else {
                GpuHint::NotFound
            },
        }),
        r.label@ == encoder_label_spec(video, ffmpeg_path, hardware_usable, gpu_preference),
{
    let (software, ffmpeg_hardware) = video.ffmpeg_encoders();
    let (hardware_name, available): (Option<&'static str>, bool) = if ffmpeg_path {
        (ffmpeg_hardware, ffmpeg_hardware.is_some() && hardware_usable)
    } else {
        let resolved = video.choose_encoder(true, hardware_usable);
        (if resolved.hardware {
            Some(resolved.element)
        } else {
            None
        }, resolved.hardware)
    };
    let active = available && gpu_preference;
    let hint = match hardware_name {
        None => GpuHint::Unsupported,
        Some(_) => if available {
            GpuHint::Available
        } else {
            GpuHint::NotFound
        },
    };
    let label = if active {
        let name = match hardware_name {
            Some(n) => n,
            None => "",
        };
        let mut s = String::from_str("GPU · NVENC (");
        s.append(name);
        s.append(")");
        s
    } else if ffmpeg_path {
        let mut s = String::from_str("CPU · ");
        s.append(software);
        s.append(" (software)");
        s
    } else {
        video.choose_encoder(false, false).label()
    };
    EncoderStatus { gpu_sensitive: available, gpu_active: active, hint, hardware_active: active, label }
}

/// The icon of the encoder row.
pub fn encoder_icon(hardware_active: bool) -> (r: &'static str)
    ensures
        r@ == (if hardware_active {
            "power-profile-performance-symbolic"@
        } else {
            "power-profile-power-saver-symbolic"@
        }),
{
    if hardware_active {
        "power-profile-performance-symbolic"
    } else {
        "power-profile-power-saver-symbolic"
    }
}

// ---------------------------------------------------------------------------
// Output size and name
// ---------------------------------------------------------------------------

/// How the output size is asked for.
#[derive(Debug, Clone, Copy, PartialEq, Eq, Structural)]
pub enum ResizeRequest {
    /// Twice the selected size.
    Enhance,
    /// A percentage of the selected size on each axis.
    Percent { width: u32, height: u32 },
    /// An exact size.
    Exact { width: u32, height: u32 },
}

/// Down to an even number, as encoders need.
pub open spec fn even(x: int) -> int {
    x / 2 * 2
}

pub open spec fn scaled_size_spec(request: ResizeRequest, selected: Dimensions) -> (int, int) {
    match request {
        ResizeRequest::Enhance => (
            even(if selected.width * 2 <= u32::MAX {
                selected.width * 2
            } else {
                u32::MAX as int
            }),
            even(if selected.height * 2 <= u32::MAX {
                selected.height * 2
            } else {
                u32::MAX as int
            }),
        ),
        ResizeRequest::Percent { width, height } => (
            even(selected.width * width / 100),
            even(selected.height * height / 100),
        ),
        ResizeRequest::Exact { width, height } => (even(width as int), even(height as int)),
    }
}

pub fn scaled_size(request: ResizeRequest, selected: Dimensions) -> (r: Dimensions)
    requires
        request matches ResizeRequest::Percent { width, height } ==> selected.width * width
            <= u32::MAX && selected.height * height <= u32::MAX,
    ensures
        (r.width as int, r.height as int) == scaled_size_spec(request, selected),
{
    match request {
        ResizeRequest::Enhance => {
            let w: u32 = if selected.width <= u32::MAX / 2 {
                selected.width * 2
            } else {
                u32::MAX
            };
            let h: u32 = if selected.height <= u32::MAX / 2 {
                selected.height * 2
            } else {
                u32::MAX
            };
            Dimensions { width: w / 2 * 2, height: h / 2 * 2 }
        },
        ResizeRequest::Percent { width, height } => Dimensions {
            width: selected.width * width / 100 / 2 * 2,
            height: selected.height * height / 100 / 2 * 2,
        },
        ResizeRequest::Exact { width, height } => Dimensions {
            width: width / 2 * 2,
            height: height / 2 * 2,
        },
    }
}

/// Reads a size or percentage typed into a field.
pub fn parse_size_field(text: &str) -> (r: Option<u32>)
    ensures
        r == parse_u32_spec(text@),
{
    parse_u32(&chars_of(text))
}

/// Whether one linked field should copy the other's new text: when it
/// differs and is not empty.
pub fn should_mirror(current: &str, new_text: &str) -> (r: bool)
    ensures
        r == (current@ != new_text@ && new_text@.len() > 0),
{
    let a = String::from_str(current);
    let b = String::from_str(new_text);
    let differs = !(a == b);
    differs && chars_of(new_text).len() > 0
}

/// The new text of one of the two linked size fields after the other one
/// changed to `changed`. `back` is the size that this field's own text gives
/// the other field, `forward` the size that `changed` gives this one, each
/// kept in the source's proportions. Nothing changes while `changed` is
/// empty or already agrees with this field, nor where the new text would
/// repeat this field's text or read 0.
pub open spec fn linked_size_spec(own: Seq<char>, changed: Seq<char>, back: nat, forward: nat) -> Option<Seq<char>> {
    if changed.len() == 0 || decimal(back) == changed {
        None
    } else if own != decimal(forward) && forward != 0 {
        Some(decimal(forward))
    } else {
        None
    }
}

pub fn linked_size_text(own: &str, changed: &str, back: u32, forward: u32) -> (r: Option<String>)
    ensures
        match r {
            Some(t) => linked_size_spec(own@, changed@, back as nat, forward as nat) == Some(t@),
            None => linked_size_spec(own@, changed@, back as nat, forward as nat) is None,
        },
{
    if chars_of(changed).len() == 0 {
        return None;
    }
    let back_text = decimal_string(back as u64);
    let changed_text = String::from_str(changed);
    if back_text == changed_text {
        return None;
    }
    let new_value = decimal_string(forward as u64);
    let own_text = String::from_str(own);
    if !(new_value == own_text) && forward != 0 {
        Some(new_value)
    } else {
        None
    }
}

/// The name offered for a saved video: the source's stem with the output
/// container's extension, or the source's own extension where the container
/// is kept.
pub open spec fn suggested_name_spec(input: Seq<char>, container: ContainerFormat) -> Seq<char> {
    path_file_stem(input)->0 + "."@ + (if container == ContainerFormat::Same {
        path_extension(input)->0
    } else {
        container_extension(container)
    })
}

/// The suggested name, or nothing where the source has no stem, or the
/// container is kept and the source has no extension.
pub fn suggested_file_name(input_path: &str, container: ContainerFormat) -> (r: Option<String>)
    ensures
        match r {
            Some(name) => path_file_stem(input_path@) is Some && (container == ContainerFormat::Same
                ==> path_extension(input_path@) is Some) && name@ == suggested_name_spec(
                input_path@,
                container,
            ),
            None => path_file_stem(input_path@) is None || (container == ContainerFormat::Same
                && path_extension(input_path@) is None),
        },
{
    let stem = match file_stem_of(input_path) {
        Some(s) => s,
        None => {
            return None;
        },
    };
    let mut s = String::from_str(stem);
    s.append(".");
    match container {
        ContainerFormat::Same => {
            let ext = match extension_of(input_path) {
                Some(e) => e,
                None => {
                    return None;
                },
            };
            s.append(ext);
        },
        _ => {
            s.append(container.extension());
        },
    }
    Some(s)
}

// ---------------------------------------------------------------------------
// An export in progress
// ---------------------------------------------------------------------------

/// What the exporter reports.
#[derive(Debug, Clone, Copy, PartialEq, Eq, Structural)]
pub enum ExportEvent {
    /// `done` of `total` milliseconds of material; `done == total` means
    /// finished.
    Progress { done: u64, total: u64 },
    Failed,
}

/// What the window does with a report.
#[derive(Debug, Clone, Copy, PartialEq, Eq, Structural)]
pub enum ExportAction {
    /// Show the success page and stop listening.
    Finish,
    /// Show the failure page and stop listening; `clear_running` says
    /// whether the export is also marked as no longer running.
    Fail { clear_running: bool },
    /// Show `done / total` on the progress bar.
    Show { done: u64, total: u64 },
}

pub open spec fn export_step_spec(most_done: u64, running: bool, event: ExportEvent) -> (ExportAction, u64) {
    if !running {
        (ExportAction::Fail { clear_running: false }, most_done)
    } else {
        match event {
            ExportEvent::Progress { done, total } => if done == total {
                (ExportAction::Finish, most_done)
            } else {
                let m = if done >= most_done {
                    done
                } else {
                    most_done
                };
                (ExportAction::Show { done: m, total }, m)
            },
            ExportEvent::Failed => (ExportAction::Fail { clear_running: true }, most_done),
        }
    }
}

/// One step of following an export: a cancelled export fails at the next
/// report, a report of the total finishes it, a failure fails it, and any
/// other report moves the bar, which never goes back.
pub fn export_step(most_done: u64, running: bool, event: ExportEvent) -> (r: (ExportAction, u64))
    ensures
        r == export_step_spec(most_done, running, event),
{
    if !running {
        return (ExportAction::Fail { clear_running: false }, most_done);
    }
    match event {
        ExportEvent::Progress { done, total } => if done == total {
            (ExportAction::Finish, most_done)
        } else {
            let m = if done >= most_done {
                done
            } else {
                most_done
            };
            (ExportAction::Show { done: m, total }, m)
        },
        ExportEvent::Failed => (ExportAction::Fail { clear_running: true }, most_done),
    }
}

/// The progress bar never moves back, and a stage's report (held below the
/// total) never finishes the export.
pub proof fn law_progress_is_monotone(most_done: u64, done: u64, total: u64)
    requires
        total > 0,
    ensures
        ({
            let (d, t) = crate::ffmpeg::stage_report_spec(done, total);
            let (action, m) = export_step_spec(most_done, true, ExportEvent::Progress { done: d, total: t });
            &&& action != ExportAction::Finish
            &&& m >= most_done
            &&& action == (ExportAction::Show { done: m, total })
        }),
{
}

// ---------------------------------------------------------------------------
// The preview
// ---------------------------------------------------------------------------

/// The source position of a frame shown at `pts` in the whole sequence,
/// when it falls in the active section (which starts at `offset` in the
/// sequence and is trimmed to `inpoint..outpoint`).
pub open spec fn preview_position_spec(pts: u64, offset: u64, inpoint: u64, outpoint: u64) -> Option<u64> {
    let span = monus(outpoint, inpoint);
    let end = if offset + span <= u64::MAX {
        (offset + span) as u64
    } else {
        u64::MAX
    };
    if offset <= pts && pts <= end {
        Some((pts - offset + inpoint) as u64)
    } else {
        None
    }
}

pub fn preview_position(pts: u64, offset: u64, inpoint: u64, outpoint: u64) -> (r: Option<u64>)
    ensures
        r == preview_position_spec(pts, offset, inpoint, outpoint),
{
    let active_end = offset.saturating_add(outpoint.saturating_sub(inpoint));
    if pts >= offset && pts <= active_end {
        let into = pts - offset;
        assert(into + inpoint <= u64::MAX) by {
            if outpoint >= inpoint {
                assert(into <= outpoint - inpoint || offset + (outpoint - inpoint) > u64::MAX);
            }
        }
        Some(into + inpoint)
    } else {
        None
    }
}

/// The lengths summed, saturating at `u64::MAX`.
pub open spec fn saturating_total(d: Seq<u64>) -> u64
    decreases d.len(),
{
    if d.len() == 0 {
        0
    } else {
        let t = saturating_total(d.drop_last()) + d.last();
        if t <= u64::MAX {
            t as u64
        } else {
            u64::MAX
        }
    }
}

/// Where each section's clip starts in the preview's sequence: after all
/// the clips before it.
pub fn sequence_starts(durations: &Vec<u64>) -> (r: Vec<u64>)
    ensures
        r.len() == durations.len(),
        forall|i: int| 0 <= i < r.len() ==> #[trigger] r@[i] == saturating_total(durations@.take(i)),
{
    let mut r: Vec<u64> = Vec::new();
    let mut offset: u64 = 0;
    let mut i: usize = 0;
    assert(durations@.take(0) =~= Seq::<u64>::empty());
    while i < durations.len()
        invariant
            i <= durations.len(),
            r.len() == i,
            offset == saturating_total(durations@.take(i as int)),
            forall|j: int| 0 <= j < i ==> #[trigger] r@[j] == saturating_total(durations@.take(j)),
        decreases durations.len() - i,
    {
        r.push(offset);
        assert(durations@.take(i + 1).drop_last() =~= durations@.take(i as int));
        offset = offset.saturating_add(durations[i]);
        i = i + 1;
    }
    r
}

/// How the preview takes new colour correction.
#[derive(Debug, Clone, Copy, PartialEq, Eq, Structural)]
pub enum EffectsChange {
    /// Nothing changes shape and all is neutral: nothing to do.
    Nothing,
    /// The effects in place take the new values.
    Update,
    /// An effect appears or disappears: the pipeline is built again.
    Rebuild,
}

/// Effects cannot be inserted reliably into a running pipeline, so it is
/// rebuilt exactly when an effect has to appear or disappear.
pub fn effects_change(
    needs_colour: bool,
    has_colour: bool,
    needs_sharpness: bool,
    has_sharpness: bool,
    neutral: bool,
) -> (r: EffectsChange)
    ensures
        r == (if needs_colour != has_colour || needs_sharpness != has_sharpness {
            EffectsChange::Rebuild
        } else if neutral {
            EffectsChange::Nothing
        } else {
            EffectsChange::Update
        }),
{
    if needs_colour != has_colour || needs_sharpness != has_sharpness {
        EffectsChange::Rebuild
    } else if neutral {
        EffectsChange::Nothing
    } else {
        EffectsChange::Update
    }
}

/// Where a rebuilt preview resumes: the source position it had (the start
/// where it had none), held at the section's end.
pub fn resume_position(pipeline_ms: Option<u64>, inpoint: u64, outpoint: u64) -> (r: u64)
    ensures
        r == ({
            let p = match pipeline_ms {
                Some(x) => x as int,
                None => 0,
            };
            let s = if p + inpoint <= u64::MAX {
                p + inpoint
            } else {
                u64::MAX as int
            };
            if s <= outpoint {
                s
            } else {
                outpoint as int
            }
        }),
{
    let p = match pipeline_ms {
        Some(x) => x,
        None => 0,
    };
    let s = p.saturating_add(inpoint);
    if s <= outpoint {
        s
    } else {
        outpoint
    }
}

/// What the preview does with a frame: tell the window once that it is
/// ready, and, while playing, where the playhead is.
pub struct PreviewTick {
    pub announce_ready: bool,
    pub position: Option<u64>,
}

pub fn preview_tick(
    sent_ready: bool,
    playing: bool,
    pts: u64,
    offset: u64,
    inpoint: u64,
    outpoint: u64,
) -> (r: PreviewTick)
    ensures
        r.announce_ready == !sent_ready,
        r.position == (if playing {
            preview_position_spec(pts, offset, inpoint, outpoint)
        } else {
            None
        }),
{
    PreviewTick {
        announce_ready: !sent_ready,
        position: if playing {
            preview_position(pts, offset, inpoint, outpoint)
        } else {
            None
        },
    }
}

/// Where a seek to the source position `position` lands in the trimmed
/// section, and whether it is the section's end.
pub fn seek_in_section(position: u64, inpoint: u64, outpoint: u64) -> (r: (u64, bool))
    ensures
        r == (monus(
            if position >= inpoint {
                position
            } else {
                inpoint
            },
            inpoint,
        ), position == outpoint),
{
    let clamped = if position >= inpoint {
        position
    } else {
        inpoint
    };
    (clamped - inpoint, position == outpoint)
}


// ---------------------------------------------------------------------------
// Messages
// ---------------------------------------------------------------------------

impl SpeedHint {
    /// The untranslated message of the speed row.
    pub fn msgid(&self) -> (r: &'static str)
        ensures
            r@ == match *self {
                SpeedHint::Unavailable => "Not available for this container format"@,
                SpeedHint::Describe => "Change video and audio speed"@,
                SpeedHint::ResultingLength(_) => "Resulting length: {}"@,
            },
    {
        match self {
            SpeedHint::Unavailable => "Not available for this container format",
            SpeedHint::Describe => "Change video and audio speed",
            SpeedHint::ResultingLength(_) => "Resulting length: {}",
        }
    }
}

impl RepeatHint {
    /// The untranslated message of the repeat row; none while repeating is
    /// available.
    pub fn msgid(&self) -> (r: Option<&'static str>)
        ensures
            match *self {
                RepeatHint::Available => r is None,
                RepeatHint::MultipleSections => r matches Some(m) && m@
                    == "Not available with multiple sections"@,
                RepeatHint::Container => r matches Some(m) && m@
                    == "Not available for this container format"@,
            },
    {
        match self {
            RepeatHint::Available => None,
            RepeatHint::MultipleSections => Some("Not available with multiple sections"),
            RepeatHint::Container => Some("Not available for this container format"),
        }
    }
}

impl GpuHint {
    /// The untranslated message of the GPU switch.
    pub fn msgid(&self) -> (r: &'static str)
        ensures
            r@ == match *self {
                GpuHint::Unsupported => "Not supported by the selected video codec"@,
                GpuHint::NotFound => "No compatible hardware encoder was found"@,
                GpuHint::Available => "Use the available hardware encoder"@,
            },
    {
        match self {
            GpuHint::Unsupported => "Not supported by the selected video codec",
            GpuHint::NotFound => "No compatible hardware encoder was found",
            GpuHint::Available => "Use the available hardware encoder",
        }
    }
}

impl SaveProblem {
    /// The untranslated tooltip of the save button.
    pub fn msgid(&self) -> (r: &'static str)
        ensures
            r@ == match *self {
                SaveProblem::EmptySection => "Every section must have a duration"@,
                SaveProblem::SingleSectionFormat => "Choose a container format that supports multiple sections"@,
            },
    {
        match self {
            SaveProblem::EmptySection => "Every section must have a duration",
            SaveProblem::SingleSectionFormat => "Choose a container format that supports multiple sections",
        }
    }
}

impl SectionsUi {
    /// The untranslated label of the save button.
    pub fn save_label_msgid(&self) -> (r: &'static str)
        ensures
            r@ == (if self.saves_clips {
                "Save Clips"@
            } else {
                "Save Video"@
            }),
    {
        if self.saves_clips {
            "Save Clips"
        } else {
            "Save Video"
        }
    }

    /// The untranslated tooltip of the add button.
    pub fn add_tooltip_msgid(&self) -> (r: &'static str)
        ensures
            r@ == (if self.can_add {
                "Add Section at Playhead"@
            } else {
                "Multiple sections are not available for this container format"@
            }),
    {
        if self.can_add {
            "Add Section at Playhead"
        } else {
            "Multiple sections are not available for this container format"
        }
    }
}

impl EnhanceUi {
    /// The untranslated subtitle of the enhanced-export switch.
    pub fn enhance_msgid(&self) -> (r: &'static str)
        ensures
            r@ == (if self.enhance_sensitive {
                "Export at 2× with high-quality upscaling"@
            } else {
                "Choose MP4, WebM or Matroska in Export"@
            }),
    {
        if self.enhance_sensitive {
            "Export at 2× with high-quality upscaling"
        } else {
            "Choose MP4, WebM or Matroska in Export"
        }
    }

    /// The untranslated subtitle of the resize row; none while it is usable.
    pub fn resize_msgid(&self) -> (r: Option<&'static str>)
        ensures
            match r {
                Some(m) => self.enhance_active && m@ == "Controlled by Improve Quality · 200%"@,
                None => !self.enhance_active,
            },
    {
        if self.enhance_active {
            Some("Controlled by Improve Quality · 200%")
        } else {
            None
        }
    }
}

/// The message of a section row's title, before translation; its
/// translation goes to `section_title`.
pub fn section_title_message() -> (r: &'static str)
    ensures
        r@ == "{} · Section {}"@,
{
    "{} · Section {}"
}

/// The message of a section row's subtitle, before translation; its
/// translation goes to `section_subtitle`.
pub fn section_subtitle_message() -> (r: &'static str)
    ensures
        r@ == "{} – {} · {}"@,
{
    "{} – {} · {}"
}

/// The message of the "Resulting length" hint, before translation; its
/// translation goes to `resulting_length`.
pub fn resulting_length_message() -> (r: &'static str)
    ensures
        r@ == "Resulting length: {}"@,
{
    "Resulting length: {}"
}

// ---------------------------------------------------------------------------
// Laws of the section list
// ---------------------------------------------------------------------------

/// Every edit keeps the active index on an existing section, and a list
/// that has sections never loses its last one.
pub proof fn law_edits_keep_sections_valid(
    v: SectionsView,
    source: Seq<char>,
    start_ms: u64,
    end_ms: u64,
    supported: bool,
    duration_ms: u64,
    position_ms: u64,
    direction: int,
    index: nat,
)
    requires
        sections_wf(v),
    ensures
        sections_wf(reset_spec(source, duration_ms)),
        sections_wf(update_spec(v, start_ms, end_ms)),
        sections_wf(add_spec(v, supported, duration_ms, position_ms)),
        sections_wf(remove_spec(v)),
        sections_wf(move_spec(v, direction)),
        sections_wf(select_spec(v, index)),
        sections_wf(push_source_spec(v, source, duration_ms)),
        v.segments.len() >= 1 ==> remove_spec(v).segments.len() >= 1,
{
}

/// Moving the active section to another place and then moving it back
/// restores the list.
pub proof fn law_move_back_restores(v: SectionsView, direction: int)
    requires
        sections_wf(v),
        0 <= v.active + direction < v.segments.len(),
    ensures
        move_spec(move_spec(v, direction), -direction) == v,
{
    let w = move_spec(v, direction);
    let a = v.active as int;
    let t = v.active + direction;
    assert(w.active == t);
    assert(w.segments[a] == v.segments[t]);
    assert(w.segments[t] == v.segments[a]);
    let u = move_spec(w, -direction);
    assert(u.active == v.active);
    assert(u.segments =~= v.segments);
}

/// A section added at the playhead lies within the clip, lasts the default
/// length or the whole clip where that is shorter, and is the active one.
pub proof fn law_added_section_fits(v: SectionsView, duration_ms: u64, position_ms: u64)
    requires
        sections_wf(v),
        duration_ms > 0,
        duration_ms + DEFAULT_SECTION_MS <= u64::MAX,
    ensures
        ({
            let w = add_spec(v, true, duration_ms, position_ms);
            let r = w.segments[w.active as int].range;
            &&& w.segments.len() == v.segments.len() + 1
            &&& w.active == v.segments.len()
            &&& r.start_ms <= r.end_ms <= duration_ms
            &&& r.end_ms - r.start_ms == (if duration_ms < DEFAULT_SECTION_MS {
                duration_ms
            } else {
                DEFAULT_SECTION_MS
            })
        }),
{
}

/// Removing a section keeps the others in their order.
pub proof fn law_remove_keeps_order(v: SectionsView)
    requires
        sections_wf(v),
        v.segments.len() > 1,
    ensures
        remove_spec(v).segments.len() == v.segments.len() - 1,
        forall|i: int|
            0 <= i < v.active ==> #[trigger] remove_spec(v).segments[i] == v.segments[i],
        forall|i: int|
            v.active <= i < v.segments.len() - 1 ==> #[trigger] remove_spec(v).segments[i]
                == v.segments[i + 1],
{
}

} // verus!
