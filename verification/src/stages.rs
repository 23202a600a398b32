//! The order of an export's ffmpeg stages, decided one outcome at a time.
//!
//! Each flow is a state and a step function: the driver performs the action
//! that a step returns (runs one ffmpeg stage, writes a concat list, reports
//! the end) and hands back how it ended. The stages' progress slices, the
//! retry of a failed stream-copy join, the fallback from a stream copy to a
//! render and the one final report are all decided here.
use vstd::prelude::*;

use crate::adjustments::{PlaybackSpeed, Repeat, RepeatMode, repeat_cycles, speed_output_ms};
use crate::ffmpeg::{PassPlan, copy_needs_join};
use crate::segments::{ClipSegment, SegmentExportMode, monus};

verus! {

/// How the stage that an action asked for ended. Writing a list ends
/// `Done` or `Failed`.
#[derive(Debug, Clone, Copy, PartialEq, Eq, Structural)]
pub enum StageEvent {
    Done,
    Cancelled,
    Failed,
}

/// What the driver does next. A stage's progress is reported within
/// `[base_ms, base_ms + span_ms]` of the export's total.
#[derive(Debug, Clone, Copy, PartialEq, Eq, Structural)]
pub enum StageAction {
    /// Render section `index` to its part.
    RenderSection { index: u64, base_ms: u64, span_ms: u64 },
    /// Copy the streams of section `index` to its part.
    CopySection { index: u64, base_ms: u64, span_ms: u64 },
    /// Write the concat list of the parts made so far.
    WriteList,
    /// Join the listed parts into the output by copying their streams.
    JoinCopy { base_ms: u64, span_ms: u64 },
    /// Join the listed parts into the output by encoding them again.
    JoinEncode { base_ms: u64, span_ms: u64 },
    /// Render the selection forwards.
    RenderForward { span_ms: u64 },
    /// Render reversed chunk `index` of the forward render.
    RenderReversed { index: u64, base_ms: u64, span_ms: u64 },
    /// Give the stream copy up and render the same sections instead.
    RenderInstead,
    /// Report the end of the export: success, or failure or cancellation.
    Finish { ok: bool },
}

/// The summed spans.
pub open spec fn span_sum(spans: Seq<u64>) -> int
    decreases spans.len(),
{
    if spans.len() == 0 {
        0
    } else {
        span_sum(spans.drop_last()) + spans.last()
    }
}

proof fn lemma_span_sum_prefix(spans: Seq<u64>, i: int)
    requires
        0 <= i < spans.len(),
    ensures
        span_sum(spans.take(i + 1)) == span_sum(spans.take(i)) + spans[i],
        0 <= span_sum(spans.take(i)),
        span_sum(spans.take(i + 1)) <= span_sum(spans),
    decreases spans.len(),
{
    assert(spans.take(i + 1).drop_last() =~= spans.take(i));
    lemma_span_sum_nonneg(spans.take(i));
    if i + 1 < spans.len() {
        lemma_span_sum_prefix(spans.drop_last(), i);
        assert(spans.drop_last().take(i + 1) =~= spans.take(i + 1));
        assert(spans.drop_last().take(i) =~= spans.take(i));
    } else {
        assert(spans.take(i + 1) =~= spans);
    }
}

proof fn lemma_span_sum_nonneg(spans: Seq<u64>)
    ensures
        span_sum(spans) >= 0,
    decreases spans.len(),
{
    if spans.len() > 0 {
        lemma_span_sum_nonneg(spans.drop_last());
    }
}

/// The rendered length of each section at `speed`, in order.
pub fn section_spans(speed: PlaybackSpeed, segments: &[ClipSegment]) -> (r: Vec<u64>)
    ensures
        r@.len() == segments@.len(),
        forall|i: int|
            0 <= i < r@.len() ==> #[trigger] r@[i] == speed_output_ms(
                speed,
                monus(segments@[i].range.end_ms, segments@[i].range.start_ms),
            ),
{
    let mut r: Vec<u64> = Vec::new();
    let mut i: usize = 0;
    while i < segments.len()
        invariant
            i <= segments@.len(),
            r@.len() == i,
            forall|k: int|
                0 <= k < i ==> #[trigger] r@[k] == speed_output_ms(
                    speed,
                    monus(segments@[k].range.end_ms, segments@[k].range.start_ms),
                ),
        decreases segments@.len() - i,
    {
        r.push(speed.output_duration_ms(segments[i].duration_ms()));
        i = i + 1;
    }
    r
}

/// The length of each section, in order.
pub fn section_lengths(segments: &[ClipSegment]) -> (r: Vec<u64>)
    ensures
        r@.len() == segments@.len(),
        forall|i: int|
            0 <= i < r@.len() ==> #[trigger] r@[i] == monus(
                segments@[i].range.end_ms,
                segments@[i].range.start_ms,
            ),
{
    let mut r: Vec<u64> = Vec::new();
    let mut i: usize = 0;
    while i < segments.len()
        invariant
            i <= segments@.len(),
            r@.len() == i,
            forall|k: int|
                0 <= k < i ==> #[trigger] r@[k] == monus(
                    segments@[k].range.end_ms,
                    segments@[k].range.start_ms,
                ),
        decreases segments@.len() - i,
    {
        r.push(segments[i].duration_ms());
        i = i + 1;
    }
    r
}

/// Whether `start` plus the spans can be summed in milliseconds.
fn sum_fits_from(start: u64, spans: &Vec<u64>) -> (r: bool)
    ensures
        r == (start + span_sum(spans@) <= u64::MAX),
{
    let mut sum: u64 = start;
    let mut i: usize = 0;
    while i < spans.len()
        invariant
            i <= spans@.len(),
            sum == start + span_sum(spans@.take(i as int)),
        decreases spans@.len() - i,
    {
        proof {
            lemma_span_sum_prefix(spans@, i as int);
        }
        match sum.checked_add(spans[i]) {
            Some(next) => sum = next,
            None => {
                proof {
                    lemma_span_sum_prefix(spans@, i as int);
                }
                return false;
            },
        }
        i = i + 1;
    }
    assert(spans@.take(spans@.len() as int) =~= spans@);
    true
}

/// Whether a sections render or a stream copy can run over these spans:
/// there is a section, and the spans sum in milliseconds.
pub fn sections_spans_fit(spans: &Vec<u64>) -> (r: bool)
    ensures
        r == sections_spans_ok(spans@),
{
    let n = spans.len();
    n > 0 && (n as u64) < u64::MAX && sum_fits_from(0, spans)
}

/// Whether a single-selection render can run with these reversed chunks:
/// the forward pass and the chunks sum in milliseconds.
pub fn single_inputs_fit(plan: &PassPlan, chunk_spans: &Vec<u64>) -> (r: bool)
    ensures
        r == single_inputs_ok(*plan, chunk_spans@),
{
    (chunk_spans.len() as u64) < u64::MAX && sum_fits_from(plan.selection_ms, chunk_spans)
}

// ---------------------------------------------------------------------------
// Rendering sections
// ---------------------------------------------------------------------------

/// Where a sections render stands. `done_ms` is the progress that the
/// sections rendered so far account for.
#[derive(Debug, Clone, Copy, PartialEq, Eq, Structural)]
pub enum SectionsState {
    /// Section `index` is being rendered.
    Rendering { index: u64, done_ms: u64 },
    /// The parts' concat list is being written.
    WritingList { done_ms: u64 },
    /// The parts are being joined by copying.
    JoiningCopy { done_ms: u64 },
    /// The parts are being joined by encoding, after the copy failed.
    JoiningEncode { done_ms: u64 },
    Finished,
}

/// A state that a sections render over `spans` can be in: a section that
/// exists, with every section before it accounted for, or a join after all
/// of them.
pub open spec fn sections_state_ok(spans: Seq<u64>, s: SectionsState) -> bool {
    match s {
        SectionsState::Rendering { index, done_ms } => index < spans.len() && done_ms == span_sum(
            spans.take(index as int),
        ),
        SectionsState::WritingList { done_ms } => done_ms == span_sum(spans),
        SectionsState::JoiningCopy { done_ms } => done_ms == span_sum(spans),
        SectionsState::JoiningEncode { done_ms } => done_ms == span_sum(spans),
        SectionsState::Finished => true,
    }
}

/// What a sections render needs of its sections: at least one, and a total
/// that fits.
pub open spec fn sections_spans_ok(spans: Seq<u64>) -> bool {
    0 < spans.len() < u64::MAX && span_sum(spans) <= u64::MAX
}

/// The first section is rendered first, from no progress.
pub open spec fn sections_start_spec(spans: Seq<u64>) -> (SectionsState, StageAction) {
    (
        SectionsState::Rendering { index: 0, done_ms: 0 },
        StageAction::RenderSection { index: 0, base_ms: 0, span_ms: spans[0] },
    )
}

/// Each rendered section adds its span to the progress; after the last, the
/// parts are done when kept apart, else listed and joined by copying, and
/// joined by encoding where the copy failed. A section or list that does
/// not end `Done`, or a join that is cancelled, ends the export with an
/// error.
pub open spec fn sections_step_spec(
    mode: SegmentExportMode,
    spans: Seq<u64>,
    concat_ms: u64,
    s: SectionsState,
    ev: StageEvent,
) -> (SectionsState, StageAction) {
    let fail = (SectionsState::Finished, StageAction::Finish { ok: false });
    let success = (SectionsState::Finished, StageAction::Finish { ok: true });
    match s {
        SectionsState::Rendering { index, done_ms } => if ev == StageEvent::Done {
            let done = (done_ms + spans[index as int]) as u64;
            if index + 1 < spans.len() {
                let next = (index + 1) as u64;
                (
                    SectionsState::Rendering { index: next, done_ms: done },
                    StageAction::RenderSection {
                        index: next,
                        base_ms: done,
                        span_ms: spans[next as int],
                    },
                )
            } else if mode == SegmentExportMode::Separate {
                success
            } else {
                (SectionsState::WritingList { done_ms: done }, StageAction::WriteList)
            }
        } else {
            fail
        },
        SectionsState::WritingList { done_ms } => if ev == StageEvent::Done {
            (
                SectionsState::JoiningCopy { done_ms },
                StageAction::JoinCopy { base_ms: done_ms, span_ms: concat_ms },
            )
        } else {
            fail
        },
        SectionsState::JoiningCopy { done_ms } => match ev {
            StageEvent::Done => success,
            StageEvent::Failed => (
                SectionsState::JoiningEncode { done_ms },
                StageAction::JoinEncode { base_ms: done_ms, span_ms: concat_ms },
            ),
            StageEvent::Cancelled => fail,
        },
        SectionsState::JoiningEncode { .. } => if ev == StageEvent::Done {
            success
        } else {
            fail
        },
        SectionsState::Finished => fail,
    }
}

pub fn sections_export_start(spans: &Vec<u64>) -> (r: (SectionsState, StageAction))
    requires
        sections_spans_ok(spans@),
    ensures
        r == sections_start_spec(spans@),
        sections_state_ok(spans@, r.0),
{
    assert(spans@.take(0) =~= Seq::<u64>::empty());
    (
        SectionsState::Rendering { index: 0, done_ms: 0 },
        StageAction::RenderSection { index: 0, base_ms: 0, span_ms: spans[0] },
    )
}

pub fn sections_export_step(
    mode: SegmentExportMode,
    spans: &Vec<u64>,
    concat_ms: u64,
    s: SectionsState,
    ev: StageEvent,
) -> (r: (SectionsState, StageAction))
    requires
        sections_spans_ok(spans@),
        sections_state_ok(spans@, s),
        s != SectionsState::Finished,
    ensures
        r == sections_step_spec(mode, spans@, concat_ms, s, ev),
        sections_state_ok(spans@, r.0),
{
    let fail = (SectionsState::Finished, StageAction::Finish { ok: false });
    let success = (SectionsState::Finished, StageAction::Finish { ok: true });
    match s {
        SectionsState::Rendering { index, done_ms } => {
            if ev != StageEvent::Done {
                return fail;
            }
            proof {
                lemma_span_sum_prefix(spans@, index as int);
                assert(done_ms + spans@[index as int] <= span_sum(spans@));
            }
            let n = spans.len();
            let at = index as usize;
            let done = done_ms + spans[at];
            if index + 1 < n as u64 {
                let next = index + 1;
                (
                    SectionsState::Rendering { index: next, done_ms: done },
                    StageAction::RenderSection {
                        index: next,
                        base_ms: done,
                        span_ms: spans[next as usize],
                    },
                )
            } else {
                assert(spans@.take(index + 1) =~= spans@);
                match mode {
                    SegmentExportMode::Separate => success,
                    SegmentExportMode::Join => (
                        SectionsState::WritingList { done_ms: done },
                        StageAction::WriteList,
                    ),
                }
            }
        },
        SectionsState::WritingList { done_ms } => if ev == StageEvent::Done {
            (
                SectionsState::JoiningCopy { done_ms },
                StageAction::JoinCopy { base_ms: done_ms, span_ms: concat_ms },
            )
        } else {
            fail
        },
        SectionsState::JoiningCopy { done_ms } => match ev {
            StageEvent::Done => success,
            StageEvent::Failed => (
                SectionsState::JoiningEncode { done_ms },
                StageAction::JoinEncode { base_ms: done_ms, span_ms: concat_ms },
            ),
            StageEvent::Cancelled => fail,
        },
        SectionsState::JoiningEncode { .. } => if ev == StageEvent::Done {
            success
        } else {
            fail
        },
        SectionsState::Finished => fail,
    }
}

// ---------------------------------------------------------------------------
// Copying sections
// ---------------------------------------------------------------------------

/// Where a stream copy stands. `done_ms` is the length of the sections
/// copied so far.
#[derive(Debug, Clone, Copy, PartialEq, Eq, Structural)]
pub enum CopyState {
    /// Section `index` is being copied.
    Copying { index: u64, done_ms: u64 },
    /// The parts' concat list is being written.
    WritingList { done_ms: u64 },
    /// The parts are being joined.
    Joining { done_ms: u64 },
    Finished,
}

pub open spec fn copy_state_ok(lengths: Seq<u64>, s: CopyState) -> bool {
    match s {
        CopyState::Copying { index, done_ms } => index < lengths.len() && done_ms == span_sum(
            lengths.take(index as int),
        ),
        CopyState::WritingList { done_ms } => done_ms == span_sum(lengths),
        CopyState::Joining { done_ms } => done_ms == span_sum(lengths),
        CopyState::Finished => true,
    }
}

/// The first section is copied first.
pub open spec fn copy_start_spec(lengths: Seq<u64>) -> (CopyState, StageAction) {
    (
        CopyState::Copying { index: 0, done_ms: 0 },
        StageAction::CopySection { index: 0, base_ms: 0, span_ms: lengths[0] },
    )
}

/// Each copied section adds its length to the progress; after the last, the
/// parts are done when kept apart or when the one part went straight to the
/// output, else listed and joined, the join taking the last millisecond of
/// the progress. Whatever fails — a copy, the list, the join — gives the
/// copy up for a render; a cancelled stage ends the export with an error.
pub open spec fn copy_step_spec(
    mode: SegmentExportMode,
    lengths: Seq<u64>,
    s: CopyState,
    ev: StageEvent,
) -> (CopyState, StageAction) {
    let fail = (CopyState::Finished, StageAction::Finish { ok: false });
    let success = (CopyState::Finished, StageAction::Finish { ok: true });
    let fallback = (CopyState::Finished, StageAction::RenderInstead);
    match s {
        CopyState::Copying { index, done_ms } => match ev {
            StageEvent::Done => {
                let done = (done_ms + lengths[index as int]) as u64;
                if index + 1 < lengths.len() {
                    let next = (index + 1) as u64;
                    (
                        CopyState::Copying { index: next, done_ms: done },
                        StageAction::CopySection {
                            index: next,
                            base_ms: done,
                            span_ms: lengths[next as int],
                        },
                    )
                } else if mode == SegmentExportMode::Join && lengths.len() != 1 {
                    (CopyState::WritingList { done_ms: done }, StageAction::WriteList)
                } else {
                    success
                }
            },
            StageEvent::Cancelled => fail,
            StageEvent::Failed => fallback,
        },
        CopyState::WritingList { done_ms } => match ev {
            StageEvent::Done => (
                CopyState::Joining { done_ms },
                StageAction::JoinCopy { base_ms: monus(done_ms, 1), span_ms: 1 },
            ),
            StageEvent::Cancelled => fail,
            StageEvent::Failed => fallback,
        },
        CopyState::Joining { .. } => match ev {
            StageEvent::Done => success,
            StageEvent::Cancelled => fail,
            StageEvent::Failed => fallback,
        },
        CopyState::Finished => fail,
    }
}

pub fn copy_export_start(lengths: &Vec<u64>) -> (r: (CopyState, StageAction))
    requires
        sections_spans_ok(lengths@),
    ensures
        r == copy_start_spec(lengths@),
        copy_state_ok(lengths@, r.0),
{
    assert(lengths@.take(0) =~= Seq::<u64>::empty());
    (
        CopyState::Copying { index: 0, done_ms: 0 },
        StageAction::CopySection { index: 0, base_ms: 0, span_ms: lengths[0] },
    )
}

pub fn copy_export_step(
    mode: SegmentExportMode,
    lengths: &Vec<u64>,
    s: CopyState,
    ev: StageEvent,
) -> (r: (CopyState, StageAction))
    requires
        sections_spans_ok(lengths@),
        copy_state_ok(lengths@, s),
        s != CopyState::Finished,
    ensures
        r == copy_step_spec(mode, lengths@, s, ev),
        copy_state_ok(lengths@, r.0),
{
    let fail = (CopyState::Finished, StageAction::Finish { ok: false });
    let success = (CopyState::Finished, StageAction::Finish { ok: true });
    let fallback = (CopyState::Finished, StageAction::RenderInstead);
    match s {
        CopyState::Copying { index, done_ms } => match ev {
            StageEvent::Done => {
                proof {
                    lemma_span_sum_prefix(lengths@, index as int);
                }
                let n = lengths.len();
                let at = index as usize;
                let done = done_ms + lengths[at];
                if index + 1 < n as u64 {
                    let next = index + 1;
                    (
                        CopyState::Copying { index: next, done_ms: done },
                        StageAction::CopySection {
                            index: next,
                            base_ms: done,
                            span_ms: lengths[next as usize],
                        },
                    )
                } else {
                    assert(lengths@.take(index + 1) =~= lengths@);
                    if copy_needs_join(mode, n) {
                        (CopyState::WritingList { done_ms: done }, StageAction::WriteList)
                    } else {
                        success
                    }
                }
            },
            StageEvent::Cancelled => fail,
            StageEvent::Failed => fallback,
        },
        CopyState::WritingList { done_ms } => match ev {
            StageEvent::Done => (
                CopyState::Joining { done_ms },
                StageAction::JoinCopy { base_ms: done_ms.saturating_sub(1), span_ms: 1 },
            ),
            StageEvent::Cancelled => fail,
            StageEvent::Failed => fallback,
        },
        CopyState::Joining { .. } => match ev {
            StageEvent::Done => success,
            StageEvent::Cancelled => fail,
            StageEvent::Failed => fallback,
        },
        CopyState::Finished => fail,
    }
}

// ---------------------------------------------------------------------------
// Rendering one selection
// ---------------------------------------------------------------------------

/// Where a single-selection render stands. `done_ms` is the progress of the
/// passes rendered so far.
#[derive(Debug, Clone, Copy, PartialEq, Eq, Structural)]
pub enum SingleState {
    /// The selection is being rendered forwards.
    Forward,
    /// Reversed chunk `index` is being rendered.
    Reversing { index: u64, done_ms: u64 },
    /// The cycles' concat list is being written.
    WritingList { done_ms: u64 },
    /// The cycles are being joined by copying.
    JoiningCopy { done_ms: u64 },
    /// The cycles are being joined by encoding, after the copy failed.
    JoiningEncode { done_ms: u64 },
    Finished,
}

/// Whether the reversed chunks are rendered: when bouncing, and there are
/// chunks.
pub open spec fn single_reverses(repeat: Repeat, chunk_spans: Seq<u64>) -> bool {
    repeat.mode == RepeatMode::Boomerang && chunk_spans.len() > 0
}

/// The progress that the passes before the join account for.
pub open spec fn single_join_base(selection_ms: u64, repeat: Repeat, chunk_spans: Seq<u64>) -> int {
    selection_ms + if single_reverses(repeat, chunk_spans) {
        span_sum(chunk_spans)
    } else {
        0
    }
}

/// Whether the joined output's length, every cycle at twice the selection,
/// can be measured in milliseconds.
pub open spec fn single_output_fits(selection_ms: u64, repeat: Repeat) -> bool {
    selection_ms * 2 <= u64::MAX && selection_ms * 2 * repeat_cycles(repeat) <= u64::MAX
}

/// The length of the joined output of a repeated render, which the join
/// measures its progress against; nothing where it does not fit in
/// milliseconds (the render then ends before its join).
pub fn joined_output_ms(repeat: Repeat, selection_ms: u64) -> (r: Option<u64>)
    ensures
        r is Some <==> single_output_fits(selection_ms, repeat),
        r matches Some(v) ==> v == crate::adjustments::repeat_output_ms(repeat, selection_ms),
{
    let fits = match selection_ms.checked_mul(2) {
        Some(twice) => twice.checked_mul(repeat.cycles() as u64).is_some(),
        None => false,
    };
    if !fits {
        return None;
    }
    proof {
        let c = repeat_cycles(repeat) as int;
        let s = selection_ms as int;
        assert(s * 2 * c >= s * c && s * c >= s && s * 2 * c >= s * 2) by (nonlinear_arith)
            requires
                c >= 1,
                s >= 0,
        ;
    }
    Some(repeat.output_duration_ms(selection_ms))
}

pub open spec fn single_inputs_ok(plan: PassPlan, chunk_spans: Seq<u64>) -> bool {
    chunk_spans.len() < u64::MAX && plan.selection_ms + span_sum(chunk_spans) <= u64::MAX
}

pub open spec fn single_state_ok(plan: PassPlan, repeat: Repeat, chunk_spans: Seq<u64>, s: SingleState) -> bool {
    match s {
        SingleState::Forward => true,
        SingleState::Reversing { index, done_ms } => single_reverses(repeat, chunk_spans) && index
            < chunk_spans.len() && done_ms == plan.selection_ms + span_sum(
            chunk_spans.take(index as int),
        ),
        SingleState::WritingList { done_ms } => done_ms == single_join_base(
            plan.selection_ms,
            repeat,
            chunk_spans,
        ),
        SingleState::JoiningCopy { done_ms } => done_ms == single_join_base(
            plan.selection_ms,
            repeat,
            chunk_spans,
        ),
        SingleState::JoiningEncode { done_ms } => done_ms == single_join_base(
            plan.selection_ms,
            repeat,
            chunk_spans,
        ),
        SingleState::Finished => true,
    }
}

/// The forward render comes first and takes the selection's share.
pub open spec fn single_start_spec(plan: PassPlan) -> (SingleState, StageAction) {
    (SingleState::Forward, StageAction::RenderForward { span_ms: plan.selection_ms })
}

/// Without repetition the forward render is the output. Otherwise a bounce
/// renders the reversed chunks in order, each adding its span; then the
/// cycles are listed and joined by copying, by encoding where the copy
/// failed, the join taking what is left of the total. A pass or list that
/// does not end `Done`, an output too long to measure, or a cancelled join
/// ends the export with an error.
pub open spec fn single_step_spec(
    plan: PassPlan,
    repeat: Repeat,
    chunk_spans: Seq<u64>,
    s: SingleState,
    ev: StageEvent,
) -> (SingleState, StageAction) {
    let fail = (SingleState::Finished, StageAction::Finish { ok: false });
    let success = (SingleState::Finished, StageAction::Finish { ok: true });
    match s {
        SingleState::Forward => if ev == StageEvent::Done {
            if crate::adjustments::repeat_is_off(repeat) {
                success
            } else if single_reverses(repeat, chunk_spans) {
                (
                    SingleState::Reversing { index: 0, done_ms: plan.selection_ms },
                    StageAction::RenderReversed {
                        index: 0,
                        base_ms: plan.selection_ms,
                        span_ms: chunk_spans[0],
                    },
                )
            } else {
                (SingleState::WritingList { done_ms: plan.selection_ms }, StageAction::WriteList)
            }
        } else {
            fail
        },
        SingleState::Reversing { index, done_ms } => if ev == StageEvent::Done {
            let done = (done_ms + chunk_spans[index as int]) as u64;
            if index + 1 < chunk_spans.len() {
                let next = (index + 1) as u64;
                (
                    SingleState::Reversing { index: next, done_ms: done },
                    StageAction::RenderReversed {
                        index: next,
                        base_ms: done,
                        span_ms: chunk_spans[next as int],
                    },
                )
            } else {
                (SingleState::WritingList { done_ms: done }, StageAction::WriteList)
            }
        } else {
            fail
        },
        SingleState::WritingList { done_ms } => if ev == StageEvent::Done && single_output_fits(
            plan.selection_ms,
            repeat,
        ) {
            (
                SingleState::JoiningCopy { done_ms },
                StageAction::JoinCopy { base_ms: done_ms, span_ms: monus(plan.total_ms, done_ms) },
            )
        } else {
            fail
        },
        SingleState::JoiningCopy { done_ms } => match ev {
            StageEvent::Done => success,
            StageEvent::Failed => (
                SingleState::JoiningEncode { done_ms },
                StageAction::JoinEncode {
                    base_ms: done_ms,
                    span_ms: monus(plan.total_ms, done_ms),
                },
            ),
            StageEvent::Cancelled => fail,
        },
        SingleState::JoiningEncode { .. } => if ev == StageEvent::Done {
            success
        } else {
            fail
        },
        SingleState::Finished => fail,
    }
}

pub fn single_export_start(plan: &PassPlan) -> (r: (SingleState, StageAction))
    ensures
        r == single_start_spec(*plan),
{
    (SingleState::Forward, StageAction::RenderForward { span_ms: plan.selection_ms })
}

pub fn single_export_step(
    plan: &PassPlan,
    repeat: Repeat,
    chunk_spans: &Vec<u64>,
    s: SingleState,
    ev: StageEvent,
) -> (r: (SingleState, StageAction))
    requires
        single_inputs_ok(*plan, chunk_spans@),
        single_state_ok(*plan, repeat, chunk_spans@, s),
        s != SingleState::Finished,
    ensures
        r == single_step_spec(*plan, repeat, chunk_spans@, s, ev),
        single_state_ok(*plan, repeat, chunk_spans@, r.0),
{
    let fail = (SingleState::Finished, StageAction::Finish { ok: false });
    let success = (SingleState::Finished, StageAction::Finish { ok: true });
    let n = chunk_spans.len();
    match s {
        SingleState::Forward => {
            if ev != StageEvent::Done {
                return fail;
            }
            proof {
                lemma_span_sum_nonneg(chunk_spans@);
            }
            if repeat.is_off() {
                success
            } else if repeat.is_boomerang() && n > 0 {
                assert(chunk_spans@.take(0) =~= Seq::<u64>::empty());
                (
                    SingleState::Reversing { index: 0, done_ms: plan.selection_ms },
                    StageAction::RenderReversed {
                        index: 0,
                        base_ms: plan.selection_ms,
                        span_ms: chunk_spans[0],
                    },
                )
            } else {
                (SingleState::WritingList { done_ms: plan.selection_ms }, StageAction::WriteList)
            }
        },
        SingleState::Reversing { index, done_ms } => {
            if ev != StageEvent::Done {
                return fail;
            }
            proof {
                lemma_span_sum_prefix(chunk_spans@, index as int);
            }
            let at = index as usize;
            let done = done_ms + chunk_spans[at];
            if index + 1 < n as u64 {
                let next = index + 1;
                (
                    SingleState::Reversing { index: next, done_ms: done },
                    StageAction::RenderReversed {
                        index: next,
                        base_ms: done,
                        span_ms: chunk_spans[next as usize],
                    },
                )
            } else {
                assert(chunk_spans@.take(index + 1) =~= chunk_spans@);
                (SingleState::WritingList { done_ms: done }, StageAction::WriteList)
            }
        },
        SingleState::WritingList { done_ms } => {
            let fits = match plan.selection_ms.checked_mul(2) {
                Some(twice) => twice.checked_mul(repeat.cycles() as u64).is_some(),
                None => false,
            };
            if ev == StageEvent::Done && fits {
                (
                    SingleState::JoiningCopy { done_ms },
                    StageAction::JoinCopy {
                        base_ms: done_ms,
                        span_ms: plan.total_ms.saturating_sub(done_ms),
                    },
                )
            } else {
                fail
            }
        },
        SingleState::JoiningCopy { done_ms } => match ev {
            StageEvent::Done => success,
            StageEvent::Failed => (
                SingleState::JoiningEncode { done_ms },
                StageAction::JoinEncode {
                    base_ms: done_ms,
                    span_ms: plan.total_ms.saturating_sub(done_ms),
                },
            ),
            StageEvent::Cancelled => fail,
        },
        SingleState::JoiningEncode { .. } => if ev == StageEvent::Done {
            success
        } else {
            fail
        },
        SingleState::Finished => fail,
    }
}

// ---------------------------------------------------------------------------
// Laws of the flows
// ---------------------------------------------------------------------------

/// How many more steps a sections render can take from `s`.
pub open spec fn sections_steps_left(spans: Seq<u64>, s: SectionsState) -> int {
    match s {
        SectionsState::Rendering { index, .. } => spans.len() - index + 3,
        SectionsState::WritingList { .. } => 3,
        SectionsState::JoiningCopy { .. } => 2,
        SectionsState::JoiningEncode { .. } => 1,
        SectionsState::Finished => 0,
    }
}

/// How many more steps a stream copy can take from `s`.
pub open spec fn copy_steps_left(lengths: Seq<u64>, s: CopyState) -> int {
    match s {
        CopyState::Copying { index, .. } => lengths.len() - index + 2,
        CopyState::WritingList { .. } => 2,
        CopyState::Joining { .. } => 1,
        CopyState::Finished => 0,
    }
}

/// How many more steps a single-selection render can take from `s`.
pub open spec fn single_steps_left(chunk_spans: Seq<u64>, s: SingleState) -> int {
    match s {
        SingleState::Forward => chunk_spans.len() + 4int,
        SingleState::Reversing { index, .. } => chunk_spans.len() - index + 3,
        SingleState::WritingList { .. } => 3,
        SingleState::JoiningCopy { .. } => 2,
        SingleState::JoiningEncode { .. } => 1,
        SingleState::Finished => 0,
    }
}

/// The progress slice that an action reports into starts here, where it
/// reports at all.
pub open spec fn action_base(a: StageAction) -> Option<u64> {
    match a {
        StageAction::RenderSection { base_ms, .. } => Some(base_ms),
        StageAction::CopySection { base_ms, .. } => Some(base_ms),
        StageAction::JoinCopy { base_ms, .. } => Some(base_ms),
        StageAction::JoinEncode { base_ms, .. } => Some(base_ms),
        StageAction::RenderForward { .. } => Some(0),
        StageAction::RenderReversed { base_ms, .. } => Some(base_ms),
        _ => None,
    }
}

pub open spec fn sections_done(s: SectionsState) -> int {
    match s {
        SectionsState::Rendering { done_ms, .. } => done_ms as int,
        SectionsState::WritingList { done_ms } => done_ms as int,
        SectionsState::JoiningCopy { done_ms } => done_ms as int,
        SectionsState::JoiningEncode { done_ms } => done_ms as int,
        SectionsState::Finished => 0,
    }
}

pub open spec fn copy_done(s: CopyState) -> int {
    match s {
        CopyState::Copying { done_ms, .. } => done_ms as int,
        CopyState::WritingList { done_ms } => done_ms as int,
        CopyState::Joining { done_ms } => done_ms as int,
        CopyState::Finished => 0,
    }
}

pub open spec fn single_done(s: SingleState) -> int {
    match s {
        SingleState::Forward => 0,
        SingleState::Reversing { done_ms, .. } => done_ms as int,
        SingleState::WritingList { done_ms } => done_ms as int,
        SingleState::JoiningCopy { done_ms } => done_ms as int,
        SingleState::JoiningEncode { done_ms } => done_ms as int,
        SingleState::Finished => 0,
    }
}

/// A sections render reports its end exactly once: it starts with a stage,
/// and every step either ends it, with the one `Finish`, or moves to a
/// later stage, so that the end comes after at most the number of sections
/// plus three steps, whatever the stages report.
pub proof fn law_sections_end_once(
    mode: SegmentExportMode,
    spans: Seq<u64>,
    concat_ms: u64,
    s: SectionsState,
    ev: StageEvent,
)
    requires
        sections_spans_ok(spans),
        sections_state_ok(spans, s),
        s != SectionsState::Finished,
    ensures
        !(sections_start_spec(spans).1 is Finish),
        sections_state_ok(spans, sections_start_spec(spans).0),
        sections_steps_left(spans, sections_start_spec(spans).0) == spans.len() + 3,
        ({
            let (t, a) = sections_step_spec(mode, spans, concat_ms, s, ev);
            &&& (t == SectionsState::Finished) == (a is Finish)
            &&& sections_state_ok(spans, t)
            &&& 0 <= sections_steps_left(spans, t) < sections_steps_left(spans, s)
        }),
{
    assert(spans.take(0) =~= Seq::<u64>::empty());
    if let SectionsState::Rendering { index, .. } = s {
        lemma_span_sum_prefix(spans, index as int);
        if index + 1 == spans.len() {
            assert(spans.take(index + 1) =~= spans);
        }
    }
}

/// A sections render succeeds only on a stage that ended `Done`: the last
/// section when the parts are kept apart, or a join; a section that fails
/// or is cancelled ends the render with an error, and the list is written
/// only once every section is accounted for.
pub proof fn law_sections_success_needs_done(
    mode: SegmentExportMode,
    spans: Seq<u64>,
    concat_ms: u64,
    s: SectionsState,
    ev: StageEvent,
)
    requires
        sections_spans_ok(spans),
        sections_state_ok(spans, s),
        s != SectionsState::Finished,
    ensures
        sections_step_spec(mode, spans, concat_ms, s, ev).1 == (StageAction::Finish { ok: true })
            ==> ev == StageEvent::Done && match s {
            SectionsState::Rendering { index, .. } => index + 1 == spans.len() && mode
                == SegmentExportMode::Separate,
            SectionsState::WritingList { .. } => false,
            _ => true,
        },
        (s is Rendering && ev != StageEvent::Done) ==> sections_step_spec(
            mode,
            spans,
            concat_ms,
            s,
            ev,
        ) == (SectionsState::Finished, StageAction::Finish { ok: false }),
        sections_step_spec(mode, spans, concat_ms, s, ev).0 is WritingList ==> sections_done(
            sections_step_spec(mode, spans, concat_ms, s, ev).0,
        ) == span_sum(spans),
{
    law_sections_end_once(mode, spans, concat_ms, s, ev);
}

/// A join is encoded again at most once: only after the copying join
/// failed, and whatever the encoding join reports ends the render.
pub proof fn law_sections_one_reencode(
    mode: SegmentExportMode,
    spans: Seq<u64>,
    concat_ms: u64,
    s: SectionsState,
    ev: StageEvent,
)
    ensures
        sections_step_spec(mode, spans, concat_ms, s, ev).1 is JoinEncode ==> s is JoiningCopy && ev
            == StageEvent::Failed,
        s is JoiningEncode ==> sections_step_spec(mode, spans, concat_ms, s, ev).0
            == SectionsState::Finished,
{
}

/// The progress of a sections render never moves back: each stage's slice
/// starts where the stages before it ended.
pub proof fn law_sections_progress_forward(
    mode: SegmentExportMode,
    spans: Seq<u64>,
    concat_ms: u64,
    s: SectionsState,
    ev: StageEvent,
)
    requires
        sections_spans_ok(spans),
        sections_state_ok(spans, s),
        s != SectionsState::Finished,
    ensures
        ({
            let (t, a) = sections_step_spec(mode, spans, concat_ms, s, ev);
            t != SectionsState::Finished ==> sections_done(t) >= sections_done(s) && (action_base(
                a,
            ) is Some ==> action_base(a)->0 == sections_done(t))
        }),
{
    if let SectionsState::Rendering { index, .. } = s {
        lemma_span_sum_prefix(spans, index as int);
    }
}

/// A stream copy ends exactly once, with a report or by handing the
/// sections to a render, after at most the number of sections plus two
/// steps.
pub proof fn law_copy_end_once(mode: SegmentExportMode, lengths: Seq<u64>, s: CopyState, ev: StageEvent)
    requires
        sections_spans_ok(lengths),
        copy_state_ok(lengths, s),
        s != CopyState::Finished,
    ensures
        !(copy_start_spec(lengths).1 is Finish),
        copy_state_ok(lengths, copy_start_spec(lengths).0),
        copy_steps_left(lengths, copy_start_spec(lengths).0) == lengths.len() + 2,
        ({
            let (t, a) = copy_step_spec(mode, lengths, s, ev);
            &&& (t == CopyState::Finished) == (a is Finish || a is RenderInstead)
            &&& copy_state_ok(lengths, t)
            &&& 0 <= copy_steps_left(lengths, t) < copy_steps_left(lengths, s)
        }),
{
    assert(lengths.take(0) =~= Seq::<u64>::empty());
    if let CopyState::Copying { index, .. } = s {
        lemma_span_sum_prefix(lengths, index as int);
        if index + 1 == lengths.len() {
            assert(lengths.take(index + 1) =~= lengths);
        }
    }
}

/// A stream copy that fails at any stage — a section, the list or the join
/// — is rendered instead, and a cancelled one ends with an error; a copy
/// succeeds only on a stage that ended `Done`.
pub proof fn law_failed_copy_renders_instead(
    mode: SegmentExportMode,
    lengths: Seq<u64>,
    s: CopyState,
    ev: StageEvent,
)
    requires
        copy_state_ok(lengths, s),
        s != CopyState::Finished,
    ensures
        copy_step_spec(mode, lengths, s, StageEvent::Failed) == (
            CopyState::Finished,
            StageAction::RenderInstead,
        ),
        copy_step_spec(mode, lengths, s, StageEvent::Cancelled) == (
            CopyState::Finished,
            StageAction::Finish { ok: false },
        ),
        copy_step_spec(mode, lengths, s, ev).1 == (StageAction::Finish { ok: true }) ==> ev
            == StageEvent::Done,
{
}

/// The progress of a stream copy never moves back: each section's slice
/// starts where the sections before it ended, and the join takes the last
/// millisecond of them.
pub proof fn law_copy_progress_forward(
    mode: SegmentExportMode,
    lengths: Seq<u64>,
    s: CopyState,
    ev: StageEvent,
)
    requires
        sections_spans_ok(lengths),
        copy_state_ok(lengths, s),
        s != CopyState::Finished,
    ensures
        ({
            let (t, a) = copy_step_spec(mode, lengths, s, ev);
            t != CopyState::Finished ==> copy_done(t) >= copy_done(s) && match a {
                StageAction::CopySection { base_ms, .. } => base_ms == copy_done(t),
                StageAction::JoinCopy { base_ms, span_ms } => base_ms == monus(
                    copy_done(t) as u64,
                    1,
                ) && base_ms + span_ms >= copy_done(t),
                _ => true,
            }
        }),
{
    if let CopyState::Copying { index, .. } = s {
        lemma_span_sum_prefix(lengths, index as int);
    }
}

/// A single-selection render ends exactly once, after at most the number of
/// reversed chunks plus four steps.
pub proof fn law_single_end_once(
    plan: PassPlan,
    repeat: Repeat,
    chunk_spans: Seq<u64>,
    s: SingleState,
    ev: StageEvent,
)
    requires
        single_inputs_ok(plan, chunk_spans),
        single_state_ok(plan, repeat, chunk_spans, s),
        s != SingleState::Finished,
    ensures
        !(single_start_spec(plan).1 is Finish),
        single_steps_left(chunk_spans, single_start_spec(plan).0) == chunk_spans.len() + 4,
        ({
            let (t, a) = single_step_spec(plan, repeat, chunk_spans, s, ev);
            &&& (t == SingleState::Finished) == (a is Finish)
            &&& single_state_ok(plan, repeat, chunk_spans, t)
            &&& 0 <= single_steps_left(chunk_spans, t) < single_steps_left(chunk_spans, s)
        }),
{
    assert(chunk_spans.take(0) =~= Seq::<u64>::empty());
    lemma_span_sum_nonneg(chunk_spans);
    if let SingleState::Reversing { index, .. } = s {
        lemma_span_sum_prefix(chunk_spans, index as int);
        if index + 1 == chunk_spans.len() {
            assert(chunk_spans.take(index + 1) =~= chunk_spans);
        }
    }
}

/// A single-selection render succeeds only on a pass that ended `Done`:
/// the forward render when nothing repeats, or a join; a pass that fails
/// or is cancelled before the join ends the render with an error. A join
/// is encoded again at most once, after the copying join failed.
pub proof fn law_single_success_needs_done(
    plan: PassPlan,
    repeat: Repeat,
    chunk_spans: Seq<u64>,
    s: SingleState,
    ev: StageEvent,
)
    ensures
        single_step_spec(plan, repeat, chunk_spans, s, ev).1 == (StageAction::Finish { ok: true })
            ==> ev == StageEvent::Done && match s {
            SingleState::Forward => crate::adjustments::repeat_is_off(repeat),
            SingleState::JoiningCopy { .. } => true,
            SingleState::JoiningEncode { .. } => true,
            _ => false,
        },
        ((s is Forward || s is Reversing || s is WritingList) && ev != StageEvent::Done)
            ==> single_step_spec(plan, repeat, chunk_spans, s, ev) == (
            SingleState::Finished,
            StageAction::Finish { ok: false },
        ),
        single_step_spec(plan, repeat, chunk_spans, s, ev).1 is JoinEncode ==> s is JoiningCopy
            && ev == StageEvent::Failed,
        s is JoiningEncode ==> single_step_spec(plan, repeat, chunk_spans, s, ev).0
            == SingleState::Finished,
{
}

/// The progress of a single-selection render never moves back: each pass's
/// slice starts where the passes before it ended.
pub proof fn law_single_progress_forward(
    plan: PassPlan,
    repeat: Repeat,
    chunk_spans: Seq<u64>,
    s: SingleState,
    ev: StageEvent,
)
    requires
        single_inputs_ok(plan, chunk_spans),
        single_state_ok(plan, repeat, chunk_spans, s),
        s != SingleState::Finished,
    ensures
        ({
            let (t, a) = single_step_spec(plan, repeat, chunk_spans, s, ev);
            t != SingleState::Finished ==> single_done(t) >= single_done(s) && (action_base(a) is Some
                ==> action_base(a)->0 == single_done(t))
        }),
{
    lemma_span_sum_nonneg(chunk_spans);
    if let SingleState::Reversing { index, .. } = s {
        lemma_span_sum_prefix(chunk_spans, index as int);
    }
}

// ---------------------------------------------------------------------------
// Whole runs
// ---------------------------------------------------------------------------

/// The export's final report: the total reached, or a failure.
pub fn final_report(ok: bool, total_ms: u64) -> (r: Result<(u64, u64), ()>)
    ensures
        r == (if ok {
            Ok::<(u64, u64), ()>((total_ms, total_ms))
        } else {
            Err::<(u64, u64), ()>(())
        }),
{
    if ok {
        Ok((total_ms, total_ms))
    } else {
        Err(())
    }
}

/// The actions a sections render takes from `s` when its stages end as
/// `events` say, up to and including the final one.
pub open spec fn sections_run(
    mode: SegmentExportMode,
    spans: Seq<u64>,
    concat_ms: u64,
    s: SectionsState,
    events: Seq<StageEvent>,
) -> Seq<StageAction>
    decreases events.len(),
{
    if events.len() == 0 || s == SectionsState::Finished {
        seq![]
    } else {
        let (t, a) = sections_step_spec(mode, spans, concat_ms, s, events[0]);
        seq![a] + sections_run(mode, spans, concat_ms, t, events.drop_first())
    }
}

/// The actions a stream copy takes from `s` when its stages end as `events`
/// say, up to and including the final one.
pub open spec fn copy_run(mode: SegmentExportMode, lengths: Seq<u64>, s: CopyState, events: Seq<StageEvent>) -> Seq<
    StageAction,
>
    decreases events.len(),
{
    if events.len() == 0 || s == CopyState::Finished {
        seq![]
    } else {
        let (t, a) = copy_step_spec(mode, lengths, s, events[0]);
        seq![a] + copy_run(mode, lengths, t, events.drop_first())
    }
}

/// The actions a single-selection render takes from `s` when its passes end
/// as `events` say, up to and including the final one.
pub open spec fn single_run(
    plan: PassPlan,
    repeat: Repeat,
    chunk_spans: Seq<u64>,
    s: SingleState,
    events: Seq<StageEvent>,
) -> Seq<StageAction>
    decreases events.len(),
{
    if events.len() == 0 || s == SingleState::Finished {
        seq![]
    } else {
        let (t, a) = single_step_spec(plan, repeat, chunk_spans, s, events[0]);
        seq![a] + single_run(plan, repeat, chunk_spans, t, events.drop_first())
    }
}

/// Whether `run` ends with its one final action and holds no other.
pub open spec fn ends_once(run: Seq<StageAction>, is_final: spec_fn(StageAction) -> bool) -> bool {
    &&& run.len() > 0
    &&& is_final(run.last())
    &&& forall|k: int| 0 <= k < run.len() - 1 ==> !is_final(#[trigger] run[k])
}

proof fn lemma_ends_once_prepend(a: StageAction, rest: Seq<StageAction>, is_final: spec_fn(StageAction) -> bool)
    requires
        !is_final(a),
        ends_once(rest, is_final),
    ensures
        ends_once(seq![a] + rest, is_final),
{
    let run = seq![a] + rest;
    assert(run.last() == rest.last());
    assert forall|k: int| 0 <= k < run.len() - 1 implies !is_final(#[trigger] run[k]) by {
        if k > 0 {
            assert(run[k] == rest[k - 1]);
        }
    }
}

proof fn lemma_ends_once_single(a: StageAction, is_final: spec_fn(StageAction) -> bool)
    requires
        is_final(a),
    ensures
        ends_once(seq![a] + Seq::<StageAction>::empty(), is_final),
{
    assert(seq![a] + Seq::<StageAction>::empty() =~= seq![a]);
}

/// Whatever its stages report, a sections render that is given an outcome
/// for each stage it runs ends with exactly one final report, its last
/// action.
pub proof fn law_sections_run_ends_once(
    mode: SegmentExportMode,
    spans: Seq<u64>,
    concat_ms: u64,
    s: SectionsState,
    events: Seq<StageEvent>,
)
    requires
        sections_spans_ok(spans),
        sections_state_ok(spans, s),
        s != SectionsState::Finished,
        events.len() >= sections_steps_left(spans, s),
    ensures
        ends_once(sections_run(mode, spans, concat_ms, s, events), |a: StageAction| a is Finish),
    decreases events.len(),
{
    let is_final = |a: StageAction| a is Finish;
    law_sections_end_once(mode, spans, concat_ms, s, events[0]);
    let (t, a) = sections_step_spec(mode, spans, concat_ms, s, events[0]);
    if t == SectionsState::Finished {
        assert(sections_run(mode, spans, concat_ms, t, events.drop_first()) =~= seq![]);
        lemma_ends_once_single(a, is_final);
    } else {
        law_sections_run_ends_once(mode, spans, concat_ms, t, events.drop_first());
        lemma_ends_once_prepend(a, sections_run(mode, spans, concat_ms, t, events.drop_first()), is_final);
    }
}

/// Whatever its stages report, a stream copy that is given an outcome for
/// each stage it runs ends exactly once, with its last action: a report,
/// or handing the sections to a render.
pub proof fn law_copy_run_ends_once(mode: SegmentExportMode, lengths: Seq<u64>, s: CopyState, events: Seq<StageEvent>)
    requires
        sections_spans_ok(lengths),
        copy_state_ok(lengths, s),
        s != CopyState::Finished,
        events.len() >= copy_steps_left(lengths, s),
    ensures
        ends_once(copy_run(mode, lengths, s, events), |a: StageAction| a is Finish || a is RenderInstead),
    decreases events.len(),
{
    let is_final = |a: StageAction| a is Finish || a is RenderInstead;
    law_copy_end_once(mode, lengths, s, events[0]);
    let (t, a) = copy_step_spec(mode, lengths, s, events[0]);
    if t == CopyState::Finished {
        assert(copy_run(mode, lengths, t, events.drop_first()) =~= seq![]);
        lemma_ends_once_single(a, is_final);
    } else {
        law_copy_run_ends_once(mode, lengths, t, events.drop_first());
        lemma_ends_once_prepend(a, copy_run(mode, lengths, t, events.drop_first()), is_final);
    }
}

/// Whatever its passes report, a single-selection render that is given an
/// outcome for each pass it runs ends with exactly one final report, its
/// last action.
pub proof fn law_single_run_ends_once(
    plan: PassPlan,
    repeat: Repeat,
    chunk_spans: Seq<u64>,
    s: SingleState,
    events: Seq<StageEvent>,
)
    requires
        single_inputs_ok(plan, chunk_spans),
        single_state_ok(plan, repeat, chunk_spans, s),
        s != SingleState::Finished,
        events.len() >= single_steps_left(chunk_spans, s),
    ensures
        ends_once(single_run(plan, repeat, chunk_spans, s, events), |a: StageAction| a is Finish),
    decreases events.len(),
{
    let is_final = |a: StageAction| a is Finish;
    law_single_end_once(plan, repeat, chunk_spans, s, events[0]);
    let (t, a) = single_step_spec(plan, repeat, chunk_spans, s, events[0]);
    if t == SingleState::Finished {
        assert(single_run(plan, repeat, chunk_spans, t, events.drop_first()) =~= seq![]);
        lemma_ends_once_single(a, is_final);
    } else {
        law_single_run_ends_once(plan, repeat, chunk_spans, t, events.drop_first());
        lemma_ends_once_prepend(a, single_run(plan, repeat, chunk_spans, t, events.drop_first()), is_final);
    }
}

} // verus!
