//! The course of one job after its upload: probe, split, submit a process
//! per chunk, wait for every chunk, merge, and finish; or fail at the first
//! thing that goes wrong.

use crate::text::{concat_text, decimal, push_decimal, push_str, string_of};
use vstd::prelude::*;

verus! {

/// Where a job's processing stands.
#[derive(Clone, Copy, Debug, PartialEq, Eq, Structural)]
pub enum Phase {
    /// Measuring the input and finding its keyframes.
    Probing,
    /// Submitting one process per chunk.
    Submitting { total: u32 },
    /// Waiting for the chunks; `succeeded` of `total` have finished.
    Waiting { total: u32, succeeded: u32 },
    /// Joining the chunks.
    Merging,
    /// The output is stored.
    Completed,
    /// Processing stopped on an error.
    Failed,
}

/// What happened since the last step.
#[derive(Debug)]
pub enum Event {
    /// The probe failed.
    ProbeFailed { error: String },
    /// The input was split into `total` chunks.
    Split { total: u32 },
    /// Submitting chunk `index` failed.
    SubmitFailed { index: u64, error: String },
    /// Every chunk was submitted.
    AllSubmitted,
    /// A chunk's process ended.
    ChunkFinished { result: Result<(), String> },
    /// Every chunk poller stopped without reporting the rest.
    PollersGone,
    /// The merge ended.
    Merged { result: Result<(), String> },
}

/// What to do next.
#[derive(Debug)]
pub enum Action {
    /// Mark the job processing in `total` chunks and submit them.
    StartProcessing { total: u32 },
    /// Wait for the next chunk.
    Wait,
    /// Join the chunks.
    Merge,
    /// Mark the job completed.
    Complete,
    /// Mark the job failed with `message`.
    Fail { message: String },
    /// Nothing: the event does not belong to this phase.
    Ignore,
}

/// An event as the contracts see it.
pub enum EventView {
    ProbeFailed { error: Seq<char> },
    Split { total: u32 },
    SubmitFailed { index: u64, error: Seq<char> },
    AllSubmitted,
    ChunkFinished { result: Result<(), Seq<char>> },
    PollersGone,
    Merged { result: Result<(), Seq<char>> },
}

/// An action as the contracts see it.
pub enum ActionView {
    StartProcessing { total: u32 },
    Wait,
    Merge,
    Complete,
    Fail { message: Seq<char> },
    Ignore,
}

pub open spec fn result_text(r: Result<(), String>) -> Result<(), Seq<char>> {
    match r {
        Ok(()) => Ok(()),
        Err(e) => Err(e@),
    }
}

impl View for Event {
    type V = EventView;

    open spec fn view(&self) -> EventView {
        match self {
            Event::ProbeFailed { error } => EventView::ProbeFailed { error: error@ },
            Event::Split { total } => EventView::Split { total: *total },
            Event::SubmitFailed { index, error } => EventView::SubmitFailed {
                index: *index,
                error: error@,
            },
            Event::AllSubmitted => EventView::AllSubmitted,
            Event::ChunkFinished { result } => EventView::ChunkFinished { result: result_text(*result) },
            Event::PollersGone => EventView::PollersGone,
            Event::Merged { result } => EventView::Merged { result: result_text(*result) },
        }
    }
}

impl View for Action {
    type V = ActionView;

    open spec fn view(&self) -> ActionView {
        match self {
            Action::StartProcessing { total } => ActionView::StartProcessing { total: *total },
            Action::Wait => ActionView::Wait,
            Action::Merge => ActionView::Merge,
            Action::Complete => ActionView::Complete,
            Action::Fail { message } => ActionView::Fail { message: message@ },
            Action::Ignore => ActionView::Ignore,
        }
    }
}

/// The phase and action that follow `event` in `phase`.
pub open spec fn next(phase: Phase, event: EventView) -> (Phase, ActionView) {
    match (phase, event) {
        (Phase::Probing, EventView::ProbeFailed { error }) => (
            Phase::Failed,
            ActionView::Fail { message: error },
        ),
        (Phase::Probing, EventView::Split { total }) => (
            Phase::Submitting { total },
            ActionView::StartProcessing { total },
        ),
        (Phase::Submitting { total }, EventView::SubmitFailed { index, error }) => (
            Phase::Failed,
            ActionView::Fail { message: "submit chunk "@ + decimal(index as nat) + ": "@ + error },
        ),
        (Phase::Submitting { total }, EventView::AllSubmitted) => (
            Phase::Waiting { total, succeeded: 0 },
            ActionView::Wait,
        ),
        (Phase::Waiting { total, succeeded }, EventView::ChunkFinished { result }) => match result {
            Ok(()) => if succeeded + 1 >= total {
                (Phase::Merging, ActionView::Merge)
            } else {
                (Phase::Waiting { total, succeeded: (succeeded + 1) as u32 }, ActionView::Wait)
            },
            Err(e) => (Phase::Failed, ActionView::Fail { message: "chunk failed: "@ + e }),
        },
        (Phase::Waiting { total, succeeded }, EventView::PollersGone) => (
            Phase::Merging,
            ActionView::Merge,
        ),
        (Phase::Merging, EventView::Merged { result }) => match result {
            Ok(()) => (Phase::Completed, ActionView::Complete),
            Err(e) => (Phase::Failed, ActionView::Fail { message: "merge failed: "@ + e }),
        },
        _ => (phase, ActionView::Ignore),
    }
}

/// The phases a job can be in: a split has at least one chunk, and fewer
/// chunks have succeeded than there are.
pub open spec fn phase_ok(phase: Phase) -> bool {
    match phase {
        Phase::Submitting { total } => total > 0,
        Phase::Waiting { total, succeeded } => succeeded < total,
        _ => true,
    }
}

/// The phase and action that follow `event` in `phase`.
pub fn advance(phase: Phase, event: Event) -> (r: (Phase, Action))
    requires
        phase_ok(phase),
        event matches Event::Split { total } ==> total > 0,
    ensures
        (r.0, r.1@) == next(phase, event@),
{
    match (phase, event) {
        (Phase::Probing, Event::ProbeFailed { error }) => (Phase::Failed, Action::Fail { message: error }),
        (Phase::Probing, Event::Split { total }) => (
            Phase::Submitting { total },
            Action::StartProcessing { total },
        ),
        (Phase::Submitting { total: _ }, Event::SubmitFailed { index, error }) => {
            let mut v: Vec<char> = Vec::new();
            push_str(&mut v, "submit chunk ");
            push_decimal(index, &mut v);
            push_str(&mut v, ": ");
            push_str(&mut v, error.as_str());
            (Phase::Failed, Action::Fail { message: string_of(&v) })
        },
        (Phase::Submitting { total }, Event::AllSubmitted) => (
            Phase::Waiting { total, succeeded: 0 },
            Action::Wait,
        ),
        (Phase::Waiting { total, succeeded }, Event::ChunkFinished { result }) => match result {
            Ok(()) => if succeeded + 1 >= total {
                (Phase::Merging, Action::Merge)
            } else {
                (Phase::Waiting { total, succeeded: succeeded + 1 }, Action::Wait)
            },
            Err(e) => (
                Phase::Failed,
                Action::Fail { message: concat_text("chunk failed: ", e.as_str()) },
            ),
        },
        (Phase::Waiting { total: _, succeeded: _ }, Event::PollersGone) => (
            Phase::Merging,
            Action::Merge,
        ),
        (Phase::Merging, Event::Merged { result }) => match result {
            Ok(()) => (Phase::Completed, Action::Complete),
            Err(e) => (
                Phase::Failed,
                Action::Fail { message: concat_text("merge failed: ", e.as_str()) },
            ),
        },
        (phase, _) => (phase, Action::Ignore),
    }
}

/// Every step keeps the phase one that a job can be in.
pub proof fn law_steps_keep_phase_ok(phase: Phase, event: EventView)
    requires
        phase_ok(phase),
        event matches EventView::Split { total } ==> total > 0,
    ensures
        phase_ok(next(phase, event).0),
{
}

/// A completed or failed job stays so, whatever happens next.
pub proof fn law_end_is_final(phase: Phase, event: EventView)
    requires
        phase == Phase::Completed || phase == Phase::Failed,
    ensures
        next(phase, event).0 == phase,
        next(phase, event).1 == ActionView::Ignore,
{
}

/// A job completes only from merging, on a successful merge; and merging
/// starts only when the last of its chunks has succeeded, or when every
/// chunk poller has stopped without a failure reported.
pub proof fn law_completion_needs_every_chunk(phase: Phase, event: EventView)
    ensures
        next(phase, event).0 == Phase::Completed && phase != Phase::Completed ==> phase
            == Phase::Merging && (event matches EventView::Merged { result: Ok(()) }),
        next(phase, event).0 == Phase::Merging && phase != Phase::Merging ==> (exists|
            total: u32,
            succeeded: u32,
        |
            phase == (Phase::Waiting { total, succeeded }) && ((succeeded + 1 >= total
            && (event matches EventView::ChunkFinished { result: Ok(()) }))
            || event is PollersGone)),
{
    reveal(next);
    match phase {
        Phase::Merging => {},
        Phase::Waiting { total, succeeded } => {
            if next(phase, event).0 == Phase::Merging {
                assert(phase == (Phase::Waiting { total, succeeded }));
            }
        },
        _ => {},
    }
}

/// Each change of phase comes with the action that carries it out: a job
/// that starts merging is told to merge, whatever number of chunks it has;
/// it is told to complete only from merging, on a successful merge, and to
/// merge only as it starts merging; a job that fails is told to fail.
pub proof fn law_each_phase_change_has_its_action(phase: Phase, event: EventView)
    ensures
        next(phase, event).0 == Phase::Merging && phase != Phase::Merging ==> next(phase, event).1
            == ActionView::Merge,
        next(phase, event).1 == ActionView::Complete <==> phase == Phase::Merging
            && (event matches EventView::Merged { result: Ok(()) }),
        next(phase, event).1 == ActionView::Merge ==> next(phase, event).0 == Phase::Merging
            && phase != Phase::Merging,
        next(phase, event).0 == Phase::Completed && phase != Phase::Completed ==> next(
            phase,
            event,
        ).1 == ActionView::Complete,
        next(phase, event).0 == Phase::Failed && phase != Phase::Failed ==> next(phase, event).1
            is Fail,
{
}

/// The chunks that must succeed before a job starts merging: with
/// `succeeded` of `total` chunks done, fewer than `total - succeeded` more
/// successes keep it waiting, and that many start the merge.
pub proof fn law_merge_after_all_chunks(total: u32, succeeded: u32, more: nat)
    requires
        succeeded < total,
    ensures
        waiting_after(total, succeeded, more) == if more < total - succeeded {
            Phase::Waiting { total, succeeded: (succeeded + more) as u32 }
        } else {
            Phase::Merging
        },
    decreases more,
{
    if more > 0 && succeeded + 1 < total {
        law_merge_after_all_chunks(total, (succeeded + 1) as u32, (more - 1) as nat);
    }
}

/// The phase after `more` successful chunks, starting while waiting with
/// `succeeded` of `total` done.
pub open spec fn waiting_after(total: u32, succeeded: u32, more: nat) -> Phase
    decreases more,
{
    if more == 0 {
        Phase::Waiting { total, succeeded }
    } else {
        let (p, _) = next(
            Phase::Waiting { total, succeeded },
            EventView::ChunkFinished { result: Ok(()) },
        );
        match p {
            Phase::Waiting { total: t, succeeded: s } => waiting_after(t, s, (more - 1) as nat),
            _ => p,
        }
    }
}

} // verus!
