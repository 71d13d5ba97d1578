//! The functions that the transcoding worker serves.

use crate::text::{concat_text, same_text};
use vstd::prelude::*;

verus! {

/// A function that the worker knows how to run.
#[derive(Clone, Copy, Debug, PartialEq, Eq, Structural)]
pub enum WorkerTask {
    /// Cut one chunk out of the input and re-encode it.
    TranscodeChunk,
    /// Join transcoded chunks into the output.
    MergeChunks,
}

/// The task that a process's function name asks for, or the error that
/// an unknown name fails with.
pub open spec fn task_named(name: Seq<char>) -> Result<WorkerTask, Seq<char>> {
    if name == "transcode_chunk"@ {
        Ok(WorkerTask::TranscodeChunk)
    } else if name == "merge_chunks"@ {
        Ok(WorkerTask::MergeChunks)
    } else {
        Err("unknown function: "@ + name)
    }
}

pub open spec fn task_text(r: Result<WorkerTask, String>) -> Result<WorkerTask, Seq<char>> {
    match r {
        Ok(t) => Ok(t),
        Err(e) => Err(e@),
    }
}

/// The task for the function name `name`, or the error message for a
/// name the worker does not serve.
pub fn worker_task(name: &str) -> (r: Result<WorkerTask, String>)
    ensures
        task_text(r) == task_named(name@),
{
    if same_text(name, "transcode_chunk") {
        Ok(WorkerTask::TranscodeChunk)
    } else if same_text(name, "merge_chunks") {
        Ok(WorkerTask::MergeChunks)
    } else {
        Err(concat_text("unknown function: ", name))
    }
}

/// What the worker does after asking the colony for work failed.
#[derive(Clone, Copy, Debug, PartialEq, Eq, Structural)]
pub enum AssignRetry {
    /// Ask again at once (the wait for work timed out or was refused).
    Immediately,
    /// Wait `secs` seconds first (the colony could not be reached).
    AfterPause { secs: u64 },
}

/// How to retry after a failed request for work: at once, unless the
/// colony could not be reached, in which case after one second.
pub fn assign_retry(connection_error: bool) -> (r: AssignRetry)
    ensures
        r == (if connection_error {
            AssignRetry::AfterPause { secs: 1 }
        } else {
            AssignRetry::Immediately
        }),
{
    if connection_error {
        AssignRetry::AfterPause { secs: 1 }
    } else {
        AssignRetry::Immediately
    }
}

/// What happened in reporting a process's outcome to the colony.
#[derive(Debug)]
pub enum ReportEvent {
    /// The task ended, with its output key or its error.
    Handled { result: Result<String, String> },
    /// Setting the process's output succeeded or failed.
    OutputSet { ok: bool },
    /// Closing the process succeeded or failed.
    Closed { ok: bool },
}

/// What to tell the colony next.
#[derive(Debug, PartialEq, Eq)]
pub enum ReportAction {
    /// Record `output_key` as the process's output.
    SetOutput { output_key: String },
    /// Close the process as successful.
    Close,
    /// Mark the process failed.
    Fail,
    /// Nothing more.
    Stop,
}

/// The next report: a finished task sets its output and then closes the
/// process, closing only if the output was set; a failed task fails it.
pub open spec fn report_next(event: ReportEvent) -> ReportAction {
    match event {
        ReportEvent::Handled { result: Ok(key) } => ReportAction::SetOutput { output_key: key },
        ReportEvent::Handled { result: Err(_) } => ReportAction::Fail,
        ReportEvent::OutputSet { ok } => if ok {
            ReportAction::Close
        } else {
            ReportAction::Stop
        },
        ReportEvent::Closed { ok: _ } => ReportAction::Stop,
    }
}

/// The next report after `event`.
pub fn report_step(event: ReportEvent) -> (a: ReportAction)
    ensures
        a == report_next(event),
{
    match event {
        ReportEvent::Handled { result: Ok(key) } => ReportAction::SetOutput { output_key: key },
        ReportEvent::Handled { result: Err(_) } => ReportAction::Fail,
        ReportEvent::OutputSet { ok } => if ok {
            ReportAction::Close
        } else {
            ReportAction::Stop
        },
        ReportEvent::Closed { ok: _ } => ReportAction::Stop,
    }
}

} // verus!
