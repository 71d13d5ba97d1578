//! What the backend submits to ColonyOS for each chunk of a job.

use crate::keys::{chunk_key, chunk_key_text};
use vstd::prelude::*;

verus! {

/// The value of one keyword argument of a chunk's process: a text, or one
/// of the values that the caller fills in from the chunk's bounds and the
/// job's encoding options.
#[derive(Debug)]
pub enum ChunkArg {
    /// A text value.
    Text(String),
    /// The chunk's start, in seconds.
    StartTime,
    /// The chunk's length, in seconds.
    Duration,
    /// The job's encoding options.
    Encoding,
}

/// A `ChunkArg` with its text taken as a sequence of characters.
pub enum ChunkArgView {
    Text(Seq<char>),
    StartTime,
    Duration,
    Encoding,
}

impl View for ChunkArg {
    type V = ChunkArgView;

    open spec fn view(&self) -> ChunkArgView {
        match self {
            ChunkArg::Text(s) => ChunkArgView::Text(s@),
            ChunkArg::StartTime => ChunkArgView::StartTime,
            ChunkArg::Duration => ChunkArgView::Duration,
            ChunkArg::Encoding => ChunkArgView::Encoding,
        }
    }
}

/// The ColonyOS function call that transcodes one chunk.
#[derive(Debug)]
pub struct ChunkSubmission {
    /// The function that the executor runs.
    pub func_name: String,
    /// The type of executor that may take the process.
    pub executor_type: String,
    /// The object key that the chunk's output is stored under.
    pub output_key: String,
    /// The process's keyword arguments, by name, in the order they are set.
    pub kwargs: Vec<(String, ChunkArg)>,
    /// The longest the process may run, in seconds; `-1` for no limit.
    pub max_exec_time: i32,
}

/// The keyword arguments of a chunk's process, names and values.
pub open spec fn kwargs_view(kwargs: Seq<(String, ChunkArg)>) -> Seq<(Seq<char>, ChunkArgView)> {
    kwargs.map_values(|a: (String, ChunkArg)| (a.0@, a.1@))
}

/// The keyword arguments for chunk `index` of job `id`, read from
/// `input_url` and written as `output_format`.
pub open spec fn chunk_kwargs(id: u128, index: nat, input_url: Seq<char>, output_format: Seq<char>) -> Seq<
    (Seq<char>, ChunkArgView),
> {
    seq![
        ("input_url"@, ChunkArgView::Text(input_url)),
        ("start_time"@, ChunkArgView::StartTime),
        ("duration"@, ChunkArgView::Duration),
        ("output_key"@, ChunkArgView::Text(chunk_key_text(id, index, output_format))),
        ("encoding"@, ChunkArgView::Encoding),
    ]
}

/// The submission of chunk `index` of job `id`: the `transcode_chunk`
/// function for an `ffmpeg-executor`, with no time limit, reading the input
/// at `input_url` and storing its output under the chunk's key.
pub fn chunk_submission(id: u128, index: usize, input_url: &str, output_format: &str) -> (s:
    ChunkSubmission)
    ensures
        s.func_name@ == "transcode_chunk"@,
        s.executor_type@ == "ffmpeg-executor"@,
        s.max_exec_time == -1,
        s.output_key@ == chunk_key_text(id, index as nat, output_format@),
        kwargs_view(s.kwargs@) == chunk_kwargs(id, index as nat, input_url@, output_format@),
{
    let key = chunk_key(id, index, output_format);
    let mut kwargs: Vec<(String, ChunkArg)> = Vec::new();
    kwargs.push(("input_url".to_owned(), ChunkArg::Text(input_url.to_owned())));
    kwargs.push(("start_time".to_owned(), ChunkArg::StartTime));
    kwargs.push(("duration".to_owned(), ChunkArg::Duration));
    kwargs.push(("output_key".to_owned(), ChunkArg::Text(key.clone())));
    kwargs.push(("encoding".to_owned(), ChunkArg::Encoding));
    assert(kwargs_view(kwargs@) =~= chunk_kwargs(id, index as nat, input_url@, output_format@));
    ChunkSubmission {
        func_name: "transcode_chunk".to_owned(),
        executor_type: "ffmpeg-executor".to_owned(),
        output_key: key,
        kwargs,
        max_exec_time: -1,
    }
}

} // verus!
