//! The records that the backend keeps and publishes for each transcode job.

use crate::encoding::EncodingOptions;
use vstd::prelude::*;

verus! {

/// Where a job stands. A job waits for its upload, is queued once the
/// upload is reported, is processed chunk by chunk, and ends completed or
/// failed.
#[derive(Clone, Copy, Debug, PartialEq, Eq, Structural)]
pub enum JobStatus {
    PendingUpload,
    Queued,
    Processing,
    Completed,
    Failed,
}

/// Where one chunk's transcode stands.
#[derive(Clone, Copy, Debug, PartialEq, Eq, Structural)]
pub enum ChunkStatus {
    Queued,
    Running,
    Done,
    Failed,
}

/// A chunk of a job and, once a worker has taken it, that worker's name.
#[derive(Debug)]
pub struct ChunkInfo {
    pub index: u32,
    pub status: ChunkStatus,
    pub worker: Option<String>,
}

/// The characters of an optional string.
pub open spec fn opt_text(s: Option<String>) -> Option<Seq<char>> {
    match s {
        Some(t) => Some(t@),
        None => None,
    }
}

pub fn clone_opt_string(s: &Option<String>) -> (r: Option<String>)
    ensures
        r == *s,
{
    match s {
        Some(t) => Some(t.clone()),
        None => None,
    }
}

/// A chunk as the contracts see it.
pub struct ChunkView {
    pub index: u32,
    pub status: ChunkStatus,
    pub worker: Option<Seq<char>>,
}

impl View for ChunkInfo {
    type V = ChunkView;

    open spec fn view(&self) -> ChunkView {
        ChunkView { index: self.index, status: self.status, worker: opt_text(self.worker) }
    }
}

impl Clone for ChunkInfo {
    fn clone(&self) -> (r: Self)
        ensures
            r == *self,
    {
        ChunkInfo { index: self.index, status: self.status, worker: clone_opt_string(&self.worker) }
    }
}

/// An instant: seconds since the Unix epoch and the nanoseconds past that
/// second (past 999_999_999 only within a leap second).
#[derive(Clone, Copy, Debug, PartialEq, Eq, Structural)]
pub struct Timestamp {
    pub secs: i64,
    pub nanos: u32,
}

/// Whether `a` is no later than `b`.
pub open spec fn not_later(a: Timestamp, b: Timestamp) -> bool {
    a.secs < b.secs || (a.secs == b.secs && a.nanos <= b.nanos)
}

/// Whether `a` is no later than `b`.
pub fn is_not_later(a: &Timestamp, b: &Timestamp) -> (r: bool)
    ensures
        r == not_later(*a, *b),
{
    a.secs < b.secs || (a.secs == b.secs && a.nanos <= b.nanos)
}

/// How far a job has come: `done` of `total` chunks transcoded (which the
/// published record shows as nine tenths of `done / total`, leaving the
/// last tenth to the merge), or finished.
#[derive(Clone, Copy, Debug, PartialEq, Eq, Structural)]
pub enum Progress {
    Chunks { done: u32, total: u32 },
    Complete,
}

/// A transcode job.
#[derive(Debug)]
pub struct Job {
    pub id: u128,
    pub filename: String,
    pub output_format: String,
    pub encoding: EncodingOptions,
    pub status: JobStatus,
    pub created_at: Timestamp,
    pub started_at: Option<Timestamp>,
    pub finished_at: Option<Timestamp>,
    pub error: Option<String>,
    pub progress: Option<Progress>,
    pub chunk_count: Option<u32>,
    pub chunks_completed: u32,
    pub chunks: Vec<ChunkInfo>,
}

/// A job as the contracts see it.
pub struct JobView {
    pub id: u128,
    pub filename: Seq<char>,
    pub output_format: Seq<char>,
    pub encoding: EncodingOptions,
    pub status: JobStatus,
    pub created_at: Timestamp,
    pub started_at: Option<Timestamp>,
    pub finished_at: Option<Timestamp>,
    pub error: Option<Seq<char>>,
    pub progress: Option<Progress>,
    pub chunk_count: Option<u32>,
    pub chunks_completed: u32,
    pub chunks: Seq<ChunkView>,
}

/// The views of a sequence of chunks.
pub open spec fn chunk_views(chunks: Seq<ChunkInfo>) -> Seq<ChunkView> {
    chunks.map_values(|c: ChunkInfo| c@)
}

impl View for Job {
    type V = JobView;

    open spec fn view(&self) -> JobView {
        JobView {
            id: self.id,
            filename: self.filename@,
            output_format: self.output_format@,
            encoding: self.encoding,
            status: self.status,
            created_at: self.created_at,
            started_at: self.started_at,
            finished_at: self.finished_at,
            error: opt_text(self.error),
            progress: self.progress,
            chunk_count: self.chunk_count,
            chunks_completed: self.chunks_completed,
            chunks: chunk_views(self.chunks@),
        }
    }
}

pub fn clone_chunks(chunks: &Vec<ChunkInfo>) -> (r: Vec<ChunkInfo>)
    ensures
        r@ == chunks@,
{
    let mut r: Vec<ChunkInfo> = Vec::new();
    for i in 0..chunks.len()
        invariant
            r@ == chunks@.take(i as int),
    {
        r.push(chunks[i].clone());
        assert(chunks@.take(i + 1) == chunks@.take(i as int).push(chunks@[i as int]));
    }
    assert(chunks@.take(chunks.len() as int) == chunks@);
    r
}

impl Clone for Job {
    fn clone(&self) -> (r: Self)
        ensures
            r@ == self@,
    {
        Job {
            id: self.id,
            filename: self.filename.clone(),
            output_format: self.output_format.clone(),
            encoding: self.encoding.clone(),
            status: self.status,
            created_at: self.created_at,
            started_at: self.started_at,
            finished_at: self.finished_at,
            error: clone_opt_string(&self.error),
            progress: self.progress,
            chunk_count: self.chunk_count,
            chunks_completed: self.chunks_completed,
            chunks: clone_chunks(&self.chunks),
        }
    }
}

/// What a client sends to open a job.
#[derive(Debug)]
pub struct CreateJobRequest {
    pub filename: String,
    pub output_format: String,
    pub encoding: EncodingOptions,
}

/// The new job and the URL that its input is to be uploaded to.
#[derive(Debug)]
pub struct CreateJobResponse {
    pub job: Job,
    pub upload_url: String,
}

/// Where a finished job's output can be fetched.
#[derive(Debug)]
pub struct DownloadResponse {
    pub download_url: String,
}

/// What the backend pushes to connected clients.
#[derive(Debug)]
pub enum ClientMessage {
    JobUpdate { job: Job },
    JobsList { jobs: Vec<Job> },
}

} // verus!
