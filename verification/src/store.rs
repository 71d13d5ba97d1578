//! The backend's table of jobs: what each request and each step of a job's
//! processing does to it.

use crate::encoding::EncodingOptions;
use crate::keys::{final_output_key, output_key_text};
use crate::model::{
    ChunkInfo, ChunkStatus, ChunkView, CreateJobRequest, Job, JobStatus, JobView, Progress, Timestamp,
    chunk_views, is_not_later, not_later, opt_text,
};
use crate::system::{current_time, fresh_uuid};
use std::collections::HashMap;
use vstd::std_specs::iter::IteratorSpec;
use vstd::prelude::*;

verus! {

broadcast use vstd::std_specs::hash::group_hash_axioms;

/// Why a request about one job is refused.
#[derive(Clone, Copy, Debug, PartialEq, Eq, Structural)]
pub enum ApiError {
    /// No job has the given id.
    NotFound,
    /// The job is not in the state that the request needs.
    Conflict,
}

/// The number of chunks that are done.
pub open spec fn done_count(chunks: Seq<ChunkView>) -> nat
    decreases chunks.len(),
{
    if chunks.len() == 0 {
        0
    } else {
        done_count(chunks.drop_last()) + if chunks.last().status == ChunkStatus::Done {
            1nat
        } else {
            0nat
        }
    }
}

/// A job's count of finished chunks is the number of its chunks that are
/// done, and it has no more chunks than a `u32` counts.
pub open spec fn job_consistent(j: JobView) -> bool {
    j.chunks.len() <= u32::MAX && j.chunks_completed == done_count(j.chunks)
}

/// Every job is filed under its own id.
pub open spec fn jobs_well_formed(m: Map<u128, JobView>) -> bool {
    forall|k: u128| #[trigger] m.contains_key(k) ==> m[k].id == k
}

pub proof fn lemma_done_count_bounded(chunks: Seq<ChunkView>)
    ensures
        done_count(chunks) <= chunks.len(),
    decreases chunks.len(),
{
    if chunks.len() > 0 {
        lemma_done_count_bounded(chunks.drop_last());
    }
}

pub proof fn lemma_done_count_update(chunks: Seq<ChunkView>, i: int, c: ChunkView)
    requires
        0 <= i < chunks.len(),
    ensures
        done_count(chunks.update(i, c)) + (if chunks[i].status == ChunkStatus::Done {
            1nat
        } else {
            0nat
        }) == done_count(chunks) + (if c.status == ChunkStatus::Done {
            1nat
        } else {
            0nat
        }),
    decreases chunks.len(),
{
    let u = chunks.update(i, c);
    if i == chunks.len() - 1 {
        assert(u.drop_last() =~= chunks.drop_last());
    } else {
        assert(u.drop_last() =~= chunks.drop_last().update(i, c));
        lemma_done_count_update(chunks.drop_last(), i, c);
    }
}

pub proof fn lemma_fresh_chunks_none_done(n: nat)
    ensures
        done_count(fresh_chunks(n)) == 0,
    decreases n,
{
    if n > 0 {
        assert(fresh_chunks(n).drop_last() =~= fresh_chunks((n - 1) as nat));
        lemma_fresh_chunks_none_done((n - 1) as nat);
    }
}

/// A job as it is opened: waiting for its upload, with nothing processed.
pub open spec fn new_job_view(
    id: u128,
    filename: Seq<char>,
    output_format: Seq<char>,
    encoding: EncodingOptions,
    now: Timestamp,
) -> JobView {
    JobView {
        id,
        filename,
        output_format,
        encoding,
        status: JobStatus::PendingUpload,
        created_at: now,
        started_at: None,
        finished_at: None,
        error: None,
        progress: None,
        chunk_count: None,
        chunks_completed: 0,
        chunks: Seq::empty(),
    }
}

/// The answer to "the upload of job `id` is done": the job, now queued,
/// or why the report is refused.
pub open spec fn upload_outcome(m: Map<u128, JobView>, id: u128) -> Result<JobView, ApiError> {
    if !m.contains_key(id) {
        Err(ApiError::NotFound)
    } else if m[id].status != JobStatus::PendingUpload {
        Err(ApiError::Conflict)
    } else {
        Ok(JobView { status: JobStatus::Queued, ..m[id] })
    }
}

/// The jobs after an upload report.
pub open spec fn after_upload(m: Map<u128, JobView>, id: u128) -> Map<u128, JobView> {
    match upload_outcome(m, id) {
        Ok(j) => m.insert(id, j),
        Err(_) => m,
    }
}

/// The answer to "where is the output of job `id`": its object key, or why
/// there is none yet.
pub open spec fn download_outcome(m: Map<u128, JobView>, id: u128) -> Result<Seq<char>, ApiError> {
    if !m.contains_key(id) {
        Err(ApiError::NotFound)
    } else if m[id].status != JobStatus::Completed {
        Err(ApiError::Conflict)
    } else {
        Ok(output_key_text(m[id].id, m[id].filename, m[id].output_format))
    }
}

/// The chunks of a job that has been split into `total` chunks.
pub open spec fn fresh_chunks(total: nat) -> Seq<ChunkView> {
    Seq::new(total, |i: int| ChunkView { index: i as u32, status: ChunkStatus::Queued, worker: None })
}

/// A job once it is split into `total` chunks and processing starts at `now`.
pub open spec fn processing_started(j: JobView, total: u32, now: Timestamp) -> JobView {
    JobView {
        status: JobStatus::Processing,
        chunk_count: Some(total),
        chunks_completed: 0,
        started_at: Some(now),
        chunks: fresh_chunks(total as nat),
        ..j
    }
}

/// A chunk after a poll saw it in `status`, run by `worker` if that is
/// known: it takes the status, and the worker when one is named.
pub open spec fn chunk_observed(c: ChunkView, status: ChunkStatus, worker: Option<Seq<char>>) -> ChunkView {
    ChunkView {
        status,
        worker: if worker is Some {
            worker
        } else {
            c.worker
        },
        ..c
    }
}

/// A job after a poll saw its chunk `index` in `status`: the chunk, if the
/// job has one at that index, takes the status and the worker, if one is
/// named. Every done report adds one to the job's count of finished chunks
/// and sets the progress to that count of `total`.
pub open spec fn chunk_recorded(
    j: JobView,
    index: u32,
    status: ChunkStatus,
    worker: Option<Seq<char>>,
    total: u32,
) -> JobView {
    let chunks = if index < j.chunks.len() {
        j.chunks.update(index as int, chunk_observed(j.chunks[index as int], status, worker))
    } else {
        j.chunks
    };
    if status == ChunkStatus::Done {
        let done = (j.chunks_completed + 1) as u32;
        JobView {
            chunks,
            chunks_completed: done,
            progress: Some(Progress::Chunks { done, total }),
            ..j
        }
    } else {
        JobView { chunks, ..j }
    }
}

/// Whether a poll report can be recorded for the jobs in `m`: a done report
/// needs room in the job's count of finished chunks.
pub open spec fn record_fits(m: Map<u128, JobView>, id: u128, status: ChunkStatus) -> bool {
    m.contains_key(id) && status == ChunkStatus::Done ==> m[id].chunks_completed < u32::MAX
}

/// A job whose output has been merged and stored at `now`.
pub open spec fn completed(j: JobView, now: Timestamp) -> JobView {
    JobView {
        status: JobStatus::Completed,
        progress: Some(Progress::Complete),
        finished_at: Some(now),
        ..j
    }
}

/// A job that failed at `now` for the reason `message`.
pub open spec fn failed(j: JobView, message: Seq<char>, now: Timestamp) -> JobView {
    JobView { status: JobStatus::Failed, error: Some(message), finished_at: Some(now), ..j }
}

/// The jobs after a step that changes job `id` into `next`, if it exists.
pub open spec fn updated(m: Map<u128, JobView>, id: u128, next: JobView) -> Map<u128, JobView> {
    if m.contains_key(id) {
        m.insert(id, next)
    } else {
        m
    }
}

/// The job that `req` opens under `id` at `now`.
pub fn new_job(id: u128, req: CreateJobRequest, now: Timestamp) -> (job: Job)
    ensures
        job@ == new_job_view(id, req.filename@, req.output_format@, req.encoding, now),
        job.id == id && job.created_at == now,
        job.filename@ == req.filename@ && job.output_format@ == req.output_format@,
        job.encoding == req.encoding,
{
    let job = Job {
        id,
        filename: req.filename,
        output_format: req.output_format,
        encoding: req.encoding,
        status: JobStatus::PendingUpload,
        created_at: now,
        started_at: None,
        finished_at: None,
        error: None,
        progress: None,
        chunk_count: None,
        chunks_completed: 0,
        chunks: Vec::new(),
    };
    assert(chunk_views(job.chunks@) =~= Seq::<ChunkView>::empty());
    job
}

/// The job that `req` opens, under a fresh random id and created now.
pub fn open_job(req: CreateJobRequest) -> (job: Job)
    ensures
        job@ == new_job_view(job.id, req.filename@, req.output_format@, req.encoding, job.created_at),
        job.filename@ == req.filename@ && job.output_format@ == req.output_format@,
        job.encoding == req.encoding,
        (job.id >> 76u128) & 0xfu128 == 4,
        (job.id >> 62u128) & 0x3u128 == 2,
        job.created_at.nanos < 2_000_000_000,
{
    let id = fresh_uuid();
    let now = current_time();
    new_job(id, req, now)
}

/// Each listed job is the job filed under its id.
pub open spec fn listed_from(s: Seq<Job>, m: Map<u128, JobView>) -> bool {
    forall|a: int| 0 <= a < s.len() ==> m.contains_key(#[trigger] s[a].id) && s[a]@ == m[s[a].id]
}

/// No job is listed twice.
pub open spec fn distinct_ids(s: Seq<Job>) -> bool {
    forall|a: int, b: int| 0 <= a < b < s.len() ==> #[trigger] s[a].id != #[trigger] s[b].id
}

/// Later jobs come first; jobs opened at the same instant in either order.
pub open spec fn newest_first(s: Seq<Job>) -> bool {
    forall|a: int, b: int|
        0 <= a < b < s.len() ==> not_later(#[trigger] s[b].created_at, #[trigger] s[a].created_at)
}

/// The first `n` ids each have a listed job.
pub open spec fn covers(s: Seq<Job>, ids: Seq<u128>, n: int) -> bool {
    forall|a: int|
        #![trigger ids[a]]
        0 <= a < n ==> exists|b: int| 0 <= b < s.len() && #[trigger] s[b].id == ids[a]
}

/// Every listed job has one of the first `n` ids.
pub open spec fn drawn_from(s: Seq<Job>, ids: Seq<u128>, n: int) -> bool {
    forall|b: int| 0 <= b < s.len() ==> exists|a: int| 0 <= a < n && ids[a] == #[trigger] s[b].id
}

proof fn lemma_insert_members(old_s: Seq<Job>, p: int, job: Job, m: Map<u128, JobView>)
    requires
        0 <= p <= old_s.len(),
        m.contains_key(job.id),
        job@ == m[job.id],
        listed_from(old_s, m),
    ensures
        listed_from(old_s.insert(p, job), m),
{
    let s = old_s.insert(p, job);
    old_s.insert_ensures(p, job);
    assert forall|a: int| 0 <= a < s.len() implies m.contains_key(#[trigger] s[a].id) && s[a]@
        == m[s[a].id] by {
        if a < p {
            assert(s[a] == old_s[a]);
        } else if a > p {
            assert(s[a] == old_s[a - 1]);
        }
    }
}

proof fn lemma_insert_distinct(old_s: Seq<Job>, p: int, job: Job)
    requires
        0 <= p <= old_s.len(),
        distinct_ids(old_s),
        forall|b: int| 0 <= b < old_s.len() ==> #[trigger] old_s[b].id != job.id,
    ensures
        distinct_ids(old_s.insert(p, job)),
{
    let s = old_s.insert(p, job);
    old_s.insert_ensures(p, job);
    assert forall|a: int, b: int| 0 <= a < b < s.len() implies #[trigger] s[a].id
        != #[trigger] s[b].id by {
        if a < p && b < p {
            assert(s[a] == old_s[a] && s[b] == old_s[b]);
        } else if a < p && b == p {
            assert(s[a] == old_s[a]);
        } else if a < p && b > p {
            assert(s[a] == old_s[a] && s[b] == old_s[b - 1]);
        } else if a == p {
            assert(s[b] == old_s[b - 1]);
        } else {
            assert(s[a] == old_s[a - 1] && s[b] == old_s[b - 1]);
        }
    }
}

proof fn lemma_insert_covers(old_s: Seq<Job>, p: int, job: Job, ids: Seq<u128>, n: int)
    requires
        0 <= p <= old_s.len(),
        0 <= n < ids.len(),
        job.id == ids[n],
        covers(old_s, ids, n),
    ensures
        covers(old_s.insert(p, job), ids, n + 1),
{
    let s = old_s.insert(p, job);
    old_s.insert_ensures(p, job);
    assert forall|a: int| #![trigger ids[a]] 0 <= a < n + 1 implies exists|b: int|
        0 <= b < s.len() && #[trigger] s[b].id == ids[a] by {
        if a == n {
            assert(s[p].id == ids[a]);
        } else {
            let b0 = choose|b: int| 0 <= b < old_s.len() && #[trigger] old_s[b].id == ids[a];
            if b0 < p {
                assert(s[b0].id == ids[a]);
            } else {
                assert(s[b0 + 1].id == ids[a]);
            }
        }
    }
}

proof fn lemma_insert_drawn(old_s: Seq<Job>, p: int, job: Job, ids: Seq<u128>, n: int)
    requires
        0 <= p <= old_s.len(),
        0 <= n < ids.len(),
        job.id == ids[n],
        drawn_from(old_s, ids, n),
    ensures
        drawn_from(old_s.insert(p, job), ids, n + 1),
{
    let s = old_s.insert(p, job);
    old_s.insert_ensures(p, job);
    assert forall|b: int| 0 <= b < s.len() implies exists|a: int|
        0 <= a < n + 1 && ids[a] == #[trigger] s[b].id by {
        if b == p {
            assert(ids[n] == s[b].id);
        } else if b < p {
            let a0 = choose|a: int| 0 <= a < n && ids[a] == #[trigger] old_s[b].id;
            assert(ids[a0] == s[b].id);
        } else {
            let a0 = choose|a: int| 0 <= a < n && ids[a] == #[trigger] old_s[b - 1].id;
            assert(ids[a0] == s[b].id);
        }
    }
}

proof fn lemma_insert_listed(
    old_s: Seq<Job>,
    p: int,
    job: Job,
    ids: Seq<u128>,
    n: int,
    m: Map<u128, JobView>,
)
    requires
        0 <= p <= old_s.len(),
        old_s.len() == n,
        0 <= n < ids.len(),
        ids.no_duplicates(),
        job.id == ids[n],
        m.contains_key(job.id),
        job@ == m[job.id],
        listed_from(old_s, m),
        distinct_ids(old_s),
        covers(old_s, ids, n),
        drawn_from(old_s, ids, n),
    ensures
        listed_from(old_s.insert(p, job), m),
        distinct_ids(old_s.insert(p, job)),
        covers(old_s.insert(p, job), ids, n + 1),
        drawn_from(old_s.insert(p, job), ids, n + 1),
{
    assert forall|b: int| 0 <= b < n implies #[trigger] old_s[b].id != job.id by {
        let a = choose|a: int| 0 <= a < n && ids[a] == old_s[b].id;
        assert(ids[a] != ids[n]);
    }
    lemma_insert_members(old_s, p, job, m);
    lemma_insert_distinct(old_s, p, job);
    lemma_insert_covers(old_s, p, job, ids, n);
    lemma_insert_drawn(old_s, p, job, ids, n);
}

/// Inserts `job` after every job that is no older than it, keeping
/// `sorted` newest first; the position it went to.
fn insert_newest_first(sorted: &mut Vec<Job>, job: Job) -> (p: usize)
    requires
        newest_first(old(sorted)@),
    ensures
        p <= old(sorted).len(),
        final(sorted)@ == old(sorted)@.insert(p as int, job),
        newest_first(final(sorted)@),
{
    let mut p: usize = 0;
    while p < sorted.len() && is_not_later(&job.created_at, &sorted[p].created_at)
        invariant
            p <= sorted.len(),
            forall|q: int| 0 <= q < p ==> not_later(job.created_at, #[trigger] sorted@[q].created_at),
        decreases sorted.len() - p,
    {
        p = p + 1;
    }
    let ghost old_s = sorted@;
    proof {
        old_s.insert_ensures(p as int, job);
    }
    sorted.insert(p, job);
    proof {
        let s = sorted@;
        assert forall|a: int, b: int| 0 <= a < b < s.len() implies not_later(
            #[trigger] s[b].created_at,
            #[trigger] s[a].created_at,
        ) by {
            if p < old_s.len() {
                assert(!not_later(job.created_at, old_s[p as int].created_at));
            }
            if a < p && b < p {
                assert(s[a] == old_s[a] && s[b] == old_s[b]);
            } else if a < p && b == p {
                assert(s[a] == old_s[a]);
            } else if a < p && b > p {
                assert(s[a] == old_s[a] && s[b] == old_s[b - 1]);
                assert(not_later(old_s[b - 1].created_at, old_s[p as int].created_at));
            } else if a == p {
                assert(s[b] == old_s[b - 1]);
                assert(not_later(old_s[b - 1].created_at, old_s[p as int].created_at));
            } else {
                assert(s[a] == old_s[a - 1] && s[b] == old_s[b - 1]);
            }
        }
    }
    p
}

/// The backend's jobs, by id.
pub struct JobStore {
    jobs: HashMap<u128, Job>,
}

impl View for JobStore {
    type V = Map<u128, JobView>;

    closed spec fn view(&self) -> Map<u128, JobView> {
        self.jobs@.map_values(|j: Job| j@)
    }
}

proof fn lemma_view_insert(m: Map<u128, Job>, k: u128, j: Job)
    ensures
        m.insert(k, j).map_values(|x: Job| x@) == m.map_values(|x: Job| x@).insert(k, j@),
{
    assert(m.insert(k, j).map_values(|x: Job| x@) =~= m.map_values(|x: Job| x@).insert(k, j@));
}

impl JobStore {
    /// The store's invariant: every job is filed under its own id.
    #[verifier::type_invariant]
    closed spec fn inv(self) -> bool {
        jobs_well_formed(self@)
    }

    /// An empty table.
    pub fn new() -> (s: JobStore)
        ensures
            s@ == Map::<u128, JobView>::empty(),
            jobs_well_formed(s@),
    {
        let s = JobStore { jobs: HashMap::new() };
        assert(s@ =~= Map::<u128, JobView>::empty());
        s
    }

    /// A copy of job `id`, if there is one.
    pub fn get(&self, id: u128) -> (r: Option<Job>)
        ensures
            r is Some <==> self@.contains_key(id),
            r matches Some(j) ==> j@ == self@[id],
    {
        match self.jobs.get(&id) {
            Some(j) => Some(j.clone()),
            None => None,
        }
    }

    /// Files `job` under its id, replacing any job filed there.
    pub fn insert_job(&mut self, job: Job)
        ensures
            final(self)@ == old(self)@.insert(job.id, job@),
            jobs_well_formed(final(self)@),
    {
        proof {
            use_type_invariant(&*self);
        }
        self.put(job.id, job);
    }

    /// Files `next` under `id`.
    fn put(&mut self, id: u128, next: Job)
        requires
            jobs_well_formed(old(self)@),
            next.id == id,
        ensures
            final(self)@ == old(self)@.insert(id, next@),
            jobs_well_formed(final(self)@),
    {
        let mut jobs: HashMap<u128, Job> = HashMap::new();
        std::mem::swap(&mut jobs, &mut self.jobs);
        proof {
            lemma_view_insert(jobs@, id, next);
        }
        jobs.insert(id, next);
        assert(jobs@.map_values(|x: Job| x@) == old(self)@.insert(id, next@));
        self.jobs = jobs;
    }

    /// Job `id` after `next` replaces it; the copy that is handed back.
    fn replace(&mut self, id: u128, next: Job) -> (r: Job)
        requires
            old(self)@.contains_key(id),
            next.id == id,
        ensures
            final(self)@ == old(self)@.insert(id, next@),
            jobs_well_formed(final(self)@),
            r@ == next@,
    {
        proof {
            use_type_invariant(&*self);
        }
        let copy = next.clone();
        self.put(id, next);
        copy
    }

    /// The answer to an upload report for job `id`: a job waiting for its
    /// upload is queued; any other job, or a missing one, refuses it and
    /// stays as it is.
    pub fn mark_uploaded(&mut self, id: u128) -> (r: Result<Job, ApiError>)
        ensures
            jobs_well_formed(final(self)@),
            final(self)@ == after_upload(old(self)@, id),
            match r {
                Ok(j) => upload_outcome(old(self)@, id) == Ok::<JobView, ApiError>(j@),
                Err(e) => upload_outcome(old(self)@, id) == Err::<JobView, ApiError>(e),
            },
    {
        proof {
            use_type_invariant(&*self);
        }
        let mut job = match self.jobs.get(&id) {
            Some(j) => j.clone(),
            None => return Err(ApiError::NotFound),
        };
        if job.status != JobStatus::PendingUpload {
            return Err(ApiError::Conflict);
        }
        job.status = JobStatus::Queued;
        assert(job@ == JobView { status: JobStatus::Queued, ..old(self)@[id] });
        Ok(self.replace(id, job))
    }

    /// The object key of job `id`'s output, once the job is completed.
    pub fn download_key(&self, id: u128) -> (r: Result<String, ApiError>)
        ensures
            match r {
                Ok(k) => download_outcome(self@, id) == Ok::<Seq<char>, ApiError>(k@),
                Err(e) => download_outcome(self@, id) == Err::<Seq<char>, ApiError>(e),
            },
    {
        proof {
            use_type_invariant(&*self);
        }
        match self.jobs.get(&id) {
            None => Err(ApiError::NotFound),
            Some(job) => {
                if job.status != JobStatus::Completed {
                    Err(ApiError::Conflict)
                } else {
                    Ok(
                        final_output_key(
                            job.id,
                            job.filename.as_str(),
                            job.output_format.as_str(),
                        ),
                    )
                }
            },
        }
    }

    /// Starts processing job `id` split into `total` chunks, all queued.
    pub fn start_processing(&mut self, id: u128, total: u32, now: Timestamp) -> (r: Option<Job>)
        ensures
            jobs_well_formed(final(self)@),
            r is Some <==> old(self)@.contains_key(id),
            final(self)@ == updated(old(self)@, id, processing_started(old(self)@[id], total, now)),
            r matches Some(j) ==> j@ == processing_started(old(self)@[id], total, now),
    {
        proof {
            use_type_invariant(&*self);
        }
        let mut job = match self.jobs.get(&id) {
            Some(j) => j.clone(),
            None => return None,
        };
        let mut chunks: Vec<ChunkInfo> = Vec::new();
        for i in 0..total
            invariant
                chunk_views(chunks@) == fresh_chunks(i as nat),
        {
            let ghost before = chunks@;
            chunks.push(ChunkInfo { index: i, status: ChunkStatus::Queued, worker: None });
            let ghost added = ChunkView { index: i, status: ChunkStatus::Queued, worker: None };
            assert(chunk_views(chunks@) =~= chunk_views(before).push(added));
            assert(fresh_chunks((i + 1) as nat) =~= fresh_chunks(i as nat).push(added));
        }
        job.status = JobStatus::Processing;
        job.chunk_count = Some(total);
        job.chunks_completed = 0;
        job.started_at = Some(now);
        job.chunks = chunks;
        assert(job@ == processing_started(old(self)@[id], total, now));
        Some(self.replace(id, job))
    }

    /// Records what a poll saw of chunk `index` of job `id`: the chunk, if
    /// there is one at that index, takes the status, and the worker when one
    /// is named. A done report adds one to the job's count of finished
    /// chunks and sets the progress to that count of `total`.
    pub fn record_chunk(
        &mut self,
        id: u128,
        index: u32,
        status: ChunkStatus,
        worker: Option<String>,
        total: u32,
    ) -> (r: Option<Job>)
        requires
            record_fits(old(self)@, id, status),
        ensures
            jobs_well_formed(final(self)@),
            r is Some <==> old(self)@.contains_key(id),
            final(self)@ == updated(
                old(self)@,
                id,
                chunk_recorded(old(self)@[id], index, status, opt_text(worker), total),
            ),
            r matches Some(j) ==> j@ == chunk_recorded(
                old(self)@[id],
                index,
                status,
                opt_text(worker),
                total,
            ),
    {
        proof {
            use_type_invariant(&*self);
        }
        let mut job = match self.jobs.get(&id) {
            Some(j) => j.clone(),
            None => return None,
        };
        let ghost old_job = job@;
        let ghost w = opt_text(worker);
        assert(old(self)@.contains_key(id));
        assert(job.id == id);
        if (index as usize) < job.chunks.len() {
            let mut c = job.chunks[index as usize].clone();
            c.status = status;
            if worker.is_some() {
                c.worker = worker;
            }
            let ghost observed = chunk_observed(old_job.chunks[index as int], status, w);
            assert(c@ == observed);
            job.chunks.set(index as usize, c);
            assert(chunk_views(job.chunks@) =~= old_job.chunks.update(index as int, observed));
        }
        if status == ChunkStatus::Done {
            job.chunks_completed = job.chunks_completed + 1;
            job.progress = Some(Progress::Chunks { done: job.chunks_completed, total });
        }
        assert(job@ == chunk_recorded(old_job, index, status, w, total));
        Some(self.replace(id, job))
    }

    fn ids(&self) -> (ids: Vec<u128>)
        ensures
            ids@.no_duplicates(),
            ids@.to_set() == self@.dom(),
    {
        let ghost ks = vstd::std_specs::hash::spec_keys_iter(&self.jobs).remaining();
        let mut ids: Vec<u128> = Vec::new();
        for k in it: self.jobs.keys()
            invariant
                it.seq() == ks,
                ids@ == ks.take(it.index() as int).map_values(|r: &u128| *r),
        {
            ids.push(*k);
            assert(ks.take(it.index() + 1).map_values(|r: &u128| *r) =~= ids@);
        }
        assert(ids@ =~= ks.map_values(|r: &u128| *r));
        assert(ks.map_values(|r: &u128| *r) =~= ks.unref());
        ids
    }

    /// Whether a job is filed under `id`.
    pub fn contains(&self, id: u128) -> (r: bool)
        ensures
            r == self@.contains_key(id),
    {
        self.jobs.contains_key(&id)
    }

    /// Starts processing job `id` in `total` chunks, as of the current time.
    pub fn start_processing_now(&mut self, id: u128, total: u32) -> (r: Option<Job>)
        ensures
            jobs_well_formed(final(self)@),
            r is Some <==> old(self)@.contains_key(id),
            match r {
                Some(j) => j.started_at matches Some(t) && j@ == processing_started(
                    old(self)@[id],
                    total,
                    t,
                ) && final(self)@ == old(self)@.insert(id, j@),
                None => final(self)@ == old(self)@,
            },
    {
        let now = current_time();
        self.start_processing(id, total, now)
    }

    /// Marks job `id` completed as of the current time.
    pub fn complete_now(&mut self, id: u128) -> (r: Option<Job>)
        ensures
            jobs_well_formed(final(self)@),
            r is Some <==> old(self)@.contains_key(id),
            match r {
                Some(j) => j.finished_at matches Some(t) && j@ == completed(old(self)@[id], t)
                    && final(self)@ == old(self)@.insert(id, j@),
                None => final(self)@ == old(self)@,
            },
    {
        let now = current_time();
        self.complete(id, now)
    }

    /// Marks job `id` failed because of `message`, as of the current time.
    pub fn fail_now(&mut self, id: u128, message: String) -> (r: Option<Job>)
        ensures
            jobs_well_formed(final(self)@),
            r is Some <==> old(self)@.contains_key(id),
            match r {
                Some(j) => j.finished_at matches Some(t) && j@ == failed(old(self)@[id], message@, t)
                    && final(self)@ == old(self)@.insert(id, j@),
                None => final(self)@ == old(self)@,
            },
    {
        let now = current_time();
        self.fail(id, message, now)
    }

    /// Every job, newest first.
    pub fn list_jobs(&self) -> (list: Vec<Job>)
        ensures
            list.len() == self@.dom().len(),
            listed_from(list@, self@),
            forall|k: u128|
                #[trigger] self@.contains_key(k) ==> exists|i: int|
                    0 <= i < list.len() && #[trigger] list@[i].id == k,
            distinct_ids(list@),
            newest_first(list@),
    {
        proof {
            use_type_invariant(&*self);
        }
        let ids = self.ids();
        proof {
            ids@.unique_seq_to_set();
        }
        let mut sorted: Vec<Job> = Vec::new();
        for n in 0..ids.len()
            invariant
                jobs_well_formed(self@),
                ids@.no_duplicates(),
                ids@.to_set() == self@.dom(),
                sorted.len() == n,
                listed_from(sorted@, self@),
                distinct_ids(sorted@),
                covers(sorted@, ids@, n as int),
                drawn_from(sorted@, ids@, n as int),
                newest_first(sorted@),
        {
            let id = ids[n];
            assert(ids@.to_set().contains(id));
            let job = self.copy_of(id);
            let ghost old_sorted = sorted@;
            let p = insert_newest_first(&mut sorted, job);
            proof {
                lemma_insert_listed(old_sorted, p as int, job, ids@, n as int, self@);
            }
        }
        proof {
            assert forall|k: u128| #[trigger] self@.contains_key(k) implies exists|i: int|
                0 <= i < sorted.len() && #[trigger] sorted@[i].id == k by {
                assert(ids@.to_set().contains(k));
                let a = choose|a: int| 0 <= a < ids.len() && ids@[a] == k;
                assert(covers(sorted@, ids@, ids.len() as int));
                assert(exists|b: int| 0 <= b < ids.len() && #[trigger] sorted@[b].id == ids@[a]);
            }
        }
        sorted
    }

    /// A copy of job `id`, which is there.
    fn copy_of(&self, id: u128) -> (j: Job)
        requires
            jobs_well_formed(self@),
            self@.contains_key(id),
        ensures
            j@ == self@[id],
            j.id == id,
    {
        self.jobs.get(&id).unwrap().clone()
    }

    /// Marks job `id` completed at `now`.
    pub fn complete(&mut self, id: u128, now: Timestamp) -> (r: Option<Job>)
        ensures
            jobs_well_formed(final(self)@),
            r is Some <==> old(self)@.contains_key(id),
            final(self)@ == updated(old(self)@, id, completed(old(self)@[id], now)),
            r matches Some(j) ==> j@ == completed(old(self)@[id], now),
    {
        proof {
            use_type_invariant(&*self);
        }
        let mut job = match self.jobs.get(&id) {
            Some(j) => j.clone(),
            None => return None,
        };
        job.status = JobStatus::Completed;
        job.progress = Some(Progress::Complete);
        job.finished_at = Some(now);
        assert(job@ == completed(old(self)@[id], now));
        Some(self.replace(id, job))
    }

    /// Marks job `id` failed at `now` because of `message`.
    pub fn fail(&mut self, id: u128, message: String, now: Timestamp) -> (r: Option<Job>)
        ensures
            jobs_well_formed(final(self)@),
            r is Some <==> old(self)@.contains_key(id),
            final(self)@ == updated(old(self)@, id, failed(old(self)@[id], message@, now)),
            r matches Some(j) ==> j@ == failed(old(self)@[id], message@, now),
    {
        proof {
            use_type_invariant(&*self);
        }
        let mut job = match self.jobs.get(&id) {
            Some(j) => j.clone(),
            None => return None,
        };
        let ghost msg = message@;
        job.status = JobStatus::Failed;
        job.error = Some(message);
        job.finished_at = Some(now);
        assert(job@ == failed(old(self)@[id], msg, now));
        Some(self.replace(id, job))
    }
}

/// A job is opened with what its request asked for: its id, the upload's
/// name, the output format and every encoding option, the resolution
/// included, as given; it waits for its upload with nothing processed.
pub proof fn law_new_job_keeps_the_request(
    id: u128,
    filename: Seq<char>,
    output_format: Seq<char>,
    encoding: EncodingOptions,
    now: Timestamp,
)
    ensures
        ({
            let j = new_job_view(id, filename, output_format, encoding, now);
            &&& j.id == id && j.filename == filename && j.output_format == output_format
            &&& j.encoding == encoding
            &&& j.encoding.resolution == encoding.resolution
            &&& j.created_at == now
            &&& j.status == JobStatus::PendingUpload
            &&& j.chunks.len() == 0 && j.chunks_completed == 0
            &&& j.progress is None && j.error is None && j.chunk_count is None
        }),
{
}

/// An upload report is accepted at most once: once it has queued a job,
/// a second report for that job is refused as a conflict.
pub proof fn law_upload_accepted_once(m: Map<u128, JobView>, id: u128)
    requires
        upload_outcome(m, id) is Ok,
    ensures
        upload_outcome(after_upload(m, id), id) == Err::<JobView, ApiError>(ApiError::Conflict),
{
}

/// A refused upload report changes nothing.
pub proof fn law_refused_upload_changes_nothing(m: Map<u128, JobView>, id: u128)
    requires
        upload_outcome(m, id) is Err,
    ensures
        after_upload(m, id) == m,
{
}

/// A job that has just been opened accepts its upload report (and is
/// queued by it), and has no output to download yet.
pub proof fn law_new_job_awaits_upload(
    m: Map<u128, JobView>,
    id: u128,
    filename: Seq<char>,
    output_format: Seq<char>,
    encoding: EncodingOptions,
    now: Timestamp,
)
    ensures
        ({
            let j = new_job_view(id, filename, output_format, encoding, now);
            let m2 = m.insert(id, j);
            &&& upload_outcome(m2, id) == Ok::<JobView, ApiError>(
                JobView { status: JobStatus::Queued, ..j },
            )
            &&& download_outcome(m2, id) == Err::<Seq<char>, ApiError>(ApiError::Conflict)
        }),
{
}

/// A job's output can be downloaded exactly when the job is completed; an
/// unknown job is not found, any other job is a conflict.
pub proof fn law_download_only_when_completed(m: Map<u128, JobView>, id: u128)
    ensures
        download_outcome(m, id) is Ok <==> (m.contains_key(id) && m[id].status
            == JobStatus::Completed),
        !m.contains_key(id) ==> download_outcome(m, id) == Err::<Seq<char>, ApiError>(
            ApiError::NotFound,
        ),
{
}

/// Once a job is completed its output is found under the key made from its
/// id, upload name and output format; a failed job's output is never.
pub proof fn law_completed_job_downloads(
    m: Map<u128, JobView>,
    id: u128,
    now: Timestamp,
    message: Seq<char>,
)
    requires
        m.contains_key(id),
    ensures
        download_outcome(updated(m, id, completed(m[id], now)), id) == Ok::<Seq<char>, ApiError>(
            output_key_text(m[id].id, m[id].filename, m[id].output_format),
        ),
        download_outcome(updated(m, id, failed(m[id], message, now)), id) == Err::<
            Seq<char>,
            ApiError,
        >(ApiError::Conflict),
{
}

/// A job that starts processing has `total` queued chunks numbered from
/// zero, none finished.
pub proof fn law_started_chunks_are_numbered(j: JobView, total: u32, now: Timestamp)
    ensures
        processing_started(j, total, now).chunks.len() == total,
        processing_started(j, total, now).chunk_count == Some(total),
        processing_started(j, total, now).chunks_completed == 0,
        forall|i: int|
            0 <= i < total ==> #[trigger] processing_started(j, total, now).chunks[i] == (ChunkView {
                index: i as u32,
                status: ChunkStatus::Queued,
                worker: None,
            }),
{
}

/// Recording a poll keeps the job's chunks, their number and their
/// indices, and changes at most the polled chunk, which takes the polled
/// status; a named worker replaces the chunk's worker, an unnamed one keeps
/// it.
pub proof fn law_chunk_record_touches_one_chunk(
    j: JobView,
    index: u32,
    status: ChunkStatus,
    worker: Option<Seq<char>>,
    total: u32,
)
    ensures
        ({
            let r = chunk_recorded(j, index, status, worker, total);
            &&& r.chunks.len() == j.chunks.len()
            &&& r.id == j.id && r.status == j.status
            &&& forall|i: int|
                0 <= i < j.chunks.len() ==> (#[trigger] r.chunks[i]).index == j.chunks[i].index
            &&& forall|i: int|
                0 <= i < j.chunks.len() && i != index ==> #[trigger] r.chunks[i] == j.chunks[i]
            &&& index < j.chunks.len() ==> r.chunks[index as int].status == status
            &&& index < j.chunks.len() && worker is Some ==> r.chunks[index as int].worker == worker
            &&& index < j.chunks.len() && worker is None ==> r.chunks[index as int].worker
                == j.chunks[index as int].worker
        }),
{
}

/// The count of finished chunks counts done reports: each one raises it by
/// exactly one and sets the progress to the new count of `total`; any other
/// report leaves the count and the progress as they were. The count never
/// falls.
pub proof fn law_finished_count_counts_done_reports(
    j: JobView,
    index: u32,
    status: ChunkStatus,
    worker: Option<Seq<char>>,
    total: u32,
)
    requires
        status == ChunkStatus::Done ==> j.chunks_completed < u32::MAX,
    ensures
        ({
            let r = chunk_recorded(j, index, status, worker, total);
            &&& status == ChunkStatus::Done ==> r.chunks_completed == j.chunks_completed + 1
                && r.progress == Some(Progress::Chunks { done: r.chunks_completed, total })
            &&& status != ChunkStatus::Done ==> r.chunks_completed == j.chunks_completed
                && r.progress == j.progress
            &&& r.chunks_completed >= j.chunks_completed
        }),
{
}

/// While each chunk is reported done at most once, the count of finished
/// chunks is the number of chunks that are done: a job that starts
/// processing has none, and a report on a chunk that is not done yet keeps
/// the count equal to the number of done chunks, which never exceeds the
/// number of chunks.
pub proof fn law_finished_count_follows_chunks(
    j: JobView,
    index: u32,
    status: ChunkStatus,
    worker: Option<Seq<char>>,
    total: u32,
    now: Timestamp,
)
    requires
        job_consistent(j),
        index < j.chunks.len(),
        j.chunks[index as int].status != ChunkStatus::Done,
    ensures
        job_consistent(processing_started(j, total, now)),
        ({
            let r = chunk_recorded(j, index, status, worker, total);
            &&& job_consistent(r)
            &&& r.chunks_completed <= r.chunks.len()
        }),
{
    lemma_fresh_chunks_none_done(total as nat);
    let observed = chunk_observed(j.chunks[index as int], status, worker);
    lemma_done_count_update(j.chunks, index as int, observed);
    lemma_done_count_bounded(j.chunks);
    lemma_done_count_bounded(j.chunks.update(index as int, observed));
}

/// A step on one job leaves every other job as it was, and keeps every job
/// filed under its own id.
pub proof fn law_steps_touch_one_job(m: Map<u128, JobView>, id: u128, next: JobView, other: u128)
    requires
        jobs_well_formed(m),
        next.id == id,
    ensures
        jobs_well_formed(updated(m, id, next)),
        other != id ==> (updated(m, id, next).contains_key(other) == m.contains_key(other)),
        other != id && m.contains_key(other) ==> updated(m, id, next)[other] == m[other],
{
}

/// One step on the table of jobs, as the store's operations take them.
pub enum StoreStep {
    /// A new job filed under its id (`insert_job`).
    Open { job: JobView },
    /// An upload report (`mark_uploaded`).
    Upload { id: u128 },
    /// Processing starts (`start_processing`).
    Start { id: u128, total: u32, now: Timestamp },
    /// A poll of a chunk (`record_chunk`).
    Record { id: u128, index: u32, status: ChunkStatus, worker: Option<Seq<char>>, total: u32 },
    /// The output is stored (`complete`).
    Complete { id: u128, now: Timestamp },
    /// Processing failed (`fail`).
    Fail { id: u128, message: Seq<char>, now: Timestamp },
}

/// The jobs after `step`, as the operation's contract gives them.
pub open spec fn apply_step(m: Map<u128, JobView>, step: StoreStep) -> Map<u128, JobView> {
    match step {
        StoreStep::Open { job } => m.insert(job.id, job),
        StoreStep::Upload { id } => after_upload(m, id),
        StoreStep::Start { id, total, now } => updated(m, id, processing_started(m[id], total, now)),
        StoreStep::Record { id, index, status, worker, total } => updated(
            m,
            id,
            chunk_recorded(m[id], index, status, worker, total),
        ),
        StoreStep::Complete { id, now } => updated(m, id, completed(m[id], now)),
        StoreStep::Fail { id, message, now } => updated(m, id, failed(m[id], message, now)),
    }
}

/// The jobs after `steps`, in order.
pub open spec fn apply_steps(m: Map<u128, JobView>, steps: Seq<StoreStep>) -> Map<u128, JobView>
    decreases steps.len(),
{
    if steps.len() == 0 {
        m
    } else {
        apply_step(apply_steps(m, steps.drop_last()), steps.last())
    }
}

/// Whether `step` opens a new job under `id`.
pub open spec fn opens(step: StoreStep, id: u128) -> bool {
    step matches StoreStep::Open { job } && job.id == id
}

/// No step but opening a job anew puts a job back to waiting for its
/// upload.
pub proof fn law_no_step_reopens_an_upload(m: Map<u128, JobView>, step: StoreStep, id: u128)
    requires
        m.contains_key(id),
        m[id].status != JobStatus::PendingUpload,
        !opens(step, id),
    ensures
        apply_step(m, step).contains_key(id),
        apply_step(m, step)[id].status != JobStatus::PendingUpload,
{
}

/// Once an upload report has been accepted for a job, no later sequence of
/// steps (short of opening a job anew under the same id) gets another one
/// accepted: every later report is a conflict, so the job is processed at
/// most once.
pub proof fn law_upload_accepted_for_good(m: Map<u128, JobView>, id: u128, steps: Seq<StoreStep>)
    requires
        upload_outcome(m, id) is Ok,
        forall|i: int| 0 <= i < steps.len() ==> !opens(#[trigger] steps[i], id),
    ensures
        upload_outcome(apply_steps(after_upload(m, id), steps), id) == Err::<JobView, ApiError>(
            ApiError::Conflict,
        ),
{
    lemma_steps_keep_upload_done(after_upload(m, id), id, steps);
}

proof fn lemma_steps_keep_upload_done(m: Map<u128, JobView>, id: u128, steps: Seq<StoreStep>)
    requires
        m.contains_key(id),
        m[id].status != JobStatus::PendingUpload,
        forall|i: int| 0 <= i < steps.len() ==> !opens(#[trigger] steps[i], id),
    ensures
        apply_steps(m, steps).contains_key(id),
        apply_steps(m, steps)[id].status != JobStatus::PendingUpload,
    decreases steps.len(),
{
    if steps.len() > 0 {
        assert forall|i: int| 0 <= i < steps.drop_last().len() implies !opens(
            #[trigger] steps.drop_last()[i],
            id,
        ) by {
            assert(steps.drop_last()[i] == steps[i]);
        }
        lemma_steps_keep_upload_done(m, id, steps.drop_last());
        assert(!opens(steps[steps.len() - 1], id));
        law_no_step_reopens_an_upload(apply_steps(m, steps.drop_last()), steps.last(), id);
    }
}

} // verus!
