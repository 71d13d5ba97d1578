//! Following one chunk's ColonyOS process: what each poll reports to the
//! job, and when the poll ends.

use crate::model::{opt_text, ChunkStatus};
use crate::text::{concat_text, push_decimal, push_str, same_text, string_of};
use vstd::prelude::*;
use vstd::string::StringSliceAdditionalSpecFns;
use vstd::utf8::{decode_utf8, encode_utf8, is_char_boundary};

verus! {

/// A ColonyOS process being run.
pub const PROCESS_RUNNING: i32 = 1;

/// A ColonyOS process that finished.
pub const PROCESS_SUCCESS: i32 = 2;

/// A ColonyOS process that failed.
pub const PROCESS_FAILED: i32 = 3;

/// ColonyOS's number for a running process, `colonyos::core::RUNNING`,
/// which that crate defines as 1.
#[verifier::external_body]
fn running_state() -> (r: i32)
    ensures
        r == PROCESS_RUNNING,
{
    colonyos::core::RUNNING
}

/// ColonyOS's number for a finished process, `colonyos::core::SUCCESS`,
/// which that crate defines as 2.
#[verifier::external_body]
fn success_state() -> (r: i32)
    ensures
        r == PROCESS_SUCCESS,
{
    colonyos::core::SUCCESS
}

/// ColonyOS's number for a failed process, `colonyos::core::FAILED`,
/// which that crate defines as 3.
#[verifier::external_body]
fn failed_state() -> (r: i32)
    ensures
        r == PROCESS_FAILED,
{
    colonyos::core::FAILED
}

/// The chunk status that a process state shows.
pub open spec fn chunk_status_of(state: i32) -> ChunkStatus {
    if state == PROCESS_RUNNING {
        ChunkStatus::Running
    } else if state == PROCESS_SUCCESS {
        ChunkStatus::Done
    } else if state == PROCESS_FAILED {
        ChunkStatus::Failed
    } else {
        ChunkStatus::Queued
    }
}

/// The chunk status that the process state `state` shows.
pub fn chunk_status_for(state: i32) -> (s: ChunkStatus)
    ensures
        s == chunk_status_of(state),
{
    if state == running_state() {
        ChunkStatus::Running
    } else if state == success_state() {
        ChunkStatus::Done
    } else if state == failed_state() {
        ChunkStatus::Failed
    } else {
        ChunkStatus::Queued
    }
}

/// How a poll ends: a finished process ends it well, a failed one with
/// its first error (or `unknown`); any other state keeps it going.
pub open spec fn poll_end(state: i32, errors: Seq<Seq<char>>) -> Option<Result<(), Seq<char>>> {
    if state == PROCESS_SUCCESS {
        Some(Ok(()))
    } else if state == PROCESS_FAILED {
        Some(
            Err(
                if errors.len() > 0 {
                    errors[0]
                } else {
                    "unknown"@
                },
            ),
        )
    } else {
        None
    }
}

pub open spec fn end_text(r: Option<Result<(), String>>) -> Option<Result<(), Seq<char>>> {
    match r {
        Some(Ok(())) => Some(Ok(())),
        Some(Err(e)) => Some(Err(e@)),
        None => None,
    }
}

/// Whether polling a process in `state` is over, and how: `Ok` when it
/// finished, `Err` with its first error (or `unknown`) when it failed.
pub fn poll_finished(state: i32, errors: &Vec<String>) -> (r: Option<Result<(), String>>)
    ensures
        end_text(r) == poll_end(state, crate::text::strings(errors@)),
{
    if state == success_state() {
        Some(Ok(()))
    } else if state == failed_state() {
        if errors.len() > 0 {
            Some(Err(errors[0].clone()))
        } else {
            Some(Err("unknown".to_owned()))
        }
    } else {
        None
    }
}

/// A registered executor: its id and its name.
#[derive(Debug)]
pub struct ExecutorEntry {
    pub id: String,
    pub name: String,
}

/// The executors of the colony, in the order the colony lists them.
#[derive(Debug)]
pub struct ExecutorDirectory {
    pub entries: Vec<ExecutorEntry>,
}

/// The (id, name) pairs of a list of executors.
pub open spec fn entry_pairs(entries: Seq<ExecutorEntry>) -> Seq<(Seq<char>, Seq<char>)> {
    entries.map_values(|e: ExecutorEntry| (e.id@, e.name@))
}

impl View for ExecutorDirectory {
    type V = Seq<(Seq<char>, Seq<char>)>;

    open spec fn view(&self) -> Seq<(Seq<char>, Seq<char>)> {
        entry_pairs(self.entries@)
    }
}

/// The name that the directory gives `id`: that of the last entry for it,
/// as a map built from the list in order keeps it.
pub open spec fn lookup_name(entries: Seq<(Seq<char>, Seq<char>)>, id: Seq<char>) -> Option<Seq<char>>
    decreases entries.len(),
{
    if entries.len() == 0 {
        None
    } else if entries.last().0 == id {
        Some(entries.last().1)
    } else {
        lookup_name(entries.drop_last(), id)
    }
}

impl ExecutorDirectory {
    /// The name of executor `id`, if the directory lists it.
    pub fn name_of(&self, id: &str) -> (r: Option<String>)
        ensures
            opt_text(r) == lookup_name(self@, id@),
    {
        let mut i = self.entries.len();
        assert(self@.take(i as int) =~= self@);
        while i > 0
            invariant
                i <= self.entries.len(),
                lookup_name(self@, id@) == lookup_name(self@.take(i as int), id@),
            decreases i,
        {
            let e = &self.entries[i - 1];
            assert(self@.take(i as int).drop_last() == self@.take(i - 1));
            assert(self@.take(i as int).last() == (e.id@, e.name@));
            if same_text(e.id.as_str(), id) {
                return Some(e.name.clone());
            }
            i = i - 1;
        }
        None
    }
}

/// The first eight bytes of an executor id can be cut off without
/// splitting a character (always so for the hexadecimal ids ColonyOS issues).
pub open spec fn id_cuttable(id: Seq<char>) -> bool {
    encode_utf8(id).len() > 8 ==> is_char_boundary(encode_utf8(id), 8)
}

/// The id cut to its first eight bytes.
pub open spec fn short_id(id: Seq<char>) -> Seq<char> {
    if encode_utf8(id).len() <= 8 {
        id
    } else {
        decode_utf8(encode_utf8(id).take(8))
    }
}

/// Who runs a process: nobody until it is assigned; then the directory's
/// name for its executor, or the executor id cut to eight bytes.
pub open spec fn worker_of(
    is_assigned: bool,
    executor_id: Seq<char>,
    directory: Seq<(Seq<char>, Seq<char>)>,
) -> Option<Seq<char>> {
    if is_assigned && executor_id.len() > 0 {
        match lookup_name(directory, executor_id) {
            Some(name) => Some(name),
            None => Some(short_id(executor_id)),
        }
    } else {
        None
    }
}

fn shorten_id(id: &str) -> (r: String)
    requires
        id_cuttable(id@),
    ensures
        r@ == short_id(id@),
{
    if id.as_bytes().len() <= 8 {
        id.to_owned()
    } else {
        let (head, _tail) = id.split_at(8);
        proof {
            vstd::utf8::encode_utf8_decode_utf8(head@);
            assert(head.spec_bytes() =~= id.spec_bytes().subrange(0, 8));
            assert(encode_utf8(head@) =~= encode_utf8(id@).take(8));
        }
        let r = head.to_owned();
        assert(r@ == head@);
        r
    }
}

/// The worker to show for a process: none until it is assigned to an
/// executor; then the executor's name, or its id cut to eight bytes when
/// the directory does not list it.
pub fn worker_label(is_assigned: bool, executor_id: &str, directory: &ExecutorDirectory) -> (r: Option<
    String,
>)
    requires
        is_assigned && executor_id@.len() > 0 && lookup_name(directory@, executor_id@) is None
            ==> id_cuttable(executor_id@),
    ensures
        opt_text(r) == worker_of(is_assigned, executor_id@, directory@),
{
    if is_assigned && !executor_id.is_empty() {
        match directory.name_of(executor_id) {
            Some(name) => Some(name),
            None => Some(shorten_id(executor_id)),
        }
    } else {
        None
    }
}

/// Whether an observation differs from the last one reported.
pub open spec fn poll_changed(
    last: (ChunkStatus, Option<Seq<char>>),
    status: ChunkStatus,
    worker: Option<Seq<char>>,
) -> bool {
    status != last.0 || worker != last.1
}

/// The last reported observation after a poll.
pub open spec fn poll_next(
    last: (ChunkStatus, Option<Seq<char>>),
    status: ChunkStatus,
    worker: Option<Seq<char>>,
) -> (ChunkStatus, Option<Seq<char>>) {
    if poll_changed(last, status, worker) {
        (status, worker)
    } else {
        last
    }
}

/// What one chunk's poller last reported: the chunk's status and worker.
#[derive(Debug)]
pub struct ChunkPoller {
    last_status: ChunkStatus,
    last_worker: Option<String>,
}

impl View for ChunkPoller {
    type V = (ChunkStatus, Option<Seq<char>>);

    closed spec fn view(&self) -> (ChunkStatus, Option<Seq<char>>) {
        (self.last_status, opt_text(self.last_worker))
    }
}

fn same_opt_text(a: &Option<String>, b: &Option<String>) -> (r: bool)
    ensures
        r == (opt_text(*a) == opt_text(*b)),
{
    match (a, b) {
        (Some(x), Some(y)) => same_text(x.as_str(), y.as_str()),
        (None, None) => true,
        _ => false,
    }
}

impl ChunkPoller {
    /// A poller that has reported nothing: the chunk is queued, unassigned.
    pub fn new() -> (p: ChunkPoller)
        ensures
            p@ == (ChunkStatus::Queued, None::<Seq<char>>),
    {
        ChunkPoller { last_status: ChunkStatus::Queued, last_worker: None }
    }

    /// Takes in a poll's observation; whether it differs from the last one
    /// reported, in which case it becomes the last one.
    pub fn observe(&mut self, status: ChunkStatus, worker: &Option<String>) -> (changed: bool)
        ensures
            changed == poll_changed(old(self)@, status, opt_text(*worker)),
            final(self)@ == poll_next(old(self)@, status, opt_text(*worker)),
    {
        let changed = status != self.last_status || !same_opt_text(worker, &self.last_worker);
        if changed {
            self.last_status = status;
            self.last_worker = crate::model::clone_opt_string(worker);
        }
        changed
    }
}

/// What a poll read of a chunk's process.
#[derive(Debug)]
pub struct ProcessSnapshot {
    pub state: i32,
    pub is_assigned: bool,
    pub executor_id: String,
    pub errors: Vec<String>,
}

/// What to do after a poll: the chunk's status and worker to record, when
/// they changed; and whether polling is over, and how.
#[derive(Debug)]
pub struct PollStep {
    pub report: Option<(ChunkStatus, Option<String>)>,
    pub end: Option<Result<(), String>>,
}

impl ChunkPoller {
    /// One poll of a chunk's process: the status and worker it shows are
    /// reported when they differ from the last report, and the process
    /// state decides whether polling goes on.
    pub fn step(&mut self, p: &ProcessSnapshot, directory: &ExecutorDirectory) -> (s: PollStep)
        requires
            p.is_assigned && p.executor_id@.len() > 0 && lookup_name(directory@, p.executor_id@) is None
                ==> id_cuttable(p.executor_id@),
        ensures
            ({
                let status = chunk_status_of(p.state);
                let worker = worker_of(p.is_assigned, p.executor_id@, directory@);
                &&& (s.report is Some) == poll_changed(old(self)@, status, worker)
                &&& (s.report matches Some(r) ==> r.0 == status && opt_text(r.1) == worker)
                &&& final(self)@ == poll_next(old(self)@, status, worker)
                &&& end_text(s.end) == poll_end(p.state, crate::text::strings(p.errors@))
            }),
    {
        let worker = worker_label(p.is_assigned, p.executor_id.as_str(), directory);
        let status = chunk_status_for(p.state);
        let report = if self.observe(status, &worker) {
            Some((status, worker))
        } else {
            None
        };
        PollStep { report, end: poll_finished(p.state, &p.errors) }
    }
}

/// A poll that sees again what it last reported reports nothing new.
pub proof fn law_repeated_observation_is_quiet(
    last: (ChunkStatus, Option<Seq<char>>),
    status: ChunkStatus,
    worker: Option<Seq<char>>,
)
    ensures
        !poll_changed(poll_next(last, status, worker), status, worker),
        poll_next(poll_next(last, status, worker), status, worker) == poll_next(last, status, worker),
{
}

/// The message that a poll that ran out of time fails with.
pub fn timeout_message(secs: u64) -> (m: String)
    ensures
        m@ == "timed out after "@ + crate::text::decimal(secs as nat) + "s"@,
{
    let mut v: Vec<char> = Vec::new();
    push_str(&mut v, "timed out after ");
    push_decimal(secs, &mut v);
    push_str(&mut v, "s");
    string_of(&v)
}

/// The name a worker registers under on host `host`.
pub fn executor_name(host: &str) -> (name: String)
    ensures
        name@ == "ffmpeg-executor-"@ + host@,
{
    concat_text("ffmpeg-executor-", host)
}

} // verus!
