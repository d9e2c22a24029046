//! Async-job registry: the bookkeeping behind `leviathan.async.spawn`.
//!
//! Each spawned job gets an id, a cancellation token and a record owned
//! by `(plugin_id, generation_id)`. The worker threads and result
//! channels belong to the host; this registry decides what a finished,
//! cancelled or dropped job leaves behind.

use vstd::prelude::*;
use std::sync::Arc;
use std::sync::atomic::AtomicBool;
use std::time::SystemTime;
use crate::json::{JsonValue, JsonV, json_view};
use crate::text::{str_to_string, str_eq, string_views};
use crate::keyed::{first_index, lemma_first_index, lemma_first_index_props};
use crate::clock::{system_now, millis_since_epoch};
use crate::order::{chars_lt, str_lt, lemma_chars_lt_irrefl, lemma_chars_lt_trans, lemma_chars_lt_total};

verus! {

/// Identifier of one async job.
#[derive(Debug, Clone, Copy, PartialEq, Eq, Hash, PartialOrd, Ord, Structural)]
pub struct JobId(u64);

impl JobId {
    pub closed spec fn value(self) -> u64 {
        self.0
    }

    pub fn new(id: u64) -> (r: Self)
        ensures
            r.value() == id,
    {
        JobId(id)
    }

    pub fn get(self) -> (r: u64)
        ensures
            r == self.value(),
    {
        self.0
    }
}

/// Job lifecycle.
#[derive(Debug, Clone, Copy, PartialEq, Eq, Structural)]
pub enum JobStatus {
    Running,
    Finished,
    Cancelled,
    Failed,
}

impl JobStatus {
    pub open spec fn text(self) -> Seq<char> {
        match self {
            JobStatus::Running => "running"@,
            JobStatus::Finished => "finished"@,
            JobStatus::Cancelled => "cancelled"@,
            JobStatus::Failed => "failed"@,
        }
    }

    pub fn as_str(self) -> (r: &'static str)
        ensures
            r@ == self.text(),
    {
        match self {
            JobStatus::Running => "running",
            JobStatus::Finished => "finished",
            JobStatus::Cancelled => "cancelled",
            JobStatus::Failed => "failed",
        }
    }
}

/// Cooperative cancellation flag shared between the registry and a
/// worker. Its state can change from any clone at any time, so nothing
/// is promised of what `is_cancelled` reads.
#[derive(Debug, Clone)]
pub struct CancellationToken {
    flag: Arc<AtomicBool>,
}

impl CancellationToken {
    pub fn new() -> Self {
        CancellationToken { flag: Arc::new(AtomicBool::new(false)) }
    }

    /// Raise the flag for every clone.
    pub fn cancel(&self) {
        self.flag.store(true, std::sync::atomic::Ordering::SeqCst);
    }

    pub fn is_cancelled(&self) -> bool {
        self.flag.load(std::sync::atomic::Ordering::SeqCst)
    }
}

/// What a job's body sees of its job: whether it was cancelled.
#[derive(Debug, Clone)]
pub struct JobContext {
    pub cancel: CancellationToken,
}

impl JobContext {
    /// Whether the job was cancelled (read from the shared flag).
    pub fn cancelled(&self) -> bool {
        self.cancel.is_cancelled()
    }
}

/// What a worker reported.
#[derive(Debug)]
pub enum JobOutcome {
    Done(JsonValue),
    Cancelled,
    Failed(String),
}

/// What a poll of a worker's result channel found.
#[derive(Debug)]
pub enum WorkerPoll {
    /// The worker sent its outcome.
    Reported(JobOutcome),
    /// The worker went away without sending one.
    Dropped,
    /// Nothing yet.
    Waiting,
}

/// The outcome a poll yields: the one reported; a failure when the worker
/// dropped its channel without reporting; none while it is still running.
pub fn poll_outcome(p: WorkerPoll) -> (r: Option<JobOutcome>)
    ensures
        match p {
            WorkerPoll::Reported(o) => r == Some(o),
            WorkerPoll::Dropped => r matches Some(JobOutcome::Failed(m))
                && m@ == "async worker dropped before sending result"@,
            WorkerPoll::Waiting => r is None,
        },
{
    match p {
        WorkerPoll::Reported(o) => Some(o),
        WorkerPoll::Dropped => Some(JobOutcome::Failed(str_to_string("async worker dropped before sending result"))),
        WorkerPoll::Waiting => None,
    }
}

/// The status a job ends in for outcome `o`.
pub open spec fn status_for(o: JobOutcome) -> JobStatus {
    match o {
        JobOutcome::Done(_) => JobStatus::Finished,
        JobOutcome::Cancelled => JobStatus::Cancelled,
        JobOutcome::Failed(_) => JobStatus::Failed,
    }
}

/// A job outcome as plain values.
pub enum OutcomeV {
    Done(JsonV),
    Cancelled,
    Failed(Seq<char>),
}

pub open spec fn outcome_view(o: JobOutcome) -> OutcomeV {
    match o {
        JobOutcome::Done(v) => OutcomeV::Done(json_view(v)),
        JobOutcome::Cancelled => OutcomeV::Cancelled,
        JobOutcome::Failed(m) => OutcomeV::Failed(m@),
    }
}

/// The outcome a poll yields, as plain values (see [`poll_outcome`]).
pub open spec fn poll_view(p: WorkerPoll) -> Option<OutcomeV> {
    match p {
        WorkerPoll::Reported(o) => Some(outcome_view(o)),
        WorkerPoll::Dropped => Some(OutcomeV::Failed("async worker dropped before sending result"@)),
        WorkerPoll::Waiting => None,
    }
}

pub open spec fn poll_views(polls: Seq<(JobId, WorkerPoll)>) -> Seq<(JobId, Option<OutcomeV>)> {
    polls.map_values(|p: (JobId, WorkerPoll)| (p.0, poll_view(p.1)))
}

/// A drained job as plain values.
pub struct DrainedV {
    pub plugin_id: Seq<char>,
    pub generation_id: u64,
    pub job_id: JobId,
    pub resource_id: u64,
    pub outcome: OutcomeV,
}

pub open spec fn drained_view(d: DrainedJob) -> DrainedV {
    DrainedV {
        plugin_id: d.plugin_id@,
        generation_id: d.generation_id,
        job_id: d.job_id,
        resource_id: d.resource_id,
        outcome: outcome_view(d.outcome),
    }
}

pub open spec fn drained_views(s: Seq<DrainedJob>) -> Seq<DrainedV> {
    s.map_values(|d: DrainedJob| drained_view(d))
}

/// The records left, and the jobs handed out in order, after taking in
/// the polls `polls` one after another: a poll that found an outcome
/// takes its job's record out (when there is one) and hands it out with
/// that outcome; a poll that found nothing changes nothing.
pub open spec fn drained_after(
    records: Seq<JobRecord>,
    polls: Seq<(JobId, Option<OutcomeV>)>,
) -> (Seq<JobRecord>, Seq<DrainedV>)
    decreases polls.len(),
{
    if polls.len() == 0 {
        (records, Seq::empty())
    } else {
        let (rs, ds) = drained_after(records, polls.drop_last());
        let (id, o) = polls.last();
        match o {
            None => (rs, ds),
            Some(ov) => match first_index(rs, job_is(id)) {
                None => (rs, ds),
                Some(i) => (
                    rs.remove(i),
                    ds.push(
                        DrainedV {
                            plugin_id: rs[i].plugin_id@,
                            generation_id: rs[i].generation_id,
                            job_id: id,
                            resource_id: rs[i].resource_id,
                            outcome: ov,
                        },
                    ),
                ),
            },
        }
    }
}

/// One job.
#[derive(Debug)]
pub struct JobRecord {
    pub plugin_id: String,
    pub generation_id: u64,
    pub job_id: JobId,
    pub resource_id: u64,
    pub status: JobStatus,
    pub started_at: SystemTime,
    pub cancel: CancellationToken,
}

/// A finished job, ready for its completion callback.
#[derive(Debug)]
pub struct DrainedJob {
    pub plugin_id: String,
    pub generation_id: u64,
    pub job_id: JobId,
    pub resource_id: u64,
    pub outcome: JobOutcome,
}

/// A freshly spawned job to record.
#[derive(Debug)]
pub struct AsyncJobRegistration {
    pub plugin_id: String,
    pub generation_id: u64,
    pub job_id: JobId,
    pub resource_id: u64,
    pub cancel: CancellationToken,
}

/// Row of the devtools snapshot.
#[derive(Debug, Clone)]
pub struct AsyncJobSummary {
    pub plugin_id: String,
    pub generation_id: u64,
    pub job_id: u64,
    pub started_at_unix_ms: u128,
    pub status: String,
}

pub open spec fn job_is(job_id: JobId) -> spec_fn(JobRecord) -> bool {
    |r: JobRecord| r.job_id == job_id
}

pub open spec fn of_generation(plugin_id: Seq<char>, generation_id: u64) -> spec_fn(JobRecord) -> bool {
    |r: JobRecord| r.plugin_id@ == plugin_id && r.generation_id == generation_id
}

pub open spec fn not_of_generation(plugin_id: Seq<char>, generation_id: u64) -> spec_fn(JobRecord) -> bool {
    |r: JobRecord| !(r.plugin_id@ == plugin_id && r.generation_id == generation_id)
}

pub open spec fn job_ids(s: Seq<JobRecord>) -> Seq<JobId> {
    s.map_values(|r: JobRecord| r.job_id)
}

/// Jobs of every plugin, one record per job id, in registration order.
pub struct AsyncJobRegistry {
    next_job_id: u64,
    jobs: Vec<JobRecord>,
}

impl AsyncJobRegistry {
    pub closed spec fn records(&self) -> Seq<JobRecord> {
        self.jobs@
    }

    /// The last id handed out (0 before the first).
    pub closed spec fn last_id(&self) -> u64 {
        self.next_job_id
    }

    /// No two records share a job id.
    pub closed spec fn ids_unique(&self) -> bool {
        job_ids(self.jobs@).no_duplicates()
    }

    #[verifier::type_invariant]
    closed spec fn wf(&self) -> bool {
        self.ids_unique()
    }

    pub fn new() -> (r: Self)
        ensures
            r.records() == Seq::<JobRecord>::empty(),
            r.last_id() == 0,
            r.ids_unique(),
    {
        let r = AsyncJobRegistry { next_job_id: 0, jobs: Vec::new() };
        assert(job_ids(r.jobs@) =~= Seq::<JobId>::empty());
        r
    }

    /// The last id handed out (0 before the first).
    pub fn last_job_id(&self) -> (r: u64)
        ensures
            r == self.last_id(),
    {
        self.next_job_id
    }

    /// A fresh id: one more than the last one handed out.
    pub fn allocate_job_id(&mut self) -> (r: JobId)
        requires
            old(self).last_id() < u64::MAX,
        ensures
            r.value() == old(self).last_id() + 1,
            final(self).last_id() == r.value(),
            final(self).records() == old(self).records(),
    {
        proof {
            use_type_invariant(&*self);
        }
        self.next_job_id = self.next_job_id + 1;
        JobId(self.next_job_id)
    }

    fn position_of(&self, job_id: JobId) -> (r: Option<usize>)
        ensures
            match first_index(self.records(), job_is(job_id)) {
                Some(i) => r is Some && r->0 == i,
                None => r is None,
            },
            match r {
                Some(i) => i < self.records().len(),
                None => true,
            },
    {
        let mut i: usize = 0;
        while i < self.jobs.len()
            invariant
                i <= self.jobs.len(),
                forall|k: int| 0 <= k < i ==> !job_is(job_id)(#[trigger] self.jobs@[k]),
            decreases self.jobs.len() - i,
        {
            if self.jobs[i].job_id.0 == job_id.0 {
                proof {
                    lemma_first_index(self.jobs@, job_is(job_id), i as int);
                }
                return Some(i);
            }
            i += 1;
        }
        proof {
            lemma_first_index(self.jobs@, job_is(job_id), i as int);
        }
        None
    }

    /// Record a spawned job as running, replacing a record with the same
    /// id.
    pub fn register(&mut self, registration: AsyncJobRegistration)
        ensures
            final(self).ids_unique(),
            final(self).last_id() == old(self).last_id(),
            ({
                let rec = final(self).records()[match first_index(old(self).records(), job_is(registration.job_id)) {
                    Some(i) => i,
                    None => old(self).records().len() as int,
                }];
                &&& rec.plugin_id == registration.plugin_id
                &&& rec.generation_id == registration.generation_id
                &&& rec.job_id == registration.job_id
                &&& rec.resource_id == registration.resource_id
                &&& rec.status == JobStatus::Running
                &&& rec.cancel == registration.cancel
            }),
            match first_index(old(self).records(), job_is(registration.job_id)) {
                Some(i) => {
                    &&& final(self).records().len() == old(self).records().len()
                    &&& forall|j: int|
                        0 <= j < old(self).records().len() && j != i ==> #[trigger] final(self).records()[j]
                            == old(self).records()[j]
                },
                None => {
                    &&& final(self).records().len() == old(self).records().len() + 1
                    &&& final(self).records().subrange(0, old(self).records().len() as int) == old(self).records()
                },
            },
    {
        proof {
            use_type_invariant(&*self);
        }
        let ghost ids = job_ids(self.jobs@);
        let record = JobRecord {
            plugin_id: registration.plugin_id,
            generation_id: registration.generation_id,
            job_id: registration.job_id,
            resource_id: registration.resource_id,
            status: JobStatus::Running,
            started_at: system_now(),
            cancel: registration.cancel,
        };
        match self.position_of(registration.job_id) {
            Some(i) => {
                proof {
                    lemma_first_index_props(old(self).jobs@, job_is(registration.job_id));
                }
                let mut jobs: Vec<JobRecord> = Vec::new();
                std::mem::swap(&mut jobs, &mut self.jobs);
                jobs.set(i, record);
                assert(job_ids(jobs@) =~= ids);
                self.jobs = jobs;
            },
            None => {
                proof {
                    lemma_first_index_props(old(self).jobs@, job_is(registration.job_id));
                    assert forall|k: int| 0 <= k < ids.len() implies ids[k] != registration.job_id by {
                        assert(!job_is(registration.job_id)(old(self).jobs@[k]));
                    }
                }
                let mut jobs: Vec<JobRecord> = Vec::new();
                std::mem::swap(&mut jobs, &mut self.jobs);
                jobs.push(record);
                assert(job_ids(jobs@) =~= ids.push(registration.job_id));
                assert(jobs@.subrange(0, old(self).jobs@.len() as int) =~= old(self).jobs@);
                self.jobs = jobs;
            },
        }
        proof {
            use_type_invariant(&*self);
        }
    }

    /// Raise the cancel flag of `job_id`; nothing when there is no such
    /// job. The record stays until its outcome comes in.
    pub fn cancel(&self, job_id: JobId)
        ensures
            true,
    {
        match self.position_of(job_id) {
            Some(i) => self.jobs[i].cancel.cancel(),
            None => {},
        }
    }

    /// Take the record of `job_id` out with the worker's outcome: the
    /// job is finished, cancelled or failed according to the outcome and
    /// its completion is handed back. `None` (and no change) when no such
    /// job is recorded, as for a job dropped with its generation.
    pub fn complete(&mut self, job_id: JobId, outcome: JobOutcome) -> (r: Option<DrainedJob>)
        ensures
            final(self).ids_unique(),
            final(self).last_id() == old(self).last_id(),
            match first_index(old(self).records(), job_is(job_id)) {
                Some(i) => {
                    &&& final(self).records() == old(self).records().remove(i)
                    &&& r matches Some(d) && d.plugin_id == old(self).records()[i].plugin_id
                        && d.generation_id == old(self).records()[i].generation_id && d.job_id == job_id
                        && d.resource_id == old(self).records()[i].resource_id && d.outcome == outcome
                },
                None => final(self).records() == old(self).records() && r is None,
            },
    {
        proof {
            use_type_invariant(&*self);
        }
        match self.position_of(job_id) {
            Some(i) => {
                let ghost ids = job_ids(self.jobs@);
                let mut jobs: Vec<JobRecord> = Vec::new();
                std::mem::swap(&mut jobs, &mut self.jobs);
                let mut record = jobs.remove(i);
                record.status = match &outcome {
                    JobOutcome::Done(_) => JobStatus::Finished,
                    JobOutcome::Cancelled => JobStatus::Cancelled,
                    JobOutcome::Failed(_) => JobStatus::Failed,
                };
                proof {
                    assert(job_ids(jobs@) =~= ids.remove(i as int));
                    assert forall|a: int, b: int|
                        0 <= a < b < job_ids(jobs@).len() implies job_ids(jobs@)[a] != job_ids(jobs@)[b] by {
                        let a2 = if a < i { a } else { a + 1 };
                        let b2 = if b < i { b } else { b + 1 };
                        assert(job_ids(jobs@)[a] == ids[a2]);
                        assert(job_ids(jobs@)[b] == ids[b2]);
                    }
                }
                self.jobs = jobs;
                Some(
                    DrainedJob {
                        plugin_id: record.plugin_id,
                        generation_id: record.generation_id,
                        job_id,
                        resource_id: record.resource_id,
                        outcome,
                    },
                )
            },
            None => None,
        }
    }

    /// Take out every job whose worker has finished, from what a poll of
    /// each worker found (`polls`, in the order they were made): a job
    /// whose worker reported is handed out with that outcome, one whose
    /// worker went away without reporting is handed out as failed, and a
    /// job still running stays. Polls for jobs no longer recorded change
    /// nothing.
    pub fn drain_polled(&mut self, polls: Vec<(JobId, WorkerPoll)>) -> (r: Vec<DrainedJob>)
        ensures
            final(self).ids_unique(),
            final(self).last_id() == old(self).last_id(),
            final(self).records() == drained_after(old(self).records(), poll_views(polls@)).0,
            drained_views(r@) == drained_after(old(self).records(), poll_views(polls@)).1,
    {
        proof {
            use_type_invariant(&*self);
        }
        let ghost pv = poll_views(polls@);
        let ghost n = polls@.len();
        let mut rest = polls;
        let total = rest.len();
        let mut out: Vec<DrainedJob> = Vec::new();
        let mut i: usize = 0;
        proof {
            assert(pv.take(0) =~= Seq::<(JobId, Option<OutcomeV>)>::empty());
            assert(drained_views(out@) =~= Seq::<DrainedV>::empty());
        }
        while rest.len() > 0
            invariant
                i + rest@.len() == n,
                n == total,
                pv.len() == n,
                forall|k: int| 0 <= k < rest@.len() ==> pv[i + k] == (rest@[k].0, poll_view(rest@[k].1)),
                self.last_id() == old(self).last_id(),
                (self.records(), drained_views(out@)) == drained_after(old(self).records(), pv.take(i as int)),
            decreases rest@.len(),
        {
            proof {
                use_type_invariant(&*self);
            }
            let ghost rest0 = rest@;
            let (id, poll) = rest.remove(0);
            let ghost pi = pv[i as int];
            assert(pi == (id, poll_view(poll))) by {
                assert(rest0[0] == (id, poll));
            }
            assert forall|k: int| 0 <= k < rest@.len() implies pv[i + 1 + k] == (rest@[k].0, poll_view(rest@[k].1)) by {
                assert(rest@[k] == rest0[k + 1]);
            }
            let ghost before = (self.records(), drained_views(out@));
            assert(pv.take(i + 1).drop_last() =~= pv.take(i as int));
            assert(pv.take(i + 1).last() == pi);
            match poll_outcome(poll) {
                Some(outcome) => {
                    let ghost ov = outcome_view(outcome);
                    match self.complete(id, outcome) {
                        Some(d) => {
                            let ghost prev = out@;
                            out.push(d);
                            assert(drained_views(out@) =~= drained_views(prev).push(drained_view(d)));
                        },
                        None => {},
                    }
                },
                None => {},
            }
            i += 1;
        }
        assert(pv.take(n as int) =~= pv);
        proof {
            use_type_invariant(&*self);
        }
        out
    }

    /// Cancel and forget every job of `(plugin_id, generation_id)` (an
    /// unload or reload). Returns their ids, in registration order; no
    /// completion of theirs is handed out afterwards.
    pub fn cancel_for_generation(&mut self, plugin_id: &str, generation_id: u64) -> (r: Vec<JobId>)
        ensures
            final(self).ids_unique(),
            final(self).last_id() == old(self).last_id(),
            final(self).records() == old(self).records().filter(not_of_generation(plugin_id@, generation_id)),
            r@ == job_ids(old(self).records().filter(of_generation(plugin_id@, generation_id))),
    {
        proof {
            use_type_invariant(&*self);
        }
        let ghost all = self.jobs@;
        assert(all.len() == self.jobs.len());
        let mut kept: Vec<JobRecord> = Vec::new();
        let mut removed: Vec<JobId> = Vec::new();
        let mut taken: Vec<JobRecord> = Vec::new();
        std::mem::swap(&mut taken, &mut self.jobs);
        let mut i: usize = 0;
        proof {
            reveal(Seq::filter);
            assert(all.subrange(0, 0).filter(not_of_generation(plugin_id@, generation_id)) =~= Seq::<JobRecord>::empty());
            assert(all.subrange(0, 0).filter(of_generation(plugin_id@, generation_id)) =~= Seq::<JobRecord>::empty());
            assert(job_ids(Seq::<JobRecord>::empty()) =~= Seq::<JobId>::empty());
        }
        while taken.len() > 0
            invariant
                i + taken@.len() == all.len(),
                all.len() <= usize::MAX,
                taken@ == all.subrange(i as int, all.len() as int),
                kept@ == all.subrange(0, i as int).filter(not_of_generation(plugin_id@, generation_id)),
                removed@ == job_ids(all.subrange(0, i as int).filter(of_generation(plugin_id@, generation_id))),
                self.next_job_id == old(self).next_job_id,
            decreases taken.len(),
        {
            let record = taken.remove(0);
            let ghost x = all[i as int];
            assert(record == x);
            assert(all.subrange(0, i + 1).drop_last() =~= all.subrange(0, i as int));
            assert(all.subrange(0, i + 1).last() == x);
            proof {
                reveal(Seq::filter);
            }
            if str_eq(record.plugin_id.as_str(), plugin_id) && record.generation_id == generation_id {
                record.cancel.cancel();
                let ghost before = job_ids(all.subrange(0, i as int).filter(of_generation(plugin_id@, generation_id)));
                removed.push(record.job_id);
                assert(job_ids(all.subrange(0, i + 1).filter(of_generation(plugin_id@, generation_id))) =~= before.push(
                    x.job_id,
                ));
            } else {
                kept.push(record);
            }
            assert(taken@ =~= all.subrange(i + 1, all.len() as int));
            i += 1;
        }
        assert(all.subrange(0, all.len() as int) =~= all);
        proof {
            lemma_filter_keeps_unique(all, not_of_generation(plugin_id@, generation_id));
        }
        self.jobs = kept;
        removed
    }

    pub fn is_alive(&self, job_id: JobId) -> (r: bool)
        ensures
            r == job_ids(self.records()).contains(job_id),
    {
        let found = self.position_of(job_id);
        proof {
            lemma_first_index_props(self.jobs@, job_is(job_id));
            if job_ids(self.jobs@).contains(job_id) {
                let k = choose|k: int| 0 <= k < job_ids(self.jobs@).len() && job_ids(self.jobs@)[k] == job_id;
                assert(job_is(job_id)(self.jobs@[k]));
            }
            match first_index(self.jobs@, job_is(job_id)) {
                Some(i) => {
                    assert(job_ids(self.jobs@)[i] == job_id);
                },
                None => {},
            }
        }
        found.is_some()
    }

    pub fn has_jobs(&self) -> (r: bool)
        ensures
            r == (self.records().len() > 0),
    {
        self.jobs.len() > 0
    }
}

proof fn lemma_filter_keeps_unique(s: Seq<JobRecord>, p: spec_fn(JobRecord) -> bool)
    requires
        job_ids(s).no_duplicates(),
    ensures
        job_ids(s.filter(p)).no_duplicates(),
        forall|k: int| 0 <= k < s.filter(p).len() ==> job_ids(s).contains(#[trigger] job_ids(s.filter(p))[k]),
    decreases s.len(),
{
    reveal(Seq::filter);
    if s.len() > 0 {
        let t = s.drop_last();
        assert(job_ids(t) =~= job_ids(s).drop_last());
        assert forall|a: int, b: int| 0 <= a < b < job_ids(t).len() implies job_ids(t)[a] != job_ids(t)[b] by {
            assert(job_ids(t)[a] == job_ids(s)[a]);
            assert(job_ids(t)[b] == job_ids(s)[b]);
        }
        lemma_filter_keeps_unique(t, p);
        let last = s.last();
        assert forall|k: int| 0 <= k < t.filter(p).len() implies job_ids(s).contains(#[trigger] job_ids(t.filter(p))[k]) by {
            let j = choose|j: int| 0 <= j < job_ids(t).len() && job_ids(t)[j] == job_ids(t.filter(p))[k];
            assert(job_ids(s)[j] == job_ids(t)[j]);
        }
        if p(last) {
            let f = t.filter(p).push(last);
            assert(s.filter(p) == f);
            assert(job_ids(f) =~= job_ids(t.filter(p)).push(last.job_id));
            assert forall|k: int| 0 <= k < t.filter(p).len() implies job_ids(t.filter(p))[k] != last.job_id by {
                let j = choose|j: int| 0 <= j < job_ids(t).len() && job_ids(t)[j] == job_ids(t.filter(p))[k];
                assert(job_ids(s)[j] == job_ids(t)[j]);
                assert(job_ids(s)[s.len() - 1] == last.job_id);
            }
            assert(job_ids(s)[s.len() - 1] == last.job_id);
        }
    }
}

pub type JobKey = (Seq<char>, u64, u64);

/// `a` sorts before `b`: by plugin id, then generation, then job id.
pub open spec fn job_key_lt(a: JobKey, b: JobKey) -> bool {
    ||| chars_lt(a.0, b.0)
    ||| a.0 == b.0 && a.1 < b.1
    ||| a.0 == b.0 && a.1 == b.1 && a.2 < b.2
}

pub open spec fn summary_key(s: AsyncJobSummary) -> JobKey {
    (s.plugin_id@, s.generation_id, s.job_id)
}

/// `s` is the summary of record `r`.
pub open spec fn summarizes(s: AsyncJobSummary, r: JobRecord) -> bool {
    &&& s.plugin_id@ == r.plugin_id@
    &&& s.generation_id == r.generation_id
    &&& s.job_id == r.job_id.value()
    &&& s.status@ == r.status.text()
}

/// `s` is the summary of one of `records`.
pub open spec fn describes_some(s: AsyncJobSummary, records: Seq<JobRecord>) -> bool {
    exists|k: int| 0 <= k < records.len() && summarizes(s, #[trigger] records[k])
}

fn job_summary_lt(a: &AsyncJobSummary, b: &AsyncJobSummary) -> (r: bool)
    ensures
        r == job_key_lt(summary_key(*a), summary_key(*b)),
{
    if str_lt(a.plugin_id.as_str(), b.plugin_id.as_str()) {
        return true;
    }
    if !str_eq(a.plugin_id.as_str(), b.plugin_id.as_str()) {
        return false;
    }
    a.generation_id < b.generation_id || (a.generation_id == b.generation_id && a.job_id < b.job_id)
}

proof fn lemma_job_key_order(a: JobKey, b: JobKey, c: JobKey)
    ensures
        !job_key_lt(a, a),
        job_key_lt(a, b) && job_key_lt(b, c) ==> job_key_lt(a, c),
        a == b || job_key_lt(a, b) || job_key_lt(b, a),
{
    lemma_chars_lt_irrefl(a.0);
    lemma_chars_lt_total(a.0, b.0);
    if chars_lt(a.0, b.0) && chars_lt(b.0, c.0) {
        lemma_chars_lt_trans(a.0, b.0, c.0);
    }
    if chars_lt(a.0, b.0) && chars_lt(b.0, a.0) {
        lemma_chars_lt_trans(a.0, b.0, a.0);
    }
}

/// Insert `item` into the strictly sorted `out` at its place; its key
/// differs from every key there.
fn insert_by_key(out: &mut Vec<AsyncJobSummary>, item: AsyncJobSummary) -> (p: usize)
    requires
        forall|i: int, j: int| 0 <= i < j < old(out)@.len() ==> job_key_lt(summary_key(#[trigger] old(out)@[i]), summary_key(#[trigger] old(out)@[j])),
        forall|i: int| 0 <= i < old(out)@.len() ==> summary_key(#[trigger] old(out)@[i]) != summary_key(item),
    ensures
        p <= old(out)@.len(),
        final(out)@ == old(out)@.insert(p as int, item),
        forall|i: int, j: int| 0 <= i < j < final(out)@.len() ==> job_key_lt(summary_key(#[trigger] final(out)@[i]), summary_key(#[trigger] final(out)@[j])),
{
    let mut p: usize = 0;
    while p < out.len() && job_summary_lt(&out[p], &item)
        invariant
            p <= out.len(),
            out@ == old(out)@,
            forall|j: int| 0 <= j < p ==> job_key_lt(summary_key(#[trigger] out@[j]), summary_key(item)),
        decreases out.len() - p,
    {
        p += 1;
    }
    let ghost ov = out@;
    proof {
        assert forall|j: int| p <= j < ov.len() implies job_key_lt(summary_key(item), summary_key(#[trigger] ov[j])) by {
            lemma_job_key_order(summary_key(item), summary_key(ov[p as int]), summary_key(ov[j]));
            lemma_job_key_order(summary_key(ov[p as int]), summary_key(item), summary_key(ov[j]));
            if j > p {
                assert(job_key_lt(summary_key(ov[p as int]), summary_key(ov[j])));
            }
        }
    }
    out.insert(p, item);
    assert forall|i: int, j: int| 0 <= i < j < out@.len() implies job_key_lt(summary_key(#[trigger] out@[i]), summary_key(#[trigger] out@[j])) by {
        if j < p {
            assert(out@[i] == ov[i] && out@[j] == ov[j]);
        } else if j == p {
            assert(out@[i] == ov[i]);
        } else if i == p {
            assert(out@[j] == ov[j - 1]);
        } else if i < p {
            assert(out@[i] == ov[i] && out@[j] == ov[j - 1]);
            lemma_job_key_order(summary_key(ov[i]), summary_key(item), summary_key(ov[j - 1]));
        } else {
            assert(out@[i] == ov[i - 1] && out@[j] == ov[j - 1]);
        }
    }
    p
}

impl AsyncJobRegistry {
    /// One summary per job, sorted by plugin id, generation and job id
    /// (each job once: the summaries are as many as the jobs, describe
    /// distinct jobs, and come in strictly increasing key order).
    pub fn summaries(&self) -> (r: Vec<AsyncJobSummary>)
        ensures
            r@.len() == self.records().len(),
            forall|i: int, j: int| 0 <= i < j < r@.len() ==> job_key_lt(summary_key(#[trigger] r@[i]), summary_key(#[trigger] r@[j])),
            forall|i: int| 0 <= i < r@.len() ==> describes_some(#[trigger] r@[i], self.records()),
    {
        proof {
            use_type_invariant(self);
        }
        let mut out: Vec<AsyncJobSummary> = Vec::new();
        let ghost mut perm: Seq<int> = Seq::empty();
        let mut n: usize = 0;
        while n < self.jobs.len()
            invariant
                n <= self.jobs.len(),
                self.ids_unique(),
                out@.len() == n,
                perm.len() == n,
                forall|i: int, j: int| 0 <= i < j < out@.len() ==> job_key_lt(summary_key(#[trigger] out@[i]), summary_key(#[trigger] out@[j])),
                forall|i: int| 0 <= i < n ==> 0 <= #[trigger] perm[i] < n && summarizes(out@[i], self.jobs@[perm[i]]),
            decreases self.jobs.len() - n,
        {
            let r = &self.jobs[n];
            let started = match millis_since_epoch(&r.started_at) {
                Some(ms) => ms,
                None => 0,
            };
            let item = AsyncJobSummary {
                plugin_id: r.plugin_id.clone(),
                generation_id: r.generation_id,
                job_id: r.job_id.get(),
                started_at_unix_ms: started,
                status: str_to_string(r.status.as_str()),
            };
            assert(summarizes(item, self.jobs@[n as int]));
            assert forall|i: int| 0 <= i < out@.len() implies summary_key(#[trigger] out@[i]) != summary_key(item) by {
                let k = perm[i];
                assert(summarizes(out@[i], self.jobs@[k]));
                assert(job_ids(self.jobs@)[k] == self.jobs@[k].job_id);
                assert(job_ids(self.jobs@)[n as int] == self.jobs@[n as int].job_id);
            }
            let ghost ov = out@;
            let ghost old_perm = perm;
            let p = insert_by_key(&mut out, item);
            proof {
                perm = old_perm.insert(p as int, n as int);
                assert forall|i: int| 0 <= i < n + 1 implies 0 <= #[trigger] perm[i] < n + 1 && summarizes(out@[i], self.jobs@[perm[i]]) by {
                    if i < p {
                        assert(out@[i] == ov[i] && perm[i] == old_perm[i]);
                    } else if i == p {
                    } else {
                        assert(out@[i] == ov[i - 1] && perm[i] == old_perm[i - 1]);
                    }
                }
            }
            n += 1;
        }
        assert forall|i: int| 0 <= i < out@.len() implies describes_some(#[trigger] out@[i], self.records()) by {
            let k = perm[i];
            assert(0 <= k < self.records().len());
            assert(self.records()[k] == self.jobs@[k]);
            assert(summarizes(out@[i], self.records()[k]));
        }
        out
    }
}

/// Once a generation is dropped, none of its jobs is alive any more:
/// an id handed back by `cancel_for_generation` is in no record left, so
/// no completion of it is handed out (`complete` answers `None`).
pub proof fn lemma_dropped_jobs_stay_dropped(records: Seq<JobRecord>, plugin_id: Seq<char>, generation_id: u64, id: JobId)
    requires
        job_ids(records).no_duplicates(),
        job_ids(records.filter(of_generation(plugin_id, generation_id))).contains(id),
    ensures
        !job_ids(records.filter(not_of_generation(plugin_id, generation_id))).contains(id),
        first_index(records.filter(not_of_generation(plugin_id, generation_id)), job_is(id)) is None,
    decreases records.len(),
{
    reveal(Seq::filter);
    broadcast use vstd::seq_lib::group_filter_ensures;
    let keep = not_of_generation(plugin_id, generation_id);
    let take = of_generation(plugin_id, generation_id);
    if records.len() > 0 {
        let t = records.drop_last();
        let last = records.last();
        assert(job_ids(t) =~= job_ids(records).drop_last());
        assert forall|a: int, b: int| 0 <= a < b < job_ids(t).len() implies job_ids(t)[a] != job_ids(t)[b] by {
            assert(job_ids(t)[a] == job_ids(records)[a]);
            assert(job_ids(t)[b] == job_ids(records)[b]);
        }
        lemma_filter_keeps_unique(t, keep);
        lemma_filter_keeps_unique(t, take);
        if take(last) {
            assert(records.filter(take) == t.filter(take).push(last));
            assert(records.filter(keep) == t.filter(keep));
            if job_ids(t.filter(take)).contains(id) {
                lemma_dropped_jobs_stay_dropped(t, plugin_id, generation_id, id);
            } else {
                assert(job_ids(records.filter(take)) =~= job_ids(t.filter(take)).push(last.job_id));
                assert(last.job_id == id);
                assert forall|k: int| 0 <= k < t.filter(keep).len() implies job_ids(t.filter(keep))[k] != id by {
                    let j = choose|j: int| 0 <= j < job_ids(t).len() && job_ids(t)[j] == job_ids(t.filter(keep))[k];
                    assert(job_ids(records)[j] == job_ids(t)[j]);
                    assert(job_ids(records)[records.len() - 1] == last.job_id);
                }
            }
        } else {
            assert(records.filter(take) == t.filter(take));
            assert(records.filter(keep) == t.filter(keep).push(last));
            lemma_dropped_jobs_stay_dropped(t, plugin_id, generation_id, id);
            assert(job_ids(records.filter(keep)) =~= job_ids(t.filter(keep)).push(last.job_id));
            assert(last.job_id != id) by {
                let m = choose|m: int| 0 <= m < job_ids(t.filter(take)).len() && job_ids(t.filter(take))[m] == id;
                let j = choose|j: int| 0 <= j < job_ids(t).len() && job_ids(t)[j] == job_ids(t.filter(take))[m];
                assert(job_ids(records)[j] == job_ids(t)[j]);
                assert(job_ids(records)[records.len() - 1] == last.job_id);
            }
        }
    }
    let kept = records.filter(keep);
    lemma_first_index_props(kept, job_is(id));
    if let Some(i) = first_index(kept, job_is(id)) {
        assert(job_ids(kept)[i] == id);
    }
}

} // verus!
