//! How long the stages of a batch proof took, from the timestamps of their
//! jobs, and the text in which durations are shown.
//!
//! Timestamps are microseconds since the Unix epoch.

use vstd::prelude::*;
use crate::decimal::{int_decimal_pad2, push_i64_pad2};
use crate::jobs::{JobInfo, ProverJobFriInfo};
use crate::prover_status::{get_prover_jobs_status_from_vec, prover_jobs_status_view, prover_states};
use crate::stage::{selected_stages, selected_stages_spec, BatchData, StageInfo};
use crate::status::{msg_sent_to_server, Status, StatusView};

verus! {

/// The latest representable date and time (the end of year 262142), in
/// microseconds since the epoch.
pub const MAX_DATETIME_MICROS: i64 = 8210266876799999999i64;

/// The earliest representable date and time (the start of year -262143), in
/// microseconds since the epoch.
pub const MIN_DATETIME_MICROS: i64 = -8334601315200000000i64;

/// Integer division rounded toward zero, as Rust's `/` on signed integers.
pub open spec fn trunc_div(a: int, b: int) -> int
    recommends
        b > 0,
{
    if a >= 0 {
        a / b
    } else {
        -((-a) / b)
    }
}

/// The remainder of [`trunc_div`], as Rust's `%` on signed integers.
pub open spec fn trunc_rem(a: int, b: int) -> int
    recommends
        b > 0,
{
    if a >= 0 {
        a % b
    } else {
        -((-a) % b)
    }
}

/// The whole seconds from `earlier` to `later` (negative when `later` comes
/// first), rounded toward zero.
pub open spec fn whole_seconds_between(later: int, earlier: int) -> int {
    trunc_div(later - earlier, 1_000_000)
}

/// The whole seconds from `earlier` to `later`, rounded toward zero.
pub fn seconds_between(later: i64, earlier: i64) -> (r: i64)
    ensures
        r == whole_seconds_between(later as int, earlier as int),
{
    let diff: i128 = later as i128 - earlier as i128;
    if diff >= 0 {
        (diff / 1_000_000i128) as i64
    } else {
        let q: i128 = (-diff) / 1_000_000i128;
        (-q) as i64
    }
}

/// The proof time of a stage.
#[derive(Clone, Copy, Debug, PartialEq, Eq, Structural)]
pub struct StageProofTime {
    /// Whole seconds from the earliest creation to the latest update.
    pub _proof_time_from_creation: i64,
    /// Whole seconds from the earliest start of processing (or, when no job
    /// started, the latest representable time) to the latest update.
    pub _proof_time_from_processing: i64,
    pub created_datetime: i64,
    pub _processing_datetime: Option<i64>,
    pub updated_datetime: i64,
}

/// The proof time of a stage whose jobs were created, started and updated at
/// the given times.
pub open spec fn proof_time_of(created: i64, processing: Option<i64>, updated: i64) -> StageProofTime {
    StageProofTime {
        _proof_time_from_creation: whole_seconds_between(updated as int, created as int) as i64,
        _proof_time_from_processing: whole_seconds_between(
            updated as int,
            match processing {
                Some(p) => p as int,
                None => MAX_DATETIME_MICROS as int,
            },
        ) as i64,
        created_datetime: created,
        _processing_datetime: processing,
        updated_datetime: updated,
    }
}

fn make_proof_time(created: i64, processing: Option<i64>, updated: i64) -> (r: StageProofTime)
    ensures
        r == proof_time_of(created, processing, updated),
{
    StageProofTime {
        _proof_time_from_creation: seconds_between(updated, created),
        _proof_time_from_processing: seconds_between(
            updated,
            match processing {
                Some(p) => p,
                None => MAX_DATETIME_MICROS,
            },
        ),
        created_datetime: created,
        _processing_datetime: processing,
        updated_datetime: updated,
    }
}

/// The earliest creation time of the jobs, or the latest representable time
/// when there are none.
pub open spec fn earliest_created(jobs: Seq<ProverJobFriInfo>) -> i64
    decreases jobs.len(),
{
    if jobs.len() == 0 {
        MAX_DATETIME_MICROS
    } else {
        let rest = earliest_created(jobs.drop_last());
        if jobs.last()._created_at < rest {
            jobs.last()._created_at
        } else {
            rest
        }
    }
}

/// The latest update time of the jobs, or the earliest representable time
/// when there are none.
pub open spec fn latest_updated(jobs: Seq<ProverJobFriInfo>) -> i64
    decreases jobs.len(),
{
    if jobs.len() == 0 {
        MIN_DATETIME_MICROS
    } else {
        let rest = latest_updated(jobs.drop_last());
        if jobs.last()._updated_at > rest {
            jobs.last()._updated_at
        } else {
            rest
        }
    }
}

/// The earliest start of processing among the jobs that started.
pub open spec fn earliest_processing(jobs: Seq<ProverJobFriInfo>) -> Option<i64>
    decreases jobs.len(),
{
    if jobs.len() == 0 {
        None
    } else {
        let rest = earliest_processing(jobs.drop_last());
        match (jobs.last()._processing_started_at, rest) {
            (Some(p), Some(q)) => if p < q {
                Some(p)
            } else {
                Some(q)
            },
            (Some(p), None) => Some(p),
            (None, _) => rest,
        }
    }
}

/// The proof time of the prover jobs of a stage, when all of them succeeded.
pub open spec fn prover_jobs_proof_time_spec(jobs: Seq<ProverJobFriInfo>, max_attempts: u32) -> Option<
    StageProofTime,
> {
    if prover_jobs_status_view(prover_states(jobs), max_attempts) is Successful {
        Some(proof_time_of(earliest_created(jobs), earliest_processing(jobs), latest_updated(jobs)))
    } else {
        None
    }
}

/// The proof time of the prover jobs of a stage, when all of them succeeded:
/// from the earliest creation (or start of processing) to the latest update.
pub fn prover_jobs_proof_time(prover_jobs_info: &Vec<ProverJobFriInfo>, max_attempts: u32) -> (r:
    Option<StageProofTime>)
    ensures
        r == prover_jobs_proof_time_spec(prover_jobs_info@, max_attempts),
{
    let status = get_prover_jobs_status_from_vec(prover_jobs_info.as_slice(), max_attempts);
    match status {
        Status::Successful => {},
        _ => {
            return None;
        },
    }
    let mut created: i64 = MAX_DATETIME_MICROS;
    let mut updated: i64 = MIN_DATETIME_MICROS;
    let mut processing: Option<i64> = None;
    let mut i: usize = 0;
    while i < prover_jobs_info.len()
        invariant
            i <= prover_jobs_info@.len(),
            created == earliest_created(prover_jobs_info@.subrange(0, i as int)),
            updated == latest_updated(prover_jobs_info@.subrange(0, i as int)),
            processing == earliest_processing(prover_jobs_info@.subrange(0, i as int)),
        decreases prover_jobs_info@.len() - i,
    {
        let job = &prover_jobs_info[i];
        let ghost pre1 = prover_jobs_info@.subrange(0, i + 1);
        assert(pre1.drop_last() == prover_jobs_info@.subrange(0, i as int));
        if job._created_at < created {
            created = job._created_at;
        }
        if job._updated_at > updated {
            updated = job._updated_at;
        }
        match job._processing_started_at {
            Some(p) => {
                match processing {
                    Some(q) => {
                        if p < q {
                            processing = Some(p);
                        }
                    },
                    None => {
                        processing = Some(p);
                    },
                }
            },
            None => {},
        }
        i = i + 1;
    }
    assert(prover_jobs_info@.subrange(0, prover_jobs_info@.len() as int) == prover_jobs_info@);
    Some(make_proof_time(created, processing, updated))
}

/// The earliest start of processing is the start of one of the jobs and no
/// later than any job's start; there is none exactly when no job started.
proof fn lemma_earliest_processing_is_least(jobs: Seq<ProverJobFriInfo>)
    ensures
        earliest_processing(jobs) is None <==> forall|i: int|
            0 <= i < jobs.len() ==> (#[trigger] jobs[i])._processing_started_at is None,
        earliest_processing(jobs) matches Some(p) ==> {
            &&& exists|i: int| 0 <= i < jobs.len() && (#[trigger] jobs[i])._processing_started_at == Some(p)
            &&& forall|i: int|
                0 <= i < jobs.len() ==> ((#[trigger] jobs[i])._processing_started_at matches Some(q) ==> p <= q)
        },
    decreases jobs.len(),
{
    if jobs.len() > 0 {
        let init = jobs.drop_last();
        lemma_earliest_processing_is_least(init);
        let n = jobs.len() - 1;
        assert forall|i: int| 0 <= i < n implies jobs[i] == init[i] by {}
        if let Some(p) = earliest_processing(jobs) {
            if jobs.last()._processing_started_at == Some(p) {
                assert(jobs[n]._processing_started_at == Some(p));
            } else {
                let i = choose|i: int| 0 <= i < init.len() && (#[trigger] init[i])._processing_started_at == Some(p);
                assert(jobs[i]._processing_started_at == Some(p));
            }
        }
    }
}

/// The start of processing of the proof time of successful prover jobs is
/// the earliest start among the jobs: one job's start, no later than any
/// job's start; there is none exactly when no job started.
pub proof fn lemma_proof_time_starts_at_earliest_processing(jobs: Seq<ProverJobFriInfo>, max_attempts: u32)
    ensures
        prover_jobs_proof_time_spec(jobs, max_attempts) matches Some(t) ==> {
            &&& (t._processing_datetime is None <==> forall|i: int|
                0 <= i < jobs.len() ==> (#[trigger] jobs[i])._processing_started_at is None)
            &&& (t._processing_datetime matches Some(p) ==> {
                &&& exists|i: int|
                    0 <= i < jobs.len() && (#[trigger] jobs[i])._processing_started_at == Some(p)
                &&& forall|i: int|
                    0 <= i < jobs.len() ==> ((#[trigger] jobs[i])._processing_started_at matches Some(q)
                        ==> p <= q)
            })
        },
{
    lemma_earliest_processing_is_least(jobs);
}

/// A time in the range of representable dates and times.
pub open spec fn representable_datetime(t: i64) -> bool {
    MIN_DATETIME_MICROS <= t <= MAX_DATETIME_MICROS
}

/// The creation and update times of the jobs are representable dates and
/// times, as those read from the database are.
pub open spec fn jobs_times_representable(jobs: Seq<ProverJobFriInfo>) -> bool {
    forall|i: int|
        0 <= i < jobs.len() ==> representable_datetime((#[trigger] jobs[i])._created_at)
            && representable_datetime(jobs[i]._updated_at)
}

/// The earliest creation of some jobs is one job's creation and no later
/// than any; the latest update is one job's update and no earlier than any.
proof fn lemma_created_and_updated_bounds(jobs: Seq<ProverJobFriInfo>)
    requires
        jobs.len() > 0,
        jobs_times_representable(jobs),
    ensures
        exists|i: int| 0 <= i < jobs.len() && (#[trigger] jobs[i])._created_at == earliest_created(jobs),
        forall|i: int| 0 <= i < jobs.len() ==> earliest_created(jobs) <= (#[trigger] jobs[i])._created_at,
        exists|i: int| 0 <= i < jobs.len() && (#[trigger] jobs[i])._updated_at == latest_updated(jobs),
        forall|i: int| 0 <= i < jobs.len() ==> latest_updated(jobs) >= (#[trigger] jobs[i])._updated_at,
    decreases jobs.len(),
{
    let init = jobs.drop_last();
    let n = jobs.len() - 1;
    assert forall|i: int| 0 <= i < n implies jobs[i] == init[i] by {}
    if jobs.len() == 1 {
        assert(init.len() == 0);
        assert(jobs[0] == jobs.last());
        assert(representable_datetime(jobs[0]._created_at));
    } else {
        assert(jobs_times_representable(init)) by {
            assert forall|i: int| 0 <= i < init.len() implies representable_datetime(
                (#[trigger] init[i])._created_at,
            ) && representable_datetime(init[i]._updated_at) by {
                assert(init[i] == jobs[i]);
            }
        }
        lemma_created_and_updated_bounds(init);
        if jobs.last()._created_at >= earliest_created(init) {
            let i = choose|i: int| 0 <= i < init.len() && (#[trigger] init[i])._created_at == earliest_created(init);
            assert(jobs[i]._created_at == earliest_created(jobs));
        } else {
            assert(jobs[n]._created_at == earliest_created(jobs));
        }
        if jobs.last()._updated_at <= latest_updated(init) {
            let i = choose|i: int| 0 <= i < init.len() && (#[trigger] init[i])._updated_at == latest_updated(init);
            assert(jobs[i]._updated_at == latest_updated(jobs));
        } else {
            assert(jobs[n]._updated_at == latest_updated(jobs));
        }
    }
}

/// The proof time of successful prover jobs spans them: it runs from the
/// earliest creation among the jobs (and from the earliest start of
/// processing among those that started) to the latest update, each of
/// which is the time of one of the jobs (whose times are representable, as
/// those read from the database are).
pub proof fn lemma_prover_proof_time_spans_the_jobs(jobs: Seq<ProverJobFriInfo>, max_attempts: u32)
    requires
        jobs_times_representable(jobs),
    ensures
        prover_jobs_proof_time_spec(jobs, max_attempts) matches Some(t) ==> {
            &&& jobs.len() > 0
            &&& exists|i: int| 0 <= i < jobs.len() && (#[trigger] jobs[i])._created_at == t.created_datetime
            &&& forall|i: int| 0 <= i < jobs.len() ==> t.created_datetime <= (#[trigger] jobs[i])._created_at
            &&& exists|i: int| 0 <= i < jobs.len() && (#[trigger] jobs[i])._updated_at == t.updated_datetime
            &&& forall|i: int| 0 <= i < jobs.len() ==> t.updated_datetime >= (#[trigger] jobs[i])._updated_at
            &&& (t._processing_datetime is None <==> forall|i: int|
                0 <= i < jobs.len() ==> (#[trigger] jobs[i])._processing_started_at is None)
            &&& (t._processing_datetime matches Some(p) ==> {
                &&& exists|i: int|
                    0 <= i < jobs.len() && (#[trigger] jobs[i])._processing_started_at == Some(p)
                &&& forall|i: int|
                    0 <= i < jobs.len() ==> ((#[trigger] jobs[i])._processing_started_at matches Some(q)
                        ==> p <= q)
            })
            &&& t._proof_time_from_creation == whole_seconds_between(
                t.updated_datetime as int,
                t.created_datetime as int,
            )
            &&& t._proof_time_from_processing == whole_seconds_between(
                t.updated_datetime as int,
                match t._processing_datetime {
                    Some(p) => p as int,
                    None => MAX_DATETIME_MICROS as int,
                },
            )
        },
{
    if prover_jobs_proof_time_spec(jobs, max_attempts) is Some {
        assert(jobs.len() > 0) by {
            if jobs.len() == 0 {
                assert(prover_states(jobs).len() == 0);
            }
        }
        lemma_created_and_updated_bounds(jobs);
        lemma_earliest_processing_is_least(jobs);
    }
}

/// The proof time of a stage made of a single job, when there is one.
pub fn last_jobs_proof_time<T: JobInfo>(job_info: &Option<T>) -> (r: Option<StageProofTime>)
    ensures
        r == match job_info {
            Some(job) => Some(
                proof_time_of(
                    job.spec_created_at(),
                    job.spec_processing_started_at(),
                    job.spec_updated_at(),
                ),
            ),
            None => None,
        },
{
    match job_info {
        Some(job) => Some(
            make_proof_time(job._created_at(), job._processing_started_at(), job._updated_at()),
        ),
        None => None,
    }
}

/// What is known of the proof time of a stage.
#[derive(Clone, Copy, Debug, PartialEq, Eq, Structural)]
pub enum StageProofTimeOutcome {
    /// The stage succeeded; the proof time of its prover jobs or of its job
    /// (none for the compressor).
    Finished(Option<StageProofTime>),
    /// The proof was sent to the server; the proof time of the compressor job.
    SentToServer(Option<StageProofTime>),
    /// The stage has another custom status.
    NotSentToServer,
    /// The stage has not finished.
    NotFinished,
}

/// What is known of the proof time of a stage, given the number of attempts
/// after which a job is stuck.
pub open spec fn stage_proof_time_spec(stage_info: StageInfo, max_attempts: u32) -> StageProofTimeOutcome {
    let st = stage_info.spec_witness_generator_jobs_status(max_attempts);
    match st {
        StatusView::Successful => StageProofTimeOutcome::Finished(
            match stage_info {
                StageInfo::BasicWitnessGenerator { prover_jobs_info, .. }
                | StageInfo::LeafWitnessGenerator { prover_jobs_info, .. }
                | StageInfo::NodeWitnessGenerator { prover_jobs_info, .. } => prover_jobs_proof_time_spec(
                    prover_jobs_info@,
                    max_attempts,
                ),
                StageInfo::RecursionTipWitnessGenerator(info) => match info {
                    Some(j) => Some(proof_time_of(j._created_at, j._processing_started_at, j._updated_at)),
                    None => None,
                },
                StageInfo::SchedulerWitnessGenerator(info) => match info {
                    Some(j) => Some(proof_time_of(j._created_at, j._processing_started_at, j._updated_at)),
                    None => None,
                },
                StageInfo::Compressor(_) => None,
            },
        ),
        StatusView::Custom(m) => if m == msg_sent_to_server() {
            StageProofTimeOutcome::SentToServer(
                match stage_info {
                    StageInfo::Compressor(info) => match info {
                        Some(j) => Some(proof_time_of(j._created_at, j._processing_started_at, j._updated_at)),
                        None => None,
                    },
                    _ => None,
                },
            )
        } else {
            StageProofTimeOutcome::NotSentToServer
        },
        _ => StageProofTimeOutcome::NotFinished,
    }
}

/// Whether a custom status message is the one of a proof sent to the server.
fn is_sent_to_server(msg: &String) -> (r: bool)
    ensures
        r == (msg@ == msg_sent_to_server()),
{
    let sent = "Sent to server 📤".to_owned();
    *msg == sent
}

/// What is known of the proof time of a stage, counting a job as stuck after
/// the given number of attempts.
pub fn stage_proof_time(stage_info: &StageInfo, max_attempts: u32) -> (r: StageProofTimeOutcome)
    ensures
        r == stage_proof_time_spec(*stage_info, max_attempts),
{
    let status = stage_info.witness_generator_jobs_status(max_attempts);
    match status {
        Status::Successful => {
            let t = match stage_info {
                StageInfo::BasicWitnessGenerator { prover_jobs_info, .. }
                | StageInfo::LeafWitnessGenerator { prover_jobs_info, .. }
                | StageInfo::NodeWitnessGenerator { prover_jobs_info, .. } => prover_jobs_proof_time(
                    prover_jobs_info,
                    max_attempts,
                ),
                StageInfo::RecursionTipWitnessGenerator(job_info) => last_jobs_proof_time(job_info),
                StageInfo::SchedulerWitnessGenerator(job_info) => last_jobs_proof_time(job_info),
                StageInfo::Compressor(_) => None,
            };
            StageProofTimeOutcome::Finished(t)
        },
        Status::Custom(msg) => {
            if is_sent_to_server(&msg) {
                let t = match stage_info {
                    StageInfo::Compressor(job_info) => last_jobs_proof_time(job_info),
                    _ => None,
                };
                StageProofTimeOutcome::SentToServer(t)
            } else {
                StageProofTimeOutcome::NotSentToServer
            }
        },
        _ => StageProofTimeOutcome::NotFinished,
    }
}

/// The text of a duration given in whole seconds: hours, minutes and seconds,
/// each written with `{:02}`, separated by colons.
pub open spec fn duration_text(total_seconds: int) -> Seq<char> {
    int_decimal_pad2(trunc_div(total_seconds, 3600)) + seq![':'] + int_decimal_pad2(
        trunc_div(trunc_rem(total_seconds, 3600), 60),
    ) + seq![':'] + int_decimal_pad2(trunc_rem(total_seconds, 60))
}

fn div_trunc(a: i64, b: i64) -> (r: i64)
    requires
        b > 1,
    ensures
        r == trunc_div(a as int, b as int),
{
    if a >= 0 {
        a / b
    } else {
        let m: i128 = -(a as i128);
        let q: i128 = m / (b as i128);
        (-q) as i64
    }
}

fn rem_trunc(a: i64, b: i64) -> (r: i64)
    requires
        b > 1,
    ensures
        r == trunc_rem(a as int, b as int),
{
    if a >= 0 {
        a % b
    } else {
        let m: i128 = -(a as i128);
        let q: i128 = m % (b as i128);
        (-q) as i64
    }
}

/// The text of a duration given in whole seconds, `HH:MM:SS`.
pub fn format_duration(total_seconds: i64) -> (r: String)
    ensures
        r@ == duration_text(total_seconds as int),
{
    let hours = div_trunc(total_seconds, 3600);
    let minutes = div_trunc(rem_trunc(total_seconds, 3600), 60);
    let seconds = rem_trunc(total_seconds, 60);
    let mut s = String::new();
    push_i64_pad2(&mut s, hours);
    proof { reveal_strlit(":"); }
    s.append(":");
    push_i64_pad2(&mut s, minutes);
    s.append(":");
    push_i64_pad2(&mut s, seconds);
    s
}

/// The text of the time between the commit and the proof of a batch, given
/// in whole seconds: whole hours, whole minutes modulo 60 and seconds modulo
/// 60, each written with `{:02}`, separated by colons.
pub open spec fn commit_to_proof_text(total_seconds: int) -> Seq<char> {
    int_decimal_pad2(trunc_div(total_seconds, 3600)) + seq![':'] + int_decimal_pad2(
        trunc_rem(trunc_div(total_seconds, 60), 60),
    ) + seq![':'] + int_decimal_pad2(trunc_rem(total_seconds, 60))
}

/// The text of the time between the commit and the proof of a batch.
pub fn format_commit_to_proof_duration(total_seconds: i64) -> (r: String)
    ensures
        r@ == commit_to_proof_text(total_seconds as int),
{
    let hours = div_trunc(total_seconds, 3600);
    let minutes = rem_trunc(div_trunc(total_seconds, 60), 60);
    let seconds = rem_trunc(total_seconds, 60);
    let mut s = String::new();
    push_i64_pad2(&mut s, hours);
    proof { reveal_strlit(":"); }
    s.append(":");
    push_i64_pad2(&mut s, minutes);
    s.append(":");
    push_i64_pad2(&mut s, seconds);
    s
}

/// The number of attempts after which a job counts as stuck when proof times
/// are shown.
pub const PROOF_TIME_MAX_ATTEMPTS: u32 = 10;

/// The proof time recorded for a stage, if any.
pub open spec fn outcome_time(o: StageProofTimeOutcome) -> Option<StageProofTime> {
    match o {
        StageProofTimeOutcome::Finished(t) => t,
        StageProofTimeOutcome::SentToServer(t) => t,
        _ => None,
    }
}

/// The total proof time of a batch.
#[derive(Clone, Copy, Debug, PartialEq, Eq, Structural)]
pub enum TotalProofTime {
    /// The proof was sent to the server: whole seconds from the creation
    /// recorded for the first shown stage to the update recorded for the last.
    SentToServer(i64),
    /// The compressor has another custom status.
    NotSentToServer,
    /// The compressor has no custom status.
    NoCustomStatus,
}

/// The proof was sent to the server but the first or the last shown stage
/// has no recorded proof time.
#[derive(Clone, Copy, Debug, PartialEq, Eq, Structural)]
pub enum ProofTimeError {
    NotFound,
}

/// The proof times of the shown stages of a batch, and its total proof time.
#[derive(Debug, PartialEq, Eq)]
pub struct BatchProofTime {
    pub stages: Vec<StageProofTimeOutcome>,
    pub total: Result<TotalProofTime, ProofTimeError>,
}

/// The proof-time outcomes of a sequence of stages.
pub open spec fn stage_outcomes(stages: Seq<StageInfo>) -> Seq<StageProofTimeOutcome> {
    stages.map_values(|s: StageInfo| stage_proof_time_spec(s, PROOF_TIME_MAX_ATTEMPTS))
}

/// The total proof time of a batch, given the outcomes of the shown stages.
pub open spec fn total_proof_time_spec(b: BatchData, outcomes: Seq<StageProofTimeOutcome>) -> Result<
    TotalProofTime,
    ProofTimeError,
> {
    match b.compressor.spec_witness_generator_jobs_status(PROOF_TIME_MAX_ATTEMPTS) {
        StatusView::Custom(m) => if m == msg_sent_to_server() {
            if outcomes.len() == 0 {
                Err(ProofTimeError::NotFound)
            } else {
                match (outcome_time(outcomes[0]), outcome_time(outcomes.last())) {
                    (Some(first), Some(last)) => Ok(
                        TotalProofTime::SentToServer(
                            whole_seconds_between(
                                last.updated_datetime as int,
                                first.created_datetime as int,
                            ) as i64,
                        ),
                    ),
                    _ => Err(ProofTimeError::NotFound),
                }
            }
        } else {
            Ok(TotalProofTime::NotSentToServer)
        },
        _ => Ok(TotalProofTime::NoCustomStatus),
    }
}

/// The proof times of the stages of a batch that the stage selection shows,
/// and the total proof time of the batch.
pub fn batch_proof_time(batch_data: BatchData, flags: u32) -> (r: BatchProofTime)
    ensures
        r.stages@ == stage_outcomes(selected_stages_spec(batch_data, flags)),
        r.total == total_proof_time_spec(batch_data, r.stages@),
{
    let compressor_status = batch_data.compressor.witness_generator_jobs_status(PROOF_TIME_MAX_ATTEMPTS);
    let ghost b = batch_data;
    let stages = selected_stages(batch_data, flags);
    let mut outcomes: Vec<StageProofTimeOutcome> = Vec::new();
    let mut i: usize = 0;
    while i < stages.len()
        invariant
            i <= stages@.len(),
            outcomes@ == stage_outcomes(stages@.subrange(0, i as int)),
        decreases stages@.len() - i,
    {
        outcomes.push(stage_proof_time(&stages[i], PROOF_TIME_MAX_ATTEMPTS));
        assert(stages@.subrange(0, i + 1) == stages@.subrange(0, i as int).push(stages@[i as int]));
        i = i + 1;
    }
    assert(stages@.subrange(0, stages@.len() as int) == stages@);
    let total = match compressor_status {
        Status::Custom(msg) => {
            if is_sent_to_server(&msg) {
                if outcomes.len() == 0 {
                    Err(ProofTimeError::NotFound)
                } else {
                    let first = time_of_outcome(outcomes[0]);
                    let last = time_of_outcome(outcomes[outcomes.len() - 1]);
                    match (first, last) {
                        (Some(f), Some(l)) => Ok(
                            TotalProofTime::SentToServer(
                                seconds_between(l.updated_datetime, f.created_datetime),
                            ),
                        ),
                        _ => Err(ProofTimeError::NotFound),
                    }
                }
            } else {
                Ok(TotalProofTime::NotSentToServer)
            }
        },
        _ => Ok(TotalProofTime::NoCustomStatus),
    };
    BatchProofTime { stages: outcomes, total }
}

fn time_of_outcome(o: StageProofTimeOutcome) -> (r: Option<StageProofTime>)
    ensures
        r == outcome_time(o),
{
    match o {
        StageProofTimeOutcome::Finished(t) => t,
        StageProofTimeOutcome::SentToServer(t) => t,
        _ => None,
    }
}


/// The hours, minutes and seconds that a duration is shown with add up to
/// it, the minutes and seconds below 60 (for durations that are not
/// negative).
pub proof fn lemma_duration_components(total_seconds: int)
    requires
        total_seconds >= 0,
    ensures
        trunc_div(total_seconds, 3600) * 3600 + trunc_div(trunc_rem(total_seconds, 3600), 60) * 60
            + trunc_rem(total_seconds, 60) == total_seconds,
        0 <= trunc_div(trunc_rem(total_seconds, 3600), 60) < 60,
        0 <= trunc_rem(total_seconds, 60) < 60,
{
    let h = total_seconds / 3600;
    let r = total_seconds % 3600;
    assert(total_seconds == h * 3600 + r);
    let m = r / 60;
    let s = r % 60;
    assert(r == m * 60 + s);
    assert(total_seconds % 60 == s) by {
        assert(total_seconds == (h * 60 + m) * 60 + s) by (nonlinear_arith)
            requires
                total_seconds == h * 3600 + r,
                r == m * 60 + s,
        ;
        vstd::arithmetic::div_mod::lemma_fundamental_div_mod_converse(
            total_seconds,
            60,
            h * 60 + m,
            s,
        );
    }
}

} // verus!
