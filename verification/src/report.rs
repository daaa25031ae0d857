//! What is shown of a stage of a batch proof: its status, the status of its
//! prover jobs per circuit, the job counts of circuits in progress, the stuck
//! jobs of stuck circuits, and the witness jobs of a stage by circuit.

use vstd::prelude::*;
use crate::grouping::{distinct_sorted_keys, sorted_distinct_keys};
use crate::jobs::{AggregationRound, CircuitJob, ProverJobFriInfo};
use crate::prover_status::{
    get_witness_generator_job_status, prover_job_stuck, prover_jobs_status_view, prover_states,
    prover_states_status, witness_job_status_view, witness_job_stuck,
};
use crate::stage::StageInfo;
use crate::status::{ProverJobStatus, Status, StatusView, WitnessJobStatus};

verus! {

/// The (status, attempts) pairs of the jobs of one circuit, in listed order.
pub open spec fn circuit_states(jobs: Seq<ProverJobFriInfo>, k: u32) -> Seq<(ProverJobStatus, u32)>
    decreases jobs.len(),
{
    if jobs.len() == 0 {
        Seq::empty()
    } else {
        let rest = circuit_states(jobs.drop_last(), k);
        let j = jobs.last();
        if j._circuit_id == k {
            rest.push((j._status, j._attempts))
        } else {
            rest
        }
    }
}

/// The (id, attempts) pairs of the stuck jobs of one circuit, in listed order.
pub open spec fn circuit_stuck_jobs(jobs: Seq<ProverJobFriInfo>, k: u32, max_attempts: u32) -> Seq<
    (u32, u32),
>
    decreases jobs.len(),
{
    if jobs.len() == 0 {
        Seq::empty()
    } else {
        let rest = circuit_stuck_jobs(jobs.drop_last(), k, max_attempts);
        let j = jobs.last();
        if j._circuit_id == k && prover_job_stuck(j._status, j._attempts, max_attempts) {
            rest.push((j._id, j._attempts))
        } else {
            rest
        }
    }
}

/// The number of pairs with the given status.
pub open spec fn status_count(states: Seq<(ProverJobStatus, u32)>, x: ProverJobStatus) -> nat
    decreases states.len(),
{
    if states.len() == 0 {
        0
    } else {
        status_count(states.drop_last(), x) + if states.last().0 == x {
            1nat
        } else {
            0nat
        }
    }
}

/// The number of jobs of a circuit in each of the statuses that are counted.
#[derive(Clone, Copy, Debug, PartialEq, Eq, Structural)]
pub struct JobCountStatistics {
    pub queued: usize,
    pub in_progress: usize,
    pub successful: usize,
    pub failed: usize,
}

/// The counts of a sequence of (status, attempts) pairs.
pub open spec fn counts_of(states: Seq<(ProverJobStatus, u32)>) -> JobCountStatistics {
    JobCountStatistics {
        queued: status_count(states, ProverJobStatus::Queued) as usize,
        in_progress: status_count(states, ProverJobStatus::InProgress) as usize,
        successful: status_count(states, ProverJobStatus::Successful) as usize,
        failed: status_count(states, ProverJobStatus::Failed) as usize,
    }
}

proof fn lemma_status_count_bound(states: Seq<(ProverJobStatus, u32)>, x: ProverJobStatus)
    ensures
        status_count(states, x) <= states.len(),
    decreases states.len(),
{
    if states.len() > 0 {
        lemma_status_count_bound(states.drop_last(), x);
    }
}

proof fn lemma_circuit_states_len(jobs: Seq<ProverJobFriInfo>, k: u32)
    ensures
        circuit_states(jobs, k).len() <= jobs.len(),
    decreases jobs.len(),
{
    if jobs.len() > 0 {
        lemma_circuit_states_len(jobs.drop_last(), k);
    }
}

/// The prover jobs of one circuit as shown: their status, their number, the
/// counts per status when in progress, and the stuck jobs when stuck.
#[derive(Clone, Debug, PartialEq, Eq)]
pub struct CircuitJobsReport {
    pub circuit_id: u32,
    pub status: Status,
    pub total_jobs: usize,
    pub counts: Option<JobCountStatistics>,
    pub stuck_jobs: Vec<(u32, u32)>,
}

/// `r` shows the prover jobs of circuit `k` among `jobs`.
pub open spec fn circuit_report_spec(
    r: CircuitJobsReport,
    jobs: Seq<ProverJobFriInfo>,
    k: u32,
    max_attempts: u32,
) -> bool {
    let states = circuit_states(jobs, k);
    let st = prover_jobs_status_view(states, max_attempts);
    &&& r.circuit_id == k
    &&& r.status@ == st
    &&& r.total_jobs == states.len()
    &&& r.counts == (if st is InProgress {
        Some(counts_of(states))
    } else {
        None
    })
    &&& r.stuck_jobs@ == (if st is Stuck {
        circuit_stuck_jobs(jobs, k, max_attempts)
    } else {
        Seq::empty()
    })
}

/// The prover jobs of circuit `circuit_id` as shown.
pub fn circuit_jobs_report(jobs: &Vec<ProverJobFriInfo>, circuit_id: u32, max_attempts: u32) -> (r:
    CircuitJobsReport)
    ensures
        circuit_report_spec(r, jobs@, circuit_id, max_attempts),
{
    let mut states: Vec<(ProverJobStatus, u32)> = Vec::new();
    let mut stuck: Vec<(u32, u32)> = Vec::new();
    let mut queued: usize = 0;
    let mut in_progress: usize = 0;
    let mut successful: usize = 0;
    let mut failed: usize = 0;
    let mut i: usize = 0;
    while i < jobs.len()
        invariant
            i <= jobs@.len(),
            states@ == circuit_states(jobs@.subrange(0, i as int), circuit_id),
            stuck@ == circuit_stuck_jobs(jobs@.subrange(0, i as int), circuit_id, max_attempts),
            queued == status_count(states@, ProverJobStatus::Queued),
            in_progress == status_count(states@, ProverJobStatus::InProgress),
            successful == status_count(states@, ProverJobStatus::Successful),
            failed == status_count(states@, ProverJobStatus::Failed),
            states@.len() <= i,
        decreases jobs@.len() - i,
    {
        let ghost pre = jobs@.subrange(0, i as int);
        let ghost pre1 = jobs@.subrange(0, i + 1);
        assert(pre1.drop_last() == pre);
        assert(pre1.last() == jobs@[i as int]);
        let ghost old_states = states@;
        proof {
            lemma_status_count_bound(old_states, ProverJobStatus::Queued);
            lemma_status_count_bound(old_states, ProverJobStatus::InProgress);
            lemma_status_count_bound(old_states, ProverJobStatus::Successful);
            lemma_status_count_bound(old_states, ProverJobStatus::Failed);
        }
        let job = &jobs[i];
        if job._circuit_id == circuit_id {
            let status = job._status;
            states.push((status, job._attempts));
            assert(states@.drop_last() == old_states);
            if status == ProverJobStatus::Queued {
                queued = queued + 1;
            } else if status == ProverJobStatus::InProgress {
                in_progress = in_progress + 1;
            } else if status == ProverJobStatus::Successful {
                successful = successful + 1;
            } else if status == ProverJobStatus::Failed {
                failed = failed + 1;
            }
            if (status == ProverJobStatus::Failed || status == ProverJobStatus::InProgress)
                && job._attempts >= max_attempts {
                stuck.push((job._id, job._attempts));
            }
        }
        i = i + 1;
    }
    assert(jobs@.subrange(0, jobs@.len() as int) == jobs@);
    let status = prover_states_status(&states, max_attempts);
    let total_jobs = states.len();
    let counts = match status {
        Status::InProgress => Some(
            JobCountStatistics { queued, in_progress, successful, failed },
        ),
        _ => None,
    };
    let stuck_jobs = match status {
        Status::Stuck => stuck,
        _ => Vec::new(),
    };
    CircuitJobsReport { circuit_id, status, total_jobs, counts, stuck_jobs }
}

/// The number of pairs with status `x` among the states of circuit `k` is
/// the number of the circuit's jobs with that status.
proof fn lemma_status_count_is_job_count(jobs: Seq<ProverJobFriInfo>, k: u32, x: ProverJobStatus)
    ensures
        status_count(circuit_states(jobs, k), x) == jobs.filter(
            |j: ProverJobFriInfo| j._circuit_id == k && j._status == x,
        ).len(),
        circuit_states(jobs, k).len() == jobs.filter(|j: ProverJobFriInfo| j._circuit_id == k).len(),
    decreases jobs.len(),
{
    reveal(Seq::filter);
    if jobs.len() > 0 {
        lemma_status_count_is_job_count(jobs.drop_last(), k, x);
        let rest = circuit_states(jobs.drop_last(), k);
        let j = jobs.last();
        if j._circuit_id == k {
            assert(circuit_states(jobs, k).drop_last() == rest);
            assert(circuit_states(jobs, k).last() == (j._status, j._attempts));
        }
    }
}

/// The counts of distinct statuses add up to at most the number of pairs.
proof fn lemma_counts_within_total(states: Seq<(ProverJobStatus, u32)>)
    ensures
        status_count(states, ProverJobStatus::Queued) + status_count(states, ProverJobStatus::InProgress)
            + status_count(states, ProverJobStatus::Successful) + status_count(
            states,
            ProverJobStatus::Failed,
        ) <= states.len(),
    decreases states.len(),
{
    if states.len() > 0 {
        lemma_counts_within_total(states.drop_last());
    }
}

/// The counts shown for a circuit in progress are the numbers of the
/// circuit's jobs that are queued, in progress, successful and failed, each
/// counting the jobs of its own status, and they add up to at most the
/// circuit's number of jobs, which is the number of its jobs.
pub proof fn lemma_circuit_counts_count_jobs(
    r: CircuitJobsReport,
    jobs: Seq<ProverJobFriInfo>,
    k: u32,
    max_attempts: u32,
)
    requires
        circuit_report_spec(r, jobs, k, max_attempts),
    ensures
        r.total_jobs == jobs.filter(|j: ProverJobFriInfo| j._circuit_id == k).len(),
        r.counts matches Some(c) ==> {
            &&& c.queued == jobs.filter(
                |j: ProverJobFriInfo| j._circuit_id == k && j._status == ProverJobStatus::Queued,
            ).len()
            &&& c.in_progress == jobs.filter(
                |j: ProverJobFriInfo| j._circuit_id == k && j._status == ProverJobStatus::InProgress,
            ).len()
            &&& c.successful == jobs.filter(
                |j: ProverJobFriInfo| j._circuit_id == k && j._status == ProverJobStatus::Successful,
            ).len()
            &&& c.failed == jobs.filter(
                |j: ProverJobFriInfo| j._circuit_id == k && j._status == ProverJobStatus::Failed,
            ).len()
            &&& c.queued + c.in_progress + c.successful + c.failed <= r.total_jobs
        },
{
    let states = circuit_states(jobs, k);
    lemma_status_count_is_job_count(jobs, k, ProverJobStatus::Queued);
    lemma_status_count_is_job_count(jobs, k, ProverJobStatus::InProgress);
    lemma_status_count_is_job_count(jobs, k, ProverJobStatus::Successful);
    lemma_status_count_is_job_count(jobs, k, ProverJobStatus::Failed);
    lemma_status_count_bound(states, ProverJobStatus::Queued);
    lemma_status_count_bound(states, ProverJobStatus::InProgress);
    lemma_status_count_bound(states, ProverJobStatus::Successful);
    lemma_status_count_bound(states, ProverJobStatus::Failed);
    lemma_counts_within_total(states);
}

/// The prover jobs of a stage as shown: their status and, unless all of them
/// are successful or there are none, a report per circuit in increasing
/// circuit order.
#[derive(Clone, Debug, PartialEq, Eq)]
pub struct ProverJobsReport {
    pub status: Status,
    pub circuits: Vec<CircuitJobsReport>,
}

/// `r` shows the prover jobs `jobs`.
pub open spec fn prover_jobs_report_spec(
    r: ProverJobsReport,
    jobs: Seq<ProverJobFriInfo>,
    max_attempts: u32,
) -> bool {
    let st = prover_jobs_status_view(prover_states(jobs), max_attempts);
    &&& r.status@ == st
    &&& if st is Successful || st is JobsNotFound {
        r.circuits@.len() == 0
    } else {
        &&& distinct_sorted_keys(
            jobs.map_values(|j: ProverJobFriInfo| j._circuit_id),
            r.circuits@.map_values(|c: CircuitJobsReport| c.circuit_id),
        )
        &&& forall|t: int|
            0 <= t < r.circuits@.len() ==> circuit_report_spec(
                #[trigger] r.circuits@[t],
                jobs,
                r.circuits@[t].circuit_id,
                max_attempts,
            )
    }
}

/// The prover jobs of a stage as shown.
pub fn prover_jobs_report(jobs: &Vec<ProverJobFriInfo>, max_attempts: u32) -> (r: ProverJobsReport)
    ensures
        prover_jobs_report_spec(r, jobs@, max_attempts),
{
    let status = crate::prover_status::get_prover_jobs_status_from_vec(jobs.as_slice(), max_attempts);
    match status {
        Status::Successful | Status::JobsNotFound => {
            return ProverJobsReport { status, circuits: Vec::new() };
        },
        _ => {},
    }
    let mut ids: Vec<u32> = Vec::new();
    let mut i: usize = 0;
    while i < jobs.len()
        invariant
            i <= jobs@.len(),
            ids@ == jobs@.subrange(0, i as int).map_values(|j: ProverJobFriInfo| j._circuit_id),
        decreases jobs@.len() - i,
    {
        ids.push(jobs[i]._circuit_id);
        i = i + 1;
    }
    assert(jobs@.subrange(0, jobs@.len() as int) == jobs@);
    let keys = sorted_distinct_keys(&ids);
    let mut circuits: Vec<CircuitJobsReport> = Vec::new();
    let mut t: usize = 0;
    while t < keys.len()
        invariant
            t <= keys@.len(),
            circuits@.len() == t,
            forall|u: int| 0 <= u < t ==> #[trigger] circuits@[u].circuit_id == keys@[u],
            forall|u: int|
                0 <= u < t ==> circuit_report_spec(
                    #[trigger] circuits@[u],
                    jobs@,
                    circuits@[u].circuit_id,
                    max_attempts,
                ),
        decreases keys@.len() - t,
    {
        let report = circuit_jobs_report(jobs, keys[t], max_attempts);
        circuits.push(report);
        t = t + 1;
    }
    assert(circuits@.map_values(|c: CircuitJobsReport| c.circuit_id) == keys@);
    ProverJobsReport { status, circuits }
}

/// The (circuit id, status) pairs of the witness jobs of circuit `k`, in listed order.
pub open spec fn circuit_witness_statuses(
    jobs: Seq<(u32, WitnessJobStatus, u32)>,
    k: u32,
    max_attempts: u32,
) -> Seq<(u32, StatusView)>
    decreases jobs.len(),
{
    if jobs.len() == 0 {
        Seq::empty()
    } else {
        let rest = circuit_witness_statuses(jobs.drop_last(), k, max_attempts);
        let j = jobs.last();
        if j.0 == k {
            rest.push((k, witness_job_status_view(j.1, j.2, max_attempts)))
        } else {
            rest
        }
    }
}

/// The (circuit id, status) pairs of the witness jobs of the given circuits,
/// circuit after circuit.
pub open spec fn witness_statuses_by_circuits(
    jobs: Seq<(u32, WitnessJobStatus, u32)>,
    keys: Seq<u32>,
    max_attempts: u32,
) -> Seq<(u32, StatusView)>
    decreases keys.len(),
{
    if keys.len() == 0 {
        Seq::empty()
    } else {
        witness_statuses_by_circuits(jobs, keys.drop_last(), max_attempts) + circuit_witness_statuses(
            jobs,
            keys.last(),
            max_attempts,
        )
    }
}

/// The circuit ids of a sequence of (circuit id, status, attempts) triples.
pub open spec fn triple_circuit_ids(jobs: Seq<(u32, WitnessJobStatus, u32)>) -> Seq<u32> {
    jobs.map_values(|j: (u32, WitnessJobStatus, u32)| j.0)
}

/// The statuses of the pairs of a list, by their view.
pub open spec fn status_pairs_view(r: Seq<(u32, Status)>) -> Seq<(u32, StatusView)> {
    r.map_values(|p: (u32, Status)| (p.0, p.1@))
}

/// The witness jobs of a stage as shown: each job's circuit id and status,
/// ordered by circuit id, jobs of one circuit in listed order (a stable sort).
/// Each job is given as its (circuit id, status, attempts).
pub fn witness_jobs_by_circuit(jobs: &Vec<(u32, WitnessJobStatus, u32)>, max_attempts: u32) -> (r:
    Vec<(u32, Status)>)
    ensures
        exists|keys: Seq<u32>|
            distinct_sorted_keys(triple_circuit_ids(jobs@), keys)
                && status_pairs_view(r@) == witness_statuses_by_circuits(jobs@, keys, max_attempts),
{
    let mut ids: Vec<u32> = Vec::new();
    let mut i: usize = 0;
    while i < jobs.len()
        invariant
            i <= jobs@.len(),
            ids@ == triple_circuit_ids(jobs@.subrange(0, i as int)),
        decreases jobs@.len() - i,
    {
        ids.push(jobs[i].0);
        i = i + 1;
    }
    assert(jobs@.subrange(0, jobs@.len() as int) == jobs@);
    let keys = sorted_distinct_keys(&ids);
    let mut out: Vec<(u32, Status)> = Vec::new();
    let mut t: usize = 0;
    while t < keys.len()
        invariant
            t <= keys@.len(),
            status_pairs_view(out@) == witness_statuses_by_circuits(
                jobs@,
                keys@.subrange(0, t as int),
                max_attempts,
            ),
        decreases keys@.len() - t,
    {
        let k = keys[t];
        let ghost before = out@;
        let mut j: usize = 0;
        while j < jobs.len()
            invariant
                j <= jobs@.len(),
                out@.len() >= before.len(),
                out@.subrange(0, before.len() as int) == before,
                status_pairs_view(out@.subrange(before.len() as int, out@.len() as int))
                    == circuit_witness_statuses(jobs@.subrange(0, j as int), k, max_attempts),
            decreases jobs@.len() - j,
        {
            let (c, s, a) = jobs[j];
            let ghost pre = jobs@.subrange(0, j as int);
            let ghost pre1 = jobs@.subrange(0, j + 1);
            assert(pre1.drop_last() == pre);
            let ghost old_out = out@;
            if c == k {
                let st = if (s == WitnessJobStatus::Failed || s == WitnessJobStatus::InProgress) && a
                    >= max_attempts {
                    Status::Stuck
                } else {
                    Status::from_witness_job_status(s)
                };
                out.push((k, st));
                assert(out@.subrange(before.len() as int, out@.len() as int) == old_out.subrange(
                    before.len() as int,
                    old_out.len() as int,
                ).push((k, st)));
            }
            assert(out@.subrange(0, before.len() as int) == before);
            j = j + 1;
        }
        assert(jobs@.subrange(0, jobs@.len() as int) == jobs@);
        let ghost ks = keys@.subrange(0, t + 1);
        assert(ks.drop_last() == keys@.subrange(0, t as int));
        assert(out@ == before + out@.subrange(before.len() as int, out@.len() as int));
        t = t + 1;
    }
    assert(keys@.subrange(0, keys@.len() as int) == keys@);
    out
}

/// A stage as shown in the short listing: its name, its aggregation round,
/// its status and, when it is in progress or successful, the status of its
/// prover jobs.
#[derive(Clone, Debug, PartialEq, Eq)]
pub struct StageStatusReport {
    pub stage_name: String,
    pub aggregation_round: Option<AggregationRound>,
    pub status: Status,
    pub prover_jobs_status: Option<Status>,
}

/// A stage as shown in the short listing.
pub fn stage_status_report(stage_info: &StageInfo, max_attempts: u32) -> (r: StageStatusReport)
    ensures
        r.stage_name@ == stage_info.spec_name(),
        r.aggregation_round == stage_info.spec_aggregation_round(),
        r.status@ == stage_info.spec_witness_generator_jobs_status(max_attempts),
        match r.prover_jobs_status {
            Some(p) => (r.status@ is InProgress || r.status@ is Successful)
                && stage_info.spec_prover_jobs_status(max_attempts) == Some(p@),
            None => !(r.status@ is InProgress || r.status@ is Successful)
                || stage_info.spec_prover_jobs_status(max_attempts) is None,
        },
{
    let status = stage_info.witness_generator_jobs_status(max_attempts);
    let prover_jobs_status = match status {
        Status::InProgress | Status::Successful => stage_info.prover_jobs_status(max_attempts),
        _ => None,
    };
    StageStatusReport {
        stage_name: stage_info.stage_name(),
        aggregation_round: stage_info.aggregation_round(),
        status,
        prover_jobs_status,
    }
}

/// The (circuit id, status, attempts) triples of a sequence of witness jobs.
pub open spec fn circuit_job_triples<T: CircuitJob>(jobs: Seq<T>) -> Seq<(u32, WitnessJobStatus, u32)> {
    jobs.map_values(|j: T| (j.spec_circuit_id(), j.spec_status(), j.spec_attempts()))
}

/// The (circuit id, status, attempts) triples of a sequence of witness jobs.
pub fn circuit_job_triples_of<T: CircuitJob>(jobs: &Vec<T>) -> (r: Vec<(u32, WitnessJobStatus, u32)>)
    ensures
        r@ == circuit_job_triples(jobs@),
{
    let mut out: Vec<(u32, WitnessJobStatus, u32)> = Vec::new();
    let mut i: usize = 0;
    while i < jobs.len()
        invariant
            i <= jobs@.len(),
            out@ == circuit_job_triples(jobs@.subrange(0, i as int)),
        decreases jobs@.len() - i,
    {
        out.push((jobs[i].circuit_id(), jobs[i].get_status(), jobs[i].get_attempts()));
        proof {
            assert(jobs@.subrange(0, i + 1) == jobs@.subrange(0, i as int).push(jobs@[i as int]));
        }
        i = i + 1;
    }
    assert(jobs@.subrange(0, jobs@.len() as int) == jobs@);
    out
}

/// A stage as shown in the detailed listing: its name, aggregation round and
/// status; for a leaf or node stage in progress or stuck, its witness jobs by
/// circuit; for a basic, leaf or node stage in progress, stuck or successful,
/// its prover jobs.
#[derive(Clone, Debug, PartialEq, Eq)]
pub struct StageInfoReport {
    pub stage_name: String,
    pub aggregation_round: Option<AggregationRound>,
    pub status: Status,
    pub witness_jobs: Vec<(u32, Status)>,
    pub prover_jobs: Option<ProverJobsReport>,
}

/// The prover jobs of a stage, for the stages that have them.
pub open spec fn stage_prover_jobs(stage_info: StageInfo) -> Option<Seq<ProverJobFriInfo>> {
    match stage_info {
        StageInfo::BasicWitnessGenerator { prover_jobs_info, .. }
        | StageInfo::LeafWitnessGenerator { prover_jobs_info, .. }
        | StageInfo::NodeWitnessGenerator { prover_jobs_info, .. } => Some(prover_jobs_info@),
        _ => None,
    }
}

/// The witness jobs of a stage as circuit triples, for the leaf and node stages.
pub open spec fn stage_circuit_jobs(stage_info: StageInfo) -> Option<Seq<(u32, WitnessJobStatus, u32)>> {
    match stage_info {
        StageInfo::LeafWitnessGenerator { witness_generator_jobs_info, .. } => Some(
            circuit_job_triples(witness_generator_jobs_info@),
        ),
        StageInfo::NodeWitnessGenerator { witness_generator_jobs_info, .. } => Some(
            circuit_job_triples(witness_generator_jobs_info@),
        ),
        _ => None,
    }
}

/// A stage as shown in the detailed listing.
pub fn stage_info_report(stage_info: &StageInfo, max_attempts: u32) -> (r: StageInfoReport)
    ensures
        r.stage_name@ == stage_info.spec_name(),
        r.aggregation_round == stage_info.spec_aggregation_round(),
        r.status@ == stage_info.spec_witness_generator_jobs_status(max_attempts),
        match (r.prover_jobs, stage_prover_jobs(*stage_info)) {
            (Some(p), Some(jobs)) => (r.status@ is InProgress || r.status@ is Stuck
                || r.status@ is Successful) && prover_jobs_report_spec(p, jobs, max_attempts),
            (None, Some(_)) => !(r.status@ is InProgress || r.status@ is Stuck
                || r.status@ is Successful),
            (Some(_), None) => false,
            (None, None) => true,
        },
        match stage_circuit_jobs(*stage_info) {
            Some(triples) => if r.status@ is InProgress || r.status@ is Stuck {
                exists|keys: Seq<u32>|
                    distinct_sorted_keys(triple_circuit_ids(triples), keys)
                        && status_pairs_view(r.witness_jobs@) == witness_statuses_by_circuits(
                        triples,
                        keys,
                        max_attempts,
                    )
            } else {
                r.witness_jobs@.len() == 0
            },
            None => r.witness_jobs@.len() == 0,
        },
{
    let status = stage_info.witness_generator_jobs_status(max_attempts);
    let detailed = match status {
        Status::InProgress | Status::Stuck => true,
        _ => false,
    };
    assert(detailed <==> (status@ is InProgress || status@ is Stuck));
    let with_prover_jobs = match status {
        Status::InProgress | Status::Stuck | Status::Successful => true,
        _ => false,
    };
    let ghost mut wkeys: Seq<u32> = Seq::empty();
    let witness_jobs = match stage_info {
        StageInfo::LeafWitnessGenerator { witness_generator_jobs_info, .. } => {
            if detailed {
                let triples = circuit_job_triples_of(witness_generator_jobs_info);
                let w = witness_jobs_by_circuit(&triples, max_attempts);
                assert(stage_circuit_jobs(*stage_info) == Some(triples@));
                proof {
                    wkeys = choose|keys: Seq<u32>|
                        distinct_sorted_keys(triple_circuit_ids(triples@), keys)
                            && status_pairs_view(w@) == witness_statuses_by_circuits(
                            triples@,
                            keys,
                            max_attempts,
                        );
                }
                w
            } else {
                Vec::new()
            }
        },
        StageInfo::NodeWitnessGenerator { witness_generator_jobs_info, .. } => {
            if detailed {
                let triples = circuit_job_triples_of(witness_generator_jobs_info);
                let w = witness_jobs_by_circuit(&triples, max_attempts);
                assert(stage_circuit_jobs(*stage_info) == Some(triples@));
                proof {
                    wkeys = choose|keys: Seq<u32>|
                        distinct_sorted_keys(triple_circuit_ids(triples@), keys)
                            && status_pairs_view(w@) == witness_statuses_by_circuits(
                            triples@,
                            keys,
                            max_attempts,
                        );
                }
                w
            } else {
                Vec::new()
            }
        },
        _ => Vec::new(),
    };
    let prover_jobs = match stage_info {
        StageInfo::BasicWitnessGenerator { prover_jobs_info, .. }
        | StageInfo::LeafWitnessGenerator { prover_jobs_info, .. }
        | StageInfo::NodeWitnessGenerator { prover_jobs_info, .. } => {
            if with_prover_jobs {
                Some(prover_jobs_report(prover_jobs_info, max_attempts))
            } else {
                None
            }
        },
        _ => None,
    };
    let r = StageInfoReport {
        stage_name: stage_info.stage_name(),
        aggregation_round: stage_info.aggregation_round(),
        status,
        witness_jobs,
        prover_jobs,
    };
    proof {
        if let Some(triples) = stage_circuit_jobs(*stage_info) {
            if r.status@ is InProgress || r.status@ is Stuck {
                assert(distinct_sorted_keys(triple_circuit_ids(triples), wkeys)
                    && status_pairs_view(r.witness_jobs@) == witness_statuses_by_circuits(
                    triples,
                    wkeys,
                    max_attempts,
                ));
            }
        }
    }
    r
}

} // verus!
