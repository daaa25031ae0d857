//! The status of each stage of a batch proof, derived from the jobs of the
//! stage, and the laws that these derivations keep.

use vstd::prelude::*;
use crate::jobs::{
    AggregationRound, BasicWitnessGeneratorJobInfo, LeafWitnessGeneratorJobInfo,
    NodeWitnessGeneratorJobInfo, ProofCompressionJobInfo, ProverJobFriInfo,
    RecursionTipWitnessGeneratorJobInfo, SchedulerWitnessGeneratorJobInfo,
};
use crate::status::{
    compression_status_view, prover_status_view, witness_status_view, msg_all_in_gpu_proof,
    ProverJobStatus, Stallable, Status, StatusView, WitnessJobStatus,
};

verus! {

/// A witness job is stuck when it failed or is in progress after the
/// maximum number of attempts.
pub open spec fn witness_job_stuck(status: WitnessJobStatus, attempts: u32, max_attempts: u32) -> bool {
    (status == WitnessJobStatus::Failed || status == WitnessJobStatus::InProgress) && attempts
        >= max_attempts
}

/// The status of a single witness job.
pub open spec fn witness_job_status_view(
    status: WitnessJobStatus,
    attempts: u32,
    max_attempts: u32,
) -> StatusView {
    if witness_job_stuck(status, attempts, max_attempts) {
        StatusView::Stuck
    } else {
        witness_status_view(status)
    }
}

/// The (status, attempts) pairs of a sequence of witness jobs.
pub open spec fn witness_states<T: Stallable>(jobs: Seq<T>) -> Seq<(WitnessJobStatus, u32)> {
    jobs.map_values(|j: T| (j.spec_status(), j.spec_attempts()))
}

/// The status of a task made of witness jobs with the given (status, attempts) pairs.
pub open spec fn witness_jobs_status_view(
    jobs: Seq<(WitnessJobStatus, u32)>,
    max_attempts: u32,
) -> StatusView {
    if jobs.len() == 0 {
        StatusView::JobsNotFound
    } else if forall|i: int| 0 <= i < jobs.len() ==> jobs[i].0 == WitnessJobStatus::WaitingForProofs {
        StatusView::WaitingForProofs
    } else if exists|i: int|
        0 <= i < jobs.len() && witness_job_stuck(jobs[i].0, jobs[i].1, max_attempts) {
        StatusView::Stuck
    } else if forall|i: int|
        0 <= i < jobs.len() ==> (jobs[i].0 == WitnessJobStatus::Queued || jobs[i].0
            == WitnessJobStatus::WaitingForProofs) {
        StatusView::Queued
    } else if forall|i: int| 0 <= i < jobs.len() ==> jobs[i].0 == WitnessJobStatus::Successful {
        StatusView::Successful
    } else {
        StatusView::InProgress
    }
}

/// A prover job is stuck when it failed or is in progress after the maximum
/// number of attempts.
pub open spec fn prover_job_stuck(status: ProverJobStatus, attempts: u32, max_attempts: u32) -> bool {
    (status == ProverJobStatus::Failed || status == ProverJobStatus::InProgress) && attempts
        >= max_attempts
}

/// The status of a single prover job.
pub open spec fn prover_job_status_view(
    status: ProverJobStatus,
    attempts: u32,
    max_attempts: u32,
) -> StatusView {
    if prover_job_stuck(status, attempts, max_attempts) {
        StatusView::Stuck
    } else {
        prover_status_view(status)
    }
}

/// The (status, attempts) pairs of a sequence of prover jobs.
pub open spec fn prover_states(jobs: Seq<ProverJobFriInfo>) -> Seq<(ProverJobStatus, u32)> {
    jobs.map_values(|j: ProverJobFriInfo| (j._status, j._attempts))
}

/// The status of a task made of prover jobs with the given (status, attempts) pairs.
pub open spec fn prover_jobs_status_view(
    jobs: Seq<(ProverJobStatus, u32)>,
    max_attempts: u32,
) -> StatusView {
    if jobs.len() == 0 {
        StatusView::JobsNotFound
    } else if exists|i: int|
        0 <= i < jobs.len() && prover_job_stuck(jobs[i].0, jobs[i].1, max_attempts) {
        StatusView::Stuck
    } else if forall|i: int| 0 <= i < jobs.len() ==> jobs[i].0 == ProverJobStatus::InGPUProof {
        StatusView::Custom(msg_all_in_gpu_proof())
    } else if forall|i: int| 0 <= i < jobs.len() ==> jobs[i].0 == ProverJobStatus::Queued {
        StatusView::Queued
    } else if forall|i: int| 0 <= i < jobs.len() ==> jobs[i].0 == ProverJobStatus::Successful {
        StatusView::Successful
    } else {
        StatusView::InProgress
    }
}

/// The status of a single witness generator job: stuck after too many
/// attempts, otherwise the status its job status stands for.
pub fn get_witness_generator_job_status<T: Stallable>(data: &T, max_attempts: u32) -> (r: Status)
    ensures
        r@ == witness_job_status_view(data.spec_status(), data.spec_attempts(), max_attempts),
{
    let status = data.get_status();
    if (status == WitnessJobStatus::Failed || status == WitnessJobStatus::InProgress)
        && data.get_attempts() >= max_attempts {
        return Status::Stuck;
    }
    Status::from_witness_job_status(status)
}

/// The status of a task made of witness generator jobs.
pub fn get_witness_generator_job_status_from_vec<T: Stallable>(
    prover_jobs: Vec<T>,
    max_attempts: u32,
) -> (r: Status)
    ensures
        r@ == witness_jobs_status_view(witness_states(prover_jobs@), max_attempts),
{
    witness_jobs_status(&prover_jobs, max_attempts)
}

/// The status of a task made of witness generator jobs, read in place.
pub fn witness_jobs_status<T: Stallable>(prover_jobs: &Vec<T>, max_attempts: u32) -> (r: Status)
    ensures
        r@ == witness_jobs_status_view(witness_states(prover_jobs@), max_attempts),
{
    let ghost states = witness_states(prover_jobs@);
    let n = prover_jobs.len();
    let mut all_waiting = true;
    let mut any_stuck = false;
    let mut all_queued_or_waiting = true;
    let mut all_successful = true;
    let mut i: usize = 0;
    while i < n
        invariant
            n == prover_jobs@.len(),
            states == witness_states(prover_jobs@),
            i <= n,
            all_waiting <==> forall|j: int|
                0 <= j < i ==> states[j].0 == WitnessJobStatus::WaitingForProofs,
            any_stuck <==> exists|j: int|
                0 <= j < i && witness_job_stuck(states[j].0, states[j].1, max_attempts),
            all_queued_or_waiting <==> forall|j: int|
                0 <= j < i ==> (states[j].0 == WitnessJobStatus::Queued || states[j].0
                    == WitnessJobStatus::WaitingForProofs),
            all_successful <==> forall|j: int|
                0 <= j < i ==> states[j].0 == WitnessJobStatus::Successful,
        decreases n - i,
    {
        let status = prover_jobs[i].get_status();
        let attempts = prover_jobs[i].get_attempts();
        assert(states[i as int] == (status, attempts));
        if status != WitnessJobStatus::WaitingForProofs {
            all_waiting = false;
        }
        if (status == WitnessJobStatus::Failed || status == WitnessJobStatus::InProgress)
            && attempts >= max_attempts {
            any_stuck = true;
        }
        if status != WitnessJobStatus::Queued && status != WitnessJobStatus::WaitingForProofs {
            all_queued_or_waiting = false;
        }
        if status != WitnessJobStatus::Successful {
            all_successful = false;
        }
        i = i + 1;
    }
    if n == 0 {
        Status::JobsNotFound
    } else if all_waiting {
        Status::WaitingForProofs
    } else if any_stuck {
        Status::Stuck
    } else if all_queued_or_waiting {
        Status::Queued
    } else if all_successful {
        Status::Successful
    } else {
        Status::InProgress
    }
}

/// The status of a single prover job: stuck after too many attempts,
/// otherwise the status its job status stands for.
pub fn get_prover_job_status(prover_jobs: ProverJobFriInfo, max_attempts: u32) -> (r: Status)
    ensures
        r@ == prover_job_status_view(prover_jobs._status, prover_jobs._attempts, max_attempts),
{
    if (prover_jobs._status == ProverJobStatus::Failed || prover_jobs._status
        == ProverJobStatus::InProgress) && prover_jobs._attempts >= max_attempts {
        return Status::Stuck;
    }
    Status::from_prover_job_status(prover_jobs._status)
}

/// The status of a task made of prover jobs.
pub fn get_prover_jobs_status_from_vec(prover_jobs: &[ProverJobFriInfo], max_attempts: u32) -> (r:
    Status)
    ensures
        r@ == prover_jobs_status_view(prover_states(prover_jobs@), max_attempts),
{
    let mut states: Vec<(ProverJobStatus, u32)> = Vec::new();
    let mut i: usize = 0;
    while i < prover_jobs.len()
        invariant
            i <= prover_jobs@.len(),
            states@ == prover_states(prover_jobs@.subrange(0, i as int)),
        decreases prover_jobs@.len() - i,
    {
        states.push((prover_jobs[i]._status, prover_jobs[i]._attempts));
        proof {
            assert(prover_jobs@.subrange(0, i + 1) == prover_jobs@.subrange(0, i as int).push(
                prover_jobs@[i as int],
            ));
        }
        i = i + 1;
    }
    proof {
        assert(prover_jobs@.subrange(0, prover_jobs@.len() as int) == prover_jobs@);
    }
    prover_states_status(&states, max_attempts)
}

/// The status of a task made of prover jobs with the given (status, attempts) pairs.
pub fn prover_states_status(states: &Vec<(ProverJobStatus, u32)>, max_attempts: u32) -> (r: Status)
    ensures
        r@ == prover_jobs_status_view(states@, max_attempts),
{
    let n = states.len();
    let mut any_stuck = false;
    let mut all_gpu = true;
    let mut all_queued = true;
    let mut all_successful = true;
    let mut i: usize = 0;
    while i < n
        invariant
            n == states@.len(),
            i <= n,
            any_stuck <==> exists|j: int|
                0 <= j < i && prover_job_stuck(states@[j].0, states@[j].1, max_attempts),
            all_gpu <==> forall|j: int| 0 <= j < i ==> states@[j].0 == ProverJobStatus::InGPUProof,
            all_queued <==> forall|j: int| 0 <= j < i ==> states@[j].0 == ProverJobStatus::Queued,
            all_successful <==> forall|j: int|
                0 <= j < i ==> states@[j].0 == ProverJobStatus::Successful,
        decreases n - i,
    {
        let (status, attempts) = states[i];
        if (status == ProverJobStatus::Failed || status == ProverJobStatus::InProgress) && attempts
            >= max_attempts {
            any_stuck = true;
        }
        if status != ProverJobStatus::InGPUProof {
            all_gpu = false;
        }
        if status != ProverJobStatus::Queued {
            all_queued = false;
        }
        if status != ProverJobStatus::Successful {
            all_successful = false;
        }
        i = i + 1;
    }
    if n == 0 {
        Status::JobsNotFound
    } else if any_stuck {
        Status::Stuck
    } else if all_gpu {
        Status::Custom("In GPU Proof ⚡️".to_owned())
    } else if all_queued {
        Status::Queued
    } else if all_successful {
        Status::Successful
    } else {
        Status::InProgress
    }
}

/// The status of a task of witness jobs depends only on which (status,
/// attempts) pairs occur among its jobs: not on their order, nor on how
/// often each occurs.
pub proof fn lemma_witness_jobs_status_depends_on_set(
    a: Seq<(WitnessJobStatus, u32)>,
    b: Seq<(WitnessJobStatus, u32)>,
    max_attempts: u32,
)
    requires
        forall|x: (WitnessJobStatus, u32)| a.contains(x) <==> b.contains(x),
    ensures
        witness_jobs_status_view(a, max_attempts) == witness_jobs_status_view(b, max_attempts),
{
    lemma_same_elements_same_emptiness(a, b);
    lemma_same_elements_same_emptiness(b, a);
    assert((forall|i: int| 0 <= i < a.len() ==> a[i].0 == WitnessJobStatus::WaitingForProofs)
        <==> (forall|i: int| 0 <= i < b.len() ==> b[i].0 == WitnessJobStatus::WaitingForProofs)) by {
        lemma_forall_transfers(a, b, |x: (WitnessJobStatus, u32)| x.0 == WitnessJobStatus::WaitingForProofs);
        lemma_forall_transfers(b, a, |x: (WitnessJobStatus, u32)| x.0 == WitnessJobStatus::WaitingForProofs);
    }
    assert((exists|i: int| 0 <= i < a.len() && witness_job_stuck(a[i].0, a[i].1, max_attempts))
        <==> (exists|i: int| 0 <= i < b.len() && witness_job_stuck(b[i].0, b[i].1, max_attempts)))
        by {
        lemma_forall_transfers(a, b, |x: (WitnessJobStatus, u32)| !witness_job_stuck(x.0, x.1, max_attempts));
        lemma_forall_transfers(b, a, |x: (WitnessJobStatus, u32)| !witness_job_stuck(x.0, x.1, max_attempts));
    }
    assert((forall|i: int| 0 <= i < a.len() ==> (a[i].0 == WitnessJobStatus::Queued || a[i].0
        == WitnessJobStatus::WaitingForProofs)) <==> (forall|i: int|
        0 <= i < b.len() ==> (b[i].0 == WitnessJobStatus::Queued || b[i].0
            == WitnessJobStatus::WaitingForProofs))) by {
        lemma_forall_transfers(a, b, |x: (WitnessJobStatus, u32)| x.0 == WitnessJobStatus::Queued || x.0 == WitnessJobStatus::WaitingForProofs);
        lemma_forall_transfers(b, a, |x: (WitnessJobStatus, u32)| x.0 == WitnessJobStatus::Queued || x.0 == WitnessJobStatus::WaitingForProofs);
    }
    assert((forall|i: int| 0 <= i < a.len() ==> a[i].0 == WitnessJobStatus::Successful) <==> (
    forall|i: int| 0 <= i < b.len() ==> b[i].0 == WitnessJobStatus::Successful)) by {
        lemma_forall_transfers(a, b, |x: (WitnessJobStatus, u32)| x.0 == WitnessJobStatus::Successful);
        lemma_forall_transfers(b, a, |x: (WitnessJobStatus, u32)| x.0 == WitnessJobStatus::Successful);
    }
}

/// The status of a task of prover jobs depends only on which (status,
/// attempts) pairs occur among its jobs: not on their order, nor on how
/// often each occurs.
pub proof fn lemma_prover_jobs_status_depends_on_set(
    a: Seq<(ProverJobStatus, u32)>,
    b: Seq<(ProverJobStatus, u32)>,
    max_attempts: u32,
)
    requires
        forall|x: (ProverJobStatus, u32)| a.contains(x) <==> b.contains(x),
    ensures
        prover_jobs_status_view(a, max_attempts) == prover_jobs_status_view(b, max_attempts),
{
    lemma_same_elements_same_emptiness(a, b);
    lemma_same_elements_same_emptiness(b, a);
    assert((exists|i: int| 0 <= i < a.len() && prover_job_stuck(a[i].0, a[i].1, max_attempts))
        <==> (exists|i: int| 0 <= i < b.len() && prover_job_stuck(b[i].0, b[i].1, max_attempts)))
        by {
        lemma_forall_transfers(a, b, |x: (ProverJobStatus, u32)| !prover_job_stuck(x.0, x.1, max_attempts));
        lemma_forall_transfers(b, a, |x: (ProverJobStatus, u32)| !prover_job_stuck(x.0, x.1, max_attempts));
    }
    assert((forall|i: int| 0 <= i < a.len() ==> a[i].0 == ProverJobStatus::InGPUProof) <==> (
    forall|i: int| 0 <= i < b.len() ==> b[i].0 == ProverJobStatus::InGPUProof)) by {
        lemma_forall_transfers(a, b, |x: (ProverJobStatus, u32)| x.0 == ProverJobStatus::InGPUProof);
        lemma_forall_transfers(b, a, |x: (ProverJobStatus, u32)| x.0 == ProverJobStatus::InGPUProof);
    }
    assert((forall|i: int| 0 <= i < a.len() ==> a[i].0 == ProverJobStatus::Queued) <==> (forall|
        i: int,
    |
        0 <= i < b.len() ==> b[i].0 == ProverJobStatus::Queued)) by {
        lemma_forall_transfers(a, b, |x: (ProverJobStatus, u32)| x.0 == ProverJobStatus::Queued);
        lemma_forall_transfers(b, a, |x: (ProverJobStatus, u32)| x.0 == ProverJobStatus::Queued);
    }
    assert((forall|i: int| 0 <= i < a.len() ==> a[i].0 == ProverJobStatus::Successful) <==> (
    forall|i: int| 0 <= i < b.len() ==> b[i].0 == ProverJobStatus::Successful)) by {
        lemma_forall_transfers(a, b, |x: (ProverJobStatus, u32)| x.0 == ProverJobStatus::Successful);
        lemma_forall_transfers(b, a, |x: (ProverJobStatus, u32)| x.0 == ProverJobStatus::Successful);
    }
}

proof fn lemma_same_elements_same_emptiness<A>(a: Seq<A>, b: Seq<A>)
    requires
        forall|x: A| a.contains(x) <==> b.contains(x),
    ensures
        a.len() == 0 ==> b.len() == 0,
{
    if b.len() > 0 {
        assert(b.contains(b[0]));
    }
}

proof fn lemma_forall_transfers<A>(a: Seq<A>, b: Seq<A>, p: spec_fn(A) -> bool)
    requires
        forall|x: A| a.contains(x) <==> b.contains(x),
    ensures
        (forall|i: int| 0 <= i < a.len() ==> p(a[i])) ==> (forall|i: int| 0 <= i < b.len() ==> p(b[i])),
{
    if forall|i: int| 0 <= i < a.len() ==> p(a[i]) {
        assert forall|i: int| 0 <= i < b.len() implies p(b[i]) by {
            assert(b.contains(b[i]));
            let k = choose|k: int| 0 <= k < a.len() && a[k] == b[i];
            assert(p(a[k]));
        }
    }
}

/// A task of a single witness job has the status of that job, unless the
/// job waits for artifacts or was skipped (a task then counts as in progress).
pub proof fn lemma_single_witness_job(status: WitnessJobStatus, attempts: u32, max_attempts: u32)
    requires
        status != WitnessJobStatus::WaitingForArtifacts,
        status != WitnessJobStatus::Skipped,
    ensures
        witness_jobs_status_view(seq![(status, attempts)], max_attempts)
            == witness_job_status_view(status, attempts, max_attempts),
{
    let s = seq![(status, attempts)];
    assert(s.len() == 1 && s[0] == (status, attempts));
    assert((forall|i: int| 0 <= i < s.len() ==> s[i].0 == WitnessJobStatus::WaitingForProofs) <==> status == WitnessJobStatus::WaitingForProofs) by {
        if status == WitnessJobStatus::WaitingForProofs {
            assert forall|i: int| 0 <= i < s.len() implies s[i].0 == WitnessJobStatus::WaitingForProofs by {
                assert(i == 0);
            }
        }
    }
    assert((forall|i: int| 0 <= i < s.len() ==> s[i].0 == WitnessJobStatus::Successful) <==> status == WitnessJobStatus::Successful) by {
        if status == WitnessJobStatus::Successful {
            assert forall|i: int| 0 <= i < s.len() implies s[i].0 == WitnessJobStatus::Successful by {
                assert(i == 0);
            }
        }
    }
    assert((forall|i: int| 0 <= i < s.len() ==> (s[i].0 == WitnessJobStatus::Queued || s[i].0
        == WitnessJobStatus::WaitingForProofs)) <==> (status == WitnessJobStatus::Queued || status
        == WitnessJobStatus::WaitingForProofs)) by {
        if status == WitnessJobStatus::Queued || status == WitnessJobStatus::WaitingForProofs {
            assert forall|i: int| 0 <= i < s.len() implies (s[i].0 == WitnessJobStatus::Queued
                || s[i].0 == WitnessJobStatus::WaitingForProofs) by {
                assert(i == 0);
            }
        }
    }
    assert((exists|i: int| 0 <= i < s.len() && witness_job_stuck(s[i].0, s[i].1, max_attempts))
        <==> witness_job_stuck(status, attempts, max_attempts)) by {
        if witness_job_stuck(status, attempts, max_attempts) {
            assert(witness_job_stuck(s[0].0, s[0].1, max_attempts));
        }
    }
}

/// A task of a single prover job has the status of that job when the job is
/// queued, in progress, successful or stuck.
pub proof fn lemma_single_prover_job(status: ProverJobStatus, attempts: u32, max_attempts: u32)
    requires
        status == ProverJobStatus::Queued || status == ProverJobStatus::InProgress || status
            == ProverJobStatus::Successful || prover_job_stuck(status, attempts, max_attempts),
    ensures
        prover_jobs_status_view(seq![(status, attempts)], max_attempts)
            == prover_job_status_view(status, attempts, max_attempts),
{
    let s = seq![(status, attempts)];
    assert(s.len() == 1 && s[0] == (status, attempts));
    assert((forall|i: int| 0 <= i < s.len() ==> s[i].0 == ProverJobStatus::InGPUProof) <==> status == ProverJobStatus::InGPUProof) by {
        if status == ProverJobStatus::InGPUProof {
            assert forall|i: int| 0 <= i < s.len() implies s[i].0 == ProverJobStatus::InGPUProof by {
                assert(i == 0);
            }
        }
    }
    assert((forall|i: int| 0 <= i < s.len() ==> s[i].0 == ProverJobStatus::Queued) <==> status == ProverJobStatus::Queued) by {
        if status == ProverJobStatus::Queued {
            assert forall|i: int| 0 <= i < s.len() implies s[i].0 == ProverJobStatus::Queued by {
                assert(i == 0);
            }
        }
    }
    assert((forall|i: int| 0 <= i < s.len() ==> s[i].0 == ProverJobStatus::Successful) <==> status == ProverJobStatus::Successful) by {
        if status == ProverJobStatus::Successful {
            assert forall|i: int| 0 <= i < s.len() implies s[i].0 == ProverJobStatus::Successful by {
                assert(i == 0);
            }
        }
    }
    assert((exists|i: int| 0 <= i < s.len() && prover_job_stuck(s[i].0, s[i].1, max_attempts))
        <==> prover_job_stuck(status, attempts, max_attempts)) by {
        if prover_job_stuck(status, attempts, max_attempts) {
            assert(prover_job_stuck(s[0].0, s[0].1, max_attempts));
        }
    }
}

/// One stuck job makes the whole task stuck.
pub proof fn lemma_stuck_job_makes_task_stuck(
    witness_jobs: Seq<(WitnessJobStatus, u32)>,
    prover_jobs: Seq<(ProverJobStatus, u32)>,
    max_attempts: u32,
    k: int,
)
    ensures
        0 <= k < witness_jobs.len() && witness_job_stuck(witness_jobs[k].0, witness_jobs[k].1, max_attempts)
            ==> witness_jobs_status_view(witness_jobs, max_attempts) == StatusView::Stuck,
        0 <= k < prover_jobs.len() && prover_job_stuck(prover_jobs[k].0, prover_jobs[k].1, max_attempts)
            ==> prover_jobs_status_view(prover_jobs, max_attempts) == StatusView::Stuck,
{
}

/// No task is stuck while every job has had fewer attempts than the maximum.
pub proof fn lemma_no_stuck_below_max_attempts(
    witness_jobs: Seq<(WitnessJobStatus, u32)>,
    prover_jobs: Seq<(ProverJobStatus, u32)>,
    max_attempts: u32,
)
    ensures
        (forall|i: int| 0 <= i < witness_jobs.len() ==> witness_jobs[i].1 < max_attempts)
            ==> witness_jobs_status_view(witness_jobs, max_attempts) != StatusView::Stuck,
        (forall|i: int| 0 <= i < prover_jobs.len() ==> prover_jobs[i].1 < max_attempts)
            ==> prover_jobs_status_view(prover_jobs, max_attempts) != StatusView::Stuck,
{
}

/// While none of its jobs is stuck, a task of witness jobs has the status
/// given by the statuses of its jobs alone.
pub proof fn lemma_unstuck_jobs_status_by_statuses(
    jobs: Seq<(WitnessJobStatus, u32)>,
    max_attempts: u32,
)
    requires
        forall|i: int| 0 <= i < jobs.len() ==> !witness_job_stuck(jobs[i].0, jobs[i].1, max_attempts),
    ensures
        witness_jobs_status_view(jobs, max_attempts) == crate::status::witness_statuses_view(
            jobs.map_values(|x: (WitnessJobStatus, u32)| x.0),
        ),
{
    let st = jobs.map_values(|x: (WitnessJobStatus, u32)| x.0);
    assert(st.len() == jobs.len());
    assert((forall|i: int| 0 <= i < st.len() ==> st[i] == WitnessJobStatus::WaitingForProofs) <==> (forall|i: int|
        0 <= i < jobs.len() ==> jobs[i].0 == WitnessJobStatus::WaitingForProofs)) by {
        if forall|i: int| 0 <= i < st.len() ==> st[i] == WitnessJobStatus::WaitingForProofs {
            assert forall|i: int| 0 <= i < jobs.len() implies jobs[i].0 == WitnessJobStatus::WaitingForProofs by {
                assert(st[i] == WitnessJobStatus::WaitingForProofs);
            }
        }
        if forall|i: int| 0 <= i < jobs.len() ==> jobs[i].0 == WitnessJobStatus::WaitingForProofs {
            assert forall|i: int| 0 <= i < st.len() implies st[i] == WitnessJobStatus::WaitingForProofs by {
                assert(jobs[i].0 == WitnessJobStatus::WaitingForProofs);
            }
        }
    }
    assert((forall|i: int| 0 <= i < st.len() ==> st[i] == WitnessJobStatus::Successful) <==> (forall|i: int|
        0 <= i < jobs.len() ==> jobs[i].0 == WitnessJobStatus::Successful)) by {
        if forall|i: int| 0 <= i < st.len() ==> st[i] == WitnessJobStatus::Successful {
            assert forall|i: int| 0 <= i < jobs.len() implies jobs[i].0 == WitnessJobStatus::Successful by {
                assert(st[i] == WitnessJobStatus::Successful);
            }
        }
        if forall|i: int| 0 <= i < jobs.len() ==> jobs[i].0 == WitnessJobStatus::Successful {
            assert forall|i: int| 0 <= i < st.len() implies st[i] == WitnessJobStatus::Successful by {
                assert(jobs[i].0 == WitnessJobStatus::Successful);
            }
        }
    }
    assert((forall|i: int| 0 <= i < st.len() ==> (st[i] == WitnessJobStatus::Queued || st[i]
        == WitnessJobStatus::WaitingForProofs)) <==> (forall|i: int|
        0 <= i < jobs.len() ==> (jobs[i].0 == WitnessJobStatus::Queued || jobs[i].0
            == WitnessJobStatus::WaitingForProofs))) by {
        if forall|i: int| 0 <= i < st.len() ==> (st[i] == WitnessJobStatus::Queued || st[i]
            == WitnessJobStatus::WaitingForProofs) {
            assert forall|i: int| 0 <= i < jobs.len() implies (jobs[i].0 == WitnessJobStatus::Queued
                || jobs[i].0 == WitnessJobStatus::WaitingForProofs) by {
                assert(st[i] == WitnessJobStatus::Queued || st[i] == WitnessJobStatus::WaitingForProofs);
            }
        }
        if forall|i: int| 0 <= i < jobs.len() ==> (jobs[i].0 == WitnessJobStatus::Queued || jobs[i].0
            == WitnessJobStatus::WaitingForProofs) {
            assert forall|i: int| 0 <= i < st.len() implies (st[i] == WitnessJobStatus::Queued || st[i]
                == WitnessJobStatus::WaitingForProofs) by {
                assert(jobs[i].0 == WitnessJobStatus::Queued || jobs[i].0 == WitnessJobStatus::WaitingForProofs);
            }
        }
    }
}

/// A task stuck under some maximum number of attempts stays stuck under
/// any lower maximum: raising the maximum can only take a stuck status away.
pub proof fn lemma_raising_max_attempts_only_unsticks(
    witness_jobs: Seq<(WitnessJobStatus, u32)>,
    prover_jobs: Seq<(ProverJobStatus, u32)>,
    lower_max: u32,
    higher_max: u32,
)
    requires
        lower_max <= higher_max,
    ensures
        witness_jobs_status_view(witness_jobs, higher_max) == StatusView::Stuck
            ==> witness_jobs_status_view(witness_jobs, lower_max) == StatusView::Stuck,
        prover_jobs_status_view(prover_jobs, higher_max) == StatusView::Stuck
            ==> prover_jobs_status_view(prover_jobs, lower_max) == StatusView::Stuck,
{
    if witness_jobs_status_view(witness_jobs, higher_max) == StatusView::Stuck {
        let k = choose|k: int|
            0 <= k < witness_jobs.len() && witness_job_stuck(witness_jobs[k].0, witness_jobs[k].1, higher_max);
        assert(witness_job_stuck(witness_jobs[k].0, witness_jobs[k].1, lower_max));
    }
    if prover_jobs_status_view(prover_jobs, higher_max) == StatusView::Stuck {
        let k = choose|k: int|
            0 <= k < prover_jobs.len() && prover_job_stuck(prover_jobs[k].0, prover_jobs[k].1, higher_max);
        assert(prover_job_stuck(prover_jobs[k].0, prover_jobs[k].1, lower_max));
    }
}

} // verus!
