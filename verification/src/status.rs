//! Job statuses as stored in the prover database, and the status of a task
//! (a stage of a batch proof) derived from the statuses of its jobs.

use vstd::prelude::*;

verus! {

/// Status of a witness generator job.
#[derive(Clone, Copy, Debug, PartialEq, Eq, Structural)]
pub enum WitnessJobStatus {
    Failed,
    Successful,
    WaitingForArtifacts,
    Queued,
    InProgress,
    Skipped,
    WaitingForProofs,
}

/// Status of a prover job.
#[derive(Clone, Copy, Debug, PartialEq, Eq, Structural)]
pub enum ProverJobStatus {
    Queued,
    InProgress,
    Successful,
    Failed,
    Skipped,
    Ignored,
    InGPUProof,
}

/// Status of a proof compression job.
#[derive(Clone, Copy, Debug, PartialEq, Eq, Structural)]
pub enum ProofCompressionJobStatus {
    Queued,
    InProgress,
    Successful,
    Failed,
    SentToServer,
    Skipped,
}

/// The status of a task, derived from the statuses of its jobs.
#[derive(Clone, Debug, PartialEq, Eq)]
pub enum Status {
    /// A custom status that can be set manually.
    /// Mostly used when a task has singular status.
    Custom(String),
    /// A task is considered queued when all of its jobs is queued.
    Queued,
    /// A task is considered in progress when at least one of its jobs differs in its status.
    InProgress,
    /// A task is considered successful when all of its jobs were processed successfully.
    Successful,
    /// A task is considered waiting for proofs when all of its jobs are waiting for proofs.
    WaitingForProofs,
    /// A task is considered stuck when at least one of its jobs is stuck.
    Stuck,
    /// A task has no jobs.
    JobsNotFound,
}

/// Mathematical model of a [`Status`]: the custom message is a character sequence.
pub enum StatusView {
    Custom(Seq<char>),
    Queued,
    InProgress,
    Successful,
    WaitingForProofs,
    Stuck,
    JobsNotFound,
}

impl View for Status {
    type V = StatusView;

    open spec fn view(&self) -> StatusView {
        match self {
            Status::Custom(s) => StatusView::Custom(s@),
            Status::Queued => StatusView::Queued,
            Status::InProgress => StatusView::InProgress,
            Status::Successful => StatusView::Successful,
            Status::WaitingForProofs => StatusView::WaitingForProofs,
            Status::Stuck => StatusView::Stuck,
            Status::JobsNotFound => StatusView::JobsNotFound,
        }
    }
}

impl Default for Status {
    /// A task without jobs.
    fn default() -> (r: Status)
        ensures
            r@ == StatusView::JobsNotFound,
    {
        Status::JobsNotFound
    }
}

/// Message of the custom status of a failed prover job.
pub open spec fn msg_failed() -> Seq<char> {
    "Failed"@
}

/// Message of the custom status of a skipped job.
pub open spec fn msg_skipped() -> Seq<char> {
    "Skipped ⏩"@
}

/// Message of the custom status of an ignored prover job.
pub open spec fn msg_ignored() -> Seq<char> {
    "Ignored"@
}

/// Message of the custom status of a single prover job in GPU proof.
pub open spec fn msg_in_gpu_proof() -> Seq<char> {
    "In GPU Proof"@
}

/// Message of the custom status of a set of prover jobs that are all in GPU proof.
pub open spec fn msg_all_in_gpu_proof() -> Seq<char> {
    "In GPU Proof ⚡️"@
}

/// Message of the custom status of a witness job waiting for artifacts.
pub open spec fn msg_waiting_for_artifacts() -> Seq<char> {
    "Waiting for Artifacts ⏱️"@
}

/// Message of the custom status of a proof sent to the server.
pub open spec fn msg_sent_to_server() -> Seq<char> {
    "Sent to server 📤"@
}

/// The task status that a single prover job status stands for.
pub open spec fn prover_status_view(s: ProverJobStatus) -> StatusView {
    match s {
        ProverJobStatus::Queued => StatusView::Queued,
        ProverJobStatus::InProgress => StatusView::InProgress,
        ProverJobStatus::Successful => StatusView::Successful,
        ProverJobStatus::Failed => StatusView::Custom(msg_failed()),
        ProverJobStatus::Skipped => StatusView::Custom(msg_skipped()),
        ProverJobStatus::Ignored => StatusView::Custom(msg_ignored()),
        ProverJobStatus::InGPUProof => StatusView::Custom(msg_in_gpu_proof()),
    }
}

/// The task status that a single witness job status stands for.
pub open spec fn witness_status_view(s: WitnessJobStatus) -> StatusView {
    match s {
        WitnessJobStatus::Queued => StatusView::Queued,
        WitnessJobStatus::InProgress => StatusView::InProgress,
        WitnessJobStatus::Successful => StatusView::Successful,
        WitnessJobStatus::Failed => StatusView::InProgress,
        WitnessJobStatus::WaitingForArtifacts => StatusView::Custom(msg_waiting_for_artifacts()),
        WitnessJobStatus::Skipped => StatusView::Custom(msg_skipped()),
        WitnessJobStatus::WaitingForProofs => StatusView::WaitingForProofs,
    }
}

/// The task status that a single proof compression job status stands for.
pub open spec fn compression_status_view(s: ProofCompressionJobStatus) -> StatusView {
    match s {
        ProofCompressionJobStatus::Queued => StatusView::Queued,
        ProofCompressionJobStatus::InProgress => StatusView::InProgress,
        ProofCompressionJobStatus::Successful => StatusView::Successful,
        ProofCompressionJobStatus::Failed => StatusView::InProgress,
        ProofCompressionJobStatus::SentToServer => StatusView::Custom(msg_sent_to_server()),
        ProofCompressionJobStatus::Skipped => StatusView::Custom(msg_skipped()),
    }
}

/// The status of a task whose jobs have the given witness job statuses,
/// without regard to the number of attempts.
pub open spec fn witness_statuses_view(s: Seq<WitnessJobStatus>) -> StatusView {
    if s.len() == 0 {
        StatusView::JobsNotFound
    } else if forall|i: int| 0 <= i < s.len() ==> s[i] == WitnessJobStatus::WaitingForProofs {
        StatusView::WaitingForProofs
    } else if forall|i: int|
        0 <= i < s.len() ==> (s[i] == WitnessJobStatus::Queued || s[i]
            == WitnessJobStatus::WaitingForProofs) {
        StatusView::Queued
    } else if forall|i: int| 0 <= i < s.len() ==> s[i] == WitnessJobStatus::Successful {
        StatusView::Successful
    } else {
        StatusView::InProgress
    }
}

/// A job whose status and number of attempts can be read: the jobs of a
/// witness generator stage.
pub trait Stallable {
    /// The status of the job.
    spec fn spec_status(&self) -> WitnessJobStatus;

    /// The number of attempts made at the job.
    spec fn spec_attempts(&self) -> u32;

    fn get_status(&self) -> (r: WitnessJobStatus)
        ensures
            r == self.spec_status(),
    ;

    fn get_attempts(&self) -> (r: u32)
        ensures
            r == self.spec_attempts(),
    ;
}

/// The statuses of a sequence of jobs.
pub open spec fn job_statuses<T: Stallable>(jobs: Seq<T>) -> Seq<WitnessJobStatus> {
    jobs.map_values(|j: T| j.spec_status())
}

impl Status {
    /// The task status of a single prover job status.
    pub fn from_prover_job_status(status: ProverJobStatus) -> (r: Status)
        ensures
            r@ == prover_status_view(status),
    {
        match status {
            ProverJobStatus::Queued => Status::Queued,
            ProverJobStatus::InProgress => Status::InProgress,
            ProverJobStatus::Successful => Status::Successful,
            ProverJobStatus::Failed => Status::Custom("Failed".to_owned()),
            ProverJobStatus::Skipped => Status::Custom("Skipped ⏩".to_owned()),
            ProverJobStatus::Ignored => Status::Custom("Ignored".to_owned()),
            ProverJobStatus::InGPUProof => Status::Custom("In GPU Proof".to_owned()),
        }
    }

    /// The task status of a single witness job status.
    pub fn from_witness_job_status(status: WitnessJobStatus) -> (r: Status)
        ensures
            r@ == witness_status_view(status),
    {
        match status {
            WitnessJobStatus::Queued => Status::Queued,
            WitnessJobStatus::InProgress => Status::InProgress,
            WitnessJobStatus::Successful => Status::Successful,
            WitnessJobStatus::Failed => Status::InProgress,
            WitnessJobStatus::WaitingForArtifacts => Status::Custom(
                "Waiting for Artifacts ⏱️".to_owned(),
            ),
            WitnessJobStatus::Skipped => Status::Custom("Skipped ⏩".to_owned()),
            WitnessJobStatus::WaitingForProofs => Status::WaitingForProofs,
        }
    }

    /// The task status of a single proof compression job status.
    pub fn from_compression_job_status(status: ProofCompressionJobStatus) -> (r: Status)
        ensures
            r@ == compression_status_view(status),
    {
        match status {
            ProofCompressionJobStatus::Queued => Status::Queued,
            ProofCompressionJobStatus::InProgress => Status::InProgress,
            ProofCompressionJobStatus::Successful => Status::Successful,
            ProofCompressionJobStatus::Failed => Status::InProgress,
            ProofCompressionJobStatus::SentToServer => Status::Custom(
                "Sent to server 📤".to_owned(),
            ),
            ProofCompressionJobStatus::Skipped => Status::Custom("Skipped ⏩".to_owned()),
        }
    }

    /// The task status of a sequence of witness job statuses.
    pub fn from_witness_job_statuses(statuses: &Vec<WitnessJobStatus>) -> (r: Status)
        ensures
            r@ == witness_statuses_view(statuses@),
    {
        let n = statuses.len();
        let mut all_waiting = true;
        let mut all_queued_or_waiting = true;
        let mut all_successful = true;
        let mut i: usize = 0;
        while i < n
            invariant
                n == statuses@.len(),
                i <= n,
                all_waiting <==> forall|j: int|
                    0 <= j < i ==> statuses@[j] == WitnessJobStatus::WaitingForProofs,
                all_queued_or_waiting <==> forall|j: int|
                    0 <= j < i ==> (statuses@[j] == WitnessJobStatus::Queued || statuses@[j]
                        == WitnessJobStatus::WaitingForProofs),
                all_successful <==> forall|j: int|
                    0 <= j < i ==> statuses@[j] == WitnessJobStatus::Successful,
            decreases n - i,
        {
            let s = statuses[i];
            if s != WitnessJobStatus::WaitingForProofs {
                all_waiting = false;
            }
            if s != WitnessJobStatus::Queued && s != WitnessJobStatus::WaitingForProofs {
                all_queued_or_waiting = false;
            }
            if s != WitnessJobStatus::Successful {
                all_successful = false;
            }
            i = i + 1;
        }
        if n == 0 {
            Status::JobsNotFound
        } else if all_waiting {
            Status::WaitingForProofs
        } else if all_queued_or_waiting {
            Status::Queued
        } else if all_successful {
            Status::Successful
        } else {
            Status::InProgress
        }
    }

    /// The task status of a sequence of witness jobs, by their statuses alone.
    pub fn from_stallable_jobs<T: Stallable>(jobs: &Vec<T>) -> (r: Status)
        ensures
            r@ == witness_statuses_view(job_statuses(jobs@)),
    {
        let mut statuses: Vec<WitnessJobStatus> = Vec::new();
        let mut i: usize = 0;
        while i < jobs.len()
            invariant
                i <= jobs@.len(),
                statuses@ == job_statuses(jobs@.subrange(0, i as int)),
            decreases jobs@.len() - i,
        {
            statuses.push(jobs[i].get_status());
            proof {
                assert(jobs@.subrange(0, i + 1) == jobs@.subrange(0, i as int).push(jobs@[i as int]));
            }
            i = i + 1;
        }
        proof {
            assert(jobs@.subrange(0, jobs@.len() as int) == jobs@);
        }
        Status::from_witness_job_statuses(&statuses)
    }
}


/// The text under which a status is shown: a custom status shows as
/// `Custom`, whatever its message.
pub open spec fn status_text(s: StatusView) -> Seq<char> {
    match s {
        StatusView::Custom(_) => "Custom"@,
        StatusView::Queued => "Queued 📥"@,
        StatusView::InProgress => "In Progress ⌛️"@,
        StatusView::Successful => "Successful ✅"@,
        StatusView::WaitingForProofs => "Waiting for Proof ⏱️"@,
        StatusView::Stuck => "Stuck ⛔️"@,
        StatusView::JobsNotFound => "Jobs not found 🚫"@,
    }
}

impl Status {
    /// The text under which the status is shown.
    pub fn display_text(&self) -> (r: String)
        ensures
            r@ == status_text(self@),
    {
        match self {
            Status::Custom(_) => "Custom".to_owned(),
            Status::Queued => "Queued 📥".to_owned(),
            Status::InProgress => "In Progress ⌛️".to_owned(),
            Status::Successful => "Successful ✅".to_owned(),
            Status::WaitingForProofs => "Waiting for Proof ⏱️".to_owned(),
            Status::Stuck => "Stuck ⛔️".to_owned(),
            Status::JobsNotFound => "Jobs not found 🚫".to_owned(),
        }
    }
}


/// The witness job status stored under a name in the prover database.
pub open spec fn witness_status_named(name: Seq<char>) -> Option<WitnessJobStatus> {
    if name == "queued"@ {
        Some(WitnessJobStatus::Queued)
    } else if name == "in_progress"@ {
        Some(WitnessJobStatus::InProgress)
    } else if name == "successful"@ {
        Some(WitnessJobStatus::Successful)
    } else if name == "failed"@ {
        Some(WitnessJobStatus::Failed)
    } else if name == "waiting_for_artifacts"@ {
        Some(WitnessJobStatus::WaitingForArtifacts)
    } else if name == "skipped"@ {
        Some(WitnessJobStatus::Skipped)
    } else if name == "waiting_for_proofs"@ {
        Some(WitnessJobStatus::WaitingForProofs)
    } else {
        None
    }
}

/// The witness job status stored under a name in the prover database.
pub fn witness_job_status_from_name(name: &str) -> (r: Option<WitnessJobStatus>)
    ensures
        r == witness_status_named(name@),
{
    let name = name.to_owned();
    if name == "queued".to_owned() {
        Some(WitnessJobStatus::Queued)
    } else if name == "in_progress".to_owned() {
        Some(WitnessJobStatus::InProgress)
    } else if name == "successful".to_owned() {
        Some(WitnessJobStatus::Successful)
    } else if name == "failed".to_owned() {
        Some(WitnessJobStatus::Failed)
    } else if name == "waiting_for_artifacts".to_owned() {
        Some(WitnessJobStatus::WaitingForArtifacts)
    } else if name == "skipped".to_owned() {
        Some(WitnessJobStatus::Skipped)
    } else if name == "waiting_for_proofs".to_owned() {
        Some(WitnessJobStatus::WaitingForProofs)
    } else {
        None
    }
}

/// The prover job status stored under a name in the prover database.
pub open spec fn prover_status_named(name: Seq<char>) -> Option<ProverJobStatus> {
    if name == "queued"@ {
        Some(ProverJobStatus::Queued)
    } else if name == "in_progress"@ {
        Some(ProverJobStatus::InProgress)
    } else if name == "successful"@ {
        Some(ProverJobStatus::Successful)
    } else if name == "failed"@ {
        Some(ProverJobStatus::Failed)
    } else if name == "skipped"@ {
        Some(ProverJobStatus::Skipped)
    } else if name == "ignored"@ {
        Some(ProverJobStatus::Ignored)
    } else if name == "in_gpu_proof"@ {
        Some(ProverJobStatus::InGPUProof)
    } else {
        None
    }
}

/// The prover job status stored under a name in the prover database.
pub fn prover_job_status_from_name(name: &str) -> (r: Option<ProverJobStatus>)
    ensures
        r == prover_status_named(name@),
{
    let name = name.to_owned();
    if name == "queued".to_owned() {
        Some(ProverJobStatus::Queued)
    } else if name == "in_progress".to_owned() {
        Some(ProverJobStatus::InProgress)
    } else if name == "successful".to_owned() {
        Some(ProverJobStatus::Successful)
    } else if name == "failed".to_owned() {
        Some(ProverJobStatus::Failed)
    } else if name == "skipped".to_owned() {
        Some(ProverJobStatus::Skipped)
    } else if name == "ignored".to_owned() {
        Some(ProverJobStatus::Ignored)
    } else if name == "in_gpu_proof".to_owned() {
        Some(ProverJobStatus::InGPUProof)
    } else {
        None
    }
}

/// The proof compression job status stored under a name in the prover database.
pub open spec fn compression_status_named(name: Seq<char>) -> Option<ProofCompressionJobStatus> {
    if name == "queued"@ {
        Some(ProofCompressionJobStatus::Queued)
    } else if name == "in_progress"@ {
        Some(ProofCompressionJobStatus::InProgress)
    } else if name == "successful"@ {
        Some(ProofCompressionJobStatus::Successful)
    } else if name == "failed"@ {
        Some(ProofCompressionJobStatus::Failed)
    } else if name == "sent_to_server"@ {
        Some(ProofCompressionJobStatus::SentToServer)
    } else if name == "skipped"@ {
        Some(ProofCompressionJobStatus::Skipped)
    } else {
        None
    }
}

/// The proof compression job status stored under a name in the prover database.
pub fn compression_job_status_from_name(name: &str) -> (r: Option<ProofCompressionJobStatus>)
    ensures
        r == compression_status_named(name@),
{
    let name = name.to_owned();
    if name == "queued".to_owned() {
        Some(ProofCompressionJobStatus::Queued)
    } else if name == "in_progress".to_owned() {
        Some(ProofCompressionJobStatus::InProgress)
    } else if name == "successful".to_owned() {
        Some(ProofCompressionJobStatus::Successful)
    } else if name == "failed".to_owned() {
        Some(ProofCompressionJobStatus::Failed)
    } else if name == "sent_to_server".to_owned() {
        Some(ProofCompressionJobStatus::SentToServer)
    } else if name == "skipped".to_owned() {
        Some(ProofCompressionJobStatus::Skipped)
    } else {
        None
    }
}

/// A job stored as queued, in progress or successful shows as such in the
/// status of a task of that one job, whatever the job's kind (witness
/// generator, prover or proof compression); no other stored status shows as
/// queued or successful.
pub proof fn lemma_stored_statuses_show_alike(name: Seq<char>)
    ensures
        witness_status_named(name) matches Some(w) ==> {
            &&& (witness_status_view(w) == StatusView::Queued <==> name == "queued"@)
            &&& (witness_status_view(w) == StatusView::Successful <==> name == "successful"@)
            &&& (name == "in_progress"@ ==> witness_status_view(w) == StatusView::InProgress)
        },
        prover_status_named(name) matches Some(p) ==> {
            &&& (prover_status_view(p) == StatusView::Queued <==> name == "queued"@)
            &&& (prover_status_view(p) == StatusView::Successful <==> name == "successful"@)
            &&& (name == "in_progress"@ ==> prover_status_view(p) == StatusView::InProgress)
        },
        compression_status_named(name) matches Some(c) ==> {
            &&& (compression_status_view(c) == StatusView::Queued <==> name == "queued"@)
            &&& (compression_status_view(c) == StatusView::Successful <==> name == "successful"@)
            &&& (name == "in_progress"@ ==> compression_status_view(c) == StatusView::InProgress)
        },
{
    reveal_strlit("queued");
    reveal_strlit("in_progress");
    reveal_strlit("successful");
    reveal_strlit("failed");
    reveal_strlit("waiting_for_artifacts");
    reveal_strlit("skipped");
    reveal_strlit("waiting_for_proofs");
    reveal_strlit("ignored");
    reveal_strlit("in_gpu_proof");
    reveal_strlit("sent_to_server");
    assert("queued"@.len() == 6 && "queued"@[0] == 'q');
    assert("in_progress"@.len() == 11);
    assert("successful"@.len() == 10);
    assert("failed"@.len() == 6 && "failed"@[0] == 'f');
    assert("waiting_for_artifacts"@.len() == 21);
    assert("skipped"@.len() == 7 && "skipped"@[0] == 's');
    assert("waiting_for_proofs"@.len() == 18);
    assert("ignored"@.len() == 7 && "ignored"@[0] == 'i');
    assert("in_gpu_proof"@.len() == 12);
    assert("sent_to_server"@.len() == 14);
}

/// Whatever its kind, a job shows as queued only when it is queued and as
/// successful only when it succeeded, and a job in progress shows as in
/// progress.
pub proof fn lemma_job_statuses_show_alike(
    w: WitnessJobStatus,
    p: ProverJobStatus,
    c: ProofCompressionJobStatus,
)
    ensures
        witness_status_view(w) == StatusView::Queued <==> w == WitnessJobStatus::Queued,
        prover_status_view(p) == StatusView::Queued <==> p == ProverJobStatus::Queued,
        compression_status_view(c) == StatusView::Queued <==> c == ProofCompressionJobStatus::Queued,
        witness_status_view(w) == StatusView::Successful <==> w == WitnessJobStatus::Successful,
        prover_status_view(p) == StatusView::Successful <==> p == ProverJobStatus::Successful,
        compression_status_view(c) == StatusView::Successful <==> c
            == ProofCompressionJobStatus::Successful,
        w == WitnessJobStatus::InProgress ==> witness_status_view(w) == StatusView::InProgress,
        p == ProverJobStatus::InProgress ==> prover_status_view(p) == StatusView::InProgress,
        c == ProofCompressionJobStatus::InProgress ==> compression_status_view(c)
            == StatusView::InProgress,
{
}

} // verus!
