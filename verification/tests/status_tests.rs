use zks::jobs::{LeafWitnessGeneratorJobInfo, ProverJobFriInfo, AggregationRound};
use zks::prover_status::{
    get_prover_job_status, get_prover_jobs_status_from_vec, get_witness_generator_job_status,
    get_witness_generator_job_status_from_vec, witness_jobs_status,
};
use zks::status::{
    compression_job_status_from_name, prover_job_status_from_name, witness_job_status_from_name,
    ProofCompressionJobStatus, ProverJobStatus, Status, WitnessJobStatus,
};

fn leaf_job(status: WitnessJobStatus, attempts: u32) -> LeafWitnessGeneratorJobInfo {
    LeafWitnessGeneratorJobInfo {
        _id: 1,
        l1_batch_number: 7,
        _circuit_id: 3,
        _closed_form_inputs_blob_url: None,
        _attempts: attempts,
        _status: status,
        _error: None,
        _created_at: 0,
        _updated_at: 0,
        _processing_started_at: None,
        _time_taken: None,
        _number_of_basic_circuits: None,
        _protocol_version: None,
        _picked_by: None,
        _protocol_version_patch: None,
    }
}

fn prover_job(status: ProverJobStatus, attempts: u32) -> ProverJobFriInfo {
    ProverJobFriInfo {
        _id: 1,
        l1_batch_number: 7,
        _circuit_id: 1,
        _circuit_blob_url: String::new(),
        _aggregation_round: AggregationRound::BasicCircuits,
        _sequence_number: 0,
        _status: status,
        _error: None,
        _attempts: attempts,
        _processing_started_at: None,
        _created_at: 0,
        _updated_at: 0,
        _time_taken: None,
        _depth: 0,
        _is_node_final_proof: false,
        _proof_blob_url: None,
        _protocol_version: None,
        _picked_by: None,
        _protocol_version_patch: None,
    }
}

#[test]
fn prover_job_statuses_map_to_task_statuses() {
    assert_eq!(Status::from_prover_job_status(ProverJobStatus::Queued), Status::Queued);
    assert_eq!(Status::from_prover_job_status(ProverJobStatus::InProgress), Status::InProgress);
    assert_eq!(Status::from_prover_job_status(ProverJobStatus::Successful), Status::Successful);
    assert_eq!(
        Status::from_prover_job_status(ProverJobStatus::Failed),
        Status::Custom("Failed".to_owned())
    );
    assert_eq!(
        Status::from_prover_job_status(ProverJobStatus::Skipped),
        Status::Custom("Skipped ⏩".to_owned())
    );
    assert_eq!(
        Status::from_prover_job_status(ProverJobStatus::Ignored),
        Status::Custom("Ignored".to_owned())
    );
    assert_eq!(
        Status::from_prover_job_status(ProverJobStatus::InGPUProof),
        Status::Custom("In GPU Proof".to_owned())
    );
}

#[test]
fn witness_job_statuses_map_to_task_statuses() {
    assert_eq!(Status::from_witness_job_status(WitnessJobStatus::Failed), Status::InProgress);
    assert_eq!(
        Status::from_witness_job_status(WitnessJobStatus::WaitingForArtifacts),
        Status::Custom("Waiting for Artifacts ⏱️".to_owned())
    );
    assert_eq!(
        Status::from_witness_job_status(WitnessJobStatus::WaitingForProofs),
        Status::WaitingForProofs
    );
    assert_eq!(Status::from_witness_job_status(WitnessJobStatus::Successful), Status::Successful);
}

#[test]
fn compression_job_statuses_map_to_task_statuses() {
    assert_eq!(
        Status::from_compression_job_status(ProofCompressionJobStatus::SentToServer),
        Status::Custom("Sent to server 📤".to_owned())
    );
    assert_eq!(
        Status::from_compression_job_status(ProofCompressionJobStatus::Failed),
        Status::InProgress
    );
    assert_eq!(
        Status::from_compression_job_status(ProofCompressionJobStatus::Skipped),
        Status::Custom("Skipped ⏩".to_owned())
    );
}

#[test]
fn witness_statuses_aggregate_into_a_task_status() {
    assert_eq!(Status::from_witness_job_statuses(&vec![]), Status::JobsNotFound);
    assert_eq!(
        Status::from_witness_job_statuses(&vec![
            WitnessJobStatus::WaitingForProofs,
            WitnessJobStatus::WaitingForProofs
        ]),
        Status::WaitingForProofs
    );
    assert_eq!(
        Status::from_witness_job_statuses(&vec![
            WitnessJobStatus::Queued,
            WitnessJobStatus::WaitingForProofs
        ]),
        Status::Queued
    );
    assert_eq!(
        Status::from_witness_job_statuses(&vec![
            WitnessJobStatus::Successful,
            WitnessJobStatus::Successful
        ]),
        Status::Successful
    );
    assert_eq!(
        Status::from_witness_job_statuses(&vec![
            WitnessJobStatus::Successful,
            WitnessJobStatus::Queued
        ]),
        Status::InProgress
    );
}

#[test]
fn status_texts_are_the_shown_ones() {
    assert_eq!(Status::Queued.display_text(), "Queued 📥");
    assert_eq!(Status::InProgress.display_text(), "In Progress ⌛️");
    assert_eq!(Status::Successful.display_text(), "Successful ✅");
    assert_eq!(Status::WaitingForProofs.display_text(), "Waiting for Proof ⏱️");
    assert_eq!(Status::Stuck.display_text(), "Stuck ⛔️");
    assert_eq!(Status::JobsNotFound.display_text(), "Jobs not found 🚫");
    assert_eq!(Status::Custom("Failed".to_owned()).display_text(), "Custom");
    assert_eq!(Status::default(), Status::JobsNotFound);
}

#[test]
fn a_witness_job_is_stuck_at_max_attempts() {
    assert_eq!(
        get_witness_generator_job_status(&leaf_job(WitnessJobStatus::InProgress, 10), 10),
        Status::Stuck
    );
    assert_eq!(
        get_witness_generator_job_status(&leaf_job(WitnessJobStatus::Failed, 11), 10),
        Status::Stuck
    );
    assert_eq!(
        get_witness_generator_job_status(&leaf_job(WitnessJobStatus::InProgress, 9), 10),
        Status::InProgress
    );
    assert_eq!(
        get_witness_generator_job_status(&leaf_job(WitnessJobStatus::Queued, 50), 10),
        Status::Queued
    );
}

#[test]
fn one_stuck_witness_job_makes_the_task_stuck() {
    let jobs = vec![
        leaf_job(WitnessJobStatus::Successful, 1),
        leaf_job(WitnessJobStatus::Failed, 10),
        leaf_job(WitnessJobStatus::Queued, 0),
    ];
    assert_eq!(get_witness_generator_job_status_from_vec(jobs, 10), Status::Stuck);
}

#[test]
fn witness_task_status_ignores_the_order_of_jobs() {
    let a = vec![leaf_job(WitnessJobStatus::Successful, 1), leaf_job(WitnessJobStatus::Queued, 0)];
    let b = vec![leaf_job(WitnessJobStatus::Queued, 0), leaf_job(WitnessJobStatus::Successful, 1)];
    assert_eq!(witness_jobs_status(&a, 10), witness_jobs_status(&b, 10));
    assert_eq!(witness_jobs_status(&a, 10), Status::InProgress);
}

#[test]
fn witness_task_statuses_by_job_statuses() {
    assert_eq!(get_witness_generator_job_status_from_vec(Vec::<LeafWitnessGeneratorJobInfo>::new(), 10), Status::JobsNotFound);
    assert_eq!(
        get_witness_generator_job_status_from_vec(
            vec![leaf_job(WitnessJobStatus::WaitingForProofs, 0)],
            10
        ),
        Status::WaitingForProofs
    );
    assert_eq!(
        get_witness_generator_job_status_from_vec(
            vec![leaf_job(WitnessJobStatus::Queued, 0), leaf_job(WitnessJobStatus::WaitingForProofs, 0)],
            10
        ),
        Status::Queued
    );
    assert_eq!(
        get_witness_generator_job_status_from_vec(
            vec![leaf_job(WitnessJobStatus::Successful, 0), leaf_job(WitnessJobStatus::Successful, 3)],
            10
        ),
        Status::Successful
    );
}

#[test]
fn prover_job_statuses_by_attempts() {
    assert_eq!(get_prover_job_status(prover_job(ProverJobStatus::Failed, 10), 10), Status::Stuck);
    assert_eq!(
        get_prover_job_status(prover_job(ProverJobStatus::Failed, 2), 10),
        Status::Custom("Failed".to_owned())
    );
    assert_eq!(get_prover_job_status(prover_job(ProverJobStatus::InProgress, 12), 10), Status::Stuck);
    assert_eq!(get_prover_job_status(prover_job(ProverJobStatus::Queued, 12), 10), Status::Queued);
}

#[test]
fn prover_task_statuses_by_job_statuses() {
    assert_eq!(get_prover_jobs_status_from_vec(&[], 10), Status::JobsNotFound);
    assert_eq!(
        get_prover_jobs_status_from_vec(
            &[prover_job(ProverJobStatus::InGPUProof, 0), prover_job(ProverJobStatus::InGPUProof, 1)],
            10
        ),
        Status::Custom("In GPU Proof ⚡️".to_owned())
    );
    assert_eq!(
        get_prover_jobs_status_from_vec(
            &[prover_job(ProverJobStatus::Queued, 0), prover_job(ProverJobStatus::Queued, 1)],
            10
        ),
        Status::Queued
    );
    assert_eq!(
        get_prover_jobs_status_from_vec(
            &[prover_job(ProverJobStatus::Successful, 0), prover_job(ProverJobStatus::Failed, 1)],
            10
        ),
        Status::InProgress
    );
    assert_eq!(
        get_prover_jobs_status_from_vec(
            &[prover_job(ProverJobStatus::Successful, 0), prover_job(ProverJobStatus::InProgress, 10)],
            10
        ),
        Status::Stuck
    );
}

#[test]
fn prover_task_status_ignores_the_order_of_jobs() {
    let a = [prover_job(ProverJobStatus::Successful, 0), prover_job(ProverJobStatus::Queued, 0)];
    let b = [prover_job(ProverJobStatus::Queued, 0), prover_job(ProverJobStatus::Successful, 0)];
    assert_eq!(get_prover_jobs_status_from_vec(&a, 10), get_prover_jobs_status_from_vec(&b, 10));
}

#[test]
fn stored_status_names() {
    assert_eq!(witness_job_status_from_name("in_progress"), Some(WitnessJobStatus::InProgress));
    assert_eq!(
        witness_job_status_from_name("waiting_for_proofs"),
        Some(WitnessJobStatus::WaitingForProofs)
    );
    assert_eq!(witness_job_status_from_name("sent_to_server"), None);
    assert_eq!(prover_job_status_from_name("in_gpu_proof"), Some(ProverJobStatus::InGPUProof));
    assert_eq!(prover_job_status_from_name("Queued"), None);
    assert_eq!(
        compression_job_status_from_name("sent_to_server"),
        Some(ProofCompressionJobStatus::SentToServer)
    );
    assert_eq!(compression_job_status_from_name("ignored"), None);
}

#[test]
fn raising_the_attempts_limit_only_unsticks() {
    let jobs = vec![
        leaf_job(WitnessJobStatus::Successful, 1),
        leaf_job(WitnessJobStatus::Failed, 10),
    ];
    assert_eq!(witness_jobs_status(&jobs, 5), Status::Stuck);
    assert_eq!(witness_jobs_status(&jobs, 10), Status::Stuck);
    assert_eq!(witness_jobs_status(&jobs, 11), Status::InProgress);
}
