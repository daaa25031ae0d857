use zks::batches::{
    batch_status_display, batch_title, batches_to_fetch, details_fetch_message, stage_heading,
    status_fetch_message, BatchStatusDisplay,
};
use zks::jobs::{
    aggregation_round_from_int2, combine_flags, get_and_sub2_from_circuit_id, int2_to_u32,
    int4_to_u32, int8_to_u32, sub2_from_circuit_id, AggregationRound,
    BasicWitnessGeneratorJobInfo, DecodeError, ProofCompressionJobInfo, ProverJobFriInfo,
    StageFlags,
};
use zks::proof_time::{
    batch_proof_time, format_commit_to_proof_duration, format_duration, prover_jobs_proof_time,
    stage_proof_time, StageProofTimeOutcome, TotalProofTime,
};
use zks::grouping::sorted_distinct_keys;
use zks::report::{prover_jobs_report, stage_status_report, witness_jobs_by_circuit};
use zks::stage::{selected_stages, stage_selected, BatchData, StageInfo};
use zks::status::{ProofCompressionJobStatus, ProverJobStatus, Status, WitnessJobStatus};

fn prover_job(id: u32, circuit: u32, status: ProverJobStatus, attempts: u32, created: i64, updated: i64) -> ProverJobFriInfo {
    ProverJobFriInfo {
        _id: id,
        l1_batch_number: 7,
        _circuit_id: circuit,
        _circuit_blob_url: String::new(),
        _aggregation_round: AggregationRound::BasicCircuits,
        _sequence_number: 0,
        _status: status,
        _error: None,
        _attempts: attempts,
        _processing_started_at: None,
        _created_at: created,
        _updated_at: updated,
        _time_taken: None,
        _depth: 0,
        _is_node_final_proof: false,
        _proof_blob_url: None,
        _protocol_version: None,
        _picked_by: None,
        _protocol_version_patch: None,
    }
}

fn basic_job(status: WitnessJobStatus) -> BasicWitnessGeneratorJobInfo {
    BasicWitnessGeneratorJobInfo {
        l1_batch_number: 7,
        _attempts: 1,
        _status: status,
        _error: None,
        _created_at: 1_000_000,
        _updated_at: 5_000_000,
        _processing_started_at: None,
        _time_taken: None,
        _protocol_version: None,
        _picked_by: None,
        _protocol_version_patch: None,
        _witness_inputs_blob_url: None,
    }
}

fn compression_job(status: ProofCompressionJobStatus, created: i64, updated: i64) -> ProofCompressionJobInfo {
    ProofCompressionJobInfo {
        _l1_batch_number: 7,
        _attempts: 1,
        _status: status,
        _fri_proof_blob_url: None,
        _l1_proof_blob_url: None,
        _error: None,
        _created_at: created,
        _updated_at: updated,
        _processing_started_at: None,
        _time_taken: None,
        _picked_by: None,
    }
}

fn batch(basic: Option<BasicWitnessGeneratorJobInfo>, prover_jobs: Vec<ProverJobFriInfo>, compressor: Option<ProofCompressionJobInfo>) -> BatchData {
    BatchData {
        batch_number: 7,
        basic_witness_generator: StageInfo::BasicWitnessGenerator {
            witness_generator_job_info: basic,
            prover_jobs_info: prover_jobs,
        },
        leaf_witness_generator: StageInfo::LeafWitnessGenerator {
            witness_generator_jobs_info: vec![],
            prover_jobs_info: vec![],
        },
        node_witness_generator: StageInfo::NodeWitnessGenerator {
            witness_generator_jobs_info: vec![],
            prover_jobs_info: vec![],
        },
        recursion_tip_witness_generator: StageInfo::RecursionTipWitnessGenerator(None),
        scheduler_witness_generator: StageInfo::SchedulerWitnessGenerator(None),
        compressor: StageInfo::Compressor(compressor),
    }
}

#[test]
fn flags_combine_into_bits() {
    assert_eq!(combine_flags(false, false, false, false, false, false), 0);
    assert_eq!(combine_flags(true, false, false, false, false, false), 1);
    assert_eq!(combine_flags(false, true, false, true, false, true), 2 + 8 + 32);
    assert_eq!(combine_flags(true, true, true, true, true, true), 63);
    assert_eq!(StageFlags::Bwg.as_u32(), 1);
    assert_eq!(StageFlags::Swg.as_u32(), 16);
    assert_eq!(StageFlags::Compressor.as_u32(), 32);
}

#[test]
fn combined_flags_select_exactly_the_chosen_stages() {
    let flags = combine_flags(false, true, false, false, false, true);
    assert!(!stage_selected(flags, StageFlags::Bwg));
    assert!(stage_selected(flags, StageFlags::Lwg));
    assert!(!stage_selected(flags, StageFlags::Nwg));
    assert!(stage_selected(flags, StageFlags::Compressor));
    // No flag shows every stage.
    assert!(stage_selected(0, StageFlags::Rtwg));
    let stages = selected_stages(batch(None, vec![], None), flags);
    assert_eq!(stages.len(), 2);
    assert_eq!(stages[0].stage_name(), "Leaf Witness Generator");
    assert_eq!(stages[1].stage_name(), "Compressor");
    assert_eq!(selected_stages(batch(None, vec![], None), 0).len(), 6);
}

#[test]
fn aggregation_rounds_and_circuit_ids() {
    assert_eq!(AggregationRound::Scheduler.as_u8(), 4);
    assert_eq!(AggregationRound::from_u8(2), AggregationRound::NodeAggregation);
    assert_eq!(aggregation_round_from_int2(3), Ok(AggregationRound::RecursionTip));
    assert_eq!(aggregation_round_from_int2(-1), Err(DecodeError::IntegerOutOfRange));
    assert_eq!(sub2_from_circuit_id(AggregationRound::NodeAggregation, 18), 255);
    assert_eq!(sub2_from_circuit_id(AggregationRound::NodeAggregation, 5), 3);
    assert_eq!(sub2_from_circuit_id(AggregationRound::Scheduler, 1), 0);
    assert_eq!(sub2_from_circuit_id(AggregationRound::LeafAggregation, 5), 5);
    assert_eq!(get_and_sub2_from_circuit_id(18), Ok(255));
    assert_eq!(get_and_sub2_from_circuit_id(4), Ok(2));
    assert_eq!(get_and_sub2_from_circuit_id(-4), Err(DecodeError::IntegerOutOfRange));
}

#[test]
fn database_integers_decode_to_u32() {
    assert_eq!(int2_to_u32(7), Ok(7));
    assert_eq!(int2_to_u32(-7), Err(DecodeError::IntegerOutOfRange));
    assert_eq!(int4_to_u32(70000), Ok(70000));
    assert_eq!(int8_to_u32(4_294_967_295), Ok(4_294_967_295));
    assert_eq!(int8_to_u32(4_294_967_296), Err(DecodeError::IntegerOutOfRange));
}

#[test]
fn durations_are_written_with_two_digits() {
    assert_eq!(format_duration(3661), "01:01:01");
    assert_eq!(format_duration(0), "00:00:00");
    assert_eq!(format_duration(360_000), "100:00:00");
    assert_eq!(format_duration(-61), "00:-1:-1");
    assert_eq!(format_commit_to_proof_duration(90_061), "25:01:01");
}

#[test]
fn prover_jobs_proof_time_spans_creation_to_last_update() {
    let jobs = vec![
        prover_job(1, 1, ProverJobStatus::Successful, 1, 2_000_000, 9_000_000),
        prover_job(2, 2, ProverJobStatus::Successful, 1, 1_000_000, 4_000_000),
    ];
    let t = prover_jobs_proof_time(&jobs, 10).unwrap();
    assert_eq!(t.created_datetime, 1_000_000);
    assert_eq!(t.updated_datetime, 9_000_000);
    assert_eq!(t._proof_time_from_creation, 8);
    let unfinished = vec![prover_job(1, 1, ProverJobStatus::Queued, 0, 0, 0)];
    assert_eq!(prover_jobs_proof_time(&unfinished, 10), None);
}

#[test]
fn batch_proof_time_of_a_proof_sent_to_server() {
    let b = batch(
        Some(basic_job(WitnessJobStatus::Successful)),
        vec![prover_job(1, 1, ProverJobStatus::Successful, 1, 1_000_000, 3_000_000)],
        Some(compression_job(ProofCompressionJobStatus::SentToServer, 4_000_000, 61_000_000)),
    );
    let flags = combine_flags(true, false, false, false, false, true);
    let r = batch_proof_time(b, flags);
    assert_eq!(r.stages.len(), 2);
    assert!(matches!(r.stages[0], StageProofTimeOutcome::Finished(Some(_))));
    assert!(matches!(r.stages[1], StageProofTimeOutcome::SentToServer(Some(_))));
    assert_eq!(r.total, Ok(TotalProofTime::SentToServer(60)));
}

#[test]
fn stage_proof_time_of_an_unfinished_stage() {
    let stage = StageInfo::BasicWitnessGenerator {
        witness_generator_job_info: Some(basic_job(WitnessJobStatus::Queued)),
        prover_jobs_info: vec![],
    };
    assert_eq!(stage_proof_time(&stage, 10), StageProofTimeOutcome::NotFinished);
}

#[test]
fn prover_jobs_report_groups_by_circuit() {
    let jobs = vec![
        prover_job(1, 3, ProverJobStatus::Queued, 0, 0, 0),
        prover_job(2, 1, ProverJobStatus::Successful, 1, 0, 0),
        prover_job(3, 3, ProverJobStatus::InProgress, 1, 0, 0),
    ];
    let r = prover_jobs_report(&jobs, 10);
    assert_eq!(r.status, Status::InProgress);
    assert_eq!(r.circuits.len(), 2);
    assert_eq!(r.circuits[0].circuit_id, 1);
    assert_eq!(r.circuits[0].status, Status::Successful);
    assert_eq!(r.circuits[1].circuit_id, 3);
    assert_eq!(r.circuits[1].total_jobs, 2);
    let counts = r.circuits[1].counts.unwrap();
    assert_eq!((counts.queued, counts.in_progress, counts.successful, counts.failed), (1, 1, 0, 0));
}

#[test]
fn stuck_circuit_lists_its_stuck_jobs() {
    let jobs = vec![
        prover_job(4, 2, ProverJobStatus::Failed, 10, 0, 0),
        prover_job(5, 2, ProverJobStatus::Successful, 1, 0, 0),
    ];
    let r = prover_jobs_report(&jobs, 10);
    assert_eq!(r.status, Status::Stuck);
    assert_eq!(r.circuits[0].stuck_jobs, vec![(4, 10)]);
}

#[test]
fn witness_jobs_are_listed_by_circuit() {
    let jobs = vec![
        (5, WitnessJobStatus::Queued, 0),
        (2, WitnessJobStatus::Successful, 1),
        (5, WitnessJobStatus::InProgress, 10),
    ];
    let r = witness_jobs_by_circuit(&jobs, 10);
    assert_eq!(
        r,
        vec![(2, Status::Successful), (5, Status::Queued), (5, Status::Stuck)]
    );
}

#[test]
fn stage_status_report_names_the_stage() {
    let stage = StageInfo::Compressor(Some(compression_job(ProofCompressionJobStatus::Queued, 0, 0)));
    let r = stage_status_report(&stage, 10);
    assert_eq!(r.stage_name, "Compressor");
    assert_eq!(r.aggregation_round, None);
    assert_eq!(r.status, Status::Queued);
    assert_eq!(r.prover_jobs_status, None);
}

#[test]
fn batches_are_fetched_up_to_the_current_one() {
    assert_eq!(batches_to_fetch(&vec![1, 2, 5, 3], 4), (vec![1, 2], true));
    assert_eq!(batches_to_fetch(&vec![1, 2], 4), (vec![1, 2], false));
    assert_eq!(batches_to_fetch(&vec![], 4), (vec![], false));
    assert_eq!(details_fetch_message(2), "Fetching Batches' Data");
    assert_eq!(details_fetch_message(1), "Fetching Batch's Data");
    assert_eq!(status_fetch_message(3), "Fetching Batches");
    assert_eq!(status_fetch_message(1), "Fetching Batch");
}

#[test]
fn batch_titles_pad_the_number() {
    assert_eq!(batch_title(42), "Batch 00042 Status");
    assert_eq!(batch_title(123_456), "Batch 123456 Status");
    let stage = StageInfo::SchedulerWitnessGenerator(None);
    assert_eq!(stage_heading(&stage), "Aggregation Round 4");
    assert_eq!(stage_heading(&StageInfo::Compressor(None)), "Proof Compression");
}

#[test]
fn batch_status_display_by_stage_statuses() {
    let sent = batch(
        Some(basic_job(WitnessJobStatus::Successful)),
        vec![],
        Some(compression_job(ProofCompressionJobStatus::SentToServer, 0, 0)),
    );
    assert_eq!(batch_status_display(&sent), BatchStatusDisplay::ProofSentToServer);
    let missing = batch(None, vec![], None);
    assert_eq!(batch_status_display(&missing), BatchStatusDisplay::NoBatchFound);
    let running = batch(Some(basic_job(WitnessJobStatus::InProgress)), vec![], None);
    assert_eq!(batch_status_display(&running), BatchStatusDisplay::Stages);
}

#[test]
fn circuit_ids_are_listed_once_in_increasing_order() {
    assert_eq!(sorted_distinct_keys(&vec![5, 1, 5, 3, 1]), vec![1, 3, 5]);
    assert_eq!(sorted_distinct_keys(&vec![]), Vec::<u32>::new());
    assert_eq!(sorted_distinct_keys(&vec![u32::MAX, 0]), vec![0, u32::MAX]);
}
