use zks::db_queries::{
    basic_witness_job_status_query, batch_data_queries, batch_proof_time_query,
    batch_rows_query, compressor_job_status_query, delete_batch_data_query,
    input_table_name_for, insert_prover_protocol_version_query, insert_witness_inputs_query,
    map_bwg_info, map_leaf_wg_info, prover_jobs_for_batch_query, recent_proof_times_query,
    restart_batch_proof_queries, set_basic_witness_generator_job_status_query,
    stuck_prover_jobs_query, stuck_witness_generator_jobs_query, witness_inputs_blob_url,
};
use zks::jobs::{AggregationRound, BasicWitnessGeneratorJobInfo, LeafWitnessGeneratorJobInfo};
use zks::status::WitnessJobStatus;

fn basic(batch: u32) -> BasicWitnessGeneratorJobInfo {
    BasicWitnessGeneratorJobInfo {
        l1_batch_number: batch,
        _attempts: 1,
        _status: WitnessJobStatus::Queued,
        _error: None,
        _created_at: 0,
        _updated_at: 0,
        _processing_started_at: None,
        _time_taken: None,
        _protocol_version: None,
        _picked_by: None,
        _protocol_version_patch: None,
        _witness_inputs_blob_url: None,
    }
}

fn leaf(batch: u32) -> LeafWitnessGeneratorJobInfo {
    LeafWitnessGeneratorJobInfo {
        _id: 1,
        l1_batch_number: batch,
        _circuit_id: 1,
        _closed_form_inputs_blob_url: None,
        _attempts: 0,
        _status: WitnessJobStatus::Queued,
        _error: None,
        _created_at: 0,
        _updated_at: 0,
        _processing_started_at: None,
        _time_taken: None,
        _number_of_basic_circuits: None,
        _protocol_version: None,
        _picked_by: None,
        _protocol_version_patch: None,
    }
}

#[test]
fn input_tables_by_round() {
    assert_eq!(input_table_name_for(AggregationRound::BasicCircuits), "witness_inputs_fri");
    assert_eq!(input_table_name_for(AggregationRound::LeafAggregation), "leaf_aggregation_witness_jobs_fri");
    assert_eq!(input_table_name_for(AggregationRound::NodeAggregation), "node_aggregation_witness_jobs_fri");
    assert_eq!(input_table_name_for(AggregationRound::RecursionTip), "recursion_tip_witness_jobs_fri");
    assert_eq!(input_table_name_for(AggregationRound::Scheduler), "scheduler_witness_jobs_fri");
}

#[test]
fn stuck_job_queries() {
    assert_eq!(
        stuck_witness_generator_jobs_query(AggregationRound::LeafAggregation, 10),
        "\n        SELECT *\n        FROM leaf_aggregation_witness_jobs_fri\n        WHERE\n            attempts = 10\n            AND status != 'success'\n        "
    );
    assert_eq!(
        stuck_prover_jobs_query(AggregationRound::NodeAggregation, 10),
        "\n        SELECT *\n        FROM prover_jobs_fri\n        WHERE\n            attempts = 10\n            AND status != 'success'\n            AND aggregation_round = 2\n        "
    );
}

#[test]
fn batch_status_queries() {
    assert_eq!(
        compressor_job_status_query(42),
        "\n        SELECT status\n        FROM proof_compression_jobs_fri\n        WHERE\n            l1_batch_number = 42\n            AND status = 'sent_to_server'\n        "
    );
    assert_eq!(
        basic_witness_job_status_query(42),
        "\n        SELECT status\n        FROM witness_inputs_fri\n        WHERE\n            l1_batch_number = 42\n        "
    );
}

#[test]
fn restart_deletes_later_stages_and_queues_the_batch() {
    let q = restart_batch_proof_queries(5);
    assert_eq!(q.len(), 7);
    assert_eq!(q[0], delete_batch_data_query(5, "proof_compression_jobs_fri"));
    assert_eq!(q[1], delete_batch_data_query(5, "scheduler_witness_jobs_fri"));
    assert_eq!(q[2], delete_batch_data_query(5, "recursion_tip_witness_jobs_fri"));
    assert_eq!(q[3], delete_batch_data_query(5, "node_aggregation_witness_jobs_fri"));
    assert_eq!(q[4], delete_batch_data_query(5, "leaf_aggregation_witness_jobs_fri"));
    assert_eq!(q[5], delete_batch_data_query(5, "prover_jobs_fri"));
    assert_eq!(q[6], set_basic_witness_generator_job_status_query(5, "queued"));
    assert_eq!(
        q[0],
        "\n        DELETE FROM proof_compression_jobs_fri\n        WHERE\n            l1_batch_number = 5\n        "
    );
    assert_eq!(
        q[6],
        "\n        UPDATE witness_inputs_fri\n        SET status = 'queued'\n        WHERE\n            l1_batch_number = 5\n        "
    );
}

#[test]
fn witness_inputs_insertion() {
    assert_eq!(witness_inputs_blob_url(12), "witness_inputs_12.bin");
    let q = insert_witness_inputs_query(12, "witness_inputs_12.bin", 24, 1);
    assert!(q.contains("VALUES\n            (12, 'witness_inputs_12.bin', 24, 'queued', NOW(), NOW(), 1)\n"));
    assert!(q.ends_with("ON CONFLICT (l1_batch_number) DO NOTHING\n        "));
}

#[test]
fn protocol_version_insertion_writes_hashes_in_hex() {
    let mut h = [0u8; 32];
    h[0] = 0xab;
    h[31] = 0x01;
    let z = [0u8; 32];
    let q = insert_prover_protocol_version_query(24, &h, &z, &z, &z, 0);
    let hex = format!("ab{}01", "00".repeat(30));
    let zeros = "00".repeat(32);
    assert!(q.contains(&format!(
        "(24, '\\x{hex}', '\\x{zeros}', '\\x{zeros}', '\\x{zeros}', 0, NOW())"
    )));
}

#[test]
fn proof_time_queries() {
    let q = recent_proof_times_query(7);
    assert!(q.contains("wit.created_at >  (NOW() - INTERVAL '7 days')"));
    let q = batch_proof_time_query(9);
    assert!(q.ends_with("comp.l1_batch_number = 9\n                "));
}

#[test]
fn batch_data_query_plan() {
    let q = batch_data_queries(3);
    assert_eq!(q.basic_witness_generator, batch_rows_query("witness_inputs_fri", 3));
    assert_eq!(q.basic_prover_jobs, prover_jobs_for_batch_query(3, AggregationRound::BasicCircuits));
    assert_eq!(q.node_prover_jobs, prover_jobs_for_batch_query(3, AggregationRound::NodeAggregation));
    assert_eq!(q.compressor, batch_rows_query("proof_compression_jobs_fri", 3));
    assert_eq!(
        q.leaf_prover_jobs,
        "\n        SELECT *\n        FROM prover_jobs_fri\n        WHERE\n            l1_batch_number = 3\n            AND aggregation_round = 1\n        "
    );
}

#[test]
fn batch_numbers_of_stuck_jobs() {
    assert_eq!(map_bwg_info(vec![basic(3), basic(1), basic(3)]), vec![3, 1, 3]);
    let mut leaf_batches = map_leaf_wg_info(vec![leaf(3), leaf(1), leaf(3)]);
    leaf_batches.sort();
    assert_eq!(leaf_batches, vec![1, 3]);
}
