//! The SQL statements sent to the prover database: finding stuck jobs,
//! reading a batch's jobs, restarting a batch proof and inserting witness
//! inputs and protocol versions.

use vstd::prelude::*;
use itertools::Itertools;
use crate::calldata::{lower_hex, lower_hex_text};
use crate::decimal::{nat_decimal, push_u64_decimal};
use crate::jobs::{
    round_number, AggregationRound, ProverJobFriInfo, BasicWitnessGeneratorJobInfo, LeafWitnessGeneratorJobInfo,
    NodeWitnessGeneratorJobInfo, RecursionTipWitnessGeneratorJobInfo,
    SchedulerWitnessGeneratorJobInfo,
};

verus! {

/// The table of the jobs that take the inputs of an aggregation round.
pub open spec fn table_name_of(aggregation_round: AggregationRound) -> Seq<char> {
    match aggregation_round {
        AggregationRound::BasicCircuits => "witness_inputs_fri"@,
        AggregationRound::LeafAggregation => "leaf_aggregation_witness_jobs_fri"@,
        AggregationRound::NodeAggregation => "node_aggregation_witness_jobs_fri"@,
        AggregationRound::RecursionTip => "recursion_tip_witness_jobs_fri"@,
        AggregationRound::Scheduler => "scheduler_witness_jobs_fri"@,
    }
}

/// The table of the jobs that take the inputs of an aggregation round.
pub fn input_table_name_for(aggregation_round: AggregationRound) -> (r: &'static str)
    ensures
        r@ == table_name_of(aggregation_round),
{
    match aggregation_round {
        AggregationRound::BasicCircuits => "witness_inputs_fri",
        AggregationRound::LeafAggregation => "leaf_aggregation_witness_jobs_fri",
        AggregationRound::NodeAggregation => "node_aggregation_witness_jobs_fri",
        AggregationRound::RecursionTip => "recursion_tip_witness_jobs_fri",
        AggregationRound::Scheduler => "scheduler_witness_jobs_fri",
    }
}

/// The query for the witness generator jobs of a round that are stuck: at the
/// maximum number of attempts and not successful.
pub fn stuck_witness_generator_jobs_query(aggregation_round: AggregationRound, max_attempts: u32) -> (r: String)
    ensures
        r@ == "\n        SELECT *\n        FROM "@
            + table_name_of(aggregation_round)
            + "\n        WHERE\n            attempts = "@
            + nat_decimal(max_attempts as nat)
            + "\n            AND status != 'success'\n        "@,
{
    let mut q = String::new();
    q.append("\n        SELECT *\n        FROM ");
    q.append(input_table_name_for(aggregation_round));
    q.append("\n        WHERE\n            attempts = ");
    push_u64_decimal(&mut q, max_attempts as u64);
    q.append("\n            AND status != 'success'\n        ");
    assert(q@ =~= "\n        SELECT *\n        FROM "@ + table_name_of(aggregation_round) + "\n        WHERE\n            attempts = "@ + nat_decimal(max_attempts as nat) + "\n            AND status != 'success'\n        "@);
    q
}

/// The query for the prover jobs of a round that are stuck: at the maximum
/// number of attempts and not successful.
pub fn stuck_prover_jobs_query(aggregation_round: AggregationRound, max_attempts: u32) -> (r: String)
    ensures
        r@ == "\n        SELECT *\n        FROM prover_jobs_fri\n        WHERE\n            attempts = "@
            + nat_decimal(max_attempts as nat)
            + "\n            AND status != 'success'\n            AND aggregation_round = "@
            + nat_decimal(round_number(aggregation_round) as nat)
            + "\n        "@,
{
    let mut q = String::new();
    q.append("\n        SELECT *\n        FROM prover_jobs_fri\n        WHERE\n            attempts = ");
    push_u64_decimal(&mut q, max_attempts as u64);
    q.append("\n            AND status != 'success'\n            AND aggregation_round = ");
    push_u64_decimal(&mut q, aggregation_round.as_u8() as u64);
    q.append("\n        ");
    assert(q@ =~= "\n        SELECT *\n        FROM prover_jobs_fri\n        WHERE\n            attempts = "@ + nat_decimal(max_attempts as nat) + "\n            AND status != 'success'\n            AND aggregation_round = "@ + nat_decimal(round_number(aggregation_round) as nat) + "\n        "@);
    q
}

/// The query for the status of a batch's proof compression job, if the proof
/// was sent to the server.
pub fn compressor_job_status_query(batch: u32) -> (r: String)
    ensures
        r@ == "\n        SELECT status\n        FROM proof_compression_jobs_fri\n        WHERE\n            l1_batch_number = "@
            + nat_decimal(batch as nat)
            + "\n            AND status = 'sent_to_server'\n        "@,
{
    let mut q = String::new();
    q.append("\n        SELECT status\n        FROM proof_compression_jobs_fri\n        WHERE\n            l1_batch_number = ");
    push_u64_decimal(&mut q, batch as u64);
    q.append("\n            AND status = 'sent_to_server'\n        ");
    assert(q@ =~= "\n        SELECT status\n        FROM proof_compression_jobs_fri\n        WHERE\n            l1_batch_number = "@ + nat_decimal(batch as nat) + "\n            AND status = 'sent_to_server'\n        "@);
    q
}

/// The statement that sets the status of a batch's basic witness generator job.
pub fn set_basic_witness_generator_job_status_query(batch: u32, status: &str) -> (r: String)
    ensures
        r@ == "\n        UPDATE witness_inputs_fri\n        SET status = '"@
            + status@
            + "'\n        WHERE\n            l1_batch_number = "@
            + nat_decimal(batch as nat)
            + "\n        "@,
{
    let mut q = String::new();
    q.append("\n        UPDATE witness_inputs_fri\n        SET status = '");
    q.append(status);
    q.append("'\n        WHERE\n            l1_batch_number = ");
    push_u64_decimal(&mut q, batch as u64);
    q.append("\n        ");
    assert(q@ =~= "\n        UPDATE witness_inputs_fri\n        SET status = '"@ + status@ + "'\n        WHERE\n            l1_batch_number = "@ + nat_decimal(batch as nat) + "\n        "@);
    q
}

/// The statement that deletes a batch's rows from a table.
pub fn delete_batch_data_query(batch: u32, table: &str) -> (r: String)
    ensures
        r@ == "\n        DELETE FROM "@
            + table@
            + "\n        WHERE\n            l1_batch_number = "@
            + nat_decimal(batch as nat)
            + "\n        "@,
{
    let mut q = String::new();
    q.append("\n        DELETE FROM ");
    q.append(table);
    q.append("\n        WHERE\n            l1_batch_number = ");
    push_u64_decimal(&mut q, batch as u64);
    q.append("\n        ");
    assert(q@ =~= "\n        DELETE FROM "@ + table@ + "\n        WHERE\n            l1_batch_number = "@ + nat_decimal(batch as nat) + "\n        "@);
    q
}

/// The statement that inserts the witness inputs of a batch, queued, unless
/// the batch has them already.
pub fn insert_witness_inputs_query(batch: u32, witness_inputs_blob_url: &str, protocol_version: u16, protocol_version_patch: u32) -> (r: String)
    ensures
        r@ == "\n        INSERT INTO\n            witness_inputs_fri (\n                l1_batch_number,\n                witness_inputs_blob_url,\n                protocol_version,\n                status,\n                created_at,\n                updated_at,\n                protocol_version_patch\n            )\n        VALUES\n            ("@
            + nat_decimal(batch as nat)
            + ", '"@
            + witness_inputs_blob_url@
            + "', "@
            + nat_decimal(protocol_version as nat)
            + ", 'queued', NOW(), NOW(), "@
            + nat_decimal(protocol_version_patch as nat)
            + ")\n        ON CONFLICT (l1_batch_number) DO NOTHING\n        "@,
{
    let mut q = String::new();
    q.append("\n        INSERT INTO\n            witness_inputs_fri (\n                l1_batch_number,\n                witness_inputs_blob_url,\n                protocol_version,\n                status,\n                created_at,\n                updated_at,\n                protocol_version_patch\n            )\n        VALUES\n            (");
    push_u64_decimal(&mut q, batch as u64);
    q.append(", '");
    q.append(witness_inputs_blob_url);
    q.append("', ");
    push_u64_decimal(&mut q, protocol_version as u64);
    q.append(", 'queued', NOW(), NOW(), ");
    push_u64_decimal(&mut q, protocol_version_patch as u64);
    q.append(")\n        ON CONFLICT (l1_batch_number) DO NOTHING\n        ");
    assert(q@ =~= "\n        INSERT INTO\n            witness_inputs_fri (\n                l1_batch_number,\n                witness_inputs_blob_url,\n                protocol_version,\n                status,\n                created_at,\n                updated_at,\n                protocol_version_patch\n            )\n        VALUES\n            ("@ + nat_decimal(batch as nat) + ", '"@ + witness_inputs_blob_url@ + "', "@ + nat_decimal(protocol_version as nat) + ", 'queued', NOW(), NOW(), "@ + nat_decimal(protocol_version_patch as nat) + ")\n        ON CONFLICT (l1_batch_number) DO NOTHING\n        "@);
    q
}

/// The query for the status of a batch's basic witness generator job.
pub fn basic_witness_job_status_query(batch: u32) -> (r: String)
    ensures
        r@ == "\n        SELECT status\n        FROM witness_inputs_fri\n        WHERE\n            l1_batch_number = "@
            + nat_decimal(batch as nat)
            + "\n        "@,
{
    let mut q = String::new();
    q.append("\n        SELECT status\n        FROM witness_inputs_fri\n        WHERE\n            l1_batch_number = ");
    push_u64_decimal(&mut q, batch as u64);
    q.append("\n        ");
    assert(q@ =~= "\n        SELECT status\n        FROM witness_inputs_fri\n        WHERE\n            l1_batch_number = "@ + nat_decimal(batch as nat) + "\n        "@);
    q
}

/// The statement that inserts a prover protocol version with its
/// verification key hashes, or updates the hashes of an existing one.
pub fn insert_prover_protocol_version_query(protocol_version: u16, recursion_scheduler_level_vk_hash: &[u8; 32], recursion_node_level_vk_hash: &[u8; 32], recursion_leaf_level_vk_hash: &[u8; 32], recursion_circuits_set_vks_hash: &[u8; 32], protocol_version_patch: u32) -> (r: String)
    ensures
        r@ == "\n        INSERT INTO\n            prover_fri_protocol_versions (\n                id,\n                recursion_scheduler_level_vk_hash,\n                recursion_node_level_vk_hash,\n                recursion_leaf_level_vk_hash,\n                recursion_circuits_set_vks_hash,\n                protocol_version_patch,\n                created_at\n            )\n        VALUES\n            ("@
            + nat_decimal(protocol_version as nat)
            + ", '\\x"@
            + lower_hex(recursion_scheduler_level_vk_hash@)
            + "', '\\x"@
            + lower_hex(recursion_node_level_vk_hash@)
            + "', '\\x"@
            + lower_hex(recursion_leaf_level_vk_hash@)
            + "', '\\x"@
            + lower_hex(recursion_circuits_set_vks_hash@)
            + "', "@
            + nat_decimal(protocol_version_patch as nat)
            + ", NOW())\n        ON CONFLICT (id, protocol_version_patch) DO UPDATE SET\n            recursion_scheduler_level_vk_hash = EXCLUDED.recursion_scheduler_level_vk_hash,\n            recursion_node_level_vk_hash = EXCLUDED.recursion_node_level_vk_hash,\n            recursion_leaf_level_vk_hash = EXCLUDED.recursion_leaf_level_vk_hash,\n            recursion_circuits_set_vks_hash = EXCLUDED.recursion_circuits_set_vks_hash\n        "@,
{
    let mut q = String::new();
    q.append("\n        INSERT INTO\n            prover_fri_protocol_versions (\n                id,\n                recursion_scheduler_level_vk_hash,\n                recursion_node_level_vk_hash,\n                recursion_leaf_level_vk_hash,\n                recursion_circuits_set_vks_hash,\n                protocol_version_patch,\n                created_at\n            )\n        VALUES\n            (");
    push_u64_decimal(&mut q, protocol_version as u64);
    q.append(", '\\x");
    q.append(lower_hex_text(recursion_scheduler_level_vk_hash).as_str());
    q.append("', '\\x");
    q.append(lower_hex_text(recursion_node_level_vk_hash).as_str());
    q.append("', '\\x");
    q.append(lower_hex_text(recursion_leaf_level_vk_hash).as_str());
    q.append("', '\\x");
    q.append(lower_hex_text(recursion_circuits_set_vks_hash).as_str());
    q.append("', ");
    push_u64_decimal(&mut q, protocol_version_patch as u64);
    q.append(", NOW())\n        ON CONFLICT (id, protocol_version_patch) DO UPDATE SET\n            recursion_scheduler_level_vk_hash = EXCLUDED.recursion_scheduler_level_vk_hash,\n            recursion_node_level_vk_hash = EXCLUDED.recursion_node_level_vk_hash,\n            recursion_leaf_level_vk_hash = EXCLUDED.recursion_leaf_level_vk_hash,\n            recursion_circuits_set_vks_hash = EXCLUDED.recursion_circuits_set_vks_hash\n        ");
    assert(q@ =~= "\n        INSERT INTO\n            prover_fri_protocol_versions (\n                id,\n                recursion_scheduler_level_vk_hash,\n                recursion_node_level_vk_hash,\n                recursion_leaf_level_vk_hash,\n                recursion_circuits_set_vks_hash,\n                protocol_version_patch,\n                created_at\n            )\n        VALUES\n            ("@ + nat_decimal(protocol_version as nat) + ", '\\x"@ + lower_hex(recursion_scheduler_level_vk_hash@) + "', '\\x"@ + lower_hex(recursion_node_level_vk_hash@) + "', '\\x"@ + lower_hex(recursion_leaf_level_vk_hash@) + "', '\\x"@ + lower_hex(recursion_circuits_set_vks_hash@) + "', "@ + nat_decimal(protocol_version_patch as nat) + ", NOW())\n        ON CONFLICT (id, protocol_version_patch) DO UPDATE SET\n            recursion_scheduler_level_vk_hash = EXCLUDED.recursion_scheduler_level_vk_hash,\n            recursion_node_level_vk_hash = EXCLUDED.recursion_node_level_vk_hash,\n            recursion_leaf_level_vk_hash = EXCLUDED.recursion_leaf_level_vk_hash,\n            recursion_circuits_set_vks_hash = EXCLUDED.recursion_circuits_set_vks_hash\n        "@);
    q
}

/// The query for the proof generation times of the batches whose witness
/// inputs were created in the last `days` days, longest first.
pub fn recent_proof_times_query(days: u32) -> (r: String)
    ensures
        r@ == "\n                SELECT\n                    comp.l1_batch_number,\n                    CAST((comp.updated_at - wit.created_at) AS TIME) AS time_taken,\n                    wit.created_at\n                FROM\n                    proof_compression_jobs_fri AS comp\n                    JOIN witness_inputs_fri AS wit ON comp.l1_batch_number = wit.l1_batch_number\n                WHERE\n                    wit.created_at >  (NOW() - INTERVAL '"@
            + nat_decimal(days as nat)
            + " days')\n                ORDER BY\n                    time_taken DESC;\n                "@,
{
    let mut q = String::new();
    q.append("\n                SELECT\n                    comp.l1_batch_number,\n                    CAST((comp.updated_at - wit.created_at) AS TIME) AS time_taken,\n                    wit.created_at\n                FROM\n                    proof_compression_jobs_fri AS comp\n                    JOIN witness_inputs_fri AS wit ON comp.l1_batch_number = wit.l1_batch_number\n                WHERE\n                    wit.created_at >  (NOW() - INTERVAL '");
    push_u64_decimal(&mut q, days as u64);
    q.append(" days')\n                ORDER BY\n                    time_taken DESC;\n                ");
    assert(q@ =~= "\n                SELECT\n                    comp.l1_batch_number,\n                    CAST((comp.updated_at - wit.created_at) AS TIME) AS time_taken,\n                    wit.created_at\n                FROM\n                    proof_compression_jobs_fri AS comp\n                    JOIN witness_inputs_fri AS wit ON comp.l1_batch_number = wit.l1_batch_number\n                WHERE\n                    wit.created_at >  (NOW() - INTERVAL '"@ + nat_decimal(days as nat) + " days')\n                ORDER BY\n                    time_taken DESC;\n                "@);
    q
}

/// The query for the proof generation time of one batch.
pub fn batch_proof_time_query(batch: u32) -> (r: String)
    ensures
        r@ == "\n                SELECT\n                    comp.l1_batch_number,\n                    CAST((comp.updated_at - wit.created_at) AS TIME) AS time_taken,\n                    wit.created_at\n                FROM\n                    proof_compression_jobs_fri AS comp\n                    JOIN witness_inputs_fri AS wit ON comp.l1_batch_number = wit.l1_batch_number\n                WHERE\n                    comp.l1_batch_number = "@
            + nat_decimal(batch as nat)
            + "\n                "@,
{
    let mut q = String::new();
    q.append("\n                SELECT\n                    comp.l1_batch_number,\n                    CAST((comp.updated_at - wit.created_at) AS TIME) AS time_taken,\n                    wit.created_at\n                FROM\n                    proof_compression_jobs_fri AS comp\n                    JOIN witness_inputs_fri AS wit ON comp.l1_batch_number = wit.l1_batch_number\n                WHERE\n                    comp.l1_batch_number = ");
    push_u64_decimal(&mut q, batch as u64);
    q.append("\n                ");
    assert(q@ =~= "\n                SELECT\n                    comp.l1_batch_number,\n                    CAST((comp.updated_at - wit.created_at) AS TIME) AS time_taken,\n                    wit.created_at\n                FROM\n                    proof_compression_jobs_fri AS comp\n                    JOIN witness_inputs_fri AS wit ON comp.l1_batch_number = wit.l1_batch_number\n                WHERE\n                    comp.l1_batch_number = "@ + nat_decimal(batch as nat) + "\n                "@);
    q
}

/// The text of the query for the prover jobs of a batch in an aggregation
/// round.
pub open spec fn prover_jobs_for_batch_text(batch: u32, aggregation_round: AggregationRound) -> Seq<char> {
    "\n        SELECT *\n        FROM prover_jobs_fri\n        WHERE\n            l1_batch_number = "@
        + nat_decimal(batch as nat) + "\n            AND aggregation_round = "@ + nat_decimal(
        round_number(aggregation_round) as nat,
    ) + "\n        "@
}

/// The text of the query for the rows of a batch in a table.
pub open spec fn batch_rows_text(table: Seq<char>, batch: u32) -> Seq<char> {
    "\n        SELECT *\n        FROM "@ + table + "\n        WHERE\n            l1_batch_number = "@
        + nat_decimal(batch as nat) + "\n        "@
}

/// The query for the prover jobs of a batch in an aggregation round.
pub fn prover_jobs_for_batch_query(batch: u32, aggregation_round: AggregationRound) -> (r: String)
    ensures
        r@ == prover_jobs_for_batch_text(batch, aggregation_round),
{
    let mut q = String::new();
    q.append("\n        SELECT *\n        FROM prover_jobs_fri\n        WHERE\n            l1_batch_number = ");
    push_u64_decimal(&mut q, batch as u64);
    q.append("\n            AND aggregation_round = ");
    push_u64_decimal(&mut q, aggregation_round.as_u8() as u64);
    q.append("\n        ");
    assert(q@ =~= "\n        SELECT *\n        FROM prover_jobs_fri\n        WHERE\n            l1_batch_number = "@ + nat_decimal(batch as nat) + "\n            AND aggregation_round = "@ + nat_decimal(round_number(aggregation_round) as nat) + "\n        "@);
    q
}

/// The query for the rows of a batch in a table.
pub fn batch_rows_query(table: &str, batch: u32) -> (r: String)
    ensures
        r@ == batch_rows_text(table@, batch),
{
    let mut q = String::new();
    q.append("\n        SELECT *\n        FROM ");
    q.append(table);
    q.append("\n        WHERE\n            l1_batch_number = ");
    push_u64_decimal(&mut q, batch as u64);
    q.append("\n        ");
    assert(q@ =~= "\n        SELECT *\n        FROM "@ + table@ + "\n        WHERE\n            l1_batch_number = "@ + nat_decimal(batch as nat) + "\n        "@);
    q
}



/// The text of a delete statement for a batch's rows of a table.
pub open spec fn delete_statement(batch: u32, table: Seq<char>) -> Seq<char> {
    "\n        DELETE FROM "@ + table + "\n        WHERE\n            l1_batch_number = "@
        + nat_decimal(batch as nat) + "\n        "@
}

/// The statements that restart the proof of a batch, in order: delete its
/// proof compression job, then its scheduler, recursion tip, node and leaf
/// witness generator jobs, then its prover jobs, and queue its basic witness
/// generator job again.
pub open spec fn restart_statements(batch: u32) -> Seq<Seq<char>> {
    seq![
        delete_statement(batch, "proof_compression_jobs_fri"@),
        delete_statement(batch, table_name_of(AggregationRound::Scheduler)),
        delete_statement(batch, table_name_of(AggregationRound::RecursionTip)),
        delete_statement(batch, table_name_of(AggregationRound::NodeAggregation)),
        delete_statement(batch, table_name_of(AggregationRound::LeafAggregation)),
        delete_statement(batch, "prover_jobs_fri"@),
        "\n        UPDATE witness_inputs_fri\n        SET status = '"@ + "queued"@
            + "'\n        WHERE\n            l1_batch_number = "@ + nat_decimal(batch as nat)
            + "\n        "@,
    ]
}

/// The statements that restart the proof of a batch, in the order in which
/// they are run.
pub fn restart_batch_proof_queries(batch: u32) -> (r: Vec<String>)
    ensures
        r@.map_values(|s: String| s@) == restart_statements(batch),
{
    let mut r: Vec<String> = Vec::new();
    r.push(delete_batch_data_query(batch, "proof_compression_jobs_fri"));
    r.push(delete_batch_data_query(batch, input_table_name_for(AggregationRound::Scheduler)));
    r.push(delete_batch_data_query(batch, input_table_name_for(AggregationRound::RecursionTip)));
    r.push(delete_batch_data_query(batch, input_table_name_for(AggregationRound::NodeAggregation)));
    r.push(delete_batch_data_query(batch, input_table_name_for(AggregationRound::LeafAggregation)));
    r.push(delete_batch_data_query(batch, "prover_jobs_fri"));
    r.push(set_basic_witness_generator_job_status_query(batch, "queued"));
    assert(r@.map_values(|s: String| s@) =~= restart_statements(batch));
    r
}

/// The name of the blob of a batch's witness inputs.
pub fn witness_inputs_blob_url(batch: u32) -> (r: String)
    ensures
        r@ == "witness_inputs_"@ + nat_decimal(batch as nat) + ".bin"@,
{
    let mut r = String::new();
    r.append("witness_inputs_");
    push_u64_decimal(&mut r, batch as u64);
    r.append(".bin");
    r
}

/// The batch numbers of a sequence of basic witness generator jobs, in order.
pub open spec fn bwg_batch_numbers(jobs: Seq<BasicWitnessGeneratorJobInfo>) -> Seq<u32> {
    jobs.map_values(|j: BasicWitnessGeneratorJobInfo| j.l1_batch_number)
}

/// The batch numbers of basic witness generator jobs, in order.
pub fn map_bwg_info(a: Vec<BasicWitnessGeneratorJobInfo>) -> (r: Vec<u32>)
    ensures
        r@ == bwg_batch_numbers(a@),
{
    let mut r: Vec<u32> = Vec::new();
    let mut i: usize = 0;
    while i < a.len()
        invariant
            i <= a@.len(),
            r@ == bwg_batch_numbers(a@.subrange(0, i as int)),
        decreases a@.len() - i,
    {
        r.push(a[i].l1_batch_number);
        i = i + 1;
        assert(r@ =~= bwg_batch_numbers(a@.subrange(0, i as int)));
    }
    assert(a@.subrange(0, a@.len() as int) == a@);
    r
}

/// The batch numbers of a sequence of recursion tip witness generator jobs,
/// in order.
pub open spec fn rtwg_batch_numbers(jobs: Seq<RecursionTipWitnessGeneratorJobInfo>) -> Seq<u32> {
    jobs.map_values(|j: RecursionTipWitnessGeneratorJobInfo| j.l1_batch_number)
}

/// The batch numbers of recursion tip witness generator jobs, in order.
pub fn map_recursion_tip_wg_info(a: Vec<RecursionTipWitnessGeneratorJobInfo>) -> (r: Vec<u32>)
    ensures
        r@ == rtwg_batch_numbers(a@),
{
    let mut r: Vec<u32> = Vec::new();
    let mut i: usize = 0;
    while i < a.len()
        invariant
            i <= a@.len(),
            r@ == rtwg_batch_numbers(a@.subrange(0, i as int)),
        decreases a@.len() - i,
    {
        r.push(a[i].l1_batch_number);
        i = i + 1;
        assert(r@ =~= rtwg_batch_numbers(a@.subrange(0, i as int)));
    }
    assert(a@.subrange(0, a@.len() as int) == a@);
    r
}

/// The batch numbers of a sequence of scheduler witness generator jobs, in
/// order.
pub open spec fn swg_batch_numbers(jobs: Seq<SchedulerWitnessGeneratorJobInfo>) -> Seq<u32> {
    jobs.map_values(|j: SchedulerWitnessGeneratorJobInfo| j.l1_batch_number)
}

/// The batch numbers of scheduler witness generator jobs, in order.
pub fn map_scheduler_wg_info(a: Vec<SchedulerWitnessGeneratorJobInfo>) -> (r: Vec<u32>)
    ensures
        r@ == swg_batch_numbers(a@),
{
    let mut r: Vec<u32> = Vec::new();
    let mut i: usize = 0;
    while i < a.len()
        invariant
            i <= a@.len(),
            r@ == swg_batch_numbers(a@.subrange(0, i as int)),
        decreases a@.len() - i,
    {
        r.push(a[i].l1_batch_number);
        i = i + 1;
        assert(r@ =~= swg_batch_numbers(a@.subrange(0, i as int)));
    }
    assert(a@.subrange(0, a@.len() as int) == a@);
    r
}

/// The distinct keys of `keys`, each once, in the order in which the
/// groups of a hash map keyed by them are walked: `Itertools::into_group_map_by`,
/// then the map's keys. The order is left unsaid: it depends on the hasher's
/// seed.
#[verifier::external_body]
fn group_keys(keys: &Vec<u32>) -> (r: Vec<u32>)
    ensures
        r@.no_duplicates(),
        forall|k: u32| r@.contains(k) <==> keys@.contains(k),
{
    keys.iter().into_group_map_by(|k| **k).keys().map(|k| *k).collect()
}

/// The batch numbers of a sequence of leaf witness generator jobs, in order.
pub open spec fn lwg_batch_numbers(jobs: Seq<LeafWitnessGeneratorJobInfo>) -> Seq<u32> {
    jobs.map_values(|j: LeafWitnessGeneratorJobInfo| j.l1_batch_number)
}

/// The batch numbers of leaf witness generator jobs, each once, in no
/// particular order.
pub fn map_leaf_wg_info(a: Vec<LeafWitnessGeneratorJobInfo>) -> (r: Vec<u32>)
    ensures
        r@.no_duplicates(),
        forall|k: u32| r@.contains(k) <==> lwg_batch_numbers(a@).contains(k),
        forall|k: u32|
            r@.contains(k) <==> exists|i: int| 0 <= i < a@.len() && #[trigger] a@[i].l1_batch_number == k,
{
    proof {
        lemma_witness_job_batch_numbers(a@, Seq::<NodeWitnessGeneratorJobInfo>::empty());
    }
    let mut numbers: Vec<u32> = Vec::new();
    let mut i: usize = 0;
    while i < a.len()
        invariant
            i <= a@.len(),
            numbers@ == lwg_batch_numbers(a@.subrange(0, i as int)),
        decreases a@.len() - i,
    {
        numbers.push(a[i].l1_batch_number);
        i = i + 1;
        assert(numbers@ =~= lwg_batch_numbers(a@.subrange(0, i as int)));
    }
    assert(a@.subrange(0, a@.len() as int) == a@);
    group_keys(&numbers)
}

/// The batch numbers of a sequence of node witness generator jobs, in order.
pub open spec fn nwg_batch_numbers(jobs: Seq<NodeWitnessGeneratorJobInfo>) -> Seq<u32> {
    jobs.map_values(|j: NodeWitnessGeneratorJobInfo| j.l1_batch_number)
}

/// The batch numbers of node witness generator jobs, each once, in no
/// particular order.
pub fn map_node_wg_info(a: Vec<NodeWitnessGeneratorJobInfo>) -> (r: Vec<u32>)
    ensures
        r@.no_duplicates(),
        forall|k: u32| r@.contains(k) <==> nwg_batch_numbers(a@).contains(k),
        forall|k: u32|
            r@.contains(k) <==> exists|i: int| 0 <= i < a@.len() && #[trigger] a@[i].l1_batch_number == k,
{
    proof {
        lemma_witness_job_batch_numbers(Seq::<LeafWitnessGeneratorJobInfo>::empty(), a@);
    }
    let mut numbers: Vec<u32> = Vec::new();
    let mut i: usize = 0;
    while i < a.len()
        invariant
            i <= a@.len(),
            numbers@ == nwg_batch_numbers(a@.subrange(0, i as int)),
        decreases a@.len() - i,
    {
        numbers.push(a[i].l1_batch_number);
        i = i + 1;
        assert(numbers@ =~= nwg_batch_numbers(a@.subrange(0, i as int)));
    }
    assert(a@.subrange(0, a@.len() as int) == a@);
    group_keys(&numbers)
}


/// The queries that read the proving data of a batch, one for each part of
/// it.
pub struct BatchDataQueries {
    pub basic_witness_generator: String,
    pub basic_prover_jobs: String,
    pub leaf_witness_generator: String,
    pub leaf_prover_jobs: String,
    pub node_witness_generator: String,
    pub node_prover_jobs: String,
    pub recursion_tip_witness_generator: String,
    pub scheduler_witness_generator: String,
    pub compressor: String,
}

/// The queries that read the proving data of a batch: the rows of the batch
/// in the input table of each witness generator round and in the proof
/// compression table, and its prover jobs of the basic, leaf and node
/// rounds.
pub fn batch_data_queries(batch: u32) -> (r: BatchDataQueries)
    ensures
        r.basic_witness_generator@ == batch_rows_text(
            table_name_of(AggregationRound::BasicCircuits),
            batch,
        ),
        r.basic_prover_jobs@ == prover_jobs_for_batch_text(batch, AggregationRound::BasicCircuits),
        r.leaf_witness_generator@ == batch_rows_text(
            table_name_of(AggregationRound::LeafAggregation),
            batch,
        ),
        r.leaf_prover_jobs@ == prover_jobs_for_batch_text(batch, AggregationRound::LeafAggregation),
        r.node_witness_generator@ == batch_rows_text(
            table_name_of(AggregationRound::NodeAggregation),
            batch,
        ),
        r.node_prover_jobs@ == prover_jobs_for_batch_text(batch, AggregationRound::NodeAggregation),
        r.recursion_tip_witness_generator@ == batch_rows_text(
            table_name_of(AggregationRound::RecursionTip),
            batch,
        ),
        r.scheduler_witness_generator@ == batch_rows_text(
            table_name_of(AggregationRound::Scheduler),
            batch,
        ),
        r.compressor@ == batch_rows_text("proof_compression_jobs_fri"@, batch),
{
    BatchDataQueries {
        basic_witness_generator: batch_rows_query(
            input_table_name_for(AggregationRound::BasicCircuits),
            batch,
        ),
        basic_prover_jobs: prover_jobs_for_batch_query(batch, AggregationRound::BasicCircuits),
        leaf_witness_generator: batch_rows_query(
            input_table_name_for(AggregationRound::LeafAggregation),
            batch,
        ),
        leaf_prover_jobs: prover_jobs_for_batch_query(batch, AggregationRound::LeafAggregation),
        node_witness_generator: batch_rows_query(
            input_table_name_for(AggregationRound::NodeAggregation),
            batch,
        ),
        node_prover_jobs: prover_jobs_for_batch_query(batch, AggregationRound::NodeAggregation),
        recursion_tip_witness_generator: batch_rows_query(
            input_table_name_for(AggregationRound::RecursionTip),
            batch,
        ),
        scheduler_witness_generator: batch_rows_query(
            input_table_name_for(AggregationRound::Scheduler),
            batch,
        ),
        compressor: batch_rows_query("proof_compression_jobs_fri", batch),
    }
}


/// The batch numbers of a sequence of prover jobs, in order.
pub open spec fn prover_job_batch_numbers(jobs: Seq<ProverJobFriInfo>) -> Seq<u32> {
    jobs.map_values(|j: ProverJobFriInfo| j.l1_batch_number)
}

/// The batches that stuck prover jobs belong to, each once, in no
/// particular order.
pub fn stuck_prover_batches(jobs: &Vec<ProverJobFriInfo>) -> (r: Vec<u32>)
    ensures
        r@.no_duplicates(),
        forall|k: u32| r@.contains(k) <==> prover_job_batch_numbers(jobs@).contains(k),
        forall|k: u32|
            r@.contains(k) <==> exists|i: int| 0 <= i < jobs@.len() && #[trigger] jobs@[i].l1_batch_number == k,
{
    proof {
        lemma_prover_job_batch_numbers(jobs@);
    }
    let mut numbers: Vec<u32> = Vec::new();
    let mut i: usize = 0;
    while i < jobs.len()
        invariant
            i <= jobs@.len(),
            numbers@ == prover_job_batch_numbers(jobs@.subrange(0, i as int)),
        decreases jobs@.len() - i,
    {
        numbers.push(jobs[i].l1_batch_number);
        i = i + 1;
        assert(numbers@ =~= prover_job_batch_numbers(jobs@.subrange(0, i as int)));
    }
    assert(jobs@.subrange(0, jobs@.len() as int) == jobs@);
    group_keys(&numbers)
}

/// A number is among the batch numbers of prover jobs exactly when it is
/// the batch of one of the jobs (not, say, a job's own id).
pub proof fn lemma_prover_job_batch_numbers(jobs: Seq<ProverJobFriInfo>)
    ensures
        forall|k: u32|
            prover_job_batch_numbers(jobs).contains(k) <==> exists|i: int|
                0 <= i < jobs.len() && #[trigger] jobs[i].l1_batch_number == k,
{
    let b = prover_job_batch_numbers(jobs);
    assert forall|k: u32|
        b.contains(k) <==> exists|i: int| 0 <= i < jobs.len() && #[trigger] jobs[i].l1_batch_number == k by {
        if b.contains(k) {
            let i = choose|i: int| 0 <= i < b.len() && b[i] == k;
            assert(jobs[i].l1_batch_number == k);
        }
        if exists|i: int| 0 <= i < jobs.len() && #[trigger] jobs[i].l1_batch_number == k {
            let i = choose|i: int| 0 <= i < jobs.len() && #[trigger] jobs[i].l1_batch_number == k;
            assert(b[i] == k);
        }
    }
}

/// A number is among the batch numbers of leaf or node witness generator
/// jobs exactly when it is the batch of one of the jobs.
pub proof fn lemma_witness_job_batch_numbers(
    leaf_jobs: Seq<LeafWitnessGeneratorJobInfo>,
    node_jobs: Seq<NodeWitnessGeneratorJobInfo>,
)
    ensures
        forall|k: u32|
            lwg_batch_numbers(leaf_jobs).contains(k) <==> exists|i: int|
                0 <= i < leaf_jobs.len() && #[trigger] leaf_jobs[i].l1_batch_number == k,
        forall|k: u32|
            nwg_batch_numbers(node_jobs).contains(k) <==> exists|i: int|
                0 <= i < node_jobs.len() && #[trigger] node_jobs[i].l1_batch_number == k,
{
    let b = lwg_batch_numbers(leaf_jobs);
    assert forall|k: u32|
        b.contains(k) <==> exists|i: int| 0 <= i < leaf_jobs.len() && #[trigger] leaf_jobs[i].l1_batch_number == k by {
        if b.contains(k) {
            let i = choose|i: int| 0 <= i < b.len() && b[i] == k;
            assert(leaf_jobs[i].l1_batch_number == k);
        }
        if exists|i: int| 0 <= i < leaf_jobs.len() && #[trigger] leaf_jobs[i].l1_batch_number == k {
            let i = choose|i: int| 0 <= i < leaf_jobs.len() && #[trigger] leaf_jobs[i].l1_batch_number == k;
            assert(b[i] == k);
        }
    }
    let c = nwg_batch_numbers(node_jobs);
    assert forall|k: u32|
        c.contains(k) <==> exists|i: int| 0 <= i < node_jobs.len() && #[trigger] node_jobs[i].l1_batch_number == k by {
        if c.contains(k) {
            let i = choose|i: int| 0 <= i < c.len() && c[i] == k;
            assert(node_jobs[i].l1_batch_number == k);
        }
        if exists|i: int| 0 <= i < node_jobs.len() && #[trigger] node_jobs[i].l1_batch_number == k {
            let i = choose|i: int| 0 <= i < node_jobs.len() && #[trigger] node_jobs[i].l1_batch_number == k;
            assert(c[i] == k);
        }
    }
}

} // verus!
