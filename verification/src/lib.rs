//! Core logic of the `zks` command-line tool for ZKsync chains: the
//! aggregation of prover job statuses into batch statuses, stage selection,
//! proof-time bookkeeping, calldata helpers, configuration editing and the
//! SQL statements sent to the prover database.

pub mod status;
pub mod jobs;
pub mod prover_status;
pub mod stage;
pub mod grouping;
pub mod report;
pub mod decimal;
pub mod proof_time;
pub mod uint;
pub mod gas_tracker;
pub mod load_test;
pub mod text;
pub mod config;
pub mod hex_text;
pub mod signature;
pub mod array_sizes;
pub mod calldata;
pub mod db_queries;
pub mod batches;
