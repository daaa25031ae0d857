//! Rows of the prover database tables, the stage flags that select which
//! stages of a batch proof are shown, and the conversions of raw column
//! values into the typed fields of a row.
//!
//! Timestamps are microseconds since the Unix epoch; durations of the day
//! (`time_taken`) are microseconds since midnight.

use vstd::prelude::*;
use crate::status::{ProofCompressionJobStatus, ProverJobStatus, Stallable, WitnessJobStatus};

verus! {

/// The aggregation round of a proof: the position of a stage in the proving pipeline.
#[derive(Clone, Copy, Debug, PartialEq, Eq, Structural)]
pub enum AggregationRound {
    BasicCircuits,
    LeafAggregation,
    NodeAggregation,
    RecursionTip,
    Scheduler,
}

/// The number of an aggregation round.
pub open spec fn round_number(round: AggregationRound) -> u8 {
    match round {
        AggregationRound::BasicCircuits => 0,
        AggregationRound::LeafAggregation => 1,
        AggregationRound::NodeAggregation => 2,
        AggregationRound::RecursionTip => 3,
        AggregationRound::Scheduler => 4,
    }
}

impl AggregationRound {
    /// The number of this aggregation round.
    pub fn as_u8(&self) -> (r: u8)
        ensures
            r == round_number(*self),
    {
        match self {
            AggregationRound::BasicCircuits => 0,
            AggregationRound::LeafAggregation => 1,
            AggregationRound::NodeAggregation => 2,
            AggregationRound::RecursionTip => 3,
            AggregationRound::Scheduler => 4,
        }
    }

    /// The aggregation round with the given number; there are five rounds.
    pub fn from_u8(n: u8) -> (r: AggregationRound)
        requires
            n <= 4,
        ensures
            round_number(r) == n,
    {
        if n == 0 {
            AggregationRound::BasicCircuits
        } else if n == 1 {
            AggregationRound::LeafAggregation
        } else if n == 2 {
            AggregationRound::NodeAggregation
        } else if n == 3 {
            AggregationRound::RecursionTip
        } else {
            AggregationRound::Scheduler
        }
    }
}

/// The stages of a batch proof, as flags of a stage selection.
#[derive(Clone, Copy, Debug, PartialEq, Eq, Structural)]
pub enum StageFlags {
    Bwg,
    Lwg,
    Nwg,
    Rtwg,
    Swg,
    Compressor,
}

/// The bit of a stage in a stage selection.
pub open spec fn flag_bit(flag: StageFlags) -> u32 {
    match flag {
        StageFlags::Bwg => 1,
        StageFlags::Lwg => 2,
        StageFlags::Nwg => 4,
        StageFlags::Rtwg => 8,
        StageFlags::Swg => 16,
        StageFlags::Compressor => 32,
    }
}

impl StageFlags {
    /// The bit of this stage in a stage selection.
    pub fn as_u32(&self) -> (r: u32)
        ensures
            r == flag_bit(*self),
    {
        assert(1u32 << 0u32 == 1u32 && 1u32 << 1u32 == 2u32 && 1u32 << 2u32 == 4u32 && 1u32 << 3u32
            == 8u32 && 1u32 << 4u32 == 16u32 && 1u32 << 5u32 == 32u32) by (bit_vector);
        match self {
            StageFlags::Bwg => 1u32 << 0u32,
            StageFlags::Lwg => 1u32 << 1u32,
            StageFlags::Nwg => 1u32 << 2u32,
            StageFlags::Rtwg => 1u32 << 3u32,
            StageFlags::Swg => 1u32 << 4u32,
            StageFlags::Compressor => 1u32 << 5u32,
        }
    }
}

/// The stage selection with the bit of each chosen stage set.
pub open spec fn flags_value(bwg: bool, lwg: bool, nwg: bool, rtwg: bool, swg: bool, compressor: bool) -> u32 {
    ((if bwg { 1u32 } else { 0u32 }) + (if lwg { 2u32 } else { 0u32 }) + (if nwg { 4u32 } else { 0u32 })
        + (if rtwg { 8u32 } else { 0u32 }) + (if swg { 16u32 } else { 0u32 }) + (if compressor {
        32u32
    } else {
        0u32
    })) as u32
}

/// Combines the chosen stages into a stage selection.
pub fn combine_flags(bwg: bool, lwg: bool, nwg: bool, rtwg: bool, swg: bool, compressor: bool) -> (r: u32)
    ensures
        r == flags_value(bwg, lwg, nwg, rtwg, swg, compressor),
        r < 64,
{
    let mut flags: u32 = 0;
    if bwg {
        flags = flags | StageFlags::Bwg.as_u32();
    }
    assert(flags == (if bwg { 1u32 } else { 0u32 })) by (bit_vector)
        requires
            flags == (if bwg { 0u32 | 1u32 } else { 0u32 }),
    ;
    let f0 = flags;
    if lwg {
        flags = flags | StageFlags::Lwg.as_u32();
        assert(f0 | 2u32 == f0 + 2u32) by (bit_vector)
            requires
                f0 < 2,
        ;
    }
    let f1 = flags;
    if nwg {
        flags = flags | StageFlags::Nwg.as_u32();
        assert(f1 | 4u32 == f1 + 4u32) by (bit_vector)
            requires
                f1 < 4,
        ;
    }
    let f2 = flags;
    if rtwg {
        flags = flags | StageFlags::Rtwg.as_u32();
        assert(f2 | 8u32 == f2 + 8u32) by (bit_vector)
            requires
                f2 < 8,
        ;
    }
    let f3 = flags;
    if swg {
        flags = flags | StageFlags::Swg.as_u32();
        assert(f3 | 16u32 == f3 + 16u32) by (bit_vector)
            requires
                f3 < 16,
        ;
    }
    let f4 = flags;
    if compressor {
        flags = flags | StageFlags::Compressor.as_u32();
        assert(f4 | 32u32 == f4 + 32u32) by (bit_vector)
            requires
                f4 < 32,
        ;
    }
    flags
}

/// A value read from a database row that does not fit the type of its field.
#[derive(Clone, Copy, Debug, PartialEq, Eq, Structural)]
pub enum DecodeError {
    /// An integer column holds a value out of the range of the field.
    IntegerOutOfRange,
    /// A status column holds a name that is not a status.
    UnknownStatus,
}

/// A `smallint` column read as a `u32`: negative values are refused.
pub fn int2_to_u32(raw: i16) -> (r: Result<u32, DecodeError>)
    ensures
        r == (if raw >= 0 { Ok(raw as u32) } else { Err(DecodeError::IntegerOutOfRange) }),
{
    if raw >= 0 {
        Ok(raw as u32)
    } else {
        Err(DecodeError::IntegerOutOfRange)
    }
}

/// An `integer` column read as a `u32`: negative values are refused.
pub fn int4_to_u32(raw: i32) -> (r: Result<u32, DecodeError>)
    ensures
        r == (if raw >= 0 { Ok(raw as u32) } else { Err(DecodeError::IntegerOutOfRange) }),
{
    if raw >= 0 {
        Ok(raw as u32)
    } else {
        Err(DecodeError::IntegerOutOfRange)
    }
}

/// A `bigint` column read as a `u32`: values outside `0..=u32::MAX` are refused.
pub fn int8_to_u32(raw: i64) -> (r: Result<u32, DecodeError>)
    ensures
        r == (if 0 <= raw <= u32::MAX { Ok(raw as u32) } else { Err(DecodeError::IntegerOutOfRange) }),
{
    if 0 <= raw && raw <= 4294967295i64 {
        Ok(raw as u32)
    } else {
        Err(DecodeError::IntegerOutOfRange)
    }
}

/// The aggregation round stored in a `smallint` column.
/// Values that do not fit a byte are refused; a byte above 4 is no round
/// and is not accepted by this function.
pub fn aggregation_round_from_int2(raw: i16) -> (r: Result<AggregationRound, DecodeError>)
    requires
        !(5 <= raw <= 255),
    ensures
        match r {
            Ok(round) => 0 <= raw <= 4 && round_number(round) == raw,
            Err(e) => e == DecodeError::IntegerOutOfRange && (raw < 0 || raw > 255),
        },
{
    if raw < 0 || raw > 255 {
        Err(DecodeError::IntegerOutOfRange)
    } else {
        Ok(AggregationRound::from_u8(raw as u8))
    }
}

/// The circuit id of a job of a node, recursion tip or scheduler round as
/// stored, mapped to the numbering of base layer circuits: 18 stands for
/// 255, other ids are lowered by 2 (down to 0).
pub open spec fn shifted_circuit_id(circuit_id: u32) -> u32 {
    if circuit_id == 18 {
        255
    } else if circuit_id >= 2 {
        (circuit_id - 2) as u32
    } else {
        0
    }
}

/// The circuit id of a prover job of the given aggregation round, in the
/// numbering of base layer circuits.
pub open spec fn round_circuit_id(round: AggregationRound, circuit_id: u32) -> u32 {
    match round {
        AggregationRound::NodeAggregation
        | AggregationRound::RecursionTip
        | AggregationRound::Scheduler => shifted_circuit_id(circuit_id),
        _ => circuit_id,
    }
}

/// Maps the circuit id of a prover job to the numbering of base layer
/// circuits: jobs of the node, recursion tip and scheduler rounds store it
/// shifted.
pub fn sub2_from_circuit_id(aggregation_round: AggregationRound, circuit_id: u32) -> (r: u32)
    ensures
        r == round_circuit_id(aggregation_round, circuit_id),
{
    match aggregation_round {
        AggregationRound::NodeAggregation
        | AggregationRound::RecursionTip
        | AggregationRound::Scheduler => {
            if circuit_id == 18 {
                255
            } else {
                circuit_id.saturating_sub(2)
            }
        },
        _ => circuit_id,
    }
}

/// The circuit id of a node witness generator job, read from its `smallint`
/// column and mapped to the numbering of base layer circuits.
pub fn get_and_sub2_from_circuit_id(raw_circuit_id: i16) -> (r: Result<u32, DecodeError>)
    ensures
        r == (if raw_circuit_id >= 0 {
            Ok(shifted_circuit_id(raw_circuit_id as u32))
        } else {
            Err(DecodeError::IntegerOutOfRange)
        }),
{
    let circuit_id = int2_to_u32(raw_circuit_id)?;
    if circuit_id == 18 {
        return Ok(255);
    }
    Ok(circuit_id.saturating_sub(2))
}

/// A witness job that belongs to one circuit.
pub trait CircuitJob: Stallable {
    spec fn spec_circuit_id(&self) -> u32;

    fn circuit_id(&self) -> (r: u32)
        ensures
            r == self.spec_circuit_id(),
    ;
}

impl CircuitJob for LeafWitnessGeneratorJobInfo {
    open spec fn spec_circuit_id(&self) -> u32 {
        self._circuit_id
    }

    fn circuit_id(&self) -> (r: u32) {
        self._circuit_id
    }
}

impl CircuitJob for NodeWitnessGeneratorJobInfo {
    open spec fn spec_circuit_id(&self) -> u32 {
        self._circuit_id
    }

    fn circuit_id(&self) -> (r: u32) {
        self._circuit_id
    }
}

/// The timestamps of a job.
pub trait JobInfo {
    spec fn spec_processing_started_at(&self) -> Option<i64>;

    spec fn spec_created_at(&self) -> i64;

    spec fn spec_updated_at(&self) -> i64;

    fn _processing_started_at(&self) -> (r: Option<i64>)
        ensures
            r == self.spec_processing_started_at(),
    ;

    fn _created_at(&self) -> (r: i64)
        ensures
            r == self.spec_created_at(),
    ;

    fn _updated_at(&self) -> (r: i64)
        ensures
            r == self.spec_updated_at(),
    ;
}

/// A row of the table of basic witness generator jobs (`witness_inputs_fri`).
#[derive(Clone, Debug, PartialEq, Eq)]
pub struct BasicWitnessGeneratorJobInfo {
    pub l1_batch_number: u32,
    pub _attempts: u32,
    pub _status: WitnessJobStatus,
    pub _error: Option<String>,
    pub _created_at: i64,
    pub _updated_at: i64,
    pub _processing_started_at: Option<i64>,
    pub _time_taken: Option<i64>,
    pub _protocol_version: Option<u16>,
    pub _picked_by: Option<String>,
    pub _protocol_version_patch: Option<u32>,
    pub _witness_inputs_blob_url: Option<String>,
}

impl Stallable for BasicWitnessGeneratorJobInfo {
    open spec fn spec_status(&self) -> WitnessJobStatus {
        self._status
    }

    open spec fn spec_attempts(&self) -> u32 {
        self._attempts
    }

    fn get_status(&self) -> (r: WitnessJobStatus) {
        self._status
    }

    fn get_attempts(&self) -> (r: u32) {
        self._attempts
    }
}

/// A row of the table of prover jobs (`prover_jobs_fri`).
#[derive(Clone, Debug, PartialEq, Eq)]
pub struct ProverJobFriInfo {
    pub _id: u32,
    pub l1_batch_number: u32,
    pub _circuit_id: u32,
    pub _circuit_blob_url: String,
    pub _aggregation_round: AggregationRound,
    pub _sequence_number: u32,
    pub _status: ProverJobStatus,
    pub _error: Option<String>,
    pub _attempts: u32,
    pub _processing_started_at: Option<i64>,
    pub _created_at: i64,
    pub _updated_at: i64,
    pub _time_taken: Option<i64>,
    pub _depth: u32,
    pub _is_node_final_proof: bool,
    pub _proof_blob_url: Option<String>,
    pub _protocol_version: Option<u16>,
    pub _picked_by: Option<String>,
    pub _protocol_version_patch: Option<u32>,
}

/// A row of the table of leaf witness generator jobs.
#[derive(Clone, Debug, PartialEq, Eq)]
pub struct LeafWitnessGeneratorJobInfo {
    pub _id: u32,
    pub l1_batch_number: u32,
    pub _circuit_id: u32,
    pub _closed_form_inputs_blob_url: Option<String>,
    pub _attempts: u32,
    pub _status: WitnessJobStatus,
    pub _error: Option<String>,
    pub _created_at: i64,
    pub _updated_at: i64,
    pub _processing_started_at: Option<i64>,
    pub _time_taken: Option<i64>,
    pub _number_of_basic_circuits: Option<i32>,
    pub _protocol_version: Option<i32>,
    pub _picked_by: Option<String>,
    pub _protocol_version_patch: Option<u32>,
}

impl Stallable for LeafWitnessGeneratorJobInfo {
    open spec fn spec_status(&self) -> WitnessJobStatus {
        self._status
    }

    open spec fn spec_attempts(&self) -> u32 {
        self._attempts
    }

    fn get_status(&self) -> (r: WitnessJobStatus) {
        self._status
    }

    fn get_attempts(&self) -> (r: u32) {
        self._attempts
    }
}

/// A row of the table of node witness generator jobs.
#[derive(Clone, Debug, PartialEq, Eq)]
pub struct NodeWitnessGeneratorJobInfo {
    pub _id: u32,
    pub l1_batch_number: u32,
    pub _circuit_id: u32,
    pub _depth: u32,
    pub _status: WitnessJobStatus,
    pub _attempts: u32,
    pub _aggregations_url: Option<String>,
    pub _processing_started_at: Option<i64>,
    pub _time_taken: Option<i64>,
    pub _error: Option<String>,
    pub _created_at: i64,
    pub _updated_at: i64,
    pub _number_of_dependent_jobs: Option<i32>,
    pub _protocol_version: Option<i32>,
    pub _picked_by: Option<String>,
    pub _protocol_version_patch: Option<u32>,
}

impl Stallable for NodeWitnessGeneratorJobInfo {
    open spec fn spec_status(&self) -> WitnessJobStatus {
        self._status
    }

    open spec fn spec_attempts(&self) -> u32 {
        self._attempts
    }

    fn get_status(&self) -> (r: WitnessJobStatus) {
        self._status
    }

    fn get_attempts(&self) -> (r: u32) {
        self._attempts
    }
}

/// A row of the table of recursion tip witness generator jobs.
#[derive(Clone, Debug, PartialEq, Eq)]
pub struct RecursionTipWitnessGeneratorJobInfo {
    pub l1_batch_number: u32,
    pub _status: WitnessJobStatus,
    pub _attempts: u32,
    pub _processing_started_at: Option<i64>,
    pub _time_taken: Option<i64>,
    pub _error: Option<String>,
    pub _created_at: i64,
    pub _updated_at: i64,
    pub _number_of_final_node_jobs: Option<i32>,
    pub _protocol_version: Option<i32>,
    pub _picked_by: Option<String>,
    pub _protocol_version_patch: Option<u32>,
}

impl JobInfo for RecursionTipWitnessGeneratorJobInfo {
    open spec fn spec_processing_started_at(&self) -> Option<i64> {
        self._processing_started_at
    }

    open spec fn spec_created_at(&self) -> i64 {
        self._created_at
    }

    open spec fn spec_updated_at(&self) -> i64 {
        self._updated_at
    }

    fn _processing_started_at(&self) -> (r: Option<i64>) {
        self._processing_started_at
    }

    fn _created_at(&self) -> (r: i64) {
        self._created_at
    }

    fn _updated_at(&self) -> (r: i64) {
        self._updated_at
    }
}

impl Stallable for RecursionTipWitnessGeneratorJobInfo {
    open spec fn spec_status(&self) -> WitnessJobStatus {
        self._status
    }

    open spec fn spec_attempts(&self) -> u32 {
        self._attempts
    }

    fn get_status(&self) -> (r: WitnessJobStatus) {
        self._status
    }

    fn get_attempts(&self) -> (r: u32) {
        self._attempts
    }
}

/// A row of the table of scheduler witness generator jobs.
#[derive(Clone, Debug, PartialEq, Eq)]
pub struct SchedulerWitnessGeneratorJobInfo {
    pub l1_batch_number: u32,
    pub _scheduler_partial_input_blob_url: String,
    pub _status: WitnessJobStatus,
    pub _processing_started_at: Option<i64>,
    pub _time_taken: Option<i64>,
    pub _error: Option<String>,
    pub _created_at: i64,
    pub _updated_at: i64,
    pub _attempts: u32,
    pub _protocol_version: Option<i32>,
    pub _picked_by: Option<String>,
    pub _protocol_version_patch: Option<u32>,
}

impl JobInfo for SchedulerWitnessGeneratorJobInfo {
    open spec fn spec_processing_started_at(&self) -> Option<i64> {
        self._processing_started_at
    }

    open spec fn spec_created_at(&self) -> i64 {
        self._created_at
    }

    open spec fn spec_updated_at(&self) -> i64 {
        self._updated_at
    }

    fn _processing_started_at(&self) -> (r: Option<i64>) {
        self._processing_started_at
    }

    fn _created_at(&self) -> (r: i64) {
        self._created_at
    }

    fn _updated_at(&self) -> (r: i64) {
        self._updated_at
    }
}

impl Stallable for SchedulerWitnessGeneratorJobInfo {
    open spec fn spec_status(&self) -> WitnessJobStatus {
        self._status
    }

    open spec fn spec_attempts(&self) -> u32 {
        self._attempts
    }

    fn get_status(&self) -> (r: WitnessJobStatus) {
        self._status
    }

    fn get_attempts(&self) -> (r: u32) {
        self._attempts
    }
}

/// A row of the table of proof compression jobs.
#[derive(Clone, Debug, PartialEq, Eq)]
pub struct ProofCompressionJobInfo {
    pub _l1_batch_number: u32,
    pub _attempts: u32,
    pub _status: ProofCompressionJobStatus,
    pub _fri_proof_blob_url: Option<String>,
    pub _l1_proof_blob_url: Option<String>,
    pub _error: Option<String>,
    pub _created_at: i64,
    pub _updated_at: i64,
    pub _processing_started_at: Option<i64>,
    pub _time_taken: Option<i64>,
    pub _picked_by: Option<String>,
}

impl JobInfo for ProofCompressionJobInfo {
    open spec fn spec_processing_started_at(&self) -> Option<i64> {
        self._processing_started_at
    }

    open spec fn spec_created_at(&self) -> i64 {
        self._created_at
    }

    open spec fn spec_updated_at(&self) -> i64 {
        self._updated_at
    }

    fn _processing_started_at(&self) -> (r: Option<i64>) {
        self._processing_started_at
    }

    fn _created_at(&self) -> (r: i64) {
        self._created_at
    }

    fn _updated_at(&self) -> (r: i64) {
        self._updated_at
    }
}

} // verus!
