//! The stages of a batch proof, the selection of stages to show, and what is
//! shown of a stage: its status and the status of its prover jobs.

use vstd::prelude::*;
use crate::jobs::{
    flag_bit, flags_value, AggregationRound, BasicWitnessGeneratorJobInfo, LeafWitnessGeneratorJobInfo,
    NodeWitnessGeneratorJobInfo, ProofCompressionJobInfo, ProverJobFriInfo,
    RecursionTipWitnessGeneratorJobInfo, SchedulerWitnessGeneratorJobInfo, StageFlags,
};
use crate::prover_status::{
    get_prover_jobs_status_from_vec, get_witness_generator_job_status, prover_jobs_status_view,
    prover_states, witness_job_status_view, witness_jobs_status, witness_jobs_status_view,
    witness_states,
};
use crate::status::{compression_status_view, Status, StatusView};

verus! {

/// The number of attempts after which a failed or running job counts as stuck
/// when a batch is shown.
pub const DISPLAY_MAX_ATTEMPTS: u32 = 10;

/// One stage of a batch proof, with the jobs found for it.
#[derive(Clone, Debug, PartialEq, Eq)]
pub enum StageInfo {
    BasicWitnessGenerator {
        witness_generator_job_info: Option<BasicWitnessGeneratorJobInfo>,
        prover_jobs_info: Vec<ProverJobFriInfo>,
    },
    LeafWitnessGenerator {
        witness_generator_jobs_info: Vec<LeafWitnessGeneratorJobInfo>,
        prover_jobs_info: Vec<ProverJobFriInfo>,
    },
    NodeWitnessGenerator {
        witness_generator_jobs_info: Vec<NodeWitnessGeneratorJobInfo>,
        prover_jobs_info: Vec<ProverJobFriInfo>,
    },
    RecursionTipWitnessGenerator(Option<RecursionTipWitnessGeneratorJobInfo>),
    SchedulerWitnessGenerator(Option<SchedulerWitnessGeneratorJobInfo>),
    Compressor(Option<ProofCompressionJobInfo>),
}

impl StageInfo {
    /// The aggregation round of the stage; the compressor has none.
    pub open spec fn spec_aggregation_round(&self) -> Option<AggregationRound> {
        match self {
            StageInfo::BasicWitnessGenerator { .. } => Some(AggregationRound::BasicCircuits),
            StageInfo::LeafWitnessGenerator { .. } => Some(AggregationRound::LeafAggregation),
            StageInfo::NodeWitnessGenerator { .. } => Some(AggregationRound::NodeAggregation),
            StageInfo::RecursionTipWitnessGenerator(_) => Some(AggregationRound::RecursionTip),
            StageInfo::SchedulerWitnessGenerator(_) => Some(AggregationRound::Scheduler),
            StageInfo::Compressor(_) => None,
        }
    }

    /// The status of the prover jobs of the stage; only the basic, leaf and
    /// node stages have prover jobs.
    pub open spec fn spec_prover_jobs_status(&self, max_attempts: u32) -> Option<StatusView> {
        match self {
            StageInfo::BasicWitnessGenerator { prover_jobs_info, .. }
            | StageInfo::LeafWitnessGenerator { prover_jobs_info, .. }
            | StageInfo::NodeWitnessGenerator { prover_jobs_info, .. } => Some(
                prover_jobs_status_view(prover_states(prover_jobs_info@), max_attempts),
            ),
            _ => None,
        }
    }

    /// The status of the witness generator (or compressor) jobs of the stage.
    pub open spec fn spec_witness_generator_jobs_status(&self, max_attempts: u32) -> StatusView {
        match self {
            StageInfo::BasicWitnessGenerator { witness_generator_job_info, .. } => match witness_generator_job_info {
                Some(j) => witness_job_status_view(j._status, j._attempts, max_attempts),
                None => StatusView::JobsNotFound,
            },
            StageInfo::LeafWitnessGenerator { witness_generator_jobs_info, .. } => witness_jobs_status_view(
                witness_states(witness_generator_jobs_info@),
                max_attempts,
            ),
            StageInfo::NodeWitnessGenerator { witness_generator_jobs_info, .. } => witness_jobs_status_view(
                witness_states(witness_generator_jobs_info@),
                max_attempts,
            ),
            StageInfo::RecursionTipWitnessGenerator(info) => match info {
                Some(j) => witness_job_status_view(j._status, j._attempts, max_attempts),
                None => StatusView::JobsNotFound,
            },
            StageInfo::SchedulerWitnessGenerator(info) => match info {
                Some(j) => witness_job_status_view(j._status, j._attempts, max_attempts),
                None => StatusView::JobsNotFound,
            },
            StageInfo::Compressor(info) => match info {
                Some(j) => compression_status_view(j._status),
                None => StatusView::JobsNotFound,
            },
        }
    }

    /// The name under which the stage is shown.
    pub open spec fn spec_name(&self) -> Seq<char> {
        match self {
            StageInfo::BasicWitnessGenerator { .. } => "Basic Witness Generator"@,
            StageInfo::LeafWitnessGenerator { .. } => "Leaf Witness Generator"@,
            StageInfo::NodeWitnessGenerator { .. } => "Node Witness Generator"@,
            StageInfo::RecursionTipWitnessGenerator(_) => "Recursion Tip"@,
            StageInfo::SchedulerWitnessGenerator(_) => "Scheduler"@,
            StageInfo::Compressor(_) => "Compressor"@,
        }
    }

    /// The aggregation round of the stage; the compressor has none.
    pub fn aggregation_round(&self) -> (r: Option<AggregationRound>)
        ensures
            r == self.spec_aggregation_round(),
    {
        match self {
            StageInfo::BasicWitnessGenerator { .. } => Some(AggregationRound::BasicCircuits),
            StageInfo::LeafWitnessGenerator { .. } => Some(AggregationRound::LeafAggregation),
            StageInfo::NodeWitnessGenerator { .. } => Some(AggregationRound::NodeAggregation),
            StageInfo::RecursionTipWitnessGenerator(_) => Some(AggregationRound::RecursionTip),
            StageInfo::SchedulerWitnessGenerator(_) => Some(AggregationRound::Scheduler),
            StageInfo::Compressor(_) => None,
        }
    }

    /// The status of the prover jobs of the stage; only the basic, leaf and
    /// node stages have prover jobs.
    pub fn prover_jobs_status(&self, max_attempts: u32) -> (r: Option<Status>)
        ensures
            match r {
                Some(st) => self.spec_prover_jobs_status(max_attempts) == Some(st@),
                None => self.spec_prover_jobs_status(max_attempts) is None,
            },
    {
        match self {
            StageInfo::BasicWitnessGenerator { prover_jobs_info, .. }
            | StageInfo::LeafWitnessGenerator { prover_jobs_info, .. }
            | StageInfo::NodeWitnessGenerator { prover_jobs_info, .. } => Some(
                get_prover_jobs_status_from_vec(prover_jobs_info.as_slice(), max_attempts),
            ),
            StageInfo::RecursionTipWitnessGenerator(_)
            | StageInfo::SchedulerWitnessGenerator(_)
            | StageInfo::Compressor(_) => None,
        }
    }

    /// The status of the witness generator (or compressor) jobs of the stage.
    pub fn witness_generator_jobs_status(&self, max_attempts: u32) -> (r: Status)
        ensures
            r@ == self.spec_witness_generator_jobs_status(max_attempts),
    {
        match self {
            StageInfo::BasicWitnessGenerator { witness_generator_job_info, .. } => {
                match witness_generator_job_info {
                    Some(j) => get_witness_generator_job_status(j, max_attempts),
                    None => Status::JobsNotFound,
                }
            },
            StageInfo::LeafWitnessGenerator { witness_generator_jobs_info, .. } => {
                witness_jobs_status(witness_generator_jobs_info, max_attempts)
            },
            StageInfo::NodeWitnessGenerator { witness_generator_jobs_info, .. } => {
                witness_jobs_status(witness_generator_jobs_info, max_attempts)
            },
            StageInfo::RecursionTipWitnessGenerator(info) => match info {
                Some(j) => get_witness_generator_job_status(j, max_attempts),
                None => Status::JobsNotFound,
            },
            StageInfo::SchedulerWitnessGenerator(info) => match info {
                Some(j) => get_witness_generator_job_status(j, max_attempts),
                None => Status::JobsNotFound,
            },
            StageInfo::Compressor(info) => match info {
                Some(j) => Status::from_compression_job_status(j._status),
                None => Status::JobsNotFound,
            },
        }
    }

    /// The name under which the stage is shown.
    pub fn stage_name(&self) -> (r: String)
        ensures
            r@ == self.spec_name(),
    {
        match self {
            StageInfo::BasicWitnessGenerator { .. } => "Basic Witness Generator".to_owned(),
            StageInfo::LeafWitnessGenerator { .. } => "Leaf Witness Generator".to_owned(),
            StageInfo::NodeWitnessGenerator { .. } => "Node Witness Generator".to_owned(),
            StageInfo::RecursionTipWitnessGenerator(_) => "Recursion Tip".to_owned(),
            StageInfo::SchedulerWitnessGenerator(_) => "Scheduler".to_owned(),
            StageInfo::Compressor(_) => "Compressor".to_owned(),
        }
    }
}

/// The proving data of a batch: one entry per stage.
#[derive(Clone, Debug, PartialEq, Eq)]
pub struct BatchData {
    /// The number of the batch.
    pub batch_number: u32,
    /// The basic witness generator data.
    pub basic_witness_generator: StageInfo,
    /// The leaf witness generator data.
    pub leaf_witness_generator: StageInfo,
    /// The node witness generator data.
    pub node_witness_generator: StageInfo,
    /// The recursion tip data.
    pub recursion_tip_witness_generator: StageInfo,
    /// The scheduler data.
    pub scheduler_witness_generator: StageInfo,
    /// The compressor data.
    pub compressor: StageInfo,
}

/// A stage is shown when no stage is chosen (all are shown) or when its bit is set.
pub open spec fn stage_selected_spec(flags: u32, flag: StageFlags) -> bool {
    flags == 0 || flags & flag_bit(flag) != 0
}

/// Whether a stage is shown under the given stage selection.
pub fn stage_selected(flags: u32, flag: StageFlags) -> (r: bool)
    ensures
        r == stage_selected_spec(flags, flag),
{
    flags == 0 || flags & flag.as_u32() != 0
}

/// The one-element sequence of `x` when `b` holds, the empty sequence otherwise.
pub open spec fn seq_if<A>(b: bool, x: A) -> Seq<A> {
    if b {
        seq![x]
    } else {
        Seq::empty()
    }
}

/// The stages of a batch in pipeline order, each with its flag.
pub open spec fn batch_stages(b: BatchData) -> Seq<(StageFlags, StageInfo)> {
    seq![
        (StageFlags::Bwg, b.basic_witness_generator),
        (StageFlags::Lwg, b.leaf_witness_generator),
        (StageFlags::Nwg, b.node_witness_generator),
        (StageFlags::Rtwg, b.recursion_tip_witness_generator),
        (StageFlags::Swg, b.scheduler_witness_generator),
        (StageFlags::Compressor, b.compressor),
    ]
}

/// The stages of a batch that a stage selection shows, in pipeline order.
pub open spec fn selected_stages_spec(b: BatchData, flags: u32) -> Seq<StageInfo> {
    seq_if(stage_selected_spec(flags, StageFlags::Bwg), b.basic_witness_generator) + seq_if(
        stage_selected_spec(flags, StageFlags::Lwg),
        b.leaf_witness_generator,
    ) + seq_if(stage_selected_spec(flags, StageFlags::Nwg), b.node_witness_generator) + seq_if(
        stage_selected_spec(flags, StageFlags::Rtwg),
        b.recursion_tip_witness_generator,
    ) + seq_if(stage_selected_spec(flags, StageFlags::Swg), b.scheduler_witness_generator)
        + seq_if(stage_selected_spec(flags, StageFlags::Compressor), b.compressor)
}

/// The stages of a batch that a stage selection shows, in pipeline order.
pub fn selected_stages(batch_data: BatchData, flags: u32) -> (r: Vec<StageInfo>)
    ensures
        r@ == selected_stages_spec(batch_data, flags),
{
    let ghost b = batch_data;
    let mut stages: Vec<StageInfo> = Vec::new();
    if stage_selected(flags, StageFlags::Bwg) {
        stages.push(batch_data.basic_witness_generator);
    }
    assert(stages@ == seq_if(stage_selected_spec(flags, StageFlags::Bwg), b.basic_witness_generator));
    if stage_selected(flags, StageFlags::Lwg) {
        stages.push(batch_data.leaf_witness_generator);
    }
    if stage_selected(flags, StageFlags::Nwg) {
        stages.push(batch_data.node_witness_generator);
    }
    if stage_selected(flags, StageFlags::Rtwg) {
        stages.push(batch_data.recursion_tip_witness_generator);
    }
    if stage_selected(flags, StageFlags::Swg) {
        stages.push(batch_data.scheduler_witness_generator);
    }
    if stage_selected(flags, StageFlags::Compressor) {
        stages.push(batch_data.compressor);
    }
    stages
}

/// The flags combined from a choice of stages show exactly the chosen
/// stages; when no stage is chosen, every stage is shown.
pub proof fn lemma_combined_flags_select_chosen_stages(
    bwg: bool,
    lwg: bool,
    nwg: bool,
    rtwg: bool,
    swg: bool,
    compressor: bool,
)
    ensures
        ({
            let f = flags_value(bwg, lwg, nwg, rtwg, swg, compressor);
            let none = !(bwg || lwg || nwg || rtwg || swg || compressor);
            &&& stage_selected_spec(f, StageFlags::Bwg) == (bwg || none)
            &&& stage_selected_spec(f, StageFlags::Lwg) == (lwg || none)
            &&& stage_selected_spec(f, StageFlags::Nwg) == (nwg || none)
            &&& stage_selected_spec(f, StageFlags::Rtwg) == (rtwg || none)
            &&& stage_selected_spec(f, StageFlags::Swg) == (swg || none)
            &&& stage_selected_spec(f, StageFlags::Compressor) == (compressor || none)
        }),
{
    let a: u32 = if bwg { 1 } else { 0 };
    let b: u32 = if lwg { 2 } else { 0 };
    let c: u32 = if nwg { 4 } else { 0 };
    let d: u32 = if rtwg { 8 } else { 0 };
    let e: u32 = if swg { 16 } else { 0 };
    let g: u32 = if compressor { 32 } else { 0 };
    let f: u32 = (a + b + c + d + e + g) as u32;
    assert(f == flags_value(bwg, lwg, nwg, rtwg, swg, compressor));
    assert(
        (f == 0 || f & 1 != 0) == (bwg || f == 0)
        && (f == 0 || f & 2 != 0) == (lwg || f == 0)
        && (f == 0 || f & 4 != 0) == (nwg || f == 0)
        && (f == 0 || f & 8 != 0) == (rtwg || f == 0)
        && (f == 0 || f & 16 != 0) == (swg || f == 0)
        && (f == 0 || f & 32 != 0) == (compressor || f == 0)
        && (f == 0) == !(bwg || lwg || nwg || rtwg || swg || compressor)
    ) by (bit_vector)
        requires
            a == (if bwg { 1u32 } else { 0u32 }),
            b == (if lwg { 2u32 } else { 0u32 }),
            c == (if nwg { 4u32 } else { 0u32 }),
            d == (if rtwg { 8u32 } else { 0u32 }),
            e == (if swg { 16u32 } else { 0u32 }),
            g == (if compressor { 32u32 } else { 0u32 }),
            f == (a + b + c + d + e + g) as u32,
    ;
}

} // verus!
