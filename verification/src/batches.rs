//! Which batches a command shows, and how: the batches that exist up to the
//! chain's current batch, the messages shown while their data is fetched,
//! and whether a batch's status is shown at all.

use vstd::prelude::*;
use crate::decimal::{nat_decimal, push_u64_decimal, zero_padded};
use crate::stage::{BatchData, StageInfo, DISPLAY_MAX_ATTEMPTS};
use crate::jobs::round_number;
use crate::status::{Status, StatusView};
use crate::text::{chars_of, occurs_at, occurs_at_exec, push_char};

verus! {

/// The batches of `batches` that are fetched: those before the first one
/// beyond the current batch.
pub open spec fn batches_up_to(batches: Seq<u32>, current_batch: u32) -> Seq<u32>
    decreases batches.len(),
{
    if batches.len() == 0 {
        seq![]
    } else if batches[0] > current_batch {
        seq![]
    } else {
        seq![batches[0]] + batches_up_to(batches.subrange(1, batches.len() as int), current_batch)
    }
}

/// The batches to fetch, in order, stopping at the first batch beyond the
/// current batch of the chain; and whether one was beyond it (the commands
/// then say that the batch does not exist).
pub fn batches_to_fetch(batches: &Vec<u32>, current_batch: u32) -> (r: (Vec<u32>, bool))
    ensures
        r.0@ == batches_up_to(batches@, current_batch),
        r.1 <==> r.0@.len() < batches@.len(),
{
    let mut out: Vec<u32> = Vec::new();
    let mut i: usize = 0;
    assert(batches@.subrange(0, batches@.len() as int) == batches@);
    assert(out@ + batches_up_to(batches@, current_batch) == batches_up_to(batches@, current_batch));
    while i < batches.len()
        invariant
            i <= batches@.len(),
            out@.len() == i,
            out@ + batches_up_to(batches@.subrange(i as int, batches@.len() as int), current_batch)
                == batches_up_to(batches@, current_batch),
        decreases batches@.len() - i,
    {
        let ghost rest = batches@.subrange(i as int, batches@.len() as int);
        if batches[i] > current_batch {
            assert(batches_up_to(rest, current_batch) == Seq::<u32>::empty());
            assert(out@ + Seq::<u32>::empty() == out@);
            return (out, true);
        }
        assert(rest.subrange(1, rest.len() as int) == batches@.subrange(i + 1, batches@.len() as int));
        out.push(batches[i]);
        assert(out@ + batches_up_to(batches@.subrange(i + 1, batches@.len() as int), current_batch)
            == out@.drop_last() + batches_up_to(rest, current_batch));
        i = i + 1;
    }
    assert(batches@.subrange(i as int, batches@.len() as int).len() == 0);
    assert(out@ + Seq::<u32>::empty() == out@);
    (out, false)
}

/// The message shown while the details of batches are fetched from the
/// chain.
pub fn details_fetch_message(batch_count: usize) -> (r: &'static str)
    ensures
        r@ == if batch_count > 1 { "Fetching Batches' Data"@ } else { "Fetching Batch's Data"@ },
{
    if batch_count > 1 {
        "Fetching Batches' Data"
    } else {
        "Fetching Batch's Data"
    }
}

/// The message shown while the proving data of batches is fetched from the
/// prover database.
pub fn status_fetch_message(batch_count: usize) -> (r: String)
    ensures
        r@ == "Fetching "@ + if batch_count > 1 { "Batches"@ } else { "Batch"@ },
{
    let mut r = String::new();
    r.append("Fetching ");
    if batch_count > 1 {
        r.append("Batches");
    } else {
        r.append("Batch");
    }
    r
}

/// The title of a batch: `Batch `, its number padded with zeros to five
/// digits, and ` Status`.
pub fn batch_title(batch: u32) -> (r: String)
    ensures
        r@ == "Batch "@ + zero_padded(nat_decimal(batch as nat), 5) + " Status"@,
{
    let mut digits = String::new();
    push_u64_decimal(&mut digits, batch as u64);
    let cs = chars_of(digits.as_str());
    let mut r = String::new();
    r.append("Batch ");
    let ghost before = r@;
    let mut k: usize = cs.len();
    while k < 5
        invariant
            cs@ == nat_decimal(batch as nat),
            cs@.len() <= k <= 5 || (cs@.len() > 5 && k == cs@.len()),
            r@ == before + Seq::new((k - cs@.len()) as nat, |i: int| '0'),
        decreases 5 - k,
    {
        push_char(&mut r, '0');
        k = k + 1;
        assert(r@ =~= before + Seq::new((k - cs@.len()) as nat, |i: int| '0'));
    }
    r.append(digits.as_str());
    r.append(" Status");
    assert(r@ =~= "Batch "@ + zero_padded(nat_decimal(batch as nat), 5) + " Status"@);
    r
}

/// How the status command shows a batch.
#[derive(Clone, Copy, Debug, PartialEq, Eq, Structural)]
pub enum BatchStatusDisplay {
    /// Its proof was already sent to the server.
    ProofSentToServer,
    /// There is no such batch: no basic witness generator job was found.
    NoBatchFound,
    /// Its stages are shown.
    Stages,
}

/// Whether `pat` occurs in `s`.
pub open spec fn contains_text(s: Seq<char>, pat: Seq<char>) -> bool {
    exists|i: int| occurs_at(s, pat, i)
}

fn contains_str(s: &String, pat: &str) -> (r: bool)
    ensures
        r == contains_text(s@, pat@),
{
    let cs = chars_of(s.as_str());
    let ps = chars_of(pat);
    let mut i: usize = 0;
    while i < cs.len()
        invariant
            i <= cs@.len(),
            cs@ == s@,
            ps@ == pat@,
            forall|j: int| 0 <= j < i ==> !occurs_at(s@, pat@, j),
        decreases cs@.len() - i,
    {
        if occurs_at_exec(&cs, &ps, i) {
            return true;
        }
        i = i + 1;
    }
    if occurs_at_exec(&cs, &ps, i) {
        return true;
    }
    assert forall|j: int| !occurs_at(s@, pat@, j) by {
        if occurs_at(s@, pat@, j) {
            assert(j <= s@.len());
            assert(j < i || j == i);
        }
    }
    false
}

/// How the status command shows a batch: a compressor status that mentions
/// `Sent to server` means the proof was sent; a basic witness generator
/// without jobs means there is no such batch.
pub open spec fn batch_status_display_spec(b: BatchData) -> BatchStatusDisplay {
    match b.compressor.spec_witness_generator_jobs_status(DISPLAY_MAX_ATTEMPTS) {
        StatusView::Custom(m) if contains_text(m, "Sent to server"@) => BatchStatusDisplay::ProofSentToServer,
        _ => if b.basic_witness_generator.spec_witness_generator_jobs_status(DISPLAY_MAX_ATTEMPTS)
            == StatusView::JobsNotFound {
            BatchStatusDisplay::NoBatchFound
        } else {
            BatchStatusDisplay::Stages
        },
    }
}

/// How the status command shows a batch.
pub fn batch_status_display(batch_data: &BatchData) -> (r: BatchStatusDisplay)
    ensures
        r == batch_status_display_spec(*batch_data),
{
    let compressor_status = batch_data.compressor.witness_generator_jobs_status(DISPLAY_MAX_ATTEMPTS);
    if let Status::Custom(msg) = compressor_status {
        if contains_str(&msg, "Sent to server") {
            return BatchStatusDisplay::ProofSentToServer;
        }
    }
    let basic_status = batch_data.basic_witness_generator.witness_generator_jobs_status(
        DISPLAY_MAX_ATTEMPTS,
    );
    if matches!(basic_status, Status::JobsNotFound) {
        BatchStatusDisplay::NoBatchFound
    } else {
        BatchStatusDisplay::Stages
    }
}


/// The heading of a stage's details: its aggregation round, or proof
/// compression for the compressor.
pub open spec fn stage_heading_text(stage_info: StageInfo) -> Seq<char> {
    match stage_info.spec_aggregation_round() {
        Some(round) => "Aggregation Round "@ + nat_decimal(round_number(round) as nat),
        None => "Proof Compression"@,
    }
}

/// The heading of a stage's details.
pub fn stage_heading(stage_info: &StageInfo) -> (r: String)
    ensures
        r@ == stage_heading_text(*stage_info),
{
    let mut r = String::new();
    match stage_info.aggregation_round() {
        Some(round) => {
            r.append("Aggregation Round ");
            push_u64_decimal(&mut r, round.as_u8() as u64);
        },
        None => {
            r.append("Proof Compression");
        },
    }
    r
}


/// The fetched batches are the longest prefix of the requested ones that
/// stays within the current batch: each of them is at most the current
/// batch, and the next requested one, if any, is beyond it.
pub proof fn lemma_fetched_batches_are_the_existing_prefix(batches: Seq<u32>, current_batch: u32)
    ensures
        batches_up_to(batches, current_batch).len() <= batches.len(),
        batches_up_to(batches, current_batch) == batches.subrange(
            0,
            batches_up_to(batches, current_batch).len() as int,
        ),
        forall|i: int|
            0 <= i < batches_up_to(batches, current_batch).len() ==> #[trigger] batches[i]
                <= current_batch,
        batches_up_to(batches, current_batch).len() < batches.len() ==> batches[batches_up_to(
            batches,
            current_batch,
        ).len() as int] > current_batch,
    decreases batches.len(),
{
    if batches.len() > 0 && batches[0] <= current_batch {
        let rest = batches.subrange(1, batches.len() as int);
        lemma_fetched_batches_are_the_existing_prefix(rest, current_batch);
        let r = batches_up_to(rest, current_batch);
        assert(batches_up_to(batches, current_batch) == seq![batches[0]] + r);
        assert(seq![batches[0]] + r == batches.subrange(0, r.len() as int + 1));
        assert forall|i: int| 0 <= i < r.len() + 1 implies #[trigger] batches[i] <= current_batch by {
            if i > 0 {
                assert(batches[i] == rest[i - 1]);
            }
        }
        if r.len() < rest.len() {
            assert(batches[r.len() as int + 1] == rest[r.len() as int]);
        }
    }
}

} // verus!
