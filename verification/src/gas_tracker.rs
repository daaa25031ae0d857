//! Gas, fee and gas price measurements of the runs of a gas scenario.

use vstd::prelude::*;
use crate::uint::{pow256, u256_add, u256_div, Uint256};
use crate::decimal::{nat_decimal, zero_padded};
use ethers_core::types::U256;
use ethers_core::utils::format_units;

verus! {

/// The sum of a sequence of integers.
pub open spec fn sum_values(s: Seq<Uint256>) -> nat
    decreases s.len(),
{
    if s.len() == 0 {
        0
    } else {
        sum_values(s.drop_last()) + s.last().value()
    }
}

proof fn lemma_sum_prefix_le(s: Seq<Uint256>, i: int)
    requires
        0 <= i <= s.len(),
    ensures
        sum_values(s.subrange(0, i)) <= sum_values(s),
    decreases s.len() - i,
{
    if i < s.len() {
        lemma_sum_prefix_le(s, i + 1);
        assert(s.subrange(0, i + 1).drop_last() == s.subrange(0, i));
    } else {
        assert(s.subrange(0, i) == s);
    }
}

/// The sum of a sequence of integers, which must fit in 256 bits.
pub fn sum_vec_u256(vec: &[Uint256]) -> (r: Uint256)
    requires
        sum_values(vec@) < pow256(),
    ensures
        r.value() == sum_values(vec@),
{
    let mut total = Uint256::zero();
    let mut i: usize = 0;
    while i < vec.len()
        invariant
            i <= vec@.len(),
            sum_values(vec@) < pow256(),
            total.value() == sum_values(vec@.subrange(0, i as int)),
        decreases vec@.len() - i,
    {
        proof {
            lemma_sum_prefix_le(vec@, i + 1);
            assert(vec@.subrange(0, i + 1).drop_last() == vec@.subrange(0, i as int));
        }
        total = u256_add(total, vec[i]);
        i = i + 1;
    }
    assert(vec@.subrange(0, vec@.len() as int) == vec@);
    total
}

/// The measurements of the runs of a gas scenario.
#[derive(Clone, Debug)]
pub struct GasTracker {
    gas: Vec<Uint256>,
    fees: Vec<Uint256>,
    gas_prices: Vec<Uint256>,
    txs_per_run: Vec<u64>,
    token_symbol: String,
    token_decimals: i32,
}

/// Mathematical model of a [`GasTracker`].
pub struct GasTrackerView {
    pub gas: Seq<Uint256>,
    pub fees: Seq<Uint256>,
    pub gas_prices: Seq<Uint256>,
    pub txs_per_run: Seq<u64>,
    pub token_symbol: Seq<char>,
    pub token_decimals: i32,
}

impl View for GasTracker {
    type V = GasTrackerView;

    closed spec fn view(&self) -> GasTrackerView {
        GasTrackerView {
            gas: self.gas@,
            fees: self.fees@,
            gas_prices: self.gas_prices@,
            txs_per_run: self.txs_per_run@,
            token_symbol: self.token_symbol@,
            token_decimals: self.token_decimals,
        }
    }
}

/// The indexing error of the median of no values.
#[derive(Clone, Copy, Debug, PartialEq, Eq, Structural)]
pub enum MedianError {
    IndexingError,
}

impl GasTracker {
    /// A tracker with no runs, for a token named `None` with 18 decimals.
    pub fn new() -> (r: GasTracker)
        ensures
            r@.gas.len() == 0,
            r@.fees.len() == 0,
            r@.gas_prices.len() == 0,
            r@.txs_per_run.len() == 0,
            r@.token_symbol == "None"@,
            r@.token_decimals == 18,
    {
        GasTracker {
            gas: Vec::new(),
            fees: Vec::new(),
            gas_prices: Vec::new(),
            txs_per_run: Vec::new(),
            token_symbol: "None".to_owned(),
            token_decimals: 18,
        }
    }

    /// The tracker with the given token symbol.
    pub fn set_token_symbol(self, token_symbol: String) -> (r: GasTracker)
        ensures
            r@ == (GasTrackerView { token_symbol: token_symbol@, ..self@ }),
    {
        let mut t = self;
        t.token_symbol = token_symbol;
        t
    }

    /// The tracker with the given number of token decimals.
    pub fn set_token_decimals(self, token_decimals: i32) -> (r: GasTracker)
        ensures
            r@ == (GasTrackerView { token_decimals, ..self@ }),
    {
        let mut t = self;
        t.token_decimals = token_decimals;
        t
    }

    /// Records the measurements of one run.
    pub fn add_run(&mut self, gas: Uint256, fee: Uint256, gas_price: Uint256, txs_per_run: u64)
        ensures
            final(self)@ == (GasTrackerView {
                gas: old(self)@.gas.push(gas),
                fees: old(self)@.fees.push(fee),
                gas_prices: old(self)@.gas_prices.push(gas_price),
                txs_per_run: old(self)@.txs_per_run.push(txs_per_run),
                ..old(self)@
            }),
    {
        self.gas.push(gas);
        self.fees.push(fee);
        self.gas_prices.push(gas_price);
        self.txs_per_run.push(txs_per_run);
    }

    /// The gas used per run.
    pub fn gas(&self) -> (r: &Vec<Uint256>)
        ensures
            r@ == self@.gas,
    {
        &self.gas
    }

    /// The fees paid per run.
    pub fn fees(&self) -> (r: &Vec<Uint256>)
        ensures
            r@ == self@.fees,
    {
        &self.fees
    }

    /// The gas prices per run.
    pub fn gas_prices(&self) -> (r: &Vec<Uint256>)
        ensures
            r@ == self@.gas_prices,
    {
        &self.gas_prices
    }

    /// The number of transactions per run.
    pub fn txs_per_run(&self) -> (r: &Vec<u64>)
        ensures
            r@ == self@.txs_per_run,
    {
        &self.txs_per_run
    }

    /// The symbol of the token in which fees are paid.
    pub fn token_symbol(&self) -> (r: &String)
        ensures
            r@ == self@.token_symbol,
    {
        &self.token_symbol
    }

    /// The number of decimals of the token in which fees are paid.
    pub fn token_decimals(&self) -> (r: i32)
        ensures
            r == self@.token_decimals,
    {
        self.token_decimals
    }

    /// The mean of the values, rounded down. There must be values, and their
    /// sum must fit in 256 bits.
    pub fn mean(values: &[Uint256]) -> (r: Uint256)
        requires
            values@.len() > 0,
            sum_values(values@) < pow256(),
        ensures
            r.value() == sum_values(values@) / values@.len(),
    {
        let sum = sum_vec_u256(values);
        let n = Uint256::from_u64(values.len() as u64);
        u256_div(sum, n)
    }

    /// The middle value in the listed order (the values are not sorted): for
    /// an even number of values, the mean of the two middle ones, rounded
    /// down. No values give an indexing error. The two middle values of an
    /// even number must add up to less than 2^256.
    pub fn median(values: &[Uint256]) -> (r: Result<Uint256, MedianError>)
        requires
            values@.len() > 0 && values@.len() % 2 == 0 ==> values@[values@.len() / 2 - 1].value()
                + values@[(values@.len() / 2) as int].value() < pow256(),
        ensures
            values@.len() == 0 ==> r == Err::<Uint256, MedianError>(MedianError::IndexingError),
            values@.len() > 0 && values@.len() % 2 == 0 ==> (r matches Ok(m) && m.value() == (
            values@[values@.len() / 2 - 1].value() + values@[(values@.len() / 2) as int].value()) / 2),
            values@.len() % 2 == 1 ==> r == Ok::<Uint256, MedianError>(values@[(values@.len() / 2) as int]),
    {
        let len = values.len();
        let mid = len / 2;
        if len % 2 == 0 {
            if len == 0 {
                return Err(MedianError::IndexingError);
            }
            let s = u256_add(values[mid - 1], values[mid]);
            Ok(u256_div(s, Uint256::from_u64(2)))
        } else {
            Ok(values[mid])
        }
    }
}


/// Ten to the `n`.
pub open spec fn pow10(n: nat) -> nat
    decreases n,
{
    if n == 0 {
        1
    } else {
        10 * pow10((n - 1) as nat)
    }
}

/// The text of an amount in a unit with `units` decimals: the whole part,
/// a dot, and the fractional part padded with zeros to `units` digits.
pub open spec fn units_text(amount: nat, units: nat) -> Seq<char> {
    nat_decimal(amount / pow10(units)) + seq!['.'] + zero_padded(nat_decimal(amount % pow10(units)), units)
}

/// The text of an amount in a unit with `units` decimals:
/// `ethers_core::utils::format_units`, which refuses a negative number of
/// decimals or one of 78 or more.
#[verifier::external_body]
fn format_amount(amount: Uint256, units: i32) -> (r: Option<String>)
    ensures
        match r {
            Some(s) => 0 <= units < 78 && s@ == units_text(amount.value(), units as nat),
            None => !(0 <= units < 78),
        },
{
    format_units(U256([amount.w0, amount.w1, amount.w2, amount.w3]), units).ok()
}

/// The text of an amount in a unit with `units` decimals, or `0` where the
/// number of decimals is refused.
pub open spec fn amount_text_or_zero(amount: nat, units: int) -> Seq<char> {
    if 0 <= units < 78 {
        units_text(amount, units as nat)
    } else {
        seq!['0']
    }
}

fn format_amount_or_zero(amount: Uint256, units: i32) -> (r: String)
    ensures
        r@ == amount_text_or_zero(amount.value(), units as int),
{
    match format_amount(amount, units) {
        Some(s) => s,
        None => {
            let mut z = String::new();
            crate::text::push_char(&mut z, '0');
            z
        },
    }
}

/// The median of the values in their listed order, or zero when there are
/// none.
pub open spec fn median_or_zero(values: Seq<Uint256>) -> nat {
    let n = values.len();
    if n == 0 {
        0
    } else if n % 2 == 0 {
        (values[n / 2 - 1].value() + values[(n / 2) as int].value()) / 2
    } else {
        values[(n / 2) as int].value()
    }
}

/// The sum of a sequence of counts.
pub open spec fn sum_counts(s: Seq<u64>) -> nat
    decreases s.len(),
{
    if s.len() == 0 {
        0
    } else {
        sum_counts(s.drop_last()) + s.last() as nat
    }
}

/// Whether the middle values of a sequence add up to less than 2^256.
pub open spec fn median_fits(values: Seq<Uint256>) -> bool {
    values.len() > 0 && values.len() % 2 == 0 ==> values[values.len() / 2 - 1].value()
        + values[(values.len() / 2) as int].value() < pow256()
}

/// The statistics that a tracker reports.
pub struct GasStatistics {
    /// The mean gas used per run.
    pub gas_mean: Uint256,
    /// The median gas used per run (zero without runs).
    pub gas_median: Uint256,
    /// The mean fee, in the token's unit.
    pub fees_mean: String,
    /// The median fee, in the token's unit.
    pub fees_median: String,
    /// The mean gas price, in units of 10^9.
    pub gas_price_mean: String,
    /// The median gas price, in units of 10^9.
    pub gas_price_median: String,
    /// The number of transactions of all runs.
    pub total_txs: u64,
    /// The number of transactions of the first run (zero without runs).
    pub txs_per_run: u64,
}

fn median_or_zero_exec(values: &[Uint256]) -> (r: Uint256)
    requires
        median_fits(values@),
    ensures
        r.value() == median_or_zero(values@),
{
    match GasTracker::median(values) {
        Ok(m) => m,
        Err(_) => Uint256::zero(),
    }
}

impl GasTracker {
    /// The statistics of the recorded runs: means and medians of the gas,
    /// fees and gas prices, the fees in the token's unit and the gas prices
    /// in units of 10^9, and the transaction counts. There must be a run,
    /// and the sums must fit.
    pub fn statistics(&self) -> (r: GasStatistics)
        requires
            self@.gas.len() > 0,
            self@.fees.len() > 0,
            self@.gas_prices.len() > 0,
            sum_values(self@.gas) < pow256(),
            sum_values(self@.fees) < pow256(),
            sum_values(self@.gas_prices) < pow256(),
            median_fits(self@.gas),
            median_fits(self@.fees),
            median_fits(self@.gas_prices),
            sum_counts(self@.txs_per_run) <= u64::MAX,
        ensures
            r.gas_mean.value() == sum_values(self@.gas) / self@.gas.len(),
            r.gas_median.value() == median_or_zero(self@.gas),
            r.fees_mean@ == amount_text_or_zero(
                sum_values(self@.fees) / self@.fees.len(),
                self@.token_decimals as int,
            ),
            r.fees_median@ == amount_text_or_zero(
                median_or_zero(self@.fees),
                self@.token_decimals as int,
            ),
            r.gas_price_mean@ == amount_text_or_zero(
                sum_values(self@.gas_prices) / self@.gas_prices.len(),
                9,
            ),
            r.gas_price_median@ == amount_text_or_zero(median_or_zero(self@.gas_prices), 9),
            r.total_txs == sum_counts(self@.txs_per_run),
            r.txs_per_run == if self@.txs_per_run.len() > 0 {
                self@.txs_per_run[0]
            } else {
                0
            },
    {
        let gas_mean = GasTracker::mean(self.gas.as_slice());
        let gas_median = median_or_zero_exec(self.gas.as_slice());
        let fees_mean = format_amount_or_zero(
            GasTracker::mean(self.fees.as_slice()),
            self.token_decimals,
        );
        let fees_median = format_amount_or_zero(
            median_or_zero_exec(self.fees.as_slice()),
            self.token_decimals,
        );
        let gas_price_mean = format_amount_or_zero(GasTracker::mean(self.gas_prices.as_slice()), 9);
        let gas_price_median = format_amount_or_zero(
            median_or_zero_exec(self.gas_prices.as_slice()),
            9,
        );
        let mut total_txs: u64 = 0;
        let mut i: usize = 0;
        while i < self.txs_per_run.len()
            invariant
                i <= self@.txs_per_run.len(),
                self@.txs_per_run == self.txs_per_run@,
                sum_counts(self@.txs_per_run) <= u64::MAX,
                total_txs == sum_counts(self@.txs_per_run.subrange(0, i as int)),
            decreases self@.txs_per_run.len() - i,
        {
            proof {
                lemma_sum_counts_prefix_le(self@.txs_per_run, i + 1);
                assert(self@.txs_per_run.subrange(0, i + 1).drop_last() == self@.txs_per_run.subrange(
                    0,
                    i as int,
                ));
            }
            total_txs = total_txs + self.txs_per_run[i];
            i = i + 1;
        }
        assert(self@.txs_per_run.subrange(0, i as int) == self@.txs_per_run);
        let txs_per_run = if self.txs_per_run.len() > 0 {
            self.txs_per_run[0]
        } else {
            0
        };
        GasStatistics {
            gas_mean,
            gas_median,
            fees_mean,
            fees_median,
            gas_price_mean,
            gas_price_median,
            total_txs,
            txs_per_run,
        }
    }
}

proof fn lemma_sum_counts_prefix_le(s: Seq<u64>, i: int)
    requires
        0 <= i <= s.len(),
    ensures
        sum_counts(s.subrange(0, i)) <= sum_counts(s),
    decreases s.len() - i,
{
    if i < s.len() {
        lemma_sum_counts_prefix_le(s, i + 1);
        assert(s.subrange(0, i + 1).drop_last() == s.subrange(0, i));
    } else {
        assert(s.subrange(0, i) == s);
    }
}

} // verus!
