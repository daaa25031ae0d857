//! The arithmetic of the load test and the gas scenario: deposit headroom,
//! the amount sent back after fees, nonces of concurrent transfers, moving
//! averages of gas measurements, wallets per throughput, and reruns.

use vstd::prelude::*;
use crate::uint::{
    pow256, u256_add, u256_div, u256_saturating_add, u256_saturating_mul, u256_saturating_sub,
    Uint256,
};

verus! {

/// `x`, capped at the largest 256-bit value.
pub open spec fn saturate(x: int) -> nat {
    if x < pow256() {
        x as nat
    } else {
        (pow256() - 1) as nat
    }
}

/// The amount to deposit for an amount to spread: a tenth of it, rounded
/// down, times twelve (20% of headroom for fees), capped at the largest value.
pub fn deposit_with_headroom(amount: Uint256) -> (r: Uint256)
    ensures
        r.value() == saturate(((amount.value() / 10) * 12) as int),
{
    let tenth = u256_div(amount, Uint256::from_u64(10));
    u256_saturating_mul(tenth, Uint256::from_u64(12))
}

/// The amount a wallet sends back: its balance minus the fee for the
/// estimated gas with 10% of headroom (a tenth of the estimate, rounded down,
/// times eleven), each product capped at the largest value and the
/// difference floored at zero.
pub fn transfer_back_amount(balance: Uint256, gas_estimate: Uint256, gas_price: Uint256) -> (r:
    Uint256)
    ensures
        ({
            let estimate = saturate(((gas_estimate.value() / 10) * 11) as int);
            let gas = saturate((estimate * gas_price.value()) as int);
            r.value() == if balance.value() >= gas {
                (balance.value() - gas) as nat
            } else {
                0
            }
        }),
{
    let tenth = u256_div(gas_estimate, Uint256::from_u64(10));
    let estimate = u256_saturating_mul(tenth, Uint256::from_u64(11));
    let gas = u256_saturating_mul(estimate, gas_price);
    u256_saturating_sub(balance, gas)
}

/// The nonces of `count` transfers sent one after the other from the same
/// wallet, starting at `start`: each one more than the previous, capped at
/// the largest value.
pub fn transfer_nonces(start: Uint256, count: usize) -> (r: Vec<Uint256>)
    ensures
        r@.len() == count,
        forall|i: int| 0 <= i < count ==> #[trigger] r@[i].value() == saturate(start.value() + i),
{
    let mut nonces: Vec<Uint256> = Vec::new();
    let mut nonce = start;
    let mut i: usize = 0;
    while i < count
        invariant
            i <= count,
            nonces@.len() == i,
            nonce.value() == saturate(start.value() + i),
            forall|j: int| 0 <= j < i ==> #[trigger] nonces@[j].value() == saturate(start.value() + j),
        decreases count - i,
    {
        nonces.push(nonce);
        nonce = u256_saturating_add(nonce, Uint256::from_u64(1));
        i = i + 1;
    }
    nonces
}

/// One step of the moving average of a measurement: an average of zero
/// starts from the measurement itself; the new average is the mean of the
/// average and the measurement, rounded down.
pub open spec fn moving_average_step(average: nat, measurement: nat) -> nat {
    let start = if average == 0 {
        measurement
    } else {
        average
    };
    (start + measurement) / 2
}

/// One step of the moving average of a measurement.
pub fn sma_step(average: Uint256, measurement: Uint256) -> (r: Uint256)
    requires
        (if average.value() == 0 {
            measurement.value()
        } else {
            average.value()
        }) + measurement.value() < pow256(),
    ensures
        r.value() == moving_average_step(average.value(), measurement.value()),
{
    let start = if average.is_zero() {
        measurement
    } else {
        average
    };
    u256_div(u256_add(start, measurement), Uint256::from_u64(2))
}

/// The number of wallets does not fit in 16 bits.
#[derive(Clone, Copy, Debug, PartialEq, Eq, Structural)]
pub enum WalletCountError {
    TooManyWallets,
}

/// The number of random wallets for a number of transactions per second: one
/// transfer to and one from each wallet per round, so half the rate, rounded
/// up.
pub fn wallets_for_tps(tps: u64) -> (r: Result<u16, WalletCountError>)
    requires
        tps < u64::MAX,
    ensures
        (tps + 1) / 2 <= u16::MAX ==> r == Ok::<u16, WalletCountError>(((tps + 1) / 2) as u16),
        (tps + 1) / 2 > u16::MAX ==> r == Err::<u16, WalletCountError>(WalletCountError::TooManyWallets),
{
    let n = (tps + 1) / 2;
    if n <= 65535 {
        Ok(n as u16)
    } else {
        Err(WalletCountError::TooManyWallets)
    }
}

/// The progress of the runs of a load test: the runs that count toward the
/// wanted number, the number of the current run, and the wanted number of
/// runs (zero runs forever).
#[derive(Clone, Copy, Debug, PartialEq, Eq, Structural)]
pub struct RerunPlan {
    pub reruns: u8,
    pub current_rerun: u32,
    pub reruns_wanted: u8,
}

impl RerunPlan {
    /// The number of runs the loop waits for: the wanted number, or one when
    /// the test runs forever (it never reaches it then).
    pub open spec fn spec_reruns_to_complete(&self) -> u8 {
        if self.reruns_wanted == 0 {
            1
        } else {
            self.reruns_wanted
        }
    }

    /// Whether another run is due.
    pub open spec fn spec_should_run(&self) -> bool {
        self.reruns < self.spec_reruns_to_complete()
    }

    /// The plan before the first run: one run when no number is given.
    pub fn new(reruns_wanted: Option<u8>) -> (r: RerunPlan)
        ensures
            r.reruns == 0,
            r.current_rerun == 1,
            r.reruns_wanted == match reruns_wanted {
                Some(n) => n,
                None => 1u8,
            },
    {
        let wanted = match reruns_wanted {
            Some(n) => n,
            None => 1,
        };
        RerunPlan { reruns: 0, current_rerun: 1, reruns_wanted: wanted }
    }

    /// Whether another run is due.
    pub fn should_run(&self) -> (r: bool)
        ensures
            r == self.spec_should_run(),
    {
        let to_complete = if self.reruns_wanted == 0 {
            1
        } else {
            self.reruns_wanted
        };
        self.reruns < to_complete
    }

    /// Records the end of a run: it counts toward the wanted number unless
    /// the test runs forever.
    pub fn finish_run(&mut self)
        requires
            old(self).spec_should_run(),
            old(self).current_rerun < u32::MAX,
        ensures
            final(self).reruns == if old(self).reruns_wanted != 0 {
                (old(self).reruns + 1) as u8
            } else {
                old(self).reruns
            },
            final(self).current_rerun == old(self).current_rerun + 1,
            final(self).reruns_wanted == old(self).reruns_wanted,
    {
        if self.reruns_wanted != 0 {
            self.reruns = self.reruns + 1;
        }
        self.current_rerun = self.current_rerun + 1;
    }
}

/// The plan after `k` runs.
pub open spec fn plan_after(reruns_wanted: u8, k: nat) -> RerunPlan
    decreases k,
{
    if k == 0 {
        RerunPlan { reruns: 0, current_rerun: 1, reruns_wanted }
    } else {
        let p = plan_after(reruns_wanted, (k - 1) as nat);
        RerunPlan {
            reruns: if reruns_wanted != 0 {
                (p.reruns + 1) as u8
            } else {
                p.reruns
            },
            current_rerun: (p.current_rerun + 1) as u32,
            reruns_wanted,
        }
    }
}

/// A test with a wanted number of runs runs exactly that many times; a test
/// with zero wanted runs never stops.
pub proof fn lemma_reruns_run_wanted_times(reruns_wanted: u8, k: nat)
    requires
        reruns_wanted == 0 || k <= reruns_wanted,
    ensures
        plan_after(reruns_wanted, k).spec_should_run() == (reruns_wanted == 0 || k < reruns_wanted),
        plan_after(reruns_wanted, k).reruns == if reruns_wanted == 0 {
            0
        } else {
            k
        },
    decreases k,
{
    if k > 0 {
        lemma_reruns_run_wanted_times(reruns_wanted, (k - 1) as nat);
    }
}


/// What a run does before transferring: nothing when the L2 balance is above
/// the deposit; else a deposit, preceded by minting when the L1 balance is
/// not above it either.
#[derive(Clone, Copy, Debug, PartialEq, Eq, Structural)]
pub enum FundingAction {
    EnoughL2Balance,
    Deposit,
    MintThenDeposit,
}

/// What a run does before transferring, from the balances and the deposit.
pub fn funding_action(l2_balance: Uint256, l1_balance: Uint256, deposit: Uint256) -> (r:
    FundingAction)
    ensures
        r == if l2_balance.value() > deposit.value() {
            FundingAction::EnoughL2Balance
        } else if l1_balance.value() <= deposit.value() {
            FundingAction::MintThenDeposit
        } else {
            FundingAction::Deposit
        },
{
    if !value_le(l2_balance, deposit) {
        FundingAction::EnoughL2Balance
    } else if value_le(l1_balance, deposit) {
        FundingAction::MintThenDeposit
    } else {
        FundingAction::Deposit
    }
}

/// What the amounts of a load-test round are: the amount to spread
/// (the deposit is that with 20% of headroom), what is sent to each random
/// wallet, what is withdrawn, and whether to withdraw.
#[derive(Clone, Copy, Debug, PartialEq, Eq, Structural)]
pub struct LoadTestRound {
    pub wallet_count: u16,
    pub amount: Uint256,
    pub amount_per_wallet: Uint256,
    pub withdrawal: Uint256,
    pub withdraw: bool,
}

/// One step of a load-test round.
#[derive(Clone, Copy, Debug, PartialEq, Eq, Structural)]
pub enum RoundAction {
    /// Mint base tokens on L1 to the rich wallet.
    Mint(Uint256),
    /// Deposit base tokens from L1 to the rich wallet on L2.
    Deposit(Uint256),
    /// Transfer from the rich wallet to the random wallet of this index.
    Transfer { wallet: usize, amount: Uint256 },
    /// Transfer what the random wallet of this index holds, less fees, back
    /// to the rich wallet.
    TransferBack { wallet: usize },
    /// Withdraw from the rich wallet on L2 to L1, and finalize it.
    Withdraw(Uint256),
}

/// The funding steps of a round for a funding decision.
pub open spec fn funding_steps(action: FundingAction, deposit: Uint256) -> Seq<RoundAction> {
    match action {
        FundingAction::EnoughL2Balance => seq![],
        FundingAction::Deposit => seq![RoundAction::Deposit(deposit)],
        FundingAction::MintThenDeposit => seq![RoundAction::Mint(deposit), RoundAction::Deposit(deposit)],
    }
}

/// The funding decision for the balances and the deposit.
pub open spec fn funding_action_spec(l2_balance: nat, l1_balance: nat, deposit: nat) -> FundingAction {
    if l2_balance > deposit {
        FundingAction::EnoughL2Balance
    } else if l1_balance <= deposit {
        FundingAction::MintThenDeposit
    } else {
        FundingAction::Deposit
    }
}

/// The deposit of a round: its amount with 20% of headroom.
pub open spec fn round_deposit(round: LoadTestRound) -> nat {
    saturate(((round.amount.value() / 10) * 12) as int)
}

/// What a load-test round does, in order: mint and deposit as the balances
/// call for; send the amount per wallet to each random wallet; have each
/// send back; withdraw, only when asked.
pub open spec fn round_actions_spec(
    l2_balance: Uint256,
    l1_balance: Uint256,
    deposit: Uint256,
    round: LoadTestRound,
) -> Seq<RoundAction> {
    let k = round.wallet_count as int;
    funding_steps(funding_action_spec(l2_balance.value(), l1_balance.value(), deposit.value()), deposit)
        + Seq::new(
        k as nat,
        |i: int| RoundAction::Transfer { wallet: i as usize, amount: round.amount_per_wallet },
    ) + Seq::new(k as nat, |i: int| RoundAction::TransferBack { wallet: i as usize }) + if round.withdraw {
        seq![RoundAction::Withdraw(round.withdrawal)]
    } else {
        seq![]
    }
}

/// What a load-test round does, from the rich wallet's L2 and L1 balances
/// at its start (the L1 balance matters only when the L2 balance is not
/// above the deposit), and the deposit it makes when funds are short.
pub fn round_actions(l2_balance: Uint256, l1_balance: Uint256, round: &LoadTestRound) -> (r: (
    Uint256,
    Vec<RoundAction>,
))
    ensures
        r.0.value() == round_deposit(*round),
        r.1@ == round_actions_spec(l2_balance, l1_balance, r.0, *round),
{
    let deposit = deposit_with_headroom(round.amount);
    let mut actions: Vec<RoundAction> = Vec::new();
    match funding_action(l2_balance, l1_balance, deposit) {
        FundingAction::EnoughL2Balance => {},
        FundingAction::Deposit => {
            actions.push(RoundAction::Deposit(deposit));
        },
        FundingAction::MintThenDeposit => {
            actions.push(RoundAction::Mint(deposit));
            actions.push(RoundAction::Deposit(deposit));
        },
    }
    let ghost funding = actions@;
    assert(funding == funding_steps(
        funding_action_spec(l2_balance.value(), l1_balance.value(), deposit.value()),
        deposit,
    ));
    let k: usize = round.wallet_count as usize;
    let mut i: usize = 0;
    while i < k
        invariant
            i <= k,
            k == round.wallet_count,
            actions@ == funding + Seq::new(
                i as nat,
                |j: int| RoundAction::Transfer { wallet: j as usize, amount: round.amount_per_wallet },
            ),
        decreases k - i,
    {
        actions.push(RoundAction::Transfer { wallet: i, amount: round.amount_per_wallet });
        i = i + 1;
    }
    let ghost transfers = actions@;
    let mut i: usize = 0;
    while i < k
        invariant
            i <= k,
            k == round.wallet_count,
            actions@ == transfers + Seq::new(i as nat, |j: int| RoundAction::TransferBack { wallet: j as usize }),
        decreases k - i,
    {
        actions.push(RoundAction::TransferBack { wallet: i });
        i = i + 1;
    }
    if round.withdraw {
        actions.push(RoundAction::Withdraw(round.withdrawal));
    }
    (deposit, actions)
}

/// A round deposits exactly when the L2 balance is not above the deposit,
/// sends the amount per wallet to each random wallet and has each send it
/// back, and withdraws exactly when asked.
pub proof fn lemma_round_actions(
    l2_balance: Uint256,
    l1_balance: Uint256,
    deposit: Uint256,
    round: LoadTestRound,
)
    ensures
        round_actions_spec(l2_balance, l1_balance, deposit, round).contains(RoundAction::Deposit(deposit))
            <==> l2_balance.value() <= deposit.value(),
        forall|i: int|
            0 <= i < round.wallet_count ==> {
                &&& #[trigger] round_actions_spec(l2_balance, l1_balance, deposit, round).contains(
                    RoundAction::Transfer { wallet: i as usize, amount: round.amount_per_wallet },
                )
                &&& round_actions_spec(l2_balance, l1_balance, deposit, round).contains(
                    RoundAction::TransferBack { wallet: i as usize },
                )
            },
        round_actions_spec(l2_balance, l1_balance, deposit, round).contains(
            RoundAction::Withdraw(round.withdrawal),
        ) <==> round.withdraw,
{
    let k = round.wallet_count as int;
    let f = funding_steps(funding_action_spec(l2_balance.value(), l1_balance.value(), deposit.value()), deposit);
    let t = Seq::new(
        k as nat,
        |i: int| RoundAction::Transfer { wallet: i as usize, amount: round.amount_per_wallet },
    );
    let b = Seq::new(k as nat, |i: int| RoundAction::TransferBack { wallet: i as usize });
    let w: Seq<RoundAction> = if round.withdraw {
        seq![RoundAction::Withdraw(round.withdrawal)]
    } else {
        seq![]
    };
    let all = round_actions_spec(l2_balance, l1_balance, deposit, round);
    assert(all == f + t + b + w);
    let ft = f + t;
    let ftb = ft + b;
    if l2_balance.value() <= deposit.value() {
        let d = f.len() - 1;
        assert(f[d] == RoundAction::Deposit(deposit));
        assert(all[d] == f[d]);
    }
    if all.contains(RoundAction::Deposit(deposit)) {
        let j = choose|j: int| 0 <= j < all.len() && all[j] == RoundAction::Deposit(deposit);
        if j >= f.len() {
            if j < ft.len() {
                assert(all[j] == t[j - f.len()]);
            } else if j < ftb.len() {
                assert(all[j] == b[j - ft.len()]);
            } else {
                assert(all[j] == w[j - ftb.len()]);
            }
        } else {
            assert(all[j] == f[j]);
        }
    }
    assert forall|i: int| 0 <= i < round.wallet_count implies {
        &&& #[trigger] all.contains(
            RoundAction::Transfer { wallet: i as usize, amount: round.amount_per_wallet },
        )
        &&& all.contains(RoundAction::TransferBack { wallet: i as usize })
    } by {
        assert(all[f.len() + i] == t[i]);
        assert(all[ft.len() + i] == b[i]);
    }
    if round.withdraw {
        assert(all[ftb.len() as int] == w[0]);
    }
    if all.contains(RoundAction::Withdraw(round.withdrawal)) {
        let j = choose|j: int| 0 <= j < all.len() && all[j] == RoundAction::Withdraw(round.withdrawal);
        if j < f.len() {
            assert(all[j] == f[j]);
        } else if j < ft.len() {
            assert(all[j] == t[j - f.len()]);
        } else if j < ftb.len() {
            assert(all[j] == b[j - ft.len()]);
        } else {
            assert(all[j] == w[j - ftb.len()]);
        }
    }
}

/// Whether `a` is at most `b`, comparing the words from the most
/// significant.
fn value_le(a: Uint256, b: Uint256) -> (r: bool)
    ensures
        r == (a.value() <= b.value()),
{
    proof {
        crate::uint::lemma_value_words(a);
        crate::uint::lemma_value_words(b);
    }
    if a.w3 != b.w3 {
        a.w3 < b.w3
    } else if a.w2 != b.w2 {
        a.w2 < b.w2
    } else if a.w1 != b.w1 {
        a.w1 < b.w1
    } else {
        a.w0 <= b.w0
    }
}

/// The gas used, fee and gas price of one transaction.
pub type TxMeasurement = (Uint256, Uint256, Uint256);

/// The moving averages of the gas, fees and gas prices of a run's
/// transactions, in order, each starting from zero.
pub open spec fn run_averages_spec(ms: Seq<TxMeasurement>) -> (nat, nat, nat)
    decreases ms.len(),
{
    if ms.len() == 0 {
        (0, 0, 0)
    } else {
        let (g, f, p) = run_averages_spec(ms.drop_last());
        let m = ms.last();
        (
            moving_average_step(g, m.0.value()),
            moving_average_step(f, m.1.value()),
            moving_average_step(p, m.2.value()),
        )
    }
}

/// The sum that one step of a moving average adds.
pub open spec fn step_sum(average: nat, measurement: nat) -> nat {
    (if average == 0 {
        measurement
    } else {
        average
    }) + measurement
}

/// Whether every step of the moving averages of a run adds up to less than
/// 2^256.
pub open spec fn run_averages_fit(ms: Seq<TxMeasurement>) -> bool
    decreases ms.len(),
{
    if ms.len() == 0 {
        true
    } else {
        let (g, f, p) = run_averages_spec(ms.drop_last());
        let m = ms.last();
        &&& run_averages_fit(ms.drop_last())
        &&& step_sum(g, m.0.value()) < pow256()
        &&& step_sum(f, m.1.value()) < pow256()
        &&& step_sum(p, m.2.value()) < pow256()
    }
}

proof fn lemma_fit_prefix(ms: Seq<TxMeasurement>, i: int)
    requires
        0 <= i <= ms.len(),
        run_averages_fit(ms),
    ensures
        run_averages_fit(ms.subrange(0, i)),
    decreases ms.len() - i,
{
    if i < ms.len() {
        lemma_fit_prefix(ms, i + 1);
        assert(ms.subrange(0, i + 1).drop_last() == ms.subrange(0, i));
    } else {
        assert(ms.subrange(0, i) == ms);
    }
}

/// The moving averages of the gas, fees and gas prices of a run's
/// transactions.
pub fn run_averages(measurements: &Vec<TxMeasurement>) -> (r: (Uint256, Uint256, Uint256))
    requires
        run_averages_fit(measurements@),
    ensures
        (r.0.value(), r.1.value(), r.2.value()) == run_averages_spec(measurements@),
{
    let mut gas = Uint256::zero();
    let mut fees = Uint256::zero();
    let mut prices = Uint256::zero();
    let mut i: usize = 0;
    while i < measurements.len()
        invariant
            i <= measurements@.len(),
            run_averages_fit(measurements@),
            (gas.value(), fees.value(), prices.value()) == run_averages_spec(
                measurements@.subrange(0, i as int),
            ),
        decreases measurements@.len() - i,
    {
        let ghost prefix = measurements@.subrange(0, i + 1);
        proof {
            lemma_fit_prefix(measurements@, i + 1);
            assert(prefix.drop_last() == measurements@.subrange(0, i as int));
            assert(prefix.last() == measurements@[i as int]);
        }
        let m = measurements[i];
        gas = sma_step(gas, m.0);
        fees = sma_step(fees, m.1);
        prices = sma_step(prices, m.2);
        i = i + 1;
    }
    assert(measurements@.subrange(0, i as int) == measurements@);
    (gas, fees, prices)
}


/// The amount sent back never exceeds the balance.
pub proof fn lemma_transfer_back_within_balance(balance: nat, gas_estimate: nat, gas_price: nat)
    ensures
        ({
            let estimate = saturate(((gas_estimate / 10) * 11) as int);
            let gas = saturate((estimate * gas_price) as int);
            (if balance >= gas {
                (balance - gas) as nat
            } else {
                0
            }) <= balance
        }),
{
}

/// The deposit covers the amount to spread when a fifth of its tens
/// covers its last digit (from 50 on, always).
pub proof fn lemma_deposit_covers_amount(amount: nat)
    requires
        2 * (amount / 10) >= amount % 10,
    ensures
        saturate(((amount / 10) * 12) as int) >= amount || saturate(((amount / 10) * 12) as int)
            == pow256() - 1,
{
    assert(amount == (amount / 10) * 10 + amount % 10);
}

/// The wallets of a throughput send at least that many transactions per
/// round, and at most one more.
pub proof fn lemma_wallets_cover_throughput(tps: nat)
    ensures
        tps <= 2 * ((tps + 1) / 2) <= tps + 1,
{
}

} // verus!
