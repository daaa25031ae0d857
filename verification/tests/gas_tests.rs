use zks::gas_tracker::{sum_vec_u256, GasTracker, MedianError};
use zks::load_test::{
    deposit_with_headroom, funding_action, round_actions, run_averages, sma_step,
    transfer_back_amount, transfer_nonces, wallets_for_tps, FundingAction, LoadTestRound,
    RerunPlan, RoundAction, WalletCountError,
};
use zks::uint::Uint256;

fn w(v: u64) -> Uint256 {
    Uint256::from_u64(v)
}

#[test]
fn sums_means_and_medians() {
    assert_eq!(sum_vec_u256(&[w(1), w(2), w(4)]), w(7));
    assert_eq!(GasTracker::mean(&[w(1), w(2), w(4)]), w(2));
    assert_eq!(GasTracker::median(&[w(1), w(3)]), Ok(w(2)));
    // The middle value in listed order: the values are not sorted.
    assert_eq!(GasTracker::median(&[w(5), w(1), w(3)]), Ok(w(1)));
    assert_eq!(GasTracker::median(&[]), Err(MedianError::IndexingError));
}

#[test]
fn a_new_tracker_records_runs() {
    let mut t = GasTracker::new().set_token_symbol("ETH".to_owned()).set_token_decimals(18);
    assert_eq!(t.token_symbol(), "ETH");
    assert_eq!(t.token_decimals(), 18);
    assert!(t.gas().is_empty());
    t.add_run(w(21000), w(1_000_000_000_000_000_000), w(1_000_000_000), 4);
    t.add_run(w(23000), w(3_000_000_000_000_000_000), w(3_000_000_000), 4);
    assert_eq!(t.gas(), &vec![w(21000), w(23000)]);
    assert_eq!(t.txs_per_run(), &vec![4, 4]);
    assert_eq!(GasTracker::new().token_symbol(), "None");
}

#[test]
fn tracker_statistics() {
    let mut t = GasTracker::new().set_token_decimals(18);
    t.add_run(w(21000), w(1_000_000_000_000_000_000), w(1_000_000_000), 4);
    t.add_run(w(23000), w(2_000_000_000_000_000_000), w(3_000_000_000), 6);
    let s = t.statistics();
    assert_eq!(s.gas_mean, w(22000));
    assert_eq!(s.gas_median, w(22000));
    assert_eq!(s.fees_mean, "1.500000000000000000");
    assert_eq!(s.fees_median, "1.500000000000000000");
    assert_eq!(s.gas_price_mean, "2.000000000");
    assert_eq!(s.gas_price_median, "2.000000000");
    assert_eq!(s.total_txs, 10);
    assert_eq!(s.txs_per_run, 4);
}

#[test]
fn refused_decimals_show_zero() {
    let mut t = GasTracker::new().set_token_decimals(-1);
    t.add_run(w(1), w(5), w(7), 1);
    let s = t.statistics();
    assert_eq!(s.fees_mean, "0");
    assert_eq!(s.gas_price_mean, "0.000000007");
}

#[test]
fn deposits_have_twenty_percent_of_headroom() {
    assert_eq!(deposit_with_headroom(w(100)), w(120));
    assert_eq!(deposit_with_headroom(w(15)), w(12));
    let max = Uint256 { w0: u64::MAX, w1: u64::MAX, w2: u64::MAX, w3: u64::MAX };
    assert_eq!(deposit_with_headroom(max), max);
}

#[test]
fn transfers_back_leave_the_fee() {
    assert_eq!(transfer_back_amount(w(1000), w(100), w(2)), w(780));
    assert_eq!(transfer_back_amount(w(10), w(100), w(2)), w(0));
    assert_eq!(transfer_nonces(w(5), 3), vec![w(5), w(6), w(7)]);
    assert!(transfer_nonces(w(5), 0).is_empty());
}

#[test]
fn moving_averages() {
    assert_eq!(sma_step(w(0), w(10)), w(10));
    assert_eq!(sma_step(w(10), w(21)), w(15));
    let (gas, fees, prices) = run_averages(&vec![(w(10), w(100), w(1)), (w(20), w(200), w(3))]);
    assert_eq!((gas, fees, prices), (w(15), w(150), w(2)));
    assert_eq!(run_averages(&vec![]), (w(0), w(0), w(0)));
}

#[test]
fn wallets_for_a_throughput() {
    assert_eq!(wallets_for_tps(3), Ok(2));
    assert_eq!(wallets_for_tps(4), Ok(2));
    assert_eq!(wallets_for_tps(0), Ok(0));
    assert_eq!(wallets_for_tps(131_069), Ok(65_535));
    assert_eq!(wallets_for_tps(131_071), Err(WalletCountError::TooManyWallets));
}

#[test]
fn reruns_run_the_wanted_number_of_times() {
    let mut plan = RerunPlan::new(Some(3));
    let mut runs = 0;
    while plan.should_run() {
        runs += 1;
        plan.finish_run();
    }
    assert_eq!(runs, 3);
    assert_eq!(plan.current_rerun, 4);
    let plan = RerunPlan::new(None);
    assert_eq!(plan.reruns_wanted, 1);
    // Zero reruns wanted runs forever: the counter never moves.
    let mut plan = RerunPlan::new(Some(0));
    for _ in 0..5 {
        assert!(plan.should_run());
        plan.finish_run();
    }
    assert_eq!(plan.reruns, 0);
}

#[test]
fn funding_before_a_run() {
    assert_eq!(funding_action(w(200), w(0), w(120)), FundingAction::EnoughL2Balance);
    assert_eq!(funding_action(w(120), w(500), w(120)), FundingAction::Deposit);
    assert_eq!(funding_action(w(10), w(120), w(120)), FundingAction::MintThenDeposit);
}

#[test]
fn a_load_test_round_funds_transfers_and_withdraws_when_asked() {
    let round = LoadTestRound {
        wallet_count: 2,
        amount: w(1000),
        amount_per_wallet: w(500),
        withdrawal: w(1000),
        withdraw: false,
    };
    let (deposit, actions) = round_actions(w(100), w(5000), &round);
    assert_eq!(deposit, w(1200));
    assert_eq!(
        actions,
        vec![
            RoundAction::Deposit(w(1200)),
            RoundAction::Transfer { wallet: 0, amount: w(500) },
            RoundAction::Transfer { wallet: 1, amount: w(500) },
            RoundAction::TransferBack { wallet: 0 },
            RoundAction::TransferBack { wallet: 1 },
        ]
    );
    let asked = LoadTestRound { withdraw: true, ..round };
    let (_, actions) = round_actions(w(1200), w(1200), &asked);
    assert_eq!(actions[0], RoundAction::Mint(w(1200)));
    assert_eq!(actions[1], RoundAction::Deposit(w(1200)));
    assert_eq!(actions.last(), Some(&RoundAction::Withdraw(w(1000))));
    let (_, actions) = round_actions(w(1201), w(0), &round);
    assert_eq!(actions.len(), 4);
    assert_eq!(actions[0], RoundAction::Transfer { wallet: 0, amount: w(500) });
}
