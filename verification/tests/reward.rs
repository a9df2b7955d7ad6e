use melminter::chain::PoolState;
use melminter::reward::{
    erg_value, ergs_fit, mels_for_ergs, progress_total, reward_ergs, reward_is_payable,
};

#[test]
fn doscs_gain_worth_block_by_block() {
    assert_eq!(erg_value(0, 10_000), 10_000);
    assert_eq!(erg_value(1, 1_000_000), 1_000_001);
    assert_eq!(erg_value(10, 1_000_000), 1_000_010);
    assert_eq!(erg_value(1_000_000, 10_000), 20_000);
    assert_eq!(erg_value(1_000_001, 3), 6);
}

#[test]
fn worth_is_told_only_where_it_fits() {
    assert!(ergs_fit(0, u128::MAX));
    assert!(!ergs_fit(1, u128::MAX));
    assert!(ergs_fit(1_000_000, u128::MAX / 2));
    assert!(!ergs_fit(1_000_000, u128::MAX / 2 + 1));
}

#[test]
fn rewards_are_exact() {
    assert_eq!(reward_ergs(20, 0, 0, 1000), 95_442_261_333);
    assert_eq!(reward_ergs(20, 10, 0, 1000), 76_353_844_418);
    assert_eq!(reward_ergs(20, 10, 10, 1000), 95_443_215_755);
    assert_eq!(reward_ergs(21, 10, 0, 1000), 305_422_659_529);
    assert_eq!(reward_ergs(30, 1_000_000, 999_990, 1_000_000), 160_127_983_170);
}

#[test]
fn younger_seeds_earn_no_less() {
    assert!(reward_ergs(20, 10, 0, 1000) <= reward_ergs(20, 10, 10, 1000));
}

#[test]
fn harder_proofs_earn_no_less() {
    assert!(reward_ergs(20, 10, 0, 1000) <= reward_ergs(21, 10, 0, 1000));
}

#[test]
fn rewards_agree_with_the_chain() {
    let (difficulty, height, coin_height, dosc_speed) = (25usize, 1234u64, 1200u64, 54_321u128);
    let speed = 2u128.pow(25) / (1234 + 40 - 1200);
    let doscs = melstf::calculate_reward(speed * 100, dosc_speed, 25, true);
    let ergs = melstf::dosc_to_erg(melstructs::BlockHeight(height), doscs);
    assert_eq!(reward_ergs(difficulty, height, coin_height, dosc_speed), ergs);
}

#[test]
fn some_rewards_cannot_be_reckoned() {
    assert!(reward_is_payable(20, 10, 0, 1000));
    // No speed on chain.
    assert!(!reward_is_payable(20, 10, 0, 0));
    // A coin from too far ahead.
    assert!(!reward_is_payable(20, 10, 50, 1000));
    assert!(reward_is_payable(20, 10, 49, 1000));
    // More work than a number can hold.
    assert!(!reward_is_payable(128, 10, 0, 1000));
    // More speed than a number can hold.
    assert!(!reward_is_payable(127, 10, 49, 1000));
    // The end of all heights.
    assert!(!reward_is_payable(20, u64::MAX - 39, u64::MAX - 39, 1000));
    // The reward is cut off, and then worth more than a number can hold.
    assert!(!reward_is_payable(120, 10, 0, 1));
}

#[test]
fn pools_pay_a_share_less_a_fee() {
    let pool = PoolState { lefts: 2_000_000, rights: 5_000_000, price_accum: 0, liqs: 1 };
    assert_eq!(mels_for_ergs(pool, 1000), 2486);
    assert_eq!(mels_for_ergs(pool, 0), 0);
}

#[test]
fn progress_is_counted_in_hundredths_of_kilohashes() {
    assert_eq!(progress_total(0), Some(100));
    assert_eq!(progress_total(10), Some(100));
    assert_eq!(progress_total(11), Some(200));
    assert_eq!(progress_total(30), Some(104_857_600));
    assert_eq!(progress_total(80), None);
    assert_eq!(progress_total(usize::MAX), None);
}
