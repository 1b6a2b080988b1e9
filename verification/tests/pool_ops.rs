use liquidity_pool::pool::{get_user, is_initialized, LiquidityPoolContract};
use liquidity_pool::state::{ContractData, Error, UserInfo};

const LIQ: u64 = 1;
const RWD: u64 = 2;
const ALICE: u64 = 10;
const BOB: u64 = 11;

fn fresh_pool(now: i64) -> ContractData {
    let mut data = ContractData::default();
    LiquidityPoolContract::initialize(&mut data, LIQ, RWD, now);
    data
}

#[test]
fn default_state_is_uninitialized() {
    let data = ContractData::default();
    assert!(!is_initialized(&data));
    assert_eq!(data.reward_rate, 0);
    assert_eq!(data.total_deposit, 0);
    assert_eq!(data.total_rewards, 0);
    assert_eq!(data.end_time, 0);
    assert_eq!(data.last_update_time, 0);
    assert!(data.user_info.is_empty());
}

#[test]
fn initialize_sets_tokens_and_zeroes() {
    let data = fresh_pool(7);
    assert!(is_initialized(&data));
    assert_eq!(data.liquidity_token, Some(LIQ));
    assert_eq!(data.reward_token, Some(RWD));
    assert_eq!(data.reward_rate, 0);
    assert_eq!(data.total_deposit, 0);
    assert_eq!(data.total_rewards, 0);
    assert_eq!(data.end_time, 0);
    assert_eq!(data.last_update_time, 7);
    assert!(data.user_info.is_empty());
}

#[test]
fn operations_before_initialize_fail() {
    let mut data = ContractData::default();
    let before = data.clone();
    assert_eq!(
        LiquidityPoolContract::deposit(&mut data, ALICE, 5, 0),
        Err(Error::Uninitialized)
    );
    assert_eq!(
        LiquidityPoolContract::withdraw(&mut data, ALICE, 5, 0),
        Err(Error::Uninitialized)
    );
    assert_eq!(
        LiquidityPoolContract::claim_reward(&mut data, ALICE, 0),
        Err(Error::Uninitialized)
    );
    assert_eq!(
        LiquidityPoolContract::admin_set_rewards(&mut data, 100, 10, 0),
        Err(Error::Uninitialized)
    );
    assert_eq!(
        LiquidityPoolContract::admin_adjust_rewards(&mut data, 100, 10, 0),
        Err(Error::Uninitialized)
    );
    assert_eq!(data, before);
}

#[test]
fn deposit_rejects_nonpositive_amount() {
    let mut data = fresh_pool(0);
    let before = data.clone();
    assert_eq!(
        LiquidityPoolContract::deposit(&mut data, ALICE, 0, 1),
        Err(Error::InvalidAmount)
    );
    assert_eq!(
        LiquidityPoolContract::deposit(&mut data, ALICE, -3, 1),
        Err(Error::InvalidAmount)
    );
    assert_eq!(data, before);
}

#[test]
fn withdraw_rejects_nonpositive_amount() {
    let mut data = fresh_pool(0);
    LiquidityPoolContract::deposit(&mut data, ALICE, 50, 0).unwrap();
    let before = data.clone();
    assert_eq!(
        LiquidityPoolContract::withdraw(&mut data, ALICE, 0, 1),
        Err(Error::InvalidAmount)
    );
    assert_eq!(
        LiquidityPoolContract::withdraw(&mut data, ALICE, -7, 1),
        Err(Error::InvalidAmount)
    );
    assert_eq!(data, before);
}

#[test]
fn withdraw_rejects_more_than_deposit() {
    let mut data = fresh_pool(0);
    LiquidityPoolContract::deposit(&mut data, ALICE, 50, 0).unwrap();
    let before = data.clone();
    assert_eq!(
        LiquidityPoolContract::withdraw(&mut data, ALICE, 51, 1),
        Err(Error::InsufficientBalance)
    );
    assert_eq!(data, before);
}

#[test]
fn withdraw_and_claim_need_a_record() {
    let mut data = fresh_pool(0);
    LiquidityPoolContract::deposit(&mut data, ALICE, 50, 0).unwrap();
    let before = data.clone();
    assert_eq!(
        LiquidityPoolContract::withdraw(&mut data, BOB, 1, 1),
        Err(Error::NotFound)
    );
    assert_eq!(
        LiquidityPoolContract::claim_reward(&mut data, BOB, 1),
        Err(Error::NotFound)
    );
    assert_eq!(data, before);
}

#[test]
fn fund_rejects_nonpositive_duration() {
    let mut data = fresh_pool(0);
    let before = data.clone();
    assert_eq!(
        LiquidityPoolContract::admin_set_rewards(&mut data, 100, 0, 1),
        Err(Error::InvalidDuration)
    );
    assert_eq!(
        LiquidityPoolContract::admin_set_rewards(&mut data, 100, -4, 1),
        Err(Error::InvalidDuration)
    );
    assert_eq!(data, before);
}

#[test]
fn fund_and_extend_reject_negative_reward() {
    let mut data = fresh_pool(0);
    let before = data.clone();
    assert_eq!(
        LiquidityPoolContract::admin_set_rewards(&mut data, -1, 10, 1),
        Err(Error::InvalidAmount)
    );
    assert_eq!(
        LiquidityPoolContract::admin_adjust_rewards(&mut data, -1, 10, 1),
        Err(Error::InvalidAmount)
    );
    assert_eq!(data, before);
}

#[test]
fn first_deposit_into_empty_pool_has_zero_debt() {
    let mut data = fresh_pool(0);
    LiquidityPoolContract::admin_set_rewards(&mut data, 1000, 100, 0).unwrap();
    assert_eq!(data.total_deposit, 0);
    assert_eq!(
        LiquidityPoolContract::deposit(&mut data, ALICE, 50, 0),
        Ok(())
    );
    assert_eq!(
        get_user(&data, ALICE),
        Some(UserInfo {
            deposit: 50,
            reward_debt: 0
        })
    );
    assert_eq!(data.total_deposit, 50);
}

#[test]
fn fund_sets_rate_window_and_total() {
    let mut data = fresh_pool(0);
    let now: i64 = 5;
    assert_eq!(
        LiquidityPoolContract::admin_set_rewards(&mut data, 1000, 100, now),
        Ok(())
    );
    assert_eq!(data.reward_rate, 10);
    assert_eq!(data.end_time, now + 100);
    assert_eq!(data.total_rewards, 1000);
    assert_eq!(data.last_update_time, now);
}

#[test]
fn repeat_deposit_recomputes_debt_against_previous_total() {
    let mut data = fresh_pool(0);
    LiquidityPoolContract::admin_set_rewards(&mut data, 1000, 100, 0).unwrap();
    LiquidityPoolContract::deposit(&mut data, ALICE, 50, 0).unwrap();
    // second deposit: debt = (50 + 50) * 10 / 50, with 50 the total before
    // this deposit is added
    LiquidityPoolContract::deposit(&mut data, ALICE, 50, 1).unwrap();
    assert_eq!(
        get_user(&data, ALICE),
        Some(UserInfo {
            deposit: 100,
            reward_debt: 20
        })
    );
    assert_eq!(data.total_deposit, 100);
}

#[test]
fn withdraw_recomputes_debt_against_previous_total() {
    let mut data = fresh_pool(0);
    LiquidityPoolContract::admin_set_rewards(&mut data, 1000, 100, 0).unwrap();
    LiquidityPoolContract::deposit(&mut data, ALICE, 100, 0).unwrap();
    // debt = (100 - 30) * 10 / 100 = 7, truncating
    assert_eq!(LiquidityPoolContract::withdraw(&mut data, ALICE, 30, 1), Ok(()));
    assert_eq!(
        get_user(&data, ALICE),
        Some(UserInfo {
            deposit: 70,
            reward_debt: 7
        })
    );
    assert_eq!(data.total_deposit, 70);
}

#[test]
fn claim_pays_pending_and_resets_baseline() {
    let mut data = fresh_pool(0);
    LiquidityPoolContract::admin_set_rewards(&mut data, 1000, 100, 0).unwrap();
    LiquidityPoolContract::deposit(&mut data, ALICE, 100, 0).unwrap();
    LiquidityPoolContract::withdraw(&mut data, ALICE, 30, 1).unwrap();
    // pending = 70 * 10 / 70 - 7 = 3
    assert_eq!(LiquidityPoolContract::claim_reward(&mut data, ALICE, 2), Ok(3));
    assert_eq!(
        get_user(&data, ALICE),
        Some(UserInfo {
            deposit: 70,
            reward_debt: 10
        })
    );
}

#[test]
fn claim_twice_pays_nothing_the_second_time() {
    let mut data = fresh_pool(0);
    LiquidityPoolContract::admin_set_rewards(&mut data, 1000, 100, 0).unwrap();
    LiquidityPoolContract::deposit(&mut data, ALICE, 40, 0).unwrap();
    // pending = 40 * 10 / 40 - 0 = 10
    let first = LiquidityPoolContract::claim_reward(&mut data, ALICE, 2).unwrap();
    assert_eq!(first, 10);
    assert_eq!(LiquidityPoolContract::claim_reward(&mut data, ALICE, 2), Ok(0));
    assert_eq!(LiquidityPoolContract::claim_reward(&mut data, ALICE, 50), Ok(0));
}

#[test]
fn reconciliation_zeroes_rate_after_expiry() {
    let mut data = fresh_pool(0);
    LiquidityPoolContract::admin_set_rewards(&mut data, 1000, 100, 0).unwrap();
    LiquidityPoolContract::deposit(&mut data, ALICE, 50, 0).unwrap();
    // past end_time == 100: the next operation freezes the rate at zero,
    // so the claim is computed with rate 0 and pays nothing
    assert_eq!(LiquidityPoolContract::claim_reward(&mut data, ALICE, 101), Ok(0));
    assert_eq!(data.reward_rate, 0);
    assert_eq!(data.last_update_time, 101);
    assert_eq!(
        get_user(&data, ALICE),
        Some(UserInfo {
            deposit: 50,
            reward_debt: 0
        })
    );
}

#[test]
fn extend_recomputes_rate_over_remaining_window() {
    let mut data = fresh_pool(0);
    LiquidityPoolContract::admin_set_rewards(&mut data, 1000, 100, 0).unwrap();
    // at now == 50: rate = (1000 + 500) / ((100 + 50) - 50) = 15
    assert_eq!(
        LiquidityPoolContract::admin_adjust_rewards(&mut data, 500, 50, 50),
        Ok(())
    );
    assert_eq!(data.reward_rate, 15);
    assert_eq!(data.total_rewards, 1500);
    assert_eq!(data.end_time, 150);
    assert_eq!(data.last_update_time, 50);
}

#[test]
fn extend_rejects_window_ending_exactly_now() {
    let mut data = fresh_pool(0);
    LiquidityPoolContract::admin_set_rewards(&mut data, 1000, 100, 0).unwrap();
    let before = data.clone();
    // end_time + 20 == 120 == now
    assert_eq!(
        LiquidityPoolContract::admin_adjust_rewards(&mut data, 500, 20, 120),
        Err(Error::DivisionByZero)
    );
    assert_eq!(data, before);
}

#[test]
fn extend_past_expiry_divides_toward_zero() {
    let mut data = fresh_pool(0);
    LiquidityPoolContract::admin_set_rewards(&mut data, 100, 10, 0).unwrap();
    // remaining window (10 + 3) - 20 = -7; Rust division truncates,
    // so 100 / -7 is -14, not -15
    assert_eq!(
        LiquidityPoolContract::admin_adjust_rewards(&mut data, 0, 3, 20),
        Ok(())
    );
    assert_eq!(data.reward_rate, -14);
    assert_eq!(data.end_time, 13);
}

#[test]
fn total_deposit_tracks_sum_over_a_sequence() {
    let mut data = fresh_pool(0);
    LiquidityPoolContract::admin_set_rewards(&mut data, 1000, 100, 0).unwrap();
    LiquidityPoolContract::deposit(&mut data, ALICE, 50, 1).unwrap();
    LiquidityPoolContract::deposit(&mut data, BOB, 30, 2).unwrap();
    LiquidityPoolContract::withdraw(&mut data, ALICE, 20, 3).unwrap();
    LiquidityPoolContract::deposit(&mut data, BOB, 5, 4).unwrap();
    LiquidityPoolContract::withdraw(&mut data, BOB, 35, 5).unwrap();
    let alice = get_user(&data, ALICE).unwrap().deposit;
    let bob = get_user(&data, BOB).unwrap().deposit;
    assert_eq!(alice, 30);
    assert_eq!(bob, 0);
    assert_eq!(data.total_deposit, alice + bob);
    // the emptied record stays for a future re-deposit
    assert_eq!(data.user_info.len(), 2);
}

#[test]
fn empty_pool_guards_after_full_withdrawal() {
    let mut data = fresh_pool(0);
    LiquidityPoolContract::admin_set_rewards(&mut data, 1000, 100, 0).unwrap();
    LiquidityPoolContract::deposit(&mut data, ALICE, 50, 0).unwrap();
    LiquidityPoolContract::withdraw(&mut data, ALICE, 50, 1).unwrap();
    assert_eq!(data.total_deposit, 0);
    // claim against an emptied pool: the formula is guarded to zero, not
    // divided
    assert_eq!(LiquidityPoolContract::claim_reward(&mut data, ALICE, 2), Ok(0));
    // a re-deposit through the kept record sees the emptied pool and takes
    // a zero baseline
    assert_eq!(LiquidityPoolContract::deposit(&mut data, ALICE, 20, 3), Ok(()));
    assert_eq!(
        get_user(&data, ALICE),
        Some(UserInfo {
            deposit: 20,
            reward_debt: 0
        })
    );
    assert_eq!(data.total_deposit, 20);
}

#[test]
fn mint_guard_accepts_nonnegative_amounts() {
    liquidity_pool::mintable::check_nonnegative_amount(0);
    liquidity_pool::mintable::check_nonnegative_amount(41);
}
