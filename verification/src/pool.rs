//! The pool operations: initialization, participant deposits, withdrawals
//! and reward claims, and the admin funding operations. Every operation
//! validates its inputs, reconciles the reward rate to the current time, and
//! then performs its state transition; an operation that fails leaves the
//! ledger exactly as it was.

use crate::arith::{div_i128, lemma_trunc_div_nonneg, trunc_div};
use crate::state::{
    debt_of, initialized, lemma_find_absent, lemma_find_at, lemma_find_is_entry,
    lemma_sum_bounds_entry, lemma_sum_nonneg, lemma_sum_push, lemma_sum_update, rate_after,
    spec_find, wf, ContractData, Error, UserInfo,
};
use vstd::prelude::*;

verus! {

/// The liquidity-staking pool. All operations act on an exclusively owned
/// [`ContractData`] ledger handed in by the caller; the host performs the
/// asset transfers that the operations decide on and persists the ledger
/// only after every fallible step has succeeded.
pub struct LiquidityPoolContract;

/// The ledger after reconciliation to `now` and nothing else: the rate
/// gated to zero past the emission end, the update time advanced, every
/// other field as it was.
pub open spec fn reconciled(s: ContractData, t: ContractData, now: i64) -> bool {
    &&& t.liquidity_token == s.liquidity_token
    &&& t.reward_token == s.reward_token
    &&& t.reward_rate == rate_after(s, now)
    &&& t.total_deposit == s.total_deposit
    &&& t.total_rewards == s.total_rewards
    &&& t.end_time == s.end_time
    &&& t.last_update_time == now
    &&& t.user_info == s.user_info
}

/// Participant records of `t` agree with those of `s` everywhere except for
/// `id`, whose record holds stake `deposit` and baseline `reward_debt`.
pub open spec fn record_updated(
    s: Seq<(u64, UserInfo)>,
    t: Seq<(u64, UserInfo)>,
    id: u64,
    deposit: int,
    reward_debt: int,
) -> bool {
    &&& t.len() == s.len()
    &&& forall|k: int| 0 <= k < s.len() ==> (#[trigger] t[k]).0 == s[k].0
    &&& forall|k: int| 0 <= k < s.len() && (#[trigger] s[k]).0 != id ==> t[k] == s[k]
    &&& (spec_find(t, id) matches Some(v) && v.deposit == deposit && v.reward_debt
        == reward_debt)
}

/// The successful `deposit` transition from `s` to `t`: the rate reconciled
/// to `now`, `amount` added to the participant's stake and to the total, and
/// the participant's baseline recomputed against the pre-increment total —
/// zero for a first-ever record.
pub open spec fn deposit_post(
    s: ContractData,
    t: ContractData,
    invoker: u64,
    amount: i128,
    now: i64,
) -> bool {
    let rate = rate_after(s, now);
    &&& t.liquidity_token == s.liquidity_token
    &&& t.reward_token == s.reward_token
    &&& t.reward_rate == rate
    &&& t.total_rewards == s.total_rewards
    &&& t.end_time == s.end_time
    &&& t.last_update_time == now
    &&& t.total_deposit == s.total_deposit + amount
    &&& match spec_find(s.user_info@, invoker) {
        Some(u) => record_updated(
            s.user_info@,
            t.user_info@,
            invoker,
            u.deposit + amount,
            debt_of(u.deposit + amount, rate as int, s.total_deposit as int),
        ),
        None => t.user_info@ =~= s.user_info@.push(
            (invoker, UserInfo { deposit: amount, reward_debt: 0 }),
        ),
    }
}

/// Scan for the first record held under `id`.
fn find_index(v: &Vec<(u64, UserInfo)>, id: u64) -> (r: Option<usize>)
    ensures
        match r {
            Some(i) => {
                &&& i < v@.len()
                &&& v@[i as int].0 == id
                &&& forall|j: int| 0 <= j < i ==> (#[trigger] v@[j]).0 != id
                &&& spec_find(v@, id) == Some(v@[i as int].1)
            },
            None => {
                &&& spec_find(v@, id) is None
                &&& forall|j: int| 0 <= j < v@.len() ==> (#[trigger] v@[j]).0 != id
            },
        },
{
    let mut i: usize = 0;
    while i < v.len()
        invariant
            i <= v@.len(),
            forall|j: int| 0 <= j < i ==> (#[trigger] v@[j]).0 != id,
        decreases v@.len() - i,
    {
        if v[i].0 == id {
            proof {
                lemma_find_at(v@, id, i as int);
            }
            return Some(i);
        }
        i = i + 1;
    }
    proof {
        lemma_find_absent(v@, id);
    }
    None
}

/// The participant's record, if one exists. Lets the host inspect the
/// ledger and check an operation's arithmetic preconditions beforehand.
pub fn get_user(data: &ContractData, id: u64) -> (r: Option<UserInfo>)
    ensures
        r == spec_find(data.user_info@, id),
{
    match find_index(&data.user_info, id) {
        Some(i) => Some(data.user_info[i].1),
        None => None,
    }
}

/// Whether `initialize` has set both asset identifiers.
pub fn is_initialized(data: &ContractData) -> (r: bool)
    ensures
        r == initialized(*data),
{
    data.liquidity_token.is_some() && data.reward_token.is_some()
}

/// The accounting baseline `deposit * rate / total`, truncated as Rust's
/// `/` truncates and guarded to zero on an empty pool.
fn compute_debt(deposit: i128, rate: i128, total: i128) -> (r: i128)
    requires
        total >= 0,
        total != 0 ==> i128::MIN <= deposit * rate <= i128::MAX,
    ensures
        r == debt_of(deposit as int, rate as int, total as int),
{
    if total == 0 {
        0
    } else {
        div_i128(deposit * rate, total)
    }
}

impl LiquidityPoolContract {
    /// Reconciliation: once `now` has passed the emission end, the reward
    /// rate is frozen at zero; the reconciliation time always advances.
    fn update_rewards(data: &mut ContractData, now: i64)
        ensures
            reconciled(*old(data), *final(data), now),
    {
        if now > data.end_time {
            data.reward_rate = 0;
        }
        data.last_update_time = now;
    }

    /// Create the pool ledger: both asset identifiers set, every counter
    /// zero, no participants, the reconciliation clock started at `now`.
    pub fn initialize(
        data: &mut ContractData,
        liquidity_token: u64,
        reward_token: u64,
        now: i64,
    )
        ensures
            final(data).liquidity_token == Some(liquidity_token),
            final(data).reward_token == Some(reward_token),
            final(data).reward_rate == 0,
            final(data).total_deposit == 0,
            final(data).total_rewards == 0,
            final(data).end_time == 0,
            final(data).last_update_time == now,
            final(data).user_info@ =~= Seq::<(u64, UserInfo)>::empty(),
            wf(*final(data)),
            initialized(*final(data)),
    {
        *data = ContractData {
            liquidity_token: Some(liquidity_token),
            reward_token: Some(reward_token),
            reward_rate: 0,
            total_deposit: 0,
            total_rewards: 0,
            end_time: 0,
            last_update_time: now,
            user_info: Vec::new(),
        };
    }

    /// Stake `amount` of the liquidity asset for `invoker`. The host pulls
    /// the amount from the participant and persists the ledger only when
    /// both the transfer and this transition have succeeded.
    pub fn deposit(data: &mut ContractData, invoker: u64, amount: i128, now: i64) -> (r: Result<
        (),
        Error,
    >)
        requires
            wf(*old(data)),
            now >= old(data).last_update_time,
            initialized(*old(data)) && amount > 0 ==> old(data).total_deposit + amount
                <= i128::MAX,
            initialized(*old(data)) && amount > 0 && old(data).total_deposit != 0 ==> (spec_find(
                old(data).user_info@,
                invoker,
            ) matches Some(u) ==> i128::MIN <= (u.deposit + amount) * rate_after(
                *old(data),
                now,
            ) <= i128::MAX),
        ensures
            wf(*final(data)),
            !initialized(*old(data)) ==> r == Err::<(), Error>(Error::Uninitialized)
                && *final(data) == *old(data),
            initialized(*old(data)) && amount <= 0 ==> r == Err::<(), Error>(Error::InvalidAmount)
                && *final(data) == *old(data),
            initialized(*old(data)) && amount > 0 ==> r == Ok::<(), Error>(()) && deposit_post(
                *old(data),
                *final(data),
                invoker,
                amount,
                now,
            ),
    {
        if !is_initialized(data) {
            return Err(Error::Uninitialized);
        }
        if amount <= 0 {
            return Err(Error::InvalidAmount);
        }
        Self::update_rewards(data, now);
        match find_index(&data.user_info, invoker) {
            Some(i) => {
                let u = data.user_info[i].1;
                proof {
                    lemma_sum_bounds_entry(data.user_info@, i as int);
                }
                let d_new = u.deposit + amount;
                let debt = compute_debt(d_new, data.reward_rate, data.total_deposit);
                let ghost before = data.user_info@;
                data.user_info[i] = (invoker, UserInfo { deposit: d_new, reward_debt: debt });
                proof {
                    lemma_sum_update(
                        before,
                        i as int,
                        (invoker, UserInfo { deposit: d_new, reward_debt: debt }),
                    );
                    lemma_find_at(data.user_info@, invoker, i as int);
                }
            },
            None => {
                let ghost before = data.user_info@;
                data.user_info.push((invoker, UserInfo { deposit: amount, reward_debt: 0 }));
                proof {
                    lemma_sum_push(before, (invoker, UserInfo { deposit: amount, reward_debt: 0 }));
                }
            },
        }
        data.total_deposit = data.total_deposit + amount;
        Ok(())
    }

    /// Unstake `amount` of the liquidity asset for `invoker`. On success the
    /// host pushes `amount` back to the participant and then persists.
    pub fn withdraw(data: &mut ContractData, invoker: u64, amount: i128, now: i64) -> (r: Result<
        (),
        Error,
    >)
        requires
            wf(*old(data)),
            now >= old(data).last_update_time,
            initialized(*old(data)) && amount > 0 && old(data).total_deposit != 0 ==> (spec_find(
                old(data).user_info@,
                invoker,
            ) matches Some(u) ==> i128::MIN <= (u.deposit - amount) * rate_after(
                *old(data),
                now,
            ) <= i128::MAX),
        ensures
            wf(*final(data)),
            !initialized(*old(data)) ==> r == Err::<(), Error>(Error::Uninitialized)
                && *final(data) == *old(data),
            initialized(*old(data)) && amount <= 0 ==> r == Err::<(), Error>(Error::InvalidAmount)
                && *final(data) == *old(data),
            initialized(*old(data)) && amount > 0 && spec_find(old(data).user_info@, invoker)
                is None ==> r == Err::<(), Error>(Error::NotFound) && *final(data) == *old(data),
            initialized(*old(data)) && amount > 0 ==> (spec_find(old(data).user_info@, invoker)
                matches Some(u) ==> if amount > u.deposit {
                r == Err::<(), Error>(Error::InsufficientBalance) && *final(data) == *old(data)
            } else {
                r == Ok::<(), Error>(()) && withdraw_post(*old(data), *final(data), invoker, amount, now)
            }),
    {
        if !is_initialized(data) {
            return Err(Error::Uninitialized);
        }
        if amount <= 0 {
            return Err(Error::InvalidAmount);
        }
        let i: usize = match find_index(&data.user_info, invoker) {
            Some(i) => i,
            None => {
                return Err(Error::NotFound);
            },
        };
        let u = data.user_info[i].1;
        if amount > u.deposit {
            return Err(Error::InsufficientBalance);
        }
        Self::update_rewards(data, now);
        proof {
            lemma_sum_bounds_entry(data.user_info@, i as int);
        }
        let d_new = u.deposit - amount;
        let debt = compute_debt(d_new, data.reward_rate, data.total_deposit);
        let ghost before = data.user_info@;
        data.user_info[i] = (invoker, UserInfo { deposit: d_new, reward_debt: debt });
        proof {
            lemma_sum_update(
                before,
                i as int,
                (invoker, UserInfo { deposit: d_new, reward_debt: debt }),
            );
            lemma_find_at(data.user_info@, invoker, i as int);
        }
        data.total_deposit = data.total_deposit - amount;
        Ok(())
    }

    /// Pay out the participant's pending reward, if it is positive, and
    /// reset the accounting baseline so that an immediate second claim is
    /// owed nothing. Returns the amount of the reward asset the host must
    /// transfer to the participant (zero for none).
    pub fn claim_reward(data: &mut ContractData, invoker: u64, now: i64) -> (r: Result<
        i128,
        Error,
    >)
        requires
            wf(*old(data)),
            now >= old(data).last_update_time,
            initialized(*old(data)) ==> (spec_find(old(data).user_info@, invoker) matches Some(u)
                ==> {
                &&& old(data).total_deposit != 0 ==> i128::MIN <= u.deposit * rate_after(
                    *old(data),
                    now,
                ) <= i128::MAX
                &&& i128::MIN <= debt_of(
                    u.deposit as int,
                    rate_after(*old(data), now) as int,
                    old(data).total_deposit as int,
                ) - u.reward_debt <= i128::MAX
            }),
        ensures
            wf(*final(data)),
            !initialized(*old(data)) ==> r == Err::<i128, Error>(Error::Uninitialized)
                && *final(data) == *old(data),
            initialized(*old(data)) && spec_find(old(data).user_info@, invoker) is None ==> r
                == Err::<i128, Error>(Error::NotFound) && *final(data) == *old(data),
            initialized(*old(data)) ==> (spec_find(old(data).user_info@, invoker) matches Some(u)
                ==> r == Ok::<i128, Error>(spec_payout(*old(data), u, now)) && claim_post(
                *old(data),
                *final(data),
                invoker,
                now,
            )),
    {
        if !is_initialized(data) {
            return Err(Error::Uninitialized);
        }
        let i: usize = match find_index(&data.user_info, invoker) {
            Some(i) => i,
            None => {
                return Err(Error::NotFound);
            },
        };
        Self::update_rewards(data, now);
        let u = data.user_info[i].1;
        proof {
            lemma_sum_nonneg(data.user_info@);
        }
        let debt_now = compute_debt(u.deposit, data.reward_rate, data.total_deposit);
        let pending = debt_now - u.reward_debt;
        let ghost before = data.user_info@;
        data.user_info[i] = (invoker, UserInfo { deposit: u.deposit, reward_debt: debt_now });
        proof {
            lemma_sum_update(
                before,
                i as int,
                (invoker, UserInfo { deposit: u.deposit, reward_debt: debt_now }),
            );
            lemma_find_at(data.user_info@, invoker, i as int);
        }
        if pending > 0 {
            Ok(pending)
        } else {
            Ok(0)
        }
    }

    /// Fund a fresh emission window: the rate becomes `reward_amount`
    /// divided by `duration` (truncating), the funded total grows by
    /// `reward_amount`, and the window ends `duration` after `now`. The host
    /// must be authorized as the admin and pulls `reward_amount` of the
    /// reward asset from the admin before persisting.
    pub fn admin_set_rewards(
        data: &mut ContractData,
        reward_amount: i128,
        duration: i64,
        now: i64,
    ) -> (r: Result<(), Error>)
        requires
            wf(*old(data)),
            now >= old(data).last_update_time,
            initialized(*old(data)) && duration > 0 && reward_amount >= 0 ==> {
                &&& old(data).total_rewards + reward_amount <= i128::MAX
                &&& now + duration <= i64::MAX
            },
        ensures
            wf(*final(data)),
            !initialized(*old(data)) ==> r == Err::<(), Error>(Error::Uninitialized)
                && *final(data) == *old(data),
            initialized(*old(data)) && duration <= 0 ==> r == Err::<(), Error>(
                Error::InvalidDuration,
            ) && *final(data) == *old(data),
            initialized(*old(data)) && duration > 0 && reward_amount < 0 ==> r == Err::<(), Error>(
                Error::InvalidAmount,
            ) && *final(data) == *old(data),
            initialized(*old(data)) && duration > 0 && reward_amount >= 0 ==> r == Ok::<(), Error>(
                (),
            ) && fund_post(*old(data), *final(data), reward_amount, duration, now),
    {
        if !is_initialized(data) {
            return Err(Error::Uninitialized);
        }
        if duration <= 0 {
            return Err(Error::InvalidDuration);
        }
        if reward_amount < 0 {
            return Err(Error::InvalidAmount);
        }
        Self::update_rewards(data, now);
        let new_rate = div_i128(reward_amount, duration as i128);
        proof {
            lemma_trunc_div_nonneg(reward_amount as int, duration as int);
        }
        data.reward_rate = new_rate;
        data.total_rewards = data.total_rewards + reward_amount;
        data.end_time = now + duration;
        Ok(())
    }

    /// Extend the current emission window: the funded total grows by
    /// `additional_reward`, the window end moves by `additional_duration`,
    /// and the rate is recomputed as the new funded total divided by the
    /// remaining window (truncating). The host must be authorized as the
    /// admin and pulls `additional_reward` of the reward asset from the
    /// admin before persisting.
    pub fn admin_adjust_rewards(
        data: &mut ContractData,
        additional_reward: i128,
        additional_duration: i64,
        now: i64,
    ) -> (r: Result<(), Error>)
        requires
            wf(*old(data)),
            now >= old(data).last_update_time,
            initialized(*old(data)) && additional_reward >= 0 ==> {
                &&& old(data).total_rewards + additional_reward <= i128::MAX
                &&& i64::MIN <= old(data).end_time + additional_duration <= i64::MAX
            },
        ensures
            wf(*final(data)),
            !initialized(*old(data)) ==> r == Err::<(), Error>(Error::Uninitialized)
                && *final(data) == *old(data),
            initialized(*old(data)) && additional_reward < 0 ==> r == Err::<(), Error>(
                Error::InvalidAmount,
            ) && *final(data) == *old(data),
            initialized(*old(data)) && additional_reward >= 0 && old(data).end_time
                + additional_duration == now ==> r == Err::<(), Error>(Error::DivisionByZero)
                && *final(data) == *old(data),
            initialized(*old(data)) && additional_reward >= 0 && old(data).end_time
                + additional_duration != now ==> r == Ok::<(), Error>(()) && extend_post(
                *old(data),
                *final(data),
                additional_reward,
                additional_duration,
                now,
            ),
    {
        if !is_initialized(data) {
            return Err(Error::Uninitialized);
        }
        if additional_reward < 0 {
            return Err(Error::InvalidAmount);
        }
        let new_end_wide = (data.end_time as i128) + (additional_duration as i128);
        let remaining = new_end_wide - (now as i128);
        if remaining == 0 {
            return Err(Error::DivisionByZero);
        }
        Self::update_rewards(data, now);
        let new_total = data.total_rewards + additional_reward;
        let new_rate = div_i128(new_total, remaining);
        proof {
            if remaining > 0 {
                lemma_trunc_div_nonneg(new_total as int, remaining as int);
            }
        }
        data.reward_rate = new_rate;
        data.total_rewards = new_total;
        data.end_time = new_end_wide as i64;
        Ok(())
    }
}

/// The successful `admin_set_rewards` transition: a fresh window of
/// `duration` from `now`, the truncated per-duration rate, the funded total
/// grown by `reward_amount`, participants untouched.
pub open spec fn fund_post(
    s: ContractData,
    t: ContractData,
    reward_amount: i128,
    duration: i64,
    now: i64,
) -> bool {
    &&& t.liquidity_token == s.liquidity_token
    &&& t.reward_token == s.reward_token
    &&& t.reward_rate == trunc_div(reward_amount as int, duration as int)
    &&& t.total_deposit == s.total_deposit
    &&& t.total_rewards == s.total_rewards + reward_amount
    &&& t.end_time == now + duration
    &&& t.last_update_time == now
    &&& t.user_info == s.user_info
}

/// The successful `admin_adjust_rewards` transition: the window end moved by
/// `additional_duration`, the funded total grown by `additional_reward`, and
/// the rate recomputed as the new funded total over the remaining window,
/// participants untouched.
pub open spec fn extend_post(
    s: ContractData,
    t: ContractData,
    additional_reward: i128,
    additional_duration: i64,
    now: i64,
) -> bool {
    let new_total = s.total_rewards + additional_reward;
    let new_end = s.end_time + additional_duration;
    &&& t.liquidity_token == s.liquidity_token
    &&& t.reward_token == s.reward_token
    &&& t.reward_rate == trunc_div(new_total, new_end - now)
    &&& t.total_deposit == s.total_deposit
    &&& t.total_rewards == new_total
    &&& t.end_time == new_end
    &&& t.last_update_time == now
    &&& t.user_info == s.user_info
}

/// The pending reward `claim_reward` computes for record `u` at time `now`:
/// the baseline formula against the reconciled rate, less the reward already
/// attributed to the record.
pub open spec fn spec_pending(s: ContractData, u: UserInfo, now: i64) -> int {
    debt_of(u.deposit as int, rate_after(s, now) as int, s.total_deposit as int) - u.reward_debt
}

/// What `claim_reward` pays out: the pending reward if positive, else nothing.
pub open spec fn spec_payout(s: ContractData, u: UserInfo, now: i64) -> i128 {
    if spec_pending(s, u, now) > 0 {
        spec_pending(s, u, now) as i128
    } else {
        0
    }
}

/// The successful `withdraw` transition: the rate reconciled to `now`,
/// `amount` taken from the participant's stake and from the total, and the
/// baseline recomputed against the pre-decrement total.
pub open spec fn withdraw_post(
    s: ContractData,
    t: ContractData,
    invoker: u64,
    amount: i128,
    now: i64,
) -> bool {
    let rate = rate_after(s, now);
    &&& t.liquidity_token == s.liquidity_token
    &&& t.reward_token == s.reward_token
    &&& t.reward_rate == rate
    &&& t.total_rewards == s.total_rewards
    &&& t.end_time == s.end_time
    &&& t.last_update_time == now
    &&& t.total_deposit == s.total_deposit - amount
    &&& (spec_find(s.user_info@, invoker) matches Some(u) && record_updated(
        s.user_info@,
        t.user_info@,
        invoker,
        u.deposit - amount,
        debt_of(u.deposit - amount, rate as int, s.total_deposit as int),
    ))
}

/// The successful `claim_reward` transition: the rate reconciled to `now`,
/// every stake and total unchanged, and the participant's baseline reset to
/// the formula value, so that nothing further is pending at `now`.
pub open spec fn claim_post(s: ContractData, t: ContractData, invoker: u64, now: i64) -> bool {
    let rate = rate_after(s, now);
    &&& t.liquidity_token == s.liquidity_token
    &&& t.reward_token == s.reward_token
    &&& t.reward_rate == rate
    &&& t.total_rewards == s.total_rewards
    &&& t.end_time == s.end_time
    &&& t.last_update_time == now
    &&& t.total_deposit == s.total_deposit
    &&& (spec_find(s.user_info@, invoker) matches Some(u) && record_updated(
        s.user_info@,
        t.user_info@,
        invoker,
        u.deposit as int,
        debt_of(u.deposit as int, rate as int, s.total_deposit as int),
    ))
}

/// Claim idempotence: after a claim at time `t1` took the ledger from `s`
/// to `t` — a claim that can only have run with the clock at or past the
/// ledger's reconciliation time — a second claim at any time `t2` no
/// earlier than `t1`, with no deposit, withdrawal or funding in between,
/// pays out nothing.
pub proof fn lemma_claim_idempotent(s: ContractData, t: ContractData, invoker: u64, t1: i64, t2: i64)
    requires
        wf(s),
        spec_find(s.user_info@, invoker) is Some,
        claim_post(s, t, invoker, t1),
        t1 >= s.last_update_time,
        t1 <= t2,
    ensures
        spec_find(t.user_info@, invoker) matches Some(v) && spec_payout(t, v, t2) == 0,
{
    let u = spec_find(s.user_info@, invoker)->Some_0;
    let v = spec_find(t.user_info@, invoker)->Some_0;
    let rate1 = rate_after(s, t1);
    let rate2 = rate_after(t, t2);
    if t2 > t.end_time && !(t1 > s.end_time) {
        // the rate was zeroed between the claims; by the invariant a rate
        // still inside its window is nonnegative, so the formula value
        // cannot rise above the baseline stored at `t1`
        assert(s.reward_rate >= 0);
        lemma_find_is_entry(s.user_info@, invoker);
        let k = choose|k: int|
            0 <= k < s.user_info@.len() && (#[trigger] s.user_info@[k]) == (invoker, u);
        assert(u.deposit >= 0);
        if s.total_deposit != 0 {
            lemma_sum_nonneg(s.user_info@);
            vstd::arithmetic::mul::lemma_mul_nonnegative(u.deposit as int, rate1 as int);
            lemma_trunc_div_nonneg(u.deposit * rate1, s.total_deposit as int);
        }
        assert(debt_of(v.deposit as int, rate2 as int, t.total_deposit as int) == 0);
    }
}

} // verus!
