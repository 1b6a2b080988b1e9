//! The pool ledger's data types and their mathematical model: the
//! well-formedness invariant, the participant lookup, the deposit sum, and
//! the reward formulas that the operation contracts are stated over.

use crate::arith::trunc_div;
use vstd::prelude::*;

verus! {

/// One participant's record: the staked amount and the accounting baseline
/// already attributed to it. A record is never removed, even at zero stake.
#[derive(Clone, Copy, Debug, PartialEq, Eq)]
pub struct UserInfo {
    pub deposit: i128,
    pub reward_debt: i128,
}

/// The singleton pool ledger. The asset identifiers are `None` until
/// `initialize` runs; every other operation fails on that state.
#[derive(Clone, Debug, PartialEq, Eq)]
pub struct ContractData {
    pub liquidity_token: Option<u64>,
    pub reward_token: Option<u64>,
    pub reward_rate: i128,
    pub total_deposit: i128,
    pub total_rewards: i128,
    pub end_time: i64,
    pub last_update_time: i64,
    pub user_info: Vec<(u64, UserInfo)>,
}

/// Why an operation was refused. Every error leaves the ledger unchanged.
#[derive(Clone, Copy, Debug, PartialEq, Eq, Structural)]
pub enum Error {
    Uninitialized,
    InvalidAmount,
    InvalidDuration,
    DivisionByZero,
    InsufficientBalance,
    NotFound,
}

/// Sum of all recorded stakes.
pub open spec fn sum_deposits(s: Seq<(u64, UserInfo)>) -> int
    decreases s.len(),
{
    if s.len() == 0 {
        0
    } else {
        sum_deposits(s.drop_last()) + s.last().1.deposit
    }
}

/// First record held under `id`, scanning from the front.
pub open spec fn spec_find(s: Seq<(u64, UserInfo)>, id: u64) -> Option<UserInfo>
    decreases s.len(),
{
    if s.len() == 0 {
        None
    } else if s[0].0 == id {
        Some(s[0].1)
    } else {
        spec_find(s.drop_first(), id)
    }
}

/// No participant appears under two records.
pub open spec fn keys_unique(s: Seq<(u64, UserInfo)>) -> bool {
    forall|i: int, j: int| 0 <= i < j < s.len() ==> (#[trigger] s[i]).0 != (#[trigger] s[j]).0
}

/// Every recorded stake is nonnegative.
pub open spec fn deposits_nonneg(s: Seq<(u64, UserInfo)>) -> bool {
    forall|i: int| 0 <= i < s.len() ==> (#[trigger] s[i]).1.deposit >= 0
}

/// The ledger invariant: unique participants, nonnegative stakes, the global
/// total equal to the sum of the stakes, and a nonnegative funded total.
/// A negative rate can only come from an extension whose window already lay
/// in the past, so it is always stale: the reconciliation time is already
/// past the emission end, and the next reconciliation zeroes the rate.
pub open spec fn wf(d: ContractData) -> bool {
    &&& keys_unique(d.user_info@)
    &&& deposits_nonneg(d.user_info@)
    &&& d.total_deposit == sum_deposits(d.user_info@)
    &&& d.total_rewards >= 0
    &&& (d.reward_rate < 0 ==> d.last_update_time > d.end_time)
}

/// Both asset identifiers have been set.
pub open spec fn initialized(d: ContractData) -> bool {
    d.liquidity_token is Some && d.reward_token is Some
}

/// The reward rate after reconciling to time `now`: zeroed once the emission
/// window has elapsed, otherwise unchanged.
pub open spec fn rate_after(d: ContractData, now: i64) -> i128 {
    if now > d.end_time {
        0
    } else {
        d.reward_rate
    }
}

/// The accounting baseline for a stake of `deposit` against the pool's
/// current rate and total, guarded to zero on an empty pool.
pub open spec fn debt_of(deposit: int, rate: int, total: int) -> int {
    if total == 0 {
        0
    } else {
        trunc_div(deposit * rate, total)
    }
}

pub(crate) proof fn lemma_sum_push(s: Seq<(u64, UserInfo)>, e: (u64, UserInfo))
    ensures
        sum_deposits(s.push(e)) == sum_deposits(s) + e.1.deposit,
{
    assert(s.push(e).drop_last() =~= s);
}

pub(crate) proof fn lemma_sum_update(s: Seq<(u64, UserInfo)>, i: int, e: (u64, UserInfo))
    requires
        0 <= i < s.len(),
    ensures
        sum_deposits(s.update(i, e)) == sum_deposits(s) - s[i].1.deposit + e.1.deposit,
    decreases s.len(),
{
    if i == s.len() - 1 {
        assert(s.update(i, e).drop_last() =~= s.drop_last());
    } else {
        assert(s.update(i, e).drop_last() =~= s.drop_last().update(i, e));
        lemma_sum_update(s.drop_last(), i, e);
    }
}

/// No single stake exceeds the sum of all (nonnegative) stakes.
pub(crate) proof fn lemma_sum_bounds_entry(s: Seq<(u64, UserInfo)>, i: int)
    requires
        deposits_nonneg(s),
        0 <= i < s.len(),
    ensures
        s[i].1.deposit <= sum_deposits(s),
        sum_deposits(s) >= 0,
    decreases s.len(),
{
    lemma_sum_nonneg(s);
    if i == s.len() - 1 {
        lemma_sum_nonneg(s.drop_last());
    } else {
        lemma_sum_bounds_entry(s.drop_last(), i);
    }
}

pub(crate) proof fn lemma_sum_nonneg(s: Seq<(u64, UserInfo)>)
    requires
        deposits_nonneg(s),
    ensures
        sum_deposits(s) >= 0,
    decreases s.len(),
{
    if s.len() > 0 {
        lemma_sum_nonneg(s.drop_last());
    }
}

/// A scan that found `id` first at position `i` agrees with `spec_find`.
pub(crate) proof fn lemma_find_at(s: Seq<(u64, UserInfo)>, id: u64, i: int)
    requires
        0 <= i < s.len(),
        s[i].0 == id,
        forall|j: int| 0 <= j < i ==> (#[trigger] s[j]).0 != id,
    ensures
        spec_find(s, id) == Some(s[i].1),
    decreases s.len(),
{
    if i > 0 {
        lemma_find_at(s.drop_first(), id, i - 1);
    }
}

/// A record that `spec_find` returns is one of the sequence's entries.
pub(crate) proof fn lemma_find_is_entry(s: Seq<(u64, UserInfo)>, id: u64)
    ensures
        spec_find(s, id) matches Some(u) ==> exists|k: int|
            0 <= k < s.len() && (#[trigger] s[k]) == (id, u),
    decreases s.len(),
{
    if s.len() > 0 && s[0].0 != id {
        lemma_find_is_entry(s.drop_first(), id);
        if spec_find(s, id) is Some {
            let u = spec_find(s, id)->Some_0;
            let k = choose|k: int|
                0 <= k < s.drop_first().len() && (#[trigger] s.drop_first()[k]) == (id, u);
            assert(s[k + 1] == (id, u));
        }
    }
}

/// A scan that saw every key and never `id` agrees with `spec_find`.
pub(crate) proof fn lemma_find_absent(s: Seq<(u64, UserInfo)>, id: u64)
    requires
        forall|j: int| 0 <= j < s.len() ==> (#[trigger] s[j]).0 != id,
    ensures
        spec_find(s, id) is None,
    decreases s.len(),
{
    if s.len() > 0 {
        lemma_find_absent(s.drop_first(), id);
    }
}

impl Default for ContractData {
    fn default() -> (d: ContractData)
        ensures
            d.liquidity_token is None,
            d.reward_token is None,
            d.reward_rate == 0,
            d.total_deposit == 0,
            d.total_rewards == 0,
            d.end_time == 0,
            d.last_update_time == 0,
            d.user_info@ =~= Seq::<(u64, UserInfo)>::empty(),
            wf(d),
    {
        ContractData {
            liquidity_token: None,
            reward_token: None,
            reward_rate: 0,
            total_deposit: 0,
            total_rewards: 0,
            end_time: 0,
            last_update_time: 0,
            user_info: Vec::new(),
        }
    }
}

} // verus!
