use vstd::prelude::*;
use secret_toolkit::snip721::ViewerInfo;
use crate::history::{HistoryLog, UserHistories, page_of};
use crate::access::{check_admin_key, derive_viewing_key, derived_key};
use crate::ranks::{RankTable, lookup_after};
use crate::rewards::{estimate, estimate_total, is_estimate, time_bonus, time_bonus_of, unit_reward};
use crate::types::{
    BurnInfoResponse, BurnItem, ContractError, ContractInfo, ExpectedCheck, ExpectedReward,
    ExpectedRewardResponse, History, HistoryFull,
    HandleNftReceiveMsg, HandleReceiveMsg, InstantiateMsg, Instruction, Rank, Reward,
    RewardsContractInfo,
};

verus! {

/// The ledger's configuration and balances.
#[derive(Clone, Debug, PartialEq, Eq)]
pub struct State {
    pub owner: String,
    pub is_active: bool,
    pub nft_contract: ContractInfo,
    pub reward_contracts: Vec<RewardsContractInfo>,
    pub viewing_key: Option<String>,
    pub total_burned_amount: u32,
    pub trait_restriction: Option<String>,
    pub burn_counter_date: u64,
}

/// Everything the ledger holds: its state, the rank table, the claim history
/// of each submitter, the global burn history and the owner's viewing key.
#[derive(Clone, Debug, PartialEq, Eq)]
pub struct Ledger {
    pub state: State,
    pub ranks: RankTable,
    pub user_history: UserHistories,
    pub burn_history: HistoryLog<HistoryFull>,
    pub admin_viewing_key: Option<ViewerInfo>,
}

impl Ledger {
    /// The history logs' lengths fit the `u32` counts they report.
    pub open spec fn wf(&self) -> bool {
        &&& self.user_history.wf()
        &&& self.burn_history.wf()
    }
}

/// The pools of a ledger, in order.
pub open spec fn pools_of(l: Ledger) -> Seq<RewardsContractInfo> {
    l.state.reward_contracts@
}

/// The rank entry of item `i` of a batch.
pub open spec fn entry_of(l: Ledger, items: Seq<BurnItem>, i: int) -> Option<Rank> {
    l.ranks.lookup_spec(items[i].token_id@)
}

/// What item `i` earns from pool `j` apart from the time bonus.
pub open spec fn unit(l: Ledger, items: Seq<BurnItem>, i: int, j: int) -> int {
    unit_reward(pools_of(l)[j], entry_of(l, items, i))
}

/// The time bonus of pool `j` at time `now`.
pub open spec fn bonus(l: Ledger, j: int, now: u64) -> int {
    time_bonus(pools_of(l)[j], now, l.state.burn_counter_date)
}

/// The base and rank rewards of pool `j`, summed over the first `k` items.
pub open spec fn base_sum(l: Ledger, items: Seq<BurnItem>, j: int, k: int) -> int
    decreases k,
{
    if k <= 0 {
        0
    } else {
        base_sum(l, items, j, k - 1) + unit(l, items, k - 1, j)
    }
}

/// What pool `j` pays for the whole batch: the summed base and rank rewards,
/// and the time bonus once.
pub open spec fn payout(l: Ledger, items: Seq<BurnItem>, j: int, now: u64) -> int {
    base_sum(l, items, j, items.len() as int) + bonus(l, j, now)
}

/// `base_sum` over the first `k` items, summed over the first `m` pools.
pub open spec fn base_sum_pools(l: Ledger, items: Seq<BurnItem>, k: int, m: int) -> int
    decreases m,
{
    if m <= 0 {
        0
    } else {
        base_sum_pools(l, items, k, m - 1) + base_sum(l, items, m - 1, k)
    }
}

/// The time bonuses of the first `m` pools, summed.
pub open spec fn bonus_pools(l: Ledger, m: int, now: u64) -> int
    decreases m,
{
    if m <= 0 {
        0
    } else {
        bonus_pools(l, m - 1, now) + bonus(l, m - 1, now)
    }
}

/// The reward that the claim history records for item `i`: what all pools
/// have paid up to and including it, and for the first item the time bonus too.
pub open spec fn entry_reward(l: Ledger, items: Seq<BurnItem>, i: int, now: u64) -> int {
    base_sum_pools(l, items, i + 1, pools_of(l).len() as int) + if i == 0 {
        bonus_pools(l, pools_of(l).len() as int, now)
    } else {
        0
    }
}

/// Every payout and every recorded reward of the batch fits in `u128`.
pub open spec fn rewards_fit(l: Ledger, items: Seq<BurnItem>, now: u64) -> bool {
    &&& forall|j: int| 0 <= j < pools_of(l).len() ==> #[trigger] payout(l, items, j, now) <= u128::MAX
    &&& forall|i: int| 0 <= i < items.len() ==> #[trigger] entry_reward(l, items, i, now) <= u128::MAX
}

proof fn lemma_base_sum_mono(l: Ledger, items: Seq<BurnItem>, j: int, a: int, b: int)
    requires
        0 <= a <= b,
    ensures
        0 <= base_sum(l, items, j, a) <= base_sum(l, items, j, b),
    decreases b,
{
    if a < b {
        lemma_base_sum_mono(l, items, j, a, b - 1);
    } else if a > 0 {
        lemma_base_sum_mono(l, items, j, a - 1, a - 1);
    }
}

proof fn lemma_base_sum_pools_mono(l: Ledger, items: Seq<BurnItem>, k: int, a: int, b: int)
    requires
        0 <= a <= b,
        0 <= k,
    ensures
        0 <= base_sum_pools(l, items, k, a) <= base_sum_pools(l, items, k, b),
    decreases b,
{
    if b > 0 {
        lemma_base_sum_mono(l, items, b - 1, 0, k);
    }
    if a < b {
        lemma_base_sum_pools_mono(l, items, k, a, b - 1);
    } else if a > 0 {
        lemma_base_sum_pools_mono(l, items, k, a - 1, a - 1);
    }
}

proof fn lemma_bonus_pools_mono(l: Ledger, a: int, b: int, now: u64)
    requires
        0 <= a <= b,
    ensures
        0 <= bonus_pools(l, a, now) <= bonus_pools(l, b, now),
    decreases b,
{
    if a < b {
        lemma_bonus_pools_mono(l, a, b - 1, now);
    } else if a > 0 {
        lemma_bonus_pools_mono(l, a - 1, a - 1, now);
    }
}

/// Computes, for a batch, what each pool earns (base and rank part summed,
/// time bonus once) and the reward that the claim history records for each
/// item; `None` where one of them does not fit in `u128`.
fn reward_amounts(l: &Ledger, items: &Vec<BurnItem>, now: u64) -> (r: Option<(Vec<Reward>, Vec<u128>)>)
    ensures
        r is Some <==> rewards_fit(*l, items@, now),
        r matches Some((per_pool, per_item)) ==> {
            &&& per_pool@.len() == pools_of(*l).len()
            &&& forall|j: int| 0 <= j < per_pool@.len() ==> {
                &&& (#[trigger] per_pool@[j]).base_reward == base_sum(*l, items@, j, items@.len() as int)
                &&& per_pool@[j].bonus_reward == bonus(*l, j, now)
            }
            &&& per_item@.len() == items@.len()
            &&& forall|i: int| 0 <= i < per_item@.len() ==> #[trigger] per_item@[i] == entry_reward(*l, items@, i, now)
        },
{
    let pools = &l.state.reward_contracts;
    let clock = l.state.burn_counter_date;
    let ghost n = items@.len() as int;
    let ghost np = pools@.len() as int;
    let mut times: Vec<u128> = Vec::new();
    let mut j: usize = 0;
    while j < pools.len()
        invariant
            j <= np,
            np == pools@.len(),
            n == items@.len(),
            pools == &l.state.reward_contracts,
            clock == l.state.burn_counter_date,
            times@.len() == j,
            forall|jj: int| 0 <= jj < j ==> #[trigger] times@[jj] == bonus(*l, jj, now),
        decreases np - j,
    {
        match time_bonus_of(&pools[j], now, clock) {
            Some(t) => { times.push(t); },
            None => {
                proof {
                    lemma_base_sum_mono(*l, items@, j as int, 0, n);
                    assert(payout(*l, items@, j as int, now) > u128::MAX);
                }
                return None;
            },
        }
        j = j + 1;
    }
    let mut sums: Vec<u128> = Vec::new();
    let mut j: usize = 0;
    while j < pools.len()
        invariant
            j <= np,
            np == pools@.len(),
            sums@.len() == j,
            forall|jj: int| 0 <= jj < j ==> #[trigger] sums@[jj] == base_sum(*l, items@, jj, 0),
        decreases np - j,
    {
        sums.push(0);
        j = j + 1;
    }
    let mut per_item: Vec<u128> = Vec::new();
    let mut i: usize = 0;
    while i < items.len()
        invariant
            i <= n,
            n == items@.len(),
            np == pools@.len(),
            pools == &l.state.reward_contracts,
            clock == l.state.burn_counter_date,
            times@.len() == np,
            forall|jj: int| 0 <= jj < np ==> #[trigger] times@[jj] == bonus(*l, jj, now),
            sums@.len() == np,
            forall|jj: int| 0 <= jj < np ==> #[trigger] sums@[jj] == base_sum(*l, items@, jj, i as int),
            per_item@.len() == i,
            forall|ii: int| 0 <= ii < i ==> #[trigger] per_item@[ii] == entry_reward(*l, items@, ii, now),
        decreases n - i,
    {
        let entry = l.ranks.lookup(&items[i].token_id);
        assert(match entry { Some(e) => Some(*e), None => None } == entry_of(*l, items@, i as int));
        let mut j: usize = 0;
        while j < pools.len()
            invariant
                i < n,
                j <= np,
                n == items@.len(),
                np == pools@.len(),
                pools == &l.state.reward_contracts,
                clock == l.state.burn_counter_date,
                match entry { Some(e) => Some(*e), None => None } == entry_of(*l, items@, i as int),
                sums@.len() == np,
                forall|jj: int| 0 <= jj < j ==> #[trigger] sums@[jj] == base_sum(*l, items@, jj, i + 1),
                forall|jj: int| j <= jj < np ==> #[trigger] sums@[jj] == base_sum(*l, items@, jj, i as int),
            decreases np - j,
        {
            proof {
                lemma_base_sum_mono(*l, items@, j as int, i + 1, n);
                lemma_base_sum_mono(*l, items@, j as int, 0, i as int);
            }
            match estimate(&items[i].token_id, &pools[j], entry, now, clock) {
                Err(_) => {
                    assert(payout(*l, items@, j as int, now) > u128::MAX);
                    return None;
                },
                Ok(v) => {
                    let u = v.base_reward_expected + v.rank_reward_expected;
                    if sums[j] > u128::MAX - u {
                        assert(payout(*l, items@, j as int, now) > u128::MAX);
                        return None;
                    }
                    sums.set(j, sums[j] + u);
                },
            }
            j = j + 1;
        }
        let mut acc: u128 = 0;
        let mut j: usize = 0;
        while j < pools.len()
            invariant
                i < n,
                j <= np,
                n == items@.len(),
                np == pools@.len(),
                pools == &l.state.reward_contracts,
                sums@.len() == np,
                forall|jj: int| 0 <= jj < np ==> #[trigger] sums@[jj] == base_sum(*l, items@, jj, i + 1),
                acc == base_sum_pools(*l, items@, i + 1, j as int),
            decreases np - j,
        {
            if acc > u128::MAX - sums[j] {
                proof {
                    lemma_base_sum_pools_mono(*l, items@, i + 1, j + 1, np);
                    lemma_bonus_pools_mono(*l, 0, np, now);
                }
                assert(entry_reward(*l, items@, i as int, now) > u128::MAX);
                return None;
            }
            acc = acc + sums[j];
            j = j + 1;
        }
        if i == 0 {
            let mut j: usize = 0;
            while j < pools.len()
                invariant
                    i == 0,
                    i < n,
                    n == items@.len(),
                    j <= np,
                    np == pools@.len(),
                    pools == &l.state.reward_contracts,
                    times@.len() == np,
                    forall|jj: int| 0 <= jj < np ==> #[trigger] times@[jj] == bonus(*l, jj, now),
                    acc == base_sum_pools(*l, items@, 1, np) + bonus_pools(*l, j as int, now),
                decreases np - j,
            {
                if acc > u128::MAX - times[j] {
                    proof {
                        lemma_bonus_pools_mono(*l, j + 1, np, now);
                    }
                    assert(entry_reward(*l, items@, 0, now) > u128::MAX);
                    return None;
                }
                acc = acc + times[j];
                j = j + 1;
            }
        }
        per_item.push(acc);
        i = i + 1;
    }
    let mut per_pool: Vec<Reward> = Vec::new();
    let mut j: usize = 0;
    while j < pools.len()
        invariant
            j <= np,
            np == pools@.len(),
            n == items@.len(),
            pools == &l.state.reward_contracts,
            forall|ii: int| 0 <= ii < n ==> #[trigger] per_item@[ii] == entry_reward(*l, items@, ii, now),
            per_item@.len() == n,
            times@.len() == np,
            forall|jj: int| 0 <= jj < np ==> #[trigger] times@[jj] == bonus(*l, jj, now),
            sums@.len() == np,
            forall|jj: int| 0 <= jj < np ==> #[trigger] sums@[jj] == base_sum(*l, items@, jj, n),
            per_pool@.len() == j,
            forall|jj: int| 0 <= jj < j ==> {
                &&& (#[trigger] per_pool@[jj]).base_reward == base_sum(*l, items@, jj, n)
                &&& per_pool@[jj].bonus_reward == bonus(*l, jj, now)
                &&& payout(*l, items@, jj, now) <= u128::MAX
            },
        decreases np - j,
    {
        if sums[j] > u128::MAX - times[j] {
            assert(payout(*l, items@, j as int, now) > u128::MAX);
            return None;
        }
        per_pool.push(Reward { base_reward: sums[j], bonus_reward: times[j] });
        j = j + 1;
    }
    assert forall|jj: int| 0 <= jj < np implies #[trigger] payout(*l, items@, jj, now) <= u128::MAX by {
        assert(per_pool@[jj].base_reward == base_sum(*l, items@, jj, n));
    }
    assert forall|ii: int| 0 <= ii < n implies #[trigger] entry_reward(*l, items@, ii, now) <= u128::MAX by {
        assert(per_item@[ii] == entry_reward(*l, items@, ii, now));
    }
    Some((per_pool, per_item))
}

/// The item carries an attribute of the given trait type.
pub open spec fn has_trait(item: BurnItem, trait_type: Seq<char>) -> bool {
    exists|k: int| 0 <= k < item.trait_types@.len() && #[trigger] item.trait_types@[k]@ == trait_type
}

/// The item meets the ledger's trait restriction, if there is one.
pub open spec fn eligible(item: BurnItem, restriction: Option<String>) -> bool {
    match restriction {
        Some(t) => has_trait(item, t@),
        None => true,
    }
}

/// Some pool of the ledger bears the name that the expectation gives.
pub open spec fn names_some_pool(l: Ledger, e: ExpectedCheck) -> bool {
    exists|j: int| 0 <= j < pools_of(l).len() && #[trigger] pools_of(l)[j].name@ == e.reward_contract_name@
}

/// Every expectation that names pool `j` is a floor that the pool's rewards reach.
pub open spec fn expectations_met_for(l: Ledger, items: Seq<BurnItem>, exps: Seq<ExpectedCheck>, j: int, now: u64) -> bool {
    forall|k: int| 0 <= k < exps.len() && #[trigger] exps[k].reward_contract_name@ == pools_of(l)[j].name@ ==> {
        &&& base_sum(l, items, j, items.len() as int) >= exps[k].base_reward_expected
        &&& bonus(l, j, now) >= exps[k].bonus_expected
    }
}

/// The first refusal among the pools from `j` on: an expectation not met, or
/// a payout that would not leave a positive balance.
pub open spec fn pool_error_from(l: Ledger, items: Seq<BurnItem>, exps: Seq<ExpectedCheck>, j: int, now: u64) -> Option<ContractError>
    decreases pools_of(l).len() - j,
{
    if j < 0 || j >= pools_of(l).len() {
        None
    } else if !expectations_met_for(l, items, exps, j, now) {
        Some(ContractError::ExpectationNotMet)
    } else if payout(l, items, j, now) >= pools_of(l)[j].total_rewards {
        Some(ContractError::PoolExhausted)
    } else {
        pool_error_from(l, items, exps, j + 1, now)
    }
}

/// The counters and logs that a batch of `n` items extends stay within `u32`.
pub open spec fn counters_fit(l: Ledger, from: Seq<char>, n: int) -> bool {
    &&& l.state.total_burned_amount + n <= u32::MAX
    &&& l.burn_history.entries@.len() + n <= u32::MAX
    &&& l.user_history.entries_of(from).len() + n <= u32::MAX
}

/// Why the ledger refuses a batch, if it does; checked in this order.
pub open spec fn settle_error(
    l: Ledger,
    sender: Seq<char>,
    from: Seq<char>,
    items: Seq<BurnItem>,
    msg: Option<HandleNftReceiveMsg>,
    now: u64,
) -> Option<ContractError> {
    if !l.state.is_active {
        Some(ContractError::Inactive)
    } else if sender != l.state.nft_contract.address@ {
        Some(ContractError::UntrustedCaller)
    } else {
        match msg {
            None => Some(ContractError::MalformedRequest),
            Some(HandleNftReceiveMsg::ClaimBurnRewards { expected_rewards, message }) => {
                if items.len() == 0 {
                    Some(ContractError::MalformedRequest)
                } else if exists|i: int| 0 <= i < items.len() && !eligible(#[trigger] items[i], l.state.trait_restriction) {
                    Some(ContractError::IneligibleItem)
                } else if !rewards_fit(l, items, now) || !counters_fit(l, from, items.len() as int) {
                    Some(ContractError::Overflow)
                } else if exists|k: int| 0 <= k < expected_rewards@.len() && !names_some_pool(l, #[trigger] expected_rewards@[k]) {
                    Some(ContractError::ExpectationNotMet)
                } else {
                    pool_error_from(l, items, expected_rewards@, 0, now)
                }
            },
        }
    }
}

/// The memo of a batch payload.
pub open spec fn payload_message(msg: Option<HandleNftReceiveMsg>) -> String {
    match msg {
        Some(HandleNftReceiveMsg::ClaimBurnRewards { expected_rewards, message }) => message,
        None => arbitrary(),
    }
}

/// A pool after `amount` was paid out of it.
pub open spec fn debited(p: RewardsContractInfo, amount: int) -> RewardsContractInfo {
    RewardsContractInfo {
        code_hash: p.code_hash,
        address: p.address,
        base_reward: p.base_reward,
        bonus_hourly: p.bonus_hourly,
        name: p.name,
        burn_type: p.burn_type,
        total_rewards: (p.total_rewards - amount) as u128,
    }
}

/// The claim history entry of item `i` of a batch.
pub open spec fn claim_entry(l: Ledger, items: Seq<BurnItem>, i: int, message: String, now: u64) -> History {
    History {
        token_id: items[i].token_id,
        message: message,
        date: now,
        rewards: entry_reward(l, items, i, now) as u128,
    }
}

/// The burn history entry of item `i` of a batch.
pub open spec fn burn_entry(items: Seq<BurnItem>, i: int, message: String, now: u64) -> HistoryFull {
    HistoryFull {
        token_id: items[i].token_id,
        message: message,
        date: now,
        meta_data: items[i].public_metadata,
    }
}

/// The transfers to `from` of the first `m` pools' payouts, skipping the pools that pay nothing.
pub open spec fn payout_transfers(l: Ledger, items: Seq<BurnItem>, from: String, m: int, now: u64) -> Seq<Instruction>
    decreases m,
{
    if m <= 0 {
        Seq::empty()
    } else if payout(l, items, m - 1, now) > 0 {
        payout_transfers(l, items, from, m - 1, now).push(
            Instruction::Transfer {
                recipient: from,
                amount: payout(l, items, m - 1, now) as u128,
                code_hash: pools_of(l)[m - 1].code_hash,
                address: pools_of(l)[m - 1].address,
            },
        )
    } else {
        payout_transfers(l, items, from, m - 1, now)
    }
}

/// Some pool pays a time bonus for the batch.
pub open spec fn any_bonus(l: Ledger, now: u64) -> bool {
    exists|j: int| 0 <= j < pools_of(l).len() && #[trigger] bonus(l, j, now) > 0
}

/// `n` is ledger `l` after it settled the batch, and `out` the instructions it gave.
pub open spec fn settled(
    l: Ledger,
    n: Ledger,
    from: String,
    items: Seq<BurnItem>,
    message: String,
    now: u64,
    out: Seq<Instruction>,
) -> bool {
    &&& n.state.owner == l.state.owner
    &&& n.state.is_active == l.state.is_active
    &&& n.state.nft_contract == l.state.nft_contract
    &&& n.state.viewing_key == l.state.viewing_key
    &&& n.state.trait_restriction == l.state.trait_restriction
    &&& n.state.reward_contracts@ == Seq::new(
        pools_of(l).len(),
        |j: int| debited(pools_of(l)[j], payout(l, items, j, now)),
    )
    &&& n.state.burn_counter_date == if any_bonus(l, now) {
        now
    } else {
        l.state.burn_counter_date
    }
    &&& n.state.total_burned_amount == l.state.total_burned_amount + items.len()
    &&& n.ranks == l.ranks
    &&& n.admin_viewing_key == l.admin_viewing_key
    &&& n.user_history.entries_of(from@) == l.user_history.entries_of(from@) + Seq::new(
        items.len(),
        |i: int| claim_entry(l, items, i, message, now),
    )
    &&& forall|o: Seq<char>| o != from@ ==> #[trigger] n.user_history.entries_of(o) == l.user_history.entries_of(o)
    &&& n.burn_history.entries@ == l.burn_history.entries@ + Seq::new(
        items.len(),
        |i: int| burn_entry(items, i, message, now),
    )
    &&& out.len() == payout_transfers(l, items, from, pools_of(l).len() as int, now).len() + 1
    &&& out.subrange(0, out.len() - 1) == payout_transfers(l, items, from, pools_of(l).len() as int, now)
    &&& match out.last() {
        Instruction::BurnBatch { token_ids, code_hash, address } => {
            &&& token_ids@ == Seq::new(items.len(), |i: int| items[i].token_id)
            &&& code_hash == l.state.nft_contract.code_hash
            &&& address == l.state.nft_contract.address
        },
        _ => false,
    }
}

/// Whether the item carries an attribute of the given trait type.
pub fn item_has_trait(item: &BurnItem, trait_type: &String) -> (r: bool)
    ensures
        r == has_trait(*item, trait_type@),
{
    let mut k: usize = 0;
    while k < item.trait_types.len()
        invariant
            k <= item.trait_types@.len(),
            forall|kk: int| 0 <= kk < k ==> item.trait_types@[kk]@ != trait_type@,
        decreases item.trait_types@.len() - k,
    {
        if item.trait_types[k] == *trait_type {
            return true;
        }
        k = k + 1;
    }
    false
}

fn all_eligible(items: &Vec<BurnItem>, restriction: &Option<String>) -> (r: bool)
    ensures
        r == forall|i: int| 0 <= i < items@.len() ==> eligible(#[trigger] items@[i], *restriction),
{
    match restriction {
        None => true,
        Some(t) => {
            let mut i: usize = 0;
            while i < items.len()
                invariant
                    i <= items@.len(),
                    *restriction == Some(*t),
                    forall|ii: int| 0 <= ii < i ==> eligible(#[trigger] items@[ii], *restriction),
                decreases items@.len() - i,
            {
                if !item_has_trait(&items[i], t) {
                    assert(!eligible(items@[i as int], *restriction));
                    return false;
                }
                i = i + 1;
            }
            true
        },
    }
}

fn names_pool(l: &Ledger, e: &ExpectedCheck) -> (r: bool)
    ensures
        r == names_some_pool(*l, *e),
{
    let pools = &l.state.reward_contracts;
    let mut j: usize = 0;
    while j < pools.len()
        invariant
            j <= pools@.len(),
            pools == &l.state.reward_contracts,
            forall|jj: int| 0 <= jj < j ==> pools@[jj].name@ != e.reward_contract_name@,
        decreases pools@.len() - j,
    {
        if pools[j].name == e.reward_contract_name {
            return true;
        }
        j = j + 1;
    }
    false
}

fn all_expectations_named(l: &Ledger, exps: &Vec<ExpectedCheck>) -> (r: bool)
    ensures
        r == forall|k: int| 0 <= k < exps@.len() ==> names_some_pool(*l, #[trigger] exps@[k]),
{
    let mut k: usize = 0;
    while k < exps.len()
        invariant
            k <= exps@.len(),
            forall|kk: int| 0 <= kk < k ==> names_some_pool(*l, #[trigger] exps@[kk]),
        decreases exps@.len() - k,
    {
        if !names_pool(l, &exps[k]) {
            return false;
        }
        k = k + 1;
    }
    true
}

fn expectations_met(exps: &Vec<ExpectedCheck>, pool: &RewardsContractInfo, earned: &Reward) -> (r: bool)
    ensures
        r == forall|k: int| 0 <= k < exps@.len() && #[trigger] exps@[k].reward_contract_name@ == pool.name@ ==> {
            &&& earned.base_reward >= exps@[k].base_reward_expected
            &&& earned.bonus_reward >= exps@[k].bonus_expected
        },
{
    let mut k: usize = 0;
    while k < exps.len()
        invariant
            k <= exps@.len(),
            forall|kk: int| 0 <= kk < k && #[trigger] exps@[kk].reward_contract_name@ == pool.name@ ==> {
                &&& earned.base_reward >= exps@[kk].base_reward_expected
                &&& earned.bonus_reward >= exps@[kk].bonus_expected
            },
        decreases exps@.len() - k,
    {
        if exps[k].reward_contract_name == pool.name {
            if !(earned.base_reward >= exps[k].base_reward_expected && earned.bonus_reward >= exps[k].bonus_expected) {
                return false;
            }
        }
        k = k + 1;
    }
    true
}

fn pool_error(l: &Ledger, items: &Vec<BurnItem>, exps: &Vec<ExpectedCheck>, per_pool: &Vec<Reward>, now: u64) -> (r: Option<ContractError>)
    requires
        per_pool@.len() == pools_of(*l).len(),
        forall|j: int| 0 <= j < per_pool@.len() ==> {
            &&& (#[trigger] per_pool@[j]).base_reward == base_sum(*l, items@, j, items@.len() as int)
            &&& per_pool@[j].bonus_reward == bonus(*l, j, now)
        },
        rewards_fit(*l, items@, now),
    ensures
        r == pool_error_from(*l, items@, exps@, 0, now),
        r is None ==> forall|j: int| 0 <= j < pools_of(*l).len() ==> #[trigger] payout(*l, items@, j, now) < pools_of(*l)[j].total_rewards,
{
    let pools = &l.state.reward_contracts;
    let mut j: usize = 0;
    while j < pools.len()
        invariant
            j <= pools@.len(),
            pools == &l.state.reward_contracts,
            per_pool@.len() == pools@.len(),
            forall|jj: int| 0 <= jj < per_pool@.len() ==> {
                &&& (#[trigger] per_pool@[jj]).base_reward == base_sum(*l, items@, jj, items@.len() as int)
                &&& per_pool@[jj].bonus_reward == bonus(*l, jj, now)
            },
            rewards_fit(*l, items@, now),
            pool_error_from(*l, items@, exps@, 0, now) == pool_error_from(*l, items@, exps@, j as int, now),
            forall|jj: int| 0 <= jj < j ==> #[trigger] payout(*l, items@, jj, now) < pools_of(*l)[jj].total_rewards,
        decreases pools@.len() - j,
    {
        let earned = &per_pool[j];
        assert(payout(*l, items@, j as int, now) <= u128::MAX);
        if !expectations_met(exps, &pools[j], earned) {
            return Some(ContractError::ExpectationNotMet);
        }
        if earned.base_reward + earned.bonus_reward >= pools[j].total_rewards {
            return Some(ContractError::PoolExhausted);
        }
        j = j + 1;
    }
    None
}

/// Only the first item of a batch carries the time bonus in its claim history
/// entry: the entry of every later item records base and rank rewards alone.
pub proof fn lemma_only_first_entry_has_bonus(l: Ledger, items: Seq<BurnItem>, i: int, now: u64)
    requires
        0 <= i < items.len(),
    ensures
        i == 0 ==> entry_reward(l, items, i, now) == base_sum_pools(l, items, 1, pools_of(l).len() as int)
            + bonus_pools(l, pools_of(l).len() as int, now),
        i > 0 ==> entry_reward(l, items, i, now) == base_sum_pools(l, items, i + 1, pools_of(l).len() as int),
{
}

proof fn lemma_no_pool_error_from(l: Ledger, items: Seq<BurnItem>, exps: Seq<ExpectedCheck>, j: int, now: u64)
    requires
        0 <= j,
        pool_error_from(l, items, exps, j, now) is None,
    ensures
        forall|jj: int| j <= jj < pools_of(l).len() ==> {
            &&& #[trigger] payout(l, items, jj, now) < pools_of(l)[jj].total_rewards
            &&& expectations_met_for(l, items, exps, jj, now)
        },
    decreases pools_of(l).len() - j,
{
    if j < pools_of(l).len() {
        lemma_no_pool_error_from(l, items, exps, j + 1, now);
    }
}

proof fn lemma_pool_error_at(l: Ledger, items: Seq<BurnItem>, exps: Seq<ExpectedCheck>, k: int, j: int, now: u64)
    requires
        0 <= k <= j < pools_of(l).len(),
        !expectations_met_for(l, items, exps, j, now) || payout(l, items, j, now) >= pools_of(l)[j].total_rewards,
    ensures
        pool_error_from(l, items, exps, k, now) is Some,
    decreases j - k,
{
    if k < j && pool_error_from(l, items, exps, k, now) is None {
        lemma_pool_error_at(l, items, exps, k + 1, j, now);
    }
}

/// A settlement that goes through pays each pool's payout out of its balance
/// and leaves a balance strictly above zero: the payout is below the balance
/// before, and the balance after is the balance before less the payout.
pub proof fn lemma_settlement_keeps_residual(
    l: Ledger,
    sender: Seq<char>,
    from: Seq<char>,
    items: Seq<BurnItem>,
    msg: Option<HandleNftReceiveMsg>,
    now: u64,
    j: int,
)
    requires
        settle_error(l, sender, from, items, msg, now) is None,
        0 <= j < pools_of(l).len(),
    ensures
        payout(l, items, j, now) < pools_of(l)[j].total_rewards,
        debited(pools_of(l)[j], payout(l, items, j, now)).total_rewards
            == pools_of(l)[j].total_rewards - payout(l, items, j, now),
        debited(pools_of(l)[j], payout(l, items, j, now)).total_rewards > 0,
{
    match msg {
        Some(HandleNftReceiveMsg::ClaimBurnRewards { expected_rewards, message }) => {
            lemma_no_pool_error_from(l, items, expected_rewards@, 0, now);
            assert(payout(l, items, j, now) < pools_of(l)[j].total_rewards);
            lemma_base_sum_mono(l, items, j, 0, items.len() as int);
        },
        None => {},
    }
}

/// A batch in which some pool's computed reward falls below one of the
/// submitter's floors is refused as a whole; the settlement then leaves the
/// ledger unchanged.
pub proof fn lemma_unmet_expectation_refuses(
    l: Ledger,
    sender: Seq<char>,
    from: Seq<char>,
    items: Seq<BurnItem>,
    msg: Option<HandleNftReceiveMsg>,
    now: u64,
    j: int,
)
    requires
        msg is Some,
        0 <= j < pools_of(l).len(),
        !expectations_met_for(l, items, msg->Some_0->ClaimBurnRewards_expected_rewards@, j, now),
    ensures
        settle_error(l, sender, from, items, msg, now) is Some,
{
    lemma_pool_error_at(l, items, msg->Some_0->ClaimBurnRewards_expected_rewards@, 0, j, now);
}

fn debit_pools(pools: Vec<RewardsContractInfo>, per_pool: &Vec<Reward>) -> (r: Vec<RewardsContractInfo>)
    requires
        per_pool@.len() == pools@.len(),
        forall|j: int| 0 <= j < pools@.len() ==>
            (#[trigger] per_pool@[j]).base_reward + per_pool@[j].bonus_reward < pools@[j].total_rewards,
    ensures
        r@ == Seq::new(
            pools@.len(),
            |j: int| debited(pools@[j], per_pool@[j].base_reward + per_pool@[j].bonus_reward),
        ),
{
    let ghost orig = pools@;
    let mut pools = pools;
    let mut out: Vec<RewardsContractInfo> = Vec::new();
    let mut j: usize = 0;
    let n = pools.len();
    while j < n
        invariant
            j <= orig.len(),
            n == orig.len(),
            pools@ == orig.subrange(j as int, orig.len() as int),
            per_pool@.len() == orig.len(),
            forall|jj: int| 0 <= jj < orig.len() ==>
                (#[trigger] per_pool@[jj]).base_reward + per_pool@[jj].bonus_reward < orig[jj].total_rewards,
            out@ =~= Seq::new(
                j as nat,
                |jj: int| debited(orig[jj], per_pool@[jj].base_reward + per_pool@[jj].bonus_reward),
            ),
        decreases n - j,
    {
        let mut p = pools.remove(0);
        assert(p == orig[j as int]);
        let amount = per_pool[j].base_reward + per_pool[j].bonus_reward;
        p.total_rewards = p.total_rewards - amount;
        out.push(p);
        assert(pools@ =~= orig.subrange(j + 1, orig.len() as int));
        j = j + 1;
    }
    out
}

fn any_bonus_paid(per_pool: &Vec<Reward>) -> (r: bool)
    ensures
        r == exists|j: int| 0 <= j < per_pool@.len() && (#[trigger] per_pool@[j]).bonus_reward > 0,
{
    let mut j: usize = 0;
    while j < per_pool.len()
        invariant
            j <= per_pool@.len(),
            forall|jj: int| 0 <= jj < j ==> (#[trigger] per_pool@[jj]).bonus_reward == 0,
        decreases per_pool@.len() - j,
    {
        if per_pool[j].bonus_reward > 0 {
            return true;
        }
        j = j + 1;
    }
    false
}

impl Ledger {
    /// Settles a batch of items that `from` submitted through the item
    /// registry `sender`: each pool pays the summed base and rank rewards of
    /// the items and its time bonus once, every payout leaves a positive
    /// balance, each item is logged in `from`'s claim history and in the burn
    /// history, and the items are to be destroyed. A refusal changes nothing.
    pub fn try_batch_receive(
        &mut self,
        sender: &String,
        from: &String,
        items: Vec<BurnItem>,
        msg: Option<HandleNftReceiveMsg>,
        now: u64,
    ) -> (r: Result<Vec<Instruction>, ContractError>)
        requires
            old(self).wf(),
        ensures
            final(self).wf(),
            match settle_error(*old(self), sender@, from@, items@, msg, now) {
                Some(e) => r == Err::<Vec<Instruction>, ContractError>(e) && *final(self) == *old(self),
                None => match r {
                    Ok(out) => settled(*old(self), *final(self), *from, items@, payload_message(msg), now, out@),
                    Err(_) => false,
                },
            },
    {
        let ghost l = *self;
        let ghost its = items@;
        if !self.state.is_active {
            return Err(ContractError::Inactive);
        }
        if !(*sender == self.state.nft_contract.address) {
            return Err(ContractError::UntrustedCaller);
        }
        let (expected, message) = match msg {
            Some(HandleNftReceiveMsg::ClaimBurnRewards { expected_rewards, message }) => (expected_rewards, message),
            None => {
                return Err(ContractError::MalformedRequest);
            },
        };
        if items.len() == 0 {
            return Err(ContractError::MalformedRequest);
        }
        if !all_eligible(&items, &self.state.trait_restriction) {
            return Err(ContractError::IneligibleItem);
        }
        let (per_pool, per_item) = match reward_amounts(self, &items, now) {
            Some(amounts) => amounts,
            None => {
                return Err(ContractError::Overflow);
            },
        };
        let n = items.len();
        if n as u64 > u32::MAX as u64
            || self.state.total_burned_amount as u64 + n as u64 > u32::MAX as u64
            || self.burn_history.count() as u64 + n as u64 > u32::MAX as u64
            || self.user_history.count(from) as u64 + n as u64 > u32::MAX as u64 {
            return Err(ContractError::Overflow);
        }
        if !all_expectations_named(self, &expected) {
            return Err(ContractError::ExpectationNotMet);
        }
        match pool_error(self, &items, &expected, &per_pool, now) {
            Some(e) => {
                return Err(e);
            },
            None => {},
        }
        let np = self.state.reward_contracts.len();
        // payouts to the submitter, in pool order
        let mut out: Vec<Instruction> = Vec::new();
        let mut j: usize = 0;
        while j < np
            invariant
                j <= np,
                *self == l,
                np == pools_of(l).len(),
                per_pool@.len() == np,
                forall|jj: int| 0 <= jj < np ==> {
                    &&& (#[trigger] per_pool@[jj]).base_reward == base_sum(l, its, jj, its.len() as int)
                    &&& per_pool@[jj].bonus_reward == bonus(l, jj, now)
                },
                rewards_fit(l, its, now),
                out@ == payout_transfers(l, its, *from, j as int, now),
            decreases np - j,
        {
            assert(payout(l, its, j as int, now) <= u128::MAX);
            let amount = per_pool[j].base_reward + per_pool[j].bonus_reward;
            if amount > 0 {
                out.push(Instruction::Transfer {
                    recipient: from.clone(),
                    amount: amount,
                    code_hash: self.state.reward_contracts[j].code_hash.clone(),
                    address: self.state.reward_contracts[j].address.clone(),
                });
            }
            j = j + 1;
        }
        // the claim history entries
        let mut claims: Vec<History> = Vec::new();
        let mut i: usize = 0;
        while i < n
            invariant
                i <= n,
                n == its.len(),
                items@ == its,
                per_item@.len() == n,
                forall|ii: int| 0 <= ii < n ==> #[trigger] per_item@[ii] == entry_reward(l, its, ii, now),
                claims@ =~= Seq::new(i as nat, |ii: int| claim_entry(l, its, ii, message, now)),
            decreases n - i,
        {
            claims.push(History {
                token_id: items[i].token_id.clone(),
                message: message.clone(),
                date: now,
                rewards: per_item[i],
            });
            i = i + 1;
        }
        let mut token_ids: Vec<String> = Vec::new();
        let mut i: usize = 0;
        while i < n
            invariant
                i <= n,
                n == its.len(),
                items@ == its,
                token_ids@ =~= Seq::new(i as nat, |ii: int| its[ii].token_id),
            decreases n - i,
        {
            token_ids.push(items[i].token_id.clone());
            i = i + 1;
        }
        let bonus_paid = any_bonus_paid(&per_pool);
        assert(bonus_paid == any_bonus(l, now)) by {
            if bonus_paid {
                let jj = choose|jj: int| 0 <= jj < per_pool@.len() && (#[trigger] per_pool@[jj]).bonus_reward > 0;
                assert(bonus(l, jj, now) > 0);
            } else {
                assert forall|jj: int| 0 <= jj < np implies !(#[trigger] bonus(l, jj, now) > 0) by {
                    assert(per_pool@[jj].bonus_reward == bonus(l, jj, now));
                }
            }
        }
        // commit
        let mut pools: Vec<RewardsContractInfo> = Vec::new();
        std::mem::swap(&mut pools, &mut self.state.reward_contracts);
        proof {
            assert forall|jj: int| 0 <= jj < np implies
                (#[trigger] per_pool@[jj]).base_reward + per_pool@[jj].bonus_reward < pools@[jj].total_rewards by {
                assert(payout(l, its, jj, now) < pools_of(l)[jj].total_rewards);
            }
        }
        let debited_pools = debit_pools(pools, &per_pool);
        assert(debited_pools@ =~= Seq::new(
            pools_of(l).len(),
            |jj: int| debited(pools_of(l)[jj], payout(l, its, jj, now)),
        ));
        self.state.reward_contracts = debited_pools;
        if bonus_paid {
            self.state.burn_counter_date = now;
        }
        self.state.total_burned_amount = self.state.total_burned_amount + n as u32;
        self.user_history.append_all(from, claims);
        let mut log: HistoryLog<HistoryFull> = HistoryLog::new();
        std::mem::swap(&mut log, &mut self.burn_history);
        let mut items = items;
        let mut i: usize = 0;
        while items.len() > 0
            invariant
                i <= n,
                n == its.len(),
                items@ == its.subrange(i as int, n as int),
                l.burn_history.entries@.len() + n <= u32::MAX,
                log.entries@ =~= l.burn_history.entries@ + Seq::new(i as nat, |ii: int| burn_entry(its, ii, message, now)),
            decreases items@.len(),
        {
            let it = items.remove(0);
            assert(it == its[i as int]);
            log.push(HistoryFull {
                token_id: it.token_id,
                message: message.clone(),
                date: now,
                meta_data: it.public_metadata,
            });
            assert(items@ =~= its.subrange(i + 1, n as int));
            i = i + 1;
        }
        self.burn_history = log;
        out.push(Instruction::BurnBatch {
            token_ids: token_ids,
            code_hash: self.state.nft_contract.code_hash.clone(),
            address: self.state.nft_contract.address.clone(),
        });
        proof {
            let tr = payout_transfers(l, its, *from, np as int, now);
            assert(out@.subrange(0, out@.len() - 1) =~= tr);
            assert(settle_error(l, sender@, from@, its, msg, now) is None);
            assert(payload_message(msg) == message);
            assert(self.state.reward_contracts@ == Seq::new(
                pools_of(l).len(),
                |jj: int| debited(pools_of(l)[jj], payout(l, its, jj, now)),
            ));
            assert(self.state.total_burned_amount == l.state.total_burned_amount + its.len());
            assert(self.burn_history.entries@ == l.burn_history.entries@ + Seq::new(
                its.len(),
                |ii: int| burn_entry(its, ii, message, now),
            ));
            assert(self.user_history.entries_of(from@) == l.user_history.entries_of(from@) + Seq::new(
                its.len(),
                |ii: int| claim_entry(l, its, ii, message, now),
            ));
            assert(self.wf());
        }
        Ok(out)
    }
}

/// One instruction per pool to register `key` as this ledger's viewing key there.
pub open spec fn viewing_key_instructions(key: String, pools: Seq<RewardsContractInfo>) -> Seq<Instruction> {
    Seq::new(
        pools.len(),
        |j: int| Instruction::SetViewingKey { key: key, code_hash: pools[j].code_hash, address: pools[j].address },
    )
}

/// One instruction per pool to pay its whole balance to `to`.
pub open spec fn withdrawal_instructions(to: String, pools: Seq<RewardsContractInfo>) -> Seq<Instruction> {
    Seq::new(
        pools.len(),
        |j: int| Instruction::Transfer {
            recipient: to,
            amount: pools[j].total_rewards,
            code_hash: pools[j].code_hash,
            address: pools[j].address,
        },
    )
}

/// Some pool holds funds.
pub open spec fn some_pool_funded(pools: Seq<RewardsContractInfo>) -> bool {
    exists|j: int| 0 <= j < pools.len() && #[trigger] pools[j].total_rewards != 0
}

/// The first pool whose token source is at `address`.
pub open spec fn pool_at(pools: Seq<RewardsContractInfo>, address: Seq<char>, j: int) -> bool {
    &&& 0 <= j < pools.len()
    &&& pools[j].address@ == address
    &&& forall|jj: int| 0 <= jj < j ==> pools[jj].address@ != address
}

fn pool_position(pools: &Vec<RewardsContractInfo>, address: &String) -> (r: Option<usize>)
    ensures
        r matches Some(j) ==> pool_at(pools@, address@, j as int),
        r is None ==> !(exists|j: int| pool_at(pools@, address@, j)),
{
    let mut j: usize = 0;
    while j < pools.len()
        invariant
            j <= pools@.len(),
            forall|jj: int| 0 <= jj < j ==> pools@[jj].address@ != address@,
        decreases pools@.len() - j,
    {
        if pools[j].address == *address {
            return Some(j);
        }
        j = j + 1;
    }
    None
}

fn set_viewing_key_all(key: &String, pools: &Vec<RewardsContractInfo>) -> (r: Vec<Instruction>)
    ensures
        r@ == viewing_key_instructions(*key, pools@),
{
    let mut out: Vec<Instruction> = Vec::new();
    let mut j: usize = 0;
    while j < pools.len()
        invariant
            j <= pools@.len(),
            out@ =~= viewing_key_instructions(*key, pools@.subrange(0, j as int)),
        decreases pools@.len() - j,
    {
        out.push(Instruction::SetViewingKey {
            key: key.clone(),
            code_hash: pools[j].code_hash.clone(),
            address: pools[j].address.clone(),
        });
        j = j + 1;
    }
    assert(pools@.subrange(0, j as int) =~= pools@);
    out
}

fn any_pool_funded(pools: &Vec<RewardsContractInfo>) -> (r: bool)
    ensures
        r == some_pool_funded(pools@),
{
    let mut j: usize = 0;
    while j < pools.len()
        invariant
            j <= pools@.len(),
            forall|jj: int| 0 <= jj < j ==> pools@[jj].total_rewards == 0,
        decreases pools@.len() - j,
    {
        if pools[j].total_rewards != 0 {
            return true;
        }
        j = j + 1;
    }
    false
}

impl Ledger {
    /// Creates a ledger owned by `sender`, active, with its bonus clock at
    /// `now`, no burns, and a viewing key derived from the entropy. The
    /// instructions register this ledger, whose code hash is `own_code_hash`,
    /// for notifications at the item registry, and its viewing key at the
    /// item registry and at each pool.
    pub fn instantiate(sender: &String, own_code_hash: &String, msg: InstantiateMsg, now: u64) -> (r: (Ledger, Vec<Instruction>))
        ensures
            r.0.wf(),
            r.0.state.owner == *sender,
            r.0.state.is_active,
            r.0.state.nft_contract == msg.nft_contract,
            r.0.state.reward_contracts == msg.reward_contracts,
            r.0.state.viewing_key matches Some(k) && k@ == derived_key(msg.entropy@),
            r.0.state.total_burned_amount == 0,
            r.0.state.trait_restriction == msg.trait_restriction,
            r.0.state.burn_counter_date == now,
            forall|t: Seq<char>| #[trigger] r.0.ranks.lookup_spec(t) == lookup_after(Seq::empty(), msg.ranks@, t),
            forall|o: Seq<char>| #[trigger] r.0.user_history.entries_of(o) == Seq::<History>::empty(),
            r.0.burn_history.entries@ == Seq::<HistoryFull>::empty(),
            r.0.admin_viewing_key is None,
            r.1@.len() == msg.reward_contracts@.len() + 2,
            r.1@[0] == (Instruction::RegisterReceive {
                callback_code_hash: *own_code_hash,
                code_hash: msg.nft_contract.code_hash,
                address: msg.nft_contract.address,
            }),
            r.1@[1] == (Instruction::SetViewingKey {
                key: r.0.state.viewing_key->Some_0,
                code_hash: msg.nft_contract.code_hash,
                address: msg.nft_contract.address,
            }),
            r.1@.subrange(2, r.1@.len() as int) == viewing_key_instructions(
                r.0.state.viewing_key->Some_0,
                msg.reward_contracts@,
            ),
    {
        let key = derive_viewing_key(msg.entropy.as_str());
        let mut ranks = RankTable::new();
        assert(ranks.entries@ =~= Seq::<Rank>::empty());
        ranks.upsert_all(msg.ranks);
        let mut out: Vec<Instruction> = Vec::new();
        out.push(Instruction::RegisterReceive {
            callback_code_hash: own_code_hash.clone(),
            code_hash: msg.nft_contract.code_hash.clone(),
            address: msg.nft_contract.address.clone(),
        });
        out.push(Instruction::SetViewingKey {
            key: key.clone(),
            code_hash: msg.nft_contract.code_hash.clone(),
            address: msg.nft_contract.address.clone(),
        });
        let mut rest = set_viewing_key_all(&key, &msg.reward_contracts);
        let ghost tail = rest@;
        out.append(&mut rest);
        assert(out@.subrange(2, out@.len() as int) =~= tail);
        let state = State {
            owner: sender.clone(),
            is_active: true,
            nft_contract: msg.nft_contract,
            reward_contracts: msg.reward_contracts,
            viewing_key: Some(key),
            total_burned_amount: 0,
            trait_restriction: msg.trait_restriction,
            burn_counter_date: now,
        };
        let ledger = Ledger {
            state,
            ranks,
            user_history: UserHistories::new(),
            burn_history: HistoryLog::new(),
            admin_viewing_key: None,
        };
        (ledger, out)
    }

    /// Replaces the pools wholesale; only the owner may, and only while no
    /// pool holds funds. The instructions register the ledger's viewing key
    /// at each new pool.
    pub fn try_update_reward_contract(&mut self, sender: &String, contracts: Vec<RewardsContractInfo>) -> (r: Result<Vec<Instruction>, ContractError>)
        ensures
            sender@ != old(self).state.owner@ ==> r == Err::<Vec<Instruction>, ContractError>(ContractError::Unauthorized),
            sender@ == old(self).state.owner@ && some_pool_funded(old(self).state.reward_contracts@)
                ==> r == Err::<Vec<Instruction>, ContractError>(ContractError::PoolBusy),
            r is Err ==> *final(self) == *old(self),
            r matches Ok(out) ==> {
                &&& *final(self) == (Ledger { state: State { reward_contracts: contracts, ..old(self).state }, ..*old(self) })
                &&& out@ == match old(self).state.viewing_key {
                    Some(k) => viewing_key_instructions(k, contracts@),
                    None => Seq::empty(),
                }
            },
            sender@ == old(self).state.owner@ && !some_pool_funded(old(self).state.reward_contracts@) ==> r is Ok,
    {
        if !(*sender == self.state.owner) {
            return Err(ContractError::Unauthorized);
        }
        if any_pool_funded(&self.state.reward_contracts) {
            return Err(ContractError::PoolBusy);
        }
        let out = match &self.state.viewing_key {
            Some(k) => set_viewing_key_all(k, &contracts),
            None => Vec::new(),
        };
        self.state.reward_contracts = contracts;
        Ok(out)
    }

    /// Upserts rank entries in order; only the owner may.
    pub fn try_update_ranks(&mut self, sender: &String, ranks: Vec<Rank>) -> (r: Result<(), ContractError>)
        ensures
            sender@ != old(self).state.owner@ ==> r == Err::<(), ContractError>(ContractError::Unauthorized)
                && *final(self) == *old(self),
            sender@ == old(self).state.owner@ ==> {
                &&& r is Ok
                &&& final(self).state == old(self).state
                &&& final(self).user_history == old(self).user_history
                &&& final(self).burn_history == old(self).burn_history
                &&& final(self).admin_viewing_key == old(self).admin_viewing_key
                &&& forall|t: Seq<char>| #[trigger] final(self).ranks.lookup_spec(t)
                    == lookup_after(old(self).ranks.entries@, ranks@, t)
            },
    {
        if !(*sender == self.state.owner) {
            return Err(ContractError::Unauthorized);
        }
        self.ranks.upsert_all(ranks);
        Ok(())
    }

    /// Pays every pool's whole balance to the owner and empties the pools;
    /// only the owner may.
    pub fn try_remove_rewards(&mut self, sender: &String) -> (r: Result<Vec<Instruction>, ContractError>)
        ensures
            sender@ != old(self).state.owner@ ==> r == Err::<Vec<Instruction>, ContractError>(ContractError::Unauthorized)
                && *final(self) == *old(self),
            sender@ == old(self).state.owner@ ==> (r matches Ok(out) && {
                &&& out@ == withdrawal_instructions(*sender, old(self).state.reward_contracts@)
                &&& final(self).state.reward_contracts@ == Seq::new(
                    old(self).state.reward_contracts@.len(),
                    |j: int| debited(old(self).state.reward_contracts@[j], old(self).state.reward_contracts@[j].total_rewards as int),
                )
                &&& !some_pool_funded(final(self).state.reward_contracts@)
                &&& final(self).state.owner == old(self).state.owner
                &&& final(self).state.is_active == old(self).state.is_active
                &&& final(self).state.nft_contract == old(self).state.nft_contract
                &&& final(self).state.viewing_key == old(self).state.viewing_key
                &&& final(self).state.total_burned_amount == old(self).state.total_burned_amount
                &&& final(self).state.trait_restriction == old(self).state.trait_restriction
                &&& final(self).state.burn_counter_date == old(self).state.burn_counter_date
                &&& final(self).ranks == old(self).ranks
                &&& final(self).user_history == old(self).user_history
                &&& final(self).burn_history == old(self).burn_history
                &&& final(self).admin_viewing_key == old(self).admin_viewing_key
            }),
    {
        if !(*sender == self.state.owner) {
            return Err(ContractError::Unauthorized);
        }
        let mut pools: Vec<RewardsContractInfo> = Vec::new();
        std::mem::swap(&mut pools, &mut self.state.reward_contracts);
        let ghost orig = pools@;
        let n = pools.len();
        let mut out: Vec<Instruction> = Vec::new();
        let mut emptied: Vec<RewardsContractInfo> = Vec::new();
        let mut j: usize = 0;
        while j < n
            invariant
                j <= n,
                n == orig.len(),
                pools@ == orig.subrange(j as int, n as int),
                out@ =~= withdrawal_instructions(*sender, orig.subrange(0, j as int)),
                emptied@ =~= Seq::new(j as nat, |jj: int| debited(orig[jj], orig[jj].total_rewards as int)),
            decreases n - j,
        {
            let mut p = pools.remove(0);
            assert(p == orig[j as int]);
            out.push(Instruction::Transfer {
                recipient: sender.clone(),
                amount: p.total_rewards,
                code_hash: p.code_hash.clone(),
                address: p.address.clone(),
            });
            p.total_rewards = 0;
            emptied.push(p);
            assert(pools@ =~= orig.subrange(j + 1, n as int));
            j = j + 1;
        }
        assert(orig.subrange(0, n as int) =~= orig);
        self.state.reward_contracts = emptied;
        assert(!some_pool_funded(self.state.reward_contracts@));
        Ok(out)
    }

    /// Opens or closes the ledger to batch claims; only the owner may.
    pub fn try_set_active_state(&mut self, sender: &String, is_active: bool) -> (r: Result<(), ContractError>)
        ensures
            sender@ != old(self).state.owner@ ==> r == Err::<(), ContractError>(ContractError::Unauthorized)
                && *final(self) == *old(self),
            sender@ == old(self).state.owner@ ==> r is Ok
                && *final(self) == (Ledger { state: State { is_active: is_active, ..old(self).state }, ..*old(self) }),
    {
        if !(*sender == self.state.owner) {
            return Err(ContractError::Unauthorized);
        }
        self.state.is_active = is_active;
        Ok(())
    }

    /// Restarts the time bonus from `now`; only the owner may.
    pub fn try_reset_burn_counter_date(&mut self, sender: &String, now: u64) -> (r: Result<(), ContractError>)
        ensures
            sender@ != old(self).state.owner@ ==> r == Err::<(), ContractError>(ContractError::Unauthorized)
                && *final(self) == *old(self),
            sender@ == old(self).state.owner@ ==> r is Ok
                && *final(self) == (Ledger { state: State { burn_counter_date: now, ..old(self).state }, ..*old(self) }),
    {
        if !(*sender == self.state.owner) {
            return Err(ContractError::Unauthorized);
        }
        self.state.burn_counter_date = now;
        Ok(())
    }

    /// Registers the owner's viewing key for balance queries, stored in its
    /// derived form; only the owner may.
    pub fn try_set_viewing_key(&mut self, sender: &String, key: &String) -> (r: Result<(), ContractError>)
        ensures
            sender@ != old(self).state.owner@ ==> r == Err::<(), ContractError>(ContractError::Unauthorized)
                && *final(self) == *old(self),
            sender@ == old(self).state.owner@ ==> {
                &&& r is Ok
                &&& final(self).state == old(self).state
                &&& final(self).ranks == old(self).ranks
                &&& final(self).user_history == old(self).user_history
                &&& final(self).burn_history == old(self).burn_history
                &&& (final(self).admin_viewing_key matches Some(v)
                    && v.address == *sender && v.viewing_key@ == derived_key(key@))
            },
    {
        if !(*sender == self.state.owner) {
            return Err(ContractError::Unauthorized);
        }
        let derived = derive_viewing_key(key.as_str());
        self.admin_viewing_key = Some(ViewerInfo { address: sender.clone(), viewing_key: derived });
        Ok(())
    }

    /// Admits a balance query only with the owner's registered viewing key.
    pub fn check_admin_key(&self, viewer: &ViewerInfo) -> (r: Result<(), ContractError>)
        ensures
            r is Ok <==> match self.admin_viewing_key {
                Some(v) => v.viewing_key@ == derived_key(viewer.viewing_key@) && v.address@ == viewer.address@,
                None => false,
            },
            r matches Err(e) ==> e is Unauthorized,
    {
        check_admin_key(&self.admin_viewing_key, viewer)
    }

    /// Credits a deposit of `amount` to the pool whose token source sent it.
    pub fn receive(&mut self, token_sender: &String, amount: u128, msg: Option<HandleReceiveMsg>) -> (r: Result<(), ContractError>)
        ensures
            msg is None ==> r == Err::<(), ContractError>(ContractError::MalformedRequest),
            msg is Some && !(exists|j: int| pool_at(old(self).state.reward_contracts@, token_sender@, j))
                ==> r == Err::<(), ContractError>(ContractError::UntrustedCaller),
            forall|j: int| msg is Some && pool_at(old(self).state.reward_contracts@, token_sender@, j) ==> {
                &&& (old(self).state.reward_contracts@[j].total_rewards + amount > u128::MAX
                    ==> r == Err::<(), ContractError>(ContractError::Overflow))
                &&& (old(self).state.reward_contracts@[j].total_rewards + amount <= u128::MAX ==> {
                    &&& r is Ok
                    &&& final(self).state.reward_contracts@ == old(self).state.reward_contracts@.update(
                        j,
                        debited(old(self).state.reward_contracts@[j], -amount),
                    )
                })
            },
            r is Err ==> *final(self) == *old(self),
            final(self).state.owner == old(self).state.owner,
            final(self).state.is_active == old(self).state.is_active,
            final(self).state.nft_contract == old(self).state.nft_contract,
            final(self).state.viewing_key == old(self).state.viewing_key,
            final(self).state.total_burned_amount == old(self).state.total_burned_amount,
            final(self).state.trait_restriction == old(self).state.trait_restriction,
            final(self).state.burn_counter_date == old(self).state.burn_counter_date,
            final(self).ranks == old(self).ranks,
            final(self).user_history == old(self).user_history,
            final(self).burn_history == old(self).burn_history,
            final(self).admin_viewing_key == old(self).admin_viewing_key,
    {
        if msg.is_none() {
            return Err(ContractError::MalformedRequest);
        }
        let ghost s = self.state.reward_contracts@;
        match pool_position(&self.state.reward_contracts, token_sender) {
            None => Err(ContractError::UntrustedCaller),
            Some(j) => {
                assert forall|k: int| pool_at(s, token_sender@, k) implies k == j by {
                    if k > j {
                        assert(s[j as int].address@ == token_sender@);
                    }
                }
                if self.state.reward_contracts[j].total_rewards > u128::MAX - amount {
                    return Err(ContractError::Overflow);
                }
                let mut p = self.state.reward_contracts.remove(j);
                p.total_rewards = p.total_rewards + amount;
                self.state.reward_contracts.insert(j, p);
                assert(self.state.reward_contracts@ =~= s.update(j as int, debited(s[j as int], -amount)));
                Ok(())
            },
        }
    }

    /// What each item earns from each pool at time `now`, item by item and
    /// pool by pool; refused only where a total does not fit in `u128`.
    pub fn query_expected_rewards(&self, token_ids: &Vec<String>, now: u64) -> (r: Result<ExpectedRewardResponse, ContractError>)
        ensures
            r is Ok <==> forall|i: int, j: int| 0 <= i < token_ids@.len() && 0 <= j < pools_of(*self).len()
                ==> #[trigger] estimate_total(pools_of(*self)[j], self.ranks.lookup_spec(token_ids@[i]@), now, self.state.burn_counter_date) <= u128::MAX,
            r matches Ok(resp) ==> resp.expected_rewards@.len() == token_ids@.len() && forall|i: int| 0 <= i < token_ids@.len() ==> {
                &&& (#[trigger] resp.expected_rewards@[i])@.len() == pools_of(*self).len()
                &&& forall|j: int| 0 <= j < pools_of(*self).len() ==> is_estimate(
                    resp.expected_rewards@[i]@[j],
                    token_ids@[i]@,
                    pools_of(*self)[j],
                    self.ranks.lookup_spec(token_ids@[i]@),
                    now,
                    self.state.burn_counter_date,
                )
            },
            r matches Err(e) ==> e is Overflow,
    {
        let mut all: Vec<Vec<ExpectedReward>> = Vec::new();
        let mut i: usize = 0;
        while i < token_ids.len()
            invariant
                i <= token_ids@.len(),
                all@.len() == i,
                forall|ii: int, j: int| 0 <= ii < i && 0 <= j < pools_of(*self).len()
                    ==> #[trigger] estimate_total(pools_of(*self)[j], self.ranks.lookup_spec(token_ids@[ii]@), now, self.state.burn_counter_date) <= u128::MAX,
                forall|ii: int| 0 <= ii < i ==> {
                    &&& (#[trigger] all@[ii])@.len() == pools_of(*self).len()
                    &&& forall|j: int| 0 <= j < pools_of(*self).len() ==> is_estimate(
                        all@[ii]@[j],
                        token_ids@[ii]@,
                        pools_of(*self)[j],
                        self.ranks.lookup_spec(token_ids@[ii]@),
                        now,
                        self.state.burn_counter_date,
                    )
                },
            decreases token_ids@.len() - i,
        {
            match self.get_estimated_rewards(&token_ids[i], now) {
                Ok(v) => { all.push(v); },
                Err(e) => {
                    return Err(e);
                },
            }
            i = i + 1;
        }
        Ok(ExpectedRewardResponse { expected_rewards: all })
    }

    /// What one item earns from each pool at time `now`, in pool order;
    /// refused only where a total does not fit in `u128`.
    pub fn get_estimated_rewards(&self, token_id: &String, now: u64) -> (r: Result<Vec<ExpectedReward>, ContractError>)
        ensures
            r is Ok <==> forall|j: int| 0 <= j < pools_of(*self).len()
                ==> #[trigger] estimate_total(pools_of(*self)[j], self.ranks.lookup_spec(token_id@), now, self.state.burn_counter_date) <= u128::MAX,
            r matches Ok(v) ==> {
                &&& v@.len() == pools_of(*self).len()
                &&& forall|j: int| 0 <= j < pools_of(*self).len() ==> is_estimate(
                    #[trigger] v@[j],
                    token_id@,
                    pools_of(*self)[j],
                    self.ranks.lookup_spec(token_id@),
                    now,
                    self.state.burn_counter_date,
                )
            },
            r matches Err(e) ==> e is Overflow,
    {
        let entry = self.ranks.lookup(token_id);
        let pools = &self.state.reward_contracts;
        let mut out: Vec<ExpectedReward> = Vec::new();
        let mut j: usize = 0;
        while j < pools.len()
            invariant
                j <= pools@.len(),
                pools == &self.state.reward_contracts,
                match entry { Some(e) => Some(*e), None => None } == self.ranks.lookup_spec(token_id@),
                out@.len() == j,
                forall|jj: int| 0 <= jj < j ==> #[trigger] estimate_total(pools@[jj], self.ranks.lookup_spec(token_id@), now, self.state.burn_counter_date) <= u128::MAX,
                forall|jj: int| 0 <= jj < j ==> is_estimate(
                    #[trigger] out@[jj],
                    token_id@,
                    pools@[jj],
                    self.ranks.lookup_spec(token_id@),
                    now,
                    self.state.burn_counter_date,
                ),
            decreases pools@.len() - j,
        {
            match estimate(token_id, &pools[j], entry, now, self.state.burn_counter_date) {
                Ok(v) => { out.push(v); },
                Err(e) => {
                    assert(!(estimate_total(pools_of(*self)[j as int], self.ranks.lookup_spec(token_id@), now, self.state.burn_counter_date) <= u128::MAX));
                    return Err(e);
                },
            }
            j = j + 1;
        }
        Ok(out)
    }

    /// The ledger's configuration and counters.
    pub fn query_burn_info(&self) -> (r: BurnInfoResponse)
        ensures
            r.total_burned_amount == self.state.total_burned_amount,
            r.nft_contract == self.state.nft_contract,
            r.reward_contracts@ == self.state.reward_contracts@,
            r.trait_restriction == self.state.trait_restriction,
            r.is_active == self.state.is_active,
            r.burn_counter_date == self.state.burn_counter_date,
    {
        let mut pools: Vec<RewardsContractInfo> = Vec::new();
        let mut j: usize = 0;
        while j < self.state.reward_contracts.len()
            invariant
                j <= self.state.reward_contracts@.len(),
                pools@ =~= self.state.reward_contracts@.subrange(0, j as int),
            decreases self.state.reward_contracts@.len() - j,
        {
            pools.push(self.state.reward_contracts[j].copy());
            j = j + 1;
        }
        assert(self.state.reward_contracts@.subrange(0, j as int) =~= self.state.reward_contracts@);
        let restriction = match &self.state.trait_restriction {
            Some(t) => Some(t.clone()),
            None => None,
        };
        BurnInfoResponse {
            total_burned_amount: self.state.total_burned_amount,
            nft_contract: self.state.nft_contract.copy(),
            reward_contracts: pools,
            trait_restriction: restriction,
            is_active: self.state.is_active,
            burn_counter_date: self.state.burn_counter_date,
        }
    }

    /// How many claims `user` has made.
    pub fn query_num_user_history(&self, user: &String) -> (r: u32)
        requires
            self.wf(),
        ensures
            r == self.user_history.entries_of(user@).len(),
    {
        self.user_history.count(user)
    }

    /// One page of `user`'s claim history, in the order of settlement.
    pub fn query_user_history(&self, user: &String, start_page: u32, page_size: u32) -> (r: &[History])
        ensures
            r@ == page_of(self.user_history.entries_of(user@), start_page, page_size),
    {
        self.user_history.page(user, start_page, page_size)
    }

    /// How many items the burn history holds.
    pub fn query_num_full_history(&self) -> (r: u32)
        requires
            self.wf(),
        ensures
            r == self.burn_history.entries@.len(),
    {
        self.burn_history.count()
    }

    /// One page of the burn history, in the order of burning.
    pub fn query_full_history(&self, start_page: u32, page_size: u32) -> (r: &[HistoryFull])
        ensures
            r@ == page_of(self.burn_history.entries@, start_page, page_size),
    {
        self.burn_history.page(start_page, page_size)
    }
}

} // verus!
