use vstd::prelude::*;
use crate::types::{BurnType, ContractError, ExpectedReward, Rank, RankReward, RewardsContractInfo};

verus! {

/// Seconds in one hour: the time bonus accrues per whole hour.
pub const SECONDS_PER_HOUR: u64 = 3600;

/// The first rank reward that names the given pool.
pub open spec fn find_rank_reward(s: Seq<RankReward>, pool_name: Seq<char>) -> Option<RankReward>
    decreases s.len(),
{
    if s.len() == 0 {
        None
    } else if s[0].reward_contract_name@ == pool_name {
        Some(s[0])
    } else {
        find_rank_reward(s.drop_first(), pool_name)
    }
}

/// The first rank entry of the given item.
pub open spec fn find_rank(s: Seq<Rank>, token_id: Seq<char>) -> Option<Rank>
    decreases s.len(),
{
    if s.len() == 0 {
        None
    } else if s[0].token_id@ == token_id {
        Some(s[0])
    } else {
        find_rank(s.drop_first(), token_id)
    }
}

/// Whole hours from `clock` to `now`; none when `now` is not later.
pub open spec fn hours_elapsed(now: u64, clock: u64) -> int {
    if now > clock {
        (now - clock) as int / SECONDS_PER_HOUR as int
    } else {
        0
    }
}

/// The time-decaying bonus of a pool: its hourly amount for each whole hour since the clock.
pub open spec fn time_bonus(pool: RewardsContractInfo, now: u64, clock: u64) -> int {
    if pool.bonus_hourly > 0 {
        hours_elapsed(now, clock) * pool.bonus_hourly
    } else {
        0
    }
}

/// The rank bonus that a pool grants to an item with the given rank entry.
pub open spec fn rank_bonus(pool: RewardsContractInfo, entry: Option<Rank>) -> int {
    match entry {
        None => 0,
        Some(r) => match pool.burn_type {
            BurnType::Normal => 0,
            BurnType::Rank => match find_rank_reward(r.rank_rewards@, pool.name@) {
                Some(rr) => rr.rank_reward as int,
                None => 0,
            },
            BurnType::RankOffset { bonus_start } => {
                if bonus_start > r.rank as u128 {
                    bonus_start - r.rank
                } else {
                    0
                }
            },
        },
    }
}

/// The rank that the estimate reports: the entry's rank, for pools that reward rank.
pub open spec fn reported_rank(pool: RewardsContractInfo, entry: Option<Rank>) -> Option<u32> {
    match entry {
        Some(r) => match pool.burn_type {
            BurnType::Normal => None,
            _ => Some(r.rank),
        },
        None => None,
    }
}

/// What one item earns from a pool apart from the time bonus.
pub open spec fn unit_reward(pool: RewardsContractInfo, entry: Option<Rank>) -> int {
    pool.base_reward + rank_bonus(pool, entry)
}

/// Everything one item earns from a pool.
pub open spec fn estimate_total(pool: RewardsContractInfo, entry: Option<Rank>, now: u64, clock: u64) -> int {
    unit_reward(pool, entry) + time_bonus(pool, now, clock)
}

/// `r` is the estimate of what the item earns from the pool.
pub open spec fn is_estimate(
    r: ExpectedReward,
    token_id: Seq<char>,
    pool: RewardsContractInfo,
    entry: Option<Rank>,
    now: u64,
    clock: u64,
) -> bool {
    &&& r.base_reward_expected == pool.base_reward
    &&& r.rank_reward_expected == rank_bonus(pool, entry)
    &&& r.bonus_expected == time_bonus(pool, now, clock)
    &&& r.total_expected == estimate_total(pool, entry, now, clock)
    &&& r.token_id@ == token_id
    &&& r.rank == reported_rank(pool, entry)
    &&& r.reward_contract_name@ == pool.name@
}

/// With no hourly amount a pool pays no time bonus, whatever time has passed.
pub proof fn lemma_no_hourly_no_time_bonus(pool: RewardsContractInfo, now: u64, clock: u64)
    requires
        pool.bonus_hourly == 0,
    ensures
        time_bonus(pool, now, clock) == 0,
{
}

/// The estimate is a function of its inputs: two estimates of one item in
/// one pool, with one rank entry and one clock, agree in every component.
pub proof fn lemma_estimate_deterministic(
    a: ExpectedReward,
    b: ExpectedReward,
    token_id: Seq<char>,
    pool: RewardsContractInfo,
    entry: Option<Rank>,
    now: u64,
    clock: u64,
)
    requires
        is_estimate(a, token_id, pool, entry, now, clock),
        is_estimate(b, token_id, pool, entry, now, clock),
    ensures
        a.base_reward_expected == b.base_reward_expected,
        a.rank_reward_expected == b.rank_reward_expected,
        a.bonus_expected == b.bonus_expected,
        a.total_expected == b.total_expected,
        a.token_id@ == b.token_id@,
        a.rank == b.rank,
        a.reward_contract_name@ == b.reward_contract_name@,
{
}

/// The time bonus is the same for every amount of time within one whole hour.
pub proof fn lemma_time_bonus_whole_hours(pool: RewardsContractInfo, now: u64, clock: u64)
    ensures
        time_bonus(pool, now, clock) == hours_elapsed(now, clock) * (if pool.bonus_hourly > 0 { pool.bonus_hourly as int } else { 0 }),
        hours_elapsed(now, clock) * SECONDS_PER_HOUR <= (if now > clock { (now - clock) as int } else { 0 }),
{
}

/// The scheme that a pool's declared burn type names: `"rank"` for a rank
/// table, `"rank_offset"` with a starting value for the offset scheme, and
/// any other name for no rank bonus.
pub fn burn_type_from_name(name: &String, bonus_start: Option<u128>) -> (r: BurnType)
    ensures
        name@ == "rank"@ ==> r == BurnType::Rank,
        name@ == "rank_offset"@ && bonus_start is Some ==> r == (BurnType::RankOffset { bonus_start: bonus_start->Some_0 }),
        name@ != "rank"@ && !(name@ == "rank_offset"@ && bonus_start is Some) ==> r == BurnType::Normal,
{
    proof {
        reveal_strlit("rank");
        reveal_strlit("rank_offset");
        assert("rank"@.len() != "rank_offset"@.len());
    }
    let rank = String::from_str("rank");
    let offset = String::from_str("rank_offset");
    if *name == rank {
        BurnType::Rank
    } else if *name == offset {
        match bonus_start {
            Some(b) => BurnType::RankOffset { bonus_start: b },
            None => BurnType::Normal,
        }
    } else {
        BurnType::Normal
    }
}

/// The bonus that an item's rank entry lists for the named pool, or zero.
pub fn rank_reward_for(rewards: &Vec<RankReward>, pool_name: &String) -> (r: u128)
    ensures
        r == match find_rank_reward(rewards@, pool_name@) {
            Some(rr) => rr.rank_reward,
            None => 0,
        },
{
    let mut i: usize = 0;
    assert(rewards@.subrange(0, rewards@.len() as int) =~= rewards@);
    while i < rewards.len()
        invariant
            i <= rewards@.len(),
            find_rank_reward(rewards@, pool_name@) == find_rank_reward(
                rewards@.subrange(i as int, rewards@.len() as int),
                pool_name@,
            ),
        decreases rewards@.len() - i,
    {
        let rest = Ghost(rewards@.subrange(i as int, rewards@.len() as int));
        assert(rest@[0] == rewards@[i as int]);
        if rewards[i].reward_contract_name == *pool_name {
            return rewards[i].rank_reward;
        }
        assert(rest@.drop_first() =~= rewards@.subrange(i + 1, rewards@.len() as int));
        i = i + 1;
    }
    0
}

/// The time bonus of a pool, or `None` where it does not fit in `u128`.
pub fn time_bonus_of(pool: &RewardsContractInfo, now: u64, clock: u64) -> (r: Option<u128>)
    ensures
        r matches Some(v) ==> v == time_bonus(*pool, now, clock),
        r is None <==> time_bonus(*pool, now, clock) > u128::MAX,
{
    if pool.bonus_hourly > 0 && now > clock {
        let hours: u64 = (now - clock) / SECONDS_PER_HOUR;
        (hours as u128).checked_mul(pool.bonus_hourly)
    } else {
        Some(0)
    }
}

/// The rank bonus that a pool grants to an item with the given rank entry.
pub fn rank_bonus_of(pool: &RewardsContractInfo, entry: Option<&Rank>) -> (r: u128)
    ensures
        r == rank_bonus(*pool, match entry { Some(e) => Some(*e), None => None }),
{
    match entry {
        None => 0,
        Some(e) => match &pool.burn_type {
            BurnType::Normal => 0,
            BurnType::Rank => rank_reward_for(&e.rank_rewards, &pool.name),
            BurnType::RankOffset { bonus_start } => {
                if *bonus_start > e.rank as u128 {
                    *bonus_start - e.rank as u128
                } else {
                    0
                }
            },
        },
    }
}

/// Estimates what one item earns from one pool: the pool's base reward, the
/// rank bonus that the item's entry grants there, and the time bonus accrued
/// since `clock`. Refused only where the total does not fit in `u128`.
pub fn estimate(
    token_id: &String,
    pool: &RewardsContractInfo,
    entry: Option<&Rank>,
    now: u64,
    clock: u64,
) -> (r: Result<ExpectedReward, ContractError>)
    ensures
        r is Ok <==> estimate_total(*pool, match entry { Some(e) => Some(*e), None => None }, now, clock) <= u128::MAX,
        r matches Ok(v) ==> is_estimate(v, token_id@, *pool, match entry { Some(e) => Some(*e), None => None }, now, clock),
        r matches Err(e) ==> e is Overflow,
{
    let rank = rank_bonus_of(pool, entry);
    let bonus = match time_bonus_of(pool, now, clock) {
        Some(b) => b,
        None => { return Err(ContractError::Overflow); },
    };
    if rank > u128::MAX - pool.base_reward {
        return Err(ContractError::Overflow);
    }
    let unit = pool.base_reward + rank;
    if bonus > u128::MAX - unit {
        return Err(ContractError::Overflow);
    }
    let reported = match entry {
        Some(e) => match &pool.burn_type {
            BurnType::Normal => None,
            _ => Some(e.rank),
        },
        None => None,
    };
    Ok(ExpectedReward {
        base_reward_expected: pool.base_reward,
        rank_reward_expected: rank,
        bonus_expected: bonus,
        total_expected: unit + bonus,
        token_id: token_id.clone(),
        rank: reported,
        reward_contract_name: pool.name.clone(),
    })
}

} // verus!
