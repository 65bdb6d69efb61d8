use nft_burn::history::{HistoryLog, UserHistories};
use nft_burn::ledger::{Ledger, State};
use nft_burn::ranks::RankTable;
use nft_burn::rewards::estimate;
use nft_burn::types::{
    BurnItem, BurnType, ContractError, ContractInfo, ExpectedCheck, HandleNftReceiveMsg,
    Instruction, Rank, RankReward, RewardsContractInfo,
};

fn pool(name: &str, base: u128, hourly: u128, burn_type: BurnType, balance: u128) -> RewardsContractInfo {
    RewardsContractInfo {
        code_hash: format!("{}-hash", name),
        address: format!("{}-addr", name),
        base_reward: base,
        bonus_hourly: hourly,
        name: name.to_string(),
        burn_type,
        total_rewards: balance,
    }
}

fn ledger(pools: Vec<RewardsContractInfo>, clock: u64) -> Ledger {
    Ledger {
        state: State {
            owner: "owner".to_string(),
            is_active: true,
            nft_contract: ContractInfo {
                code_hash: "nft-hash".to_string(),
                address: "nft".to_string(),
                name: "nft".to_string(),
            },
            reward_contracts: pools,
            viewing_key: Some("key".to_string()),
            total_burned_amount: 200,
            trait_restriction: None,
            burn_counter_date: clock,
        },
        ranks: RankTable::new(),
        user_history: UserHistories::new(),
        burn_history: HistoryLog::new(),
        admin_viewing_key: None,
    }
}

#[test]
fn rewards_calc() {
    let expected: u128 = 650000000;
    let current_time: u64 = 1686675096;
    let l = ledger(
        vec![pool("shill", 50000000, 25000000, BurnType::Normal, 10000000000000)],
        1686588696,
    );
    let x = l.get_estimated_rewards(&"1".to_string(), current_time).unwrap();
    assert_eq!(x.len(), 1);
    for value in x.iter() {
        assert_eq!(value.total_expected, expected);
    }
}

#[test]
fn no_hourly_amount_means_no_time_bonus() {
    let p = pool("plain", 7, 0, BurnType::Normal, 100);
    let r = estimate(&"1".to_string(), &p, None, 10_000_000, 0).unwrap();
    assert_eq!(r.bonus_expected, 0);
    assert_eq!(r.total_expected, 7);
}

#[test]
fn partial_hours_do_not_count() {
    let p = pool("p", 0, 10, BurnType::Normal, 100);
    assert_eq!(estimate(&"1".to_string(), &p, None, 3599, 0).unwrap().bonus_expected, 0);
    assert_eq!(estimate(&"1".to_string(), &p, None, 7199, 0).unwrap().bonus_expected, 10);
    assert_eq!(estimate(&"1".to_string(), &p, None, 7200, 0).unwrap().bonus_expected, 20);
    // a clock in the future gives no bonus
    assert_eq!(estimate(&"1".to_string(), &p, None, 100, 7200).unwrap().bonus_expected, 0);
}

#[test]
fn estimate_is_repeatable() {
    let l = ledger(vec![pool("a", 5, 3, BurnType::Normal, 100)], 0);
    let a = l.get_estimated_rewards(&"9".to_string(), 36000).unwrap();
    let b = l.get_estimated_rewards(&"9".to_string(), 36000).unwrap();
    assert_eq!(a, b);
    assert_eq!(a[0].total_expected, 5 + 10 * 3);
}

#[test]
fn expected_rewards_per_item_and_pool() {
    let mut l = ledger(
        vec![pool("a", 5, 0, BurnType::Normal, 100), pool("b", 1, 2, BurnType::Rank, 100)],
        0,
    );
    l.ranks.upsert(Rank {
        token_id: "x".to_string(),
        rank: 1,
        rank_rewards: vec![RankReward { rank_reward: 40, reward_contract_name: "b".to_string() }],
    });
    let resp = l.query_expected_rewards(&vec!["x".to_string(), "y".to_string()], 7200).unwrap();
    assert_eq!(resp.expected_rewards.len(), 2);
    assert_eq!(resp.expected_rewards[0][0].total_expected, 5);
    assert_eq!(resp.expected_rewards[0][1].total_expected, 1 + 40 + 4);
    assert_eq!(resp.expected_rewards[1][1].total_expected, 1 + 4);
    assert_eq!(resp.expected_rewards[1][1].token_id, "y");
    let info = l.query_burn_info();
    assert_eq!(info.total_burned_amount, 200);
    assert_eq!(info.reward_contracts, l.state.reward_contracts);
    assert_eq!(info.nft_contract.address, "nft");
}

#[test]
fn rank_table_bonus() {
    let p = pool("gold", 100, 0, BurnType::Rank, 1000);
    let rank = Rank {
        token_id: "7".to_string(),
        rank: 3,
        rank_rewards: vec![
            RankReward { rank_reward: 11, reward_contract_name: "silver".to_string() },
            RankReward { rank_reward: 42, reward_contract_name: "gold".to_string() },
        ],
    };
    let r = estimate(&"7".to_string(), &p, Some(&rank), 0, 0).unwrap();
    assert_eq!(r.rank_reward_expected, 42);
    assert_eq!(r.total_expected, 142);
    assert_eq!(r.rank, Some(3));
    // no entry: no rank bonus, and no error
    let r = estimate(&"8".to_string(), &p, None, 0, 0).unwrap();
    assert_eq!(r.rank_reward_expected, 0);
    assert_eq!(r.rank, None);
    // a normal pool ignores the entry
    let n = pool("gold", 100, 0, BurnType::Normal, 1000);
    let r = estimate(&"7".to_string(), &n, Some(&rank), 0, 0).unwrap();
    assert_eq!(r.rank_reward_expected, 0);
}

#[test]
fn rank_offset_bonus() {
    let p = pool("legacy", 1, 0, BurnType::RankOffset { bonus_start: 100 }, 1000);
    let low = Rank { token_id: "1".to_string(), rank: 30, rank_rewards: vec![] };
    let high = Rank { token_id: "2".to_string(), rank: 150, rank_rewards: vec![] };
    assert_eq!(estimate(&"1".to_string(), &p, Some(&low), 0, 0).unwrap().rank_reward_expected, 70);
    assert_eq!(estimate(&"2".to_string(), &p, Some(&high), 0, 0).unwrap().rank_reward_expected, 0);
}

#[test]
fn estimate_overflow_is_refused() {
    let p = pool("big", u128::MAX, 1, BurnType::Normal, 1);
    assert_eq!(estimate(&"1".to_string(), &p, None, 7200, 0), Err(ContractError::Overflow));
}

#[test]
fn rank_upsert_replaces_wholesale() {
    let mut t = RankTable::new();
    t.upsert(Rank {
        token_id: "1".to_string(),
        rank: 5,
        rank_rewards: vec![RankReward { rank_reward: 9, reward_contract_name: "a".to_string() }],
    });
    t.upsert(Rank { token_id: "2".to_string(), rank: 6, rank_rewards: vec![] });
    t.upsert(Rank { token_id: "1".to_string(), rank: 8, rank_rewards: vec![] });
    let e = t.lookup(&"1".to_string()).unwrap();
    assert_eq!(e.rank, 8);
    assert!(e.rank_rewards.is_empty());
    assert_eq!(t.lookup(&"2".to_string()).unwrap().rank, 6);
    assert!(t.lookup(&"3".to_string()).is_none());
}

fn item(id: &str) -> BurnItem {
    BurnItem { token_id: id.to_string(), trait_types: vec!["Background".to_string()], public_metadata: None }
}

fn claim(expected: Vec<ExpectedCheck>) -> Option<HandleNftReceiveMsg> {
    Some(HandleNftReceiveMsg::ClaimBurnRewards { expected_rewards: expected, message: "memo".to_string() })
}

#[test]
fn single_item_batch_pays_base_and_day_of_bonus() {
    let now: u64 = 1686675096;
    let mut l = ledger(
        vec![pool("shill", 50000000, 25000000, BurnType::Normal, 10000000000000)],
        now - 24 * 3600,
    );
    let out = l
        .try_batch_receive(&"nft".to_string(), &"alice".to_string(), vec![item("1")], claim(vec![]), now)
        .unwrap();
    assert_eq!(out.len(), 2);
    assert_eq!(
        out[0],
        Instruction::Transfer {
            recipient: "alice".to_string(),
            amount: 650000000,
            code_hash: "shill-hash".to_string(),
            address: "shill-addr".to_string(),
        }
    );
    assert_eq!(
        out[1],
        Instruction::BurnBatch {
            token_ids: vec!["1".to_string()],
            code_hash: "nft-hash".to_string(),
            address: "nft".to_string(),
        }
    );
    assert_eq!(l.state.reward_contracts[0].total_rewards, 10000000000000 - 650000000);
    assert_eq!(l.state.burn_counter_date, now);
    assert_eq!(l.state.total_burned_amount, 201);
    assert_eq!(l.query_num_user_history(&"alice".to_string()), 1);
    assert_eq!(l.query_user_history(&"alice".to_string(), 0, 10)[0].rewards, 650000000);
    assert_eq!(l.query_num_full_history(), 1);
}

#[test]
fn only_first_entry_carries_time_bonus() {
    let mut l = ledger(vec![pool("p", 10, 1000, BurnType::Normal, 1_000_000)], 0);
    let out = l
        .try_batch_receive(&"nft".to_string(), &"bob".to_string(), vec![item("1"), item("2"), item("3")], claim(vec![]), 3 * 3600)
        .unwrap();
    // three base rewards and the bonus once
    assert!(matches!(out[0], Instruction::Transfer { amount: 3030, .. }));
    let h = l.query_user_history(&"bob".to_string(), 0, 10);
    assert_eq!(h.len(), 3);
    assert_eq!(h[0].rewards, 10 + 3000);
    assert_eq!(h[1].rewards, 20);
    assert_eq!(h[2].rewards, 30);
    assert_eq!(h[2].token_id, "3");
    assert_eq!(h[1].message, "memo");
    assert_eq!(l.state.reward_contracts[0].total_rewards, 1_000_000 - 3030);
    assert_eq!(l.state.total_burned_amount, 203);
}

#[test]
fn several_pools_pay_separately() {
    let mut l = ledger(
        vec![
            pool("a", 10, 0, BurnType::Normal, 1000),
            pool("b", 0, 0, BurnType::Normal, 5),
            pool("c", 1, 1, BurnType::Normal, 1000),
        ],
        0,
    );
    let out = l
        .try_batch_receive(&"nft".to_string(), &"carol".to_string(), vec![item("1"), item("2")], claim(vec![]), 3600)
        .unwrap();
    // pool b pays nothing and gets no transfer
    assert_eq!(out.len(), 3);
    assert!(matches!(&out[0], Instruction::Transfer { amount: 20, address, .. } if address == "a-addr"));
    assert!(matches!(&out[1], Instruction::Transfer { amount: 3, address, .. } if address == "c-addr"));
    assert_eq!(l.state.reward_contracts[0].total_rewards, 980);
    assert_eq!(l.state.reward_contracts[1].total_rewards, 5);
    assert_eq!(l.state.reward_contracts[2].total_rewards, 997);
    let h = l.query_user_history(&"carol".to_string(), 0, 10);
    assert_eq!(h[0].rewards, 10 + 1 + 1);
    assert_eq!(h[1].rewards, 20 + 2);
}

#[test]
fn unmet_expectation_changes_nothing() {
    let mut l = ledger(vec![pool("p", 10, 0, BurnType::Normal, 1000)], 0);
    let before = l.clone();
    let floor = ExpectedCheck { base_reward_expected: 21, bonus_expected: 0, reward_contract_name: "p".to_string() };
    let r = l.try_batch_receive(&"nft".to_string(), &"dave".to_string(), vec![item("1"), item("2")], claim(vec![floor]), 100);
    assert_eq!(r, Err(ContractError::ExpectationNotMet));
    assert_eq!(l, before);
    assert_eq!(l.query_num_full_history(), 0);
    assert_eq!(l.state.total_burned_amount, 200);
    // a floor that is met lets the batch through
    let floor = ExpectedCheck { base_reward_expected: 20, bonus_expected: 0, reward_contract_name: "p".to_string() };
    assert!(l.try_batch_receive(&"nft".to_string(), &"dave".to_string(), vec![item("1"), item("2")], claim(vec![floor]), 100).is_ok());
}

#[test]
fn expectation_for_unknown_pool_is_refused() {
    let mut l = ledger(vec![pool("p", 10, 0, BurnType::Normal, 1000)], 0);
    let floor = ExpectedCheck { base_reward_expected: 0, bonus_expected: 0, reward_contract_name: "nope".to_string() };
    let r = l.try_batch_receive(&"nft".to_string(), &"dave".to_string(), vec![item("1")], claim(vec![floor]), 100);
    assert_eq!(r, Err(ContractError::ExpectationNotMet));
}

#[test]
fn payout_may_not_drain_a_pool() {
    let mut l = ledger(vec![pool("p", 10, 0, BurnType::Normal, 20)], 0);
    let before = l.clone();
    let r = l.try_batch_receive(&"nft".to_string(), &"erin".to_string(), vec![item("1"), item("2")], claim(vec![]), 0);
    assert_eq!(r, Err(ContractError::PoolExhausted));
    assert_eq!(l, before);
    let mut l = ledger(vec![pool("p", 10, 0, BurnType::Normal, 21)], 0);
    assert!(l.try_batch_receive(&"nft".to_string(), &"erin".to_string(), vec![item("1"), item("2")], claim(vec![]), 0).is_ok());
    assert_eq!(l.state.reward_contracts[0].total_rewards, 1);
}

#[test]
fn batch_refusals() {
    let mut l = ledger(vec![pool("p", 10, 0, BurnType::Normal, 1000)], 0);
    assert_eq!(
        l.try_batch_receive(&"other".to_string(), &"f".to_string(), vec![item("1")], claim(vec![]), 0),
        Err(ContractError::UntrustedCaller)
    );
    assert_eq!(
        l.try_batch_receive(&"nft".to_string(), &"f".to_string(), vec![item("1")], None, 0),
        Err(ContractError::MalformedRequest)
    );
    assert_eq!(
        l.try_batch_receive(&"nft".to_string(), &"f".to_string(), vec![], claim(vec![]), 0),
        Err(ContractError::MalformedRequest)
    );
    l.state.trait_restriction = Some("Hat".to_string());
    let hatted = BurnItem { token_id: "2".to_string(), trait_types: vec!["Hat".to_string()], public_metadata: None };
    assert_eq!(
        l.try_batch_receive(&"nft".to_string(), &"f".to_string(), vec![hatted.clone(), item("1")], claim(vec![]), 0),
        Err(ContractError::IneligibleItem)
    );
    assert!(l.try_batch_receive(&"nft".to_string(), &"f".to_string(), vec![hatted], claim(vec![]), 0).is_ok());
    l.state.is_active = false;
    assert_eq!(
        l.try_batch_receive(&"nft".to_string(), &"f".to_string(), vec![item("1")], claim(vec![]), 0),
        Err(ContractError::Inactive)
    );
}

#[test]
fn batch_overflow_is_refused() {
    let mut l = ledger(vec![pool("p", u128::MAX / 2 + 1, 0, BurnType::Normal, u128::MAX)], 0);
    let before = l.clone();
    let r = l.try_batch_receive(&"nft".to_string(), &"g".to_string(), vec![item("1"), item("2")], claim(vec![]), 0);
    assert_eq!(r, Err(ContractError::Overflow));
    assert_eq!(l, before);
}

#[test]
fn empty_pool_list_still_burns_and_logs() {
    let mut l = ledger(vec![], 0);
    let out = l.try_batch_receive(&"nft".to_string(), &"h".to_string(), vec![item("1")], claim(vec![]), 0).unwrap();
    assert_eq!(out.len(), 1);
    assert!(matches!(&out[0], Instruction::BurnBatch { .. }));
    assert_eq!(l.query_num_user_history(&"h".to_string()), 1);
    assert_eq!(l.query_user_history(&"h".to_string(), 0, 5)[0].rewards, 0);
}
