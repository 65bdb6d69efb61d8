use nft_burn::access::{authorize_history_query, check_admin_key, derive_viewing_key, grants_owner};
use nft_burn::ledger::Ledger;
use nft_burn::types::{
    BurnType, ContractError, ContractInfo, HandleReceiveMsg, InstantiateMsg, Instruction, Rank,
    RewardsContractInfo,
};
use secret_toolkit::permit::TokenPermissions;
use secret_toolkit::snip721::ViewerInfo;

fn pool(name: &str, balance: u128) -> RewardsContractInfo {
    RewardsContractInfo {
        code_hash: format!("{}-hash", name),
        address: format!("{}-addr", name),
        base_reward: 1,
        bonus_hourly: 0,
        name: name.to_string(),
        burn_type: BurnType::Normal,
        total_rewards: balance,
    }
}

fn fresh(pools: Vec<RewardsContractInfo>) -> (Ledger, Vec<Instruction>) {
    let msg = InstantiateMsg {
        entropy: "seed".to_string(),
        nft_contract: ContractInfo { code_hash: "nft-hash".to_string(), address: "nft".to_string(), name: "n".to_string() },
        reward_contracts: pools,
        trait_restriction: None,
        ranks: vec![Rank { token_id: "1".to_string(), rank: 4, rank_rewards: vec![] }],
    };
    Ledger::instantiate(&"owner".to_string(), &"self-hash".to_string(), msg, 1000)
}

#[test]
fn instantiate_registers_everywhere() {
    let (l, out) = fresh(vec![pool("a", 0), pool("b", 0)]);
    assert_eq!(l.state.owner, "owner");
    assert!(l.state.is_active);
    assert_eq!(l.state.burn_counter_date, 1000);
    assert_eq!(l.state.total_burned_amount, 0);
    assert_eq!(l.ranks.lookup(&"1".to_string()).unwrap().rank, 4);
    let key = l.state.viewing_key.clone().unwrap();
    assert_eq!(key, derive_viewing_key("seed"));
    assert_eq!(out.len(), 4);
    assert_eq!(
        out[0],
        Instruction::RegisterReceive {
            callback_code_hash: "self-hash".to_string(),
            code_hash: "nft-hash".to_string(),
            address: "nft".to_string(),
        }
    );
    assert!(matches!(&out[3], Instruction::SetViewingKey { key: k, address, .. } if *k == key && address == "b-addr"));
}

#[test]
fn replacing_funded_pools_needs_withdrawal_first() {
    let (mut l, _) = fresh(vec![pool("a", 0), pool("b", 0)]);
    assert_eq!(l.receive(&"b-addr".to_string(), 500, Some(HandleReceiveMsg::ReceiveRewards {})), Ok(()));
    assert_eq!(l.state.reward_contracts[1].total_rewards, 500);
    let before = l.clone();
    assert_eq!(l.try_update_reward_contract(&"owner".to_string(), vec![pool("c", 0)]), Err(ContractError::PoolBusy));
    assert_eq!(l, before);
    assert_eq!(l.try_update_reward_contract(&"stranger".to_string(), vec![pool("c", 0)]), Err(ContractError::Unauthorized));
    let out = l.try_remove_rewards(&"owner".to_string()).unwrap();
    assert_eq!(out.len(), 2);
    assert!(matches!(&out[1], Instruction::Transfer { amount: 500, recipient, .. } if recipient == "owner"));
    assert!(l.state.reward_contracts.iter().all(|p| p.total_rewards == 0));
    let out = l.try_update_reward_contract(&"owner".to_string(), vec![pool("c", 0)]).unwrap();
    assert_eq!(out.len(), 1);
    assert_eq!(l.state.reward_contracts[0].name, "c");
}

#[test]
fn deposits_go_to_the_sending_pool() {
    let (mut l, _) = fresh(vec![pool("a", 0)]);
    assert_eq!(l.receive(&"a-addr".to_string(), 5, None), Err(ContractError::MalformedRequest));
    assert_eq!(
        l.receive(&"zzz".to_string(), 5, Some(HandleReceiveMsg::ReceiveRewards {})),
        Err(ContractError::UntrustedCaller)
    );
    assert_eq!(l.receive(&"a-addr".to_string(), 5, Some(HandleReceiveMsg::ReceiveRewards {})), Ok(()));
    assert_eq!(l.receive(&"a-addr".to_string(), 7, Some(HandleReceiveMsg::ReceiveRewards {})), Ok(()));
    assert_eq!(l.state.reward_contracts[0].total_rewards, 12);
    assert_eq!(
        l.receive(&"a-addr".to_string(), u128::MAX, Some(HandleReceiveMsg::ReceiveRewards {})),
        Err(ContractError::Overflow)
    );
}

#[test]
fn owner_only_switches() {
    let (mut l, _) = fresh(vec![]);
    assert_eq!(l.try_set_active_state(&"x".to_string(), false), Err(ContractError::Unauthorized));
    assert_eq!(l.try_set_active_state(&"owner".to_string(), false), Ok(()));
    assert!(!l.state.is_active);
    assert_eq!(l.try_reset_burn_counter_date(&"x".to_string(), 5000), Err(ContractError::Unauthorized));
    assert_eq!(l.try_reset_burn_counter_date(&"owner".to_string(), 5000), Ok(()));
    assert_eq!(l.state.burn_counter_date, 5000);
    assert_eq!(l.try_update_ranks(&"x".to_string(), vec![]), Err(ContractError::Unauthorized));
    assert_eq!(
        l.try_update_ranks(&"owner".to_string(), vec![Rank { token_id: "1".to_string(), rank: 9, rank_rewards: vec![] }]),
        Ok(())
    );
    assert_eq!(l.ranks.lookup(&"1".to_string()).unwrap().rank, 9);
}

#[test]
fn viewing_key_gates_balance_queries() {
    let (mut l, _) = fresh(vec![]);
    let viewer = ViewerInfo { address: "owner".to_string(), viewing_key: "pw".to_string() };
    assert_eq!(l.check_admin_key(&viewer), Err(ContractError::Unauthorized));
    assert_eq!(l.try_set_viewing_key(&"x".to_string(), &"pw".to_string()), Err(ContractError::Unauthorized));
    assert_eq!(l.try_set_viewing_key(&"owner".to_string(), &"pw".to_string()), Ok(()));
    assert_eq!(l.check_admin_key(&viewer), Ok(()));
    let wrong = ViewerInfo { address: "owner".to_string(), viewing_key: "pw2".to_string() };
    assert_eq!(l.check_admin_key(&wrong), Err(ContractError::Unauthorized));
    let other = ViewerInfo { address: "else".to_string(), viewing_key: "pw".to_string() };
    assert_eq!(check_admin_key(&l.admin_viewing_key, &other), Err(ContractError::Unauthorized));
}

#[test]
fn derived_key_is_hashed_base64() {
    let k = derive_viewing_key("pw");
    assert_ne!(k, "pw");
    assert_ne!(k, "cHc=");
    // base64 of 32 bytes is 44 characters with padding
    assert_eq!(k.len(), 44);
    assert!(k.ends_with('='));
    assert_eq!(k, derive_viewing_key("pw"));
    assert_ne!(k, derive_viewing_key("pX"));
    assert_eq!(k, "CEbExtrpBPLyTqdj+8+sTzPubcH6oKcAb2DxNbEjcD8=");
    assert_eq!(derive_viewing_key("seed"), "7fojy6Di8mLprEoGRzyNoXXKtlxseBUtpJHkj1yVPn4=");
}

#[test]
fn history_queries_need_owner_permission() {
    assert!(grants_owner(&vec![TokenPermissions::Balance, TokenPermissions::Owner]));
    assert!(!grants_owner(&vec![TokenPermissions::History]));
    assert_eq!(
        authorize_history_query("u".to_string(), &vec![TokenPermissions::Owner]),
        Ok("u".to_string())
    );
    assert_eq!(
        authorize_history_query("u".to_string(), &vec![TokenPermissions::Allowance]),
        Err(ContractError::Unauthorized)
    );
}
