use nft_burn::manager::{InstantiateMsg, ManagerError, State};
use nft_burn::rewards::burn_type_from_name;
use nft_burn::types::{BurnType, ContractInfo};

fn contract(address: &str) -> ContractInfo {
    ContractInfo { code_hash: "h".to_string(), address: address.to_string(), name: address.to_string() }
}

#[test]
fn registry_adds_and_removes_by_address() {
    let mut s = State::instantiate(&"owner".to_string(), InstantiateMsg { burn_contracts: vec![contract("a")] });
    assert!(s.is_active);
    assert_eq!(s.try_add_contract(&"x".to_string(), contract("b")), Err(ManagerError::Unauthorized));
    assert_eq!(s.try_add_contract(&"owner".to_string(), contract("a")), Err(ManagerError::AlreadyRegistered));
    assert_eq!(s.try_add_contract(&"owner".to_string(), contract("b")), Ok(()));
    assert_eq!(s.try_add_contract(&"owner".to_string(), contract("c")), Ok(()));
    assert_eq!(s.burn_contracts.len(), 3);
    assert_eq!(s.try_remove_contract(&"owner".to_string(), &contract("zz")), Err(ManagerError::NotRegistered));
    assert_eq!(s.try_remove_contract(&"x".to_string(), &contract("b")), Err(ManagerError::Unauthorized));
    assert_eq!(s.try_remove_contract(&"owner".to_string(), &contract("b")), Ok(()));
    let left: Vec<&str> = s.burn_contracts.iter().map(|c| c.address.as_str()).collect();
    assert_eq!(left, vec!["a", "c"]);
}

#[test]
fn registry_active_switch_is_owner_only() {
    let mut s = State::instantiate(&"owner".to_string(), InstantiateMsg { burn_contracts: vec![] });
    assert_eq!(s.try_set_active_state(&"x".to_string(), false), Err(ManagerError::Unauthorized));
    assert!(s.is_active);
    assert_eq!(s.try_set_active_state(&"owner".to_string(), false), Ok(()));
    assert!(!s.is_active);
}

#[test]
fn burn_type_names() {
    assert_eq!(burn_type_from_name(&"rank".to_string(), None), BurnType::Rank);
    assert_eq!(burn_type_from_name(&"normal".to_string(), None), BurnType::Normal);
    assert_eq!(burn_type_from_name(&"rank_offset".to_string(), Some(50)), BurnType::RankOffset { bonus_start: 50 });
    assert_eq!(burn_type_from_name(&"rank_offset".to_string(), None), BurnType::Normal);
    assert_eq!(burn_type_from_name(&"Rank".to_string(), None), BurnType::Normal);
}
