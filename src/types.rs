use vstd::prelude::*;
use secret_toolkit::snip721::Metadata;

verus! {

/// The public metadata of an item, as the item registry reports it. The
/// ledger keeps it as a snapshot and never reads inside it.
#[verifier::external_type_specification]
#[verifier::external_body]
pub struct ExMetadata(secret_toolkit::snip721::Metadata);

/// An address and the viewing key that it presents; its two fields are plain strings.
#[verifier::external_type_specification]
pub struct ExViewerInfo(secret_toolkit::snip721::ViewerInfo);

/// Reference to another contract: its code hash, address and a display name.
#[derive(Clone, Debug, PartialEq, Eq)]
pub struct ContractInfo {
    pub code_hash: String,
    pub address: String,
    pub name: String,
}

/// How a pool grants the rank-based part of a reward.
#[derive(Clone, Debug, PartialEq, Eq)]
pub enum BurnType {
    /// No rank bonus.
    Normal,
    /// The rank entry of an item lists a bonus per pool, looked up by pool name.
    Rank,
    /// The bonus is `bonus_start - rank`, or zero where the rank is not below `bonus_start`.
    RankOffset { bonus_start: u128 },
}

/// A reward pool: the token source that pays, the reward formula and the balance left.
#[derive(Clone, Debug, PartialEq, Eq)]
pub struct RewardsContractInfo {
    pub code_hash: String,
    pub address: String,
    pub base_reward: u128,
    pub bonus_hourly: u128,
    pub name: String,
    pub burn_type: BurnType,
    pub total_rewards: u128,
}

impl ContractInfo {
    /// A copy of the reference.
    pub fn copy(&self) -> (r: ContractInfo)
        ensures
            r == *self,
    {
        ContractInfo { code_hash: self.code_hash.clone(), address: self.address.clone(), name: self.name.clone() }
    }
}

impl RewardsContractInfo {
    /// A copy of the pool record.
    pub fn copy(&self) -> (r: RewardsContractInfo)
        ensures
            r == *self,
    {
        let burn_type = match &self.burn_type {
            BurnType::Normal => BurnType::Normal,
            BurnType::Rank => BurnType::Rank,
            BurnType::RankOffset { bonus_start } => BurnType::RankOffset { bonus_start: *bonus_start },
        };
        RewardsContractInfo {
            code_hash: self.code_hash.clone(),
            address: self.address.clone(),
            base_reward: self.base_reward,
            bonus_hourly: self.bonus_hourly,
            name: self.name.clone(),
            burn_type,
            total_rewards: self.total_rewards,
        }
    }
}

/// The bonus that an item's rank entry grants in the pool of the given name.
#[derive(Clone, Debug, PartialEq, Eq)]
pub struct RankReward {
    pub rank_reward: u128,
    pub reward_contract_name: String,
}

/// The rank entry of one item.
#[derive(Clone, Debug, PartialEq, Eq)]
pub struct Rank {
    pub token_id: String,
    pub rank: u32,
    pub rank_rewards: Vec<RankReward>,
}

/// One entry of a submitter's claim history.
#[derive(Clone, Debug, PartialEq, Eq)]
pub struct History {
    pub token_id: String,
    pub message: String,
    pub date: u64,
    pub rewards: u128,
}

/// One entry of the global burn history: the item's metadata at burn time.
#[derive(Clone, Debug, PartialEq, Eq)]
pub struct HistoryFull {
    pub token_id: String,
    pub message: String,
    pub date: u64,
    pub meta_data: Option<Metadata>,
}

/// An item submitted for burning, with what the item registry reports of it:
/// the trait types of its public attributes and its public metadata.
#[derive(Clone, Debug, PartialEq, Eq)]
pub struct BurnItem {
    pub token_id: String,
    pub trait_types: Vec<String>,
    pub public_metadata: Option<Metadata>,
}

/// The payload of a batch submission.
#[derive(Clone, Debug, PartialEq, Eq)]
pub enum HandleNftReceiveMsg {
    ClaimBurnRewards { expected_rewards: Vec<ExpectedCheck>, message: String },
}

/// The payload of a deposit into a pool.
#[derive(Clone, Debug, PartialEq, Eq)]
pub enum HandleReceiveMsg {
    ReceiveRewards {},
}

/// An instruction for another contract, which the host carries out after the
/// operation succeeds.
#[derive(Clone, Debug, PartialEq, Eq)]
pub enum Instruction {
    /// Pay `amount` of the token at `address` to `recipient`.
    Transfer { recipient: String, amount: u128, code_hash: String, address: String },
    /// Destroy the listed items at the item registry.
    BurnBatch { token_ids: Vec<String>, code_hash: String, address: String },
    /// Register `key` as this ledger's viewing key at the contract.
    SetViewingKey { key: String, code_hash: String, address: String },
    /// Ask the item registry at `address` to notify this ledger, whose code
    /// hash is `callback_code_hash`, of items sent to it.
    RegisterReceive { callback_code_hash: String, code_hash: String, address: String },
}

/// The reward that one item earns from one pool, by component.
#[derive(Clone, Debug, PartialEq, Eq)]
pub struct ExpectedReward {
    pub base_reward_expected: u128,
    pub rank_reward_expected: u128,
    pub bonus_expected: u128,
    pub total_expected: u128,
    pub token_id: String,
    pub rank: Option<u32>,
    pub reward_contract_name: String,
}

/// A floor that a submitter sets on what a pool pays for a batch.
#[derive(Clone, Debug, PartialEq, Eq)]
pub struct ExpectedCheck {
    pub base_reward_expected: u128,
    pub bonus_expected: u128,
    pub reward_contract_name: String,
}

/// What a batch has earned from one pool: the base and rank part summed over
/// the items, and the time bonus.
#[derive(Clone, Debug, PartialEq, Eq)]
pub struct Reward {
    pub base_reward: u128,
    pub bonus_reward: u128,
}

/// What each item earns from each pool, item by item.
#[derive(Clone, Debug, PartialEq, Eq)]
pub struct ExpectedRewardResponse {
    pub expected_rewards: Vec<Vec<ExpectedReward>>,
}

/// The public view of a ledger's configuration and counters.
#[derive(Clone, Debug, PartialEq, Eq)]
pub struct BurnInfoResponse {
    pub total_burned_amount: u32,
    pub nft_contract: ContractInfo,
    pub reward_contracts: Vec<RewardsContractInfo>,
    pub trait_restriction: Option<String>,
    pub is_active: bool,
    pub burn_counter_date: u64,
}

/// What a ledger starts from.
#[derive(Clone, Debug, PartialEq, Eq)]
pub struct InstantiateMsg {
    pub entropy: String,
    pub nft_contract: ContractInfo,
    pub reward_contracts: Vec<RewardsContractInfo>,
    pub trait_restriction: Option<String>,
    pub ranks: Vec<Rank>,
}

/// Why an operation of the ledger was refused. Every refusal leaves the ledger unchanged.
#[derive(Clone, Debug, PartialEq, Eq)]
pub enum ContractError {
    /// The caller is not the owner, or a credential does not match.
    Unauthorized,
    /// A batch was submitted while the ledger is inactive.
    Inactive,
    /// A batch was not submitted by the registered item registry.
    UntrustedCaller,
    /// An item lacks the trait that the ledger requires.
    IneligibleItem,
    /// The reward computed for a pool is below the submitter's floor.
    ExpectationNotMet,
    /// A payout would not leave a strictly positive balance in its pool.
    PoolExhausted,
    /// Pools cannot be replaced while one of them holds funds.
    PoolBusy,
    /// A notification came without its payload, or with no items.
    MalformedRequest,
    /// An amount or a counter does not fit its integer type.
    Overflow,
}

} // verus!
