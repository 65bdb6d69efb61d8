//! A token-burn-for-reward ledger: items are destroyed in batches in exchange
//! for rewards drawn from one or more pools, with settlement that is
//! all-or-nothing and a durable claim and burn history.

pub mod types;
pub mod rewards;
pub mod ranks;
pub mod history;
pub mod ledger;
pub mod access;
pub mod manager;
