use vstd::prelude::*;
use crate::types::ContractInfo;

verus! {

/// Why the registry refused a change. A refusal changes nothing.
#[derive(Clone, Debug, PartialEq, Eq)]
pub enum ManagerError {
    /// The caller is not the registry's owner.
    Unauthorized,
    /// A contract at that address is registered already.
    AlreadyRegistered,
    /// No contract at that address is registered.
    NotRegistered,
}

/// The registry of burn ledgers: its owner, whether it is active, and the
/// registered contracts, at most one per address.
#[derive(Clone, Debug, PartialEq, Eq)]
pub struct State {
    pub owner: String,
    pub is_active: bool,
    pub burn_contracts: Vec<ContractInfo>,
}

/// What a registry starts from.
#[derive(Clone, Debug, PartialEq, Eq)]
pub struct InstantiateMsg {
    pub burn_contracts: Vec<ContractInfo>,
}

/// The query that the registry sends to each registered ledger.
#[derive(Clone, Debug, PartialEq, Eq)]
pub enum BurnInfoQueryMsg {
    GetBurnInfo {},
}

/// `j` is the first registered contract at `address`.
pub open spec fn registered_at(contracts: Seq<ContractInfo>, address: Seq<char>, j: int) -> bool {
    &&& 0 <= j < contracts.len()
    &&& contracts[j].address@ == address
    &&& forall|jj: int| 0 <= jj < j ==> contracts[jj].address@ != address
}

/// Some registered contract is at `address`.
pub open spec fn is_registered(contracts: Seq<ContractInfo>, address: Seq<char>) -> bool {
    exists|j: int| 0 <= j < contracts.len() && #[trigger] contracts[j].address@ == address
}

fn position(contracts: &Vec<ContractInfo>, address: &String) -> (r: Option<usize>)
    ensures
        r matches Some(j) ==> registered_at(contracts@, address@, j as int),
        r is None ==> !is_registered(contracts@, address@),
{
    let mut j: usize = 0;
    while j < contracts.len()
        invariant
            j <= contracts@.len(),
            forall|jj: int| 0 <= jj < j ==> contracts@[jj].address@ != address@,
        decreases contracts@.len() - j,
    {
        if contracts[j].address == *address {
            return Some(j);
        }
        j = j + 1;
    }
    None
}

impl State {
    /// A registry owned by `sender`, active, holding the given contracts.
    pub fn instantiate(sender: &String, msg: InstantiateMsg) -> (r: State)
        ensures
            r.owner == *sender,
            r.is_active,
            r.burn_contracts == msg.burn_contracts,
    {
        State { owner: sender.clone(), is_active: true, burn_contracts: msg.burn_contracts }
    }

    /// Registers a contract at the end; only the owner may, and only for an
    /// address not registered yet.
    pub fn try_add_contract(&mut self, sender: &String, contract: ContractInfo) -> (r: Result<(), ManagerError>)
        ensures
            sender@ != old(self).owner@ ==> r == Err::<(), ManagerError>(ManagerError::Unauthorized),
            sender@ == old(self).owner@ && is_registered(old(self).burn_contracts@, contract.address@)
                ==> r == Err::<(), ManagerError>(ManagerError::AlreadyRegistered),
            sender@ == old(self).owner@ && !is_registered(old(self).burn_contracts@, contract.address@)
                ==> r is Ok,
            r is Err ==> *final(self) == *old(self),
            r is Ok ==> final(self).owner == old(self).owner && final(self).is_active == old(self).is_active
                && final(self).burn_contracts@ == old(self).burn_contracts@.push(contract),
    {
        if !(*sender == self.owner) {
            return Err(ManagerError::Unauthorized);
        }
        if position(&self.burn_contracts, &contract.address).is_some() {
            return Err(ManagerError::AlreadyRegistered);
        }
        self.burn_contracts.push(contract);
        Ok(())
    }

    /// Removes the contract registered at `contract.address`; only the owner may.
    pub fn try_remove_contract(&mut self, sender: &String, contract: &ContractInfo) -> (r: Result<(), ManagerError>)
        ensures
            sender@ != old(self).owner@ ==> r == Err::<(), ManagerError>(ManagerError::Unauthorized),
            sender@ == old(self).owner@ && !is_registered(old(self).burn_contracts@, contract.address@)
                ==> r == Err::<(), ManagerError>(ManagerError::NotRegistered),
            r is Err ==> *final(self) == *old(self),
            forall|j: int| sender@ == old(self).owner@ && registered_at(old(self).burn_contracts@, contract.address@, j) ==> {
                &&& r is Ok
                &&& final(self).owner == old(self).owner
                &&& final(self).is_active == old(self).is_active
                &&& final(self).burn_contracts@ == old(self).burn_contracts@.remove(j)
            },
    {
        if !(*sender == self.owner) {
            return Err(ManagerError::Unauthorized);
        }
        let ghost s = self.burn_contracts@;
        match position(&self.burn_contracts, &contract.address) {
            None => Err(ManagerError::NotRegistered),
            Some(j) => {
                assert forall|k: int| registered_at(s, contract.address@, k) implies k == j by {
                    if k > j {
                        assert(s[j as int].address@ == contract.address@);
                    }
                }
                self.burn_contracts.remove(j);
                Ok(())
            },
        }
    }

    /// Opens or closes the registry; only the owner may.
    pub fn try_set_active_state(&mut self, sender: &String, is_active: bool) -> (r: Result<(), ManagerError>)
        ensures
            sender@ != old(self).owner@ ==> r == Err::<(), ManagerError>(ManagerError::Unauthorized)
                && *final(self) == *old(self),
            sender@ == old(self).owner@ ==> r is Ok
                && *final(self) == (State { is_active: is_active, ..*old(self) }),
    {
        if !(*sender == self.owner) {
            return Err(ManagerError::Unauthorized);
        }
        self.is_active = is_active;
        Ok(())
    }
}

} // verus!
