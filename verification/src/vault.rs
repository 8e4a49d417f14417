//! The vault store: the authoritative per-account staked balances, held as
//! a vector of entries with pairwise-distinct account identifiers.

use vstd::prelude::*;

use crate::model::{has_vault, keys_unique, lemma_vault_index_unique, staked_of, vault_index,
    VaultModel};

verus! {

/// One account's staked balance.
#[derive(Clone, Debug)]
pub struct Vault {
    /// Amount of the staking token locked in this vault.
    pub staked: u128,
}

/// A store entry: the account identifier and its vault.
#[derive(Clone, Debug)]
pub struct VaultEntry {
    pub account_id: String,
    pub vault: Vault,
}

impl View for VaultEntry {
    type V = VaultModel;

    open spec fn view(&self) -> VaultModel {
        VaultModel { account: self.account_id@, staked: self.vault.staked as nat }
    }
}

/// The mapping from account identifier to vault.
pub struct VaultStore {
    entries: Vec<VaultEntry>,
}

impl View for VaultStore {
    type V = Seq<VaultModel>;

    closed spec fn view(&self) -> Seq<VaultModel> {
        self.entries@.map_values(|e: VaultEntry| e@)
    }
}

impl VaultStore {
    pub fn new() -> (r: VaultStore)
        ensures
            r@ =~= Seq::<VaultModel>::empty(),
    {
        VaultStore { entries: Vec::new() }
    }

    pub fn len(&self) -> (r: usize)
        ensures
            r == self@.len(),
    {
        self.entries.len()
    }

    /// The account identifier of the entry at this index.
    pub fn account_at(&self, i: usize) -> (r: &String)
        requires
            i < self@.len(),
        ensures
            r@ == self@[i as int].account,
    {
        &self.entries[i].account_id
    }

    /// The index of this account's entry, if one exists.
    fn find(&self, account_id: &String) -> (r: Option<usize>)
        requires
            keys_unique(self@),
        ensures
            match r {
                Some(i) => has_vault(self@, account_id@) && i == vault_index(
                    self@,
                    account_id@,
                ) && i < self@.len(),
                None => !has_vault(self@, account_id@),
            },
    {
        let n = self.entries.len();
        let mut i: usize = 0;
        while i < n
            invariant
                n == self@.len(),
                i <= n,
                keys_unique(self@),
                forall|j: int| 0 <= j < i ==> self@[j].account != account_id@,
            decreases n - i,
        {
            if self.entries[i].account_id == *account_id {
                proof {
                    lemma_vault_index_unique(self@, account_id@, i as int);
                }
                return Some(i);
            }
            i += 1;
        }
        None
    }

    /// The staked amount of this account, or nothing when it has no vault.
    pub fn get(&self, account_id: &String) -> (r: Option<u128>)
        requires
            keys_unique(self@),
        ensures
            match r {
                Some(staked) => has_vault(self@, account_id@) && staked == staked_of(
                    self@,
                    account_id@,
                ),
                None => !has_vault(self@, account_id@),
            },
    {
        match self.find(account_id) {
            Some(i) => Some(self.entries[i].vault.staked),
            None => None,
        }
    }

    /// Record this staked amount for the account: the existing entry is
    /// overwritten, or a new one appended.
    pub fn put(&mut self, account_id: &String, staked: u128)
        requires
            keys_unique(old(self)@),
        ensures
            has_vault(old(self)@, account_id@) ==> final(self)@ =~= old(self)@.update(
                vault_index(old(self)@, account_id@),
                VaultModel { account: account_id@, staked: staked as nat },
            ),
            !has_vault(old(self)@, account_id@) ==> final(self)@ =~= old(self)@.push(
                VaultModel { account: account_id@, staked: staked as nat },
            ),
    {
        match self.find(account_id) {
            Some(i) => {
                self.entries[i] = VaultEntry {
                    account_id: account_id.clone(),
                    vault: Vault { staked },
                };
            },
            None => {
                self.entries.push(
                    VaultEntry { account_id: account_id.clone(), vault: Vault { staked } },
                );
            },
        }
    }

    /// Remove this account's entry; the remaining entries keep their order.
    /// Returns whether an entry existed.
    pub fn remove(&mut self, account_id: &String) -> (r: bool)
        requires
            keys_unique(old(self)@),
        ensures
            r == has_vault(old(self)@, account_id@),
            r ==> final(self)@ =~= old(self)@.remove(vault_index(old(self)@, account_id@)),
            !r ==> final(self)@ =~= old(self)@,
    {
        match self.find(account_id) {
            Some(i) => {
                self.entries.remove(i);
                true
            },
            None => false,
        }
    }
}

} // verus!
