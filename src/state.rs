use std::collections::HashMap;
use vstd::prelude::*;

verus! {

broadcast use vstd::std_specs::hash::group_hash_axioms;

/// What the ledger keeps per account.
#[derive(Clone, Copy, Debug, PartialEq, Eq, Structural)]
pub struct AccountInfo {
    pub nonce: u64,
    pub balance: u128,
}

/// An account that the ledger has never written reads as nonce 0, balance 0.
pub open spec fn account_in(accounts: Map<u64, AccountInfo>, who: u64) -> AccountInfo {
    if accounts.contains_key(who) {
        accounts[who]
    } else {
        AccountInfo { nonce: 0, balance: 0 }
    }
}

/// The mutable chain state: the account ledger and the state of each module.
pub struct State {
    pub accounts: HashMap<u64, AccountInfo>,
    /// The template module's single stored value.
    pub something: Option<u32>,
    /// The privileged account of the sudo module.
    pub sudo_key: Option<u64>,
    /// The timestamp module's current time.
    pub now: u64,
}

pub struct StateView {
    pub accounts: Map<u64, AccountInfo>,
    pub something: Option<u32>,
    pub sudo_key: Option<u64>,
    pub now: u64,
}

impl View for State {
    type V = StateView;

    open spec fn view(&self) -> StateView {
        StateView {
            accounts: self.accounts@,
            something: self.something,
            sudo_key: self.sudo_key,
            now: self.now,
        }
    }
}

/// `s` with the account `who` set to `info`.
pub open spec fn with_account(s: StateView, who: u64, info: AccountInfo) -> StateView {
    StateView { accounts: s.accounts.insert(who, info), ..s }
}

impl State {
    /// The empty state: no accounts, no module values, time zero.
    pub fn new() -> (r: State)
        ensures
            r@.accounts == Map::<u64, AccountInfo>::empty(),
            r@.something is None,
            r@.sudo_key is None,
            r@.now == 0,
    {
        State { accounts: HashMap::new(), something: None, sudo_key: None, now: 0 }
    }

    /// The account `who` as the ledger holds it.
    pub fn account(&self, who: u64) -> (r: AccountInfo)
        ensures
            r == account_in(self@.accounts, who),
    {
        match self.accounts.get(&who) {
            Some(a) => *a,
            None => AccountInfo { nonce: 0, balance: 0 },
        }
    }

    /// A copy of the whole state.
    pub fn snapshot(&self) -> (r: State)
        ensures
            r@ == self@,
    {
        State {
            accounts: self.accounts.clone(),
            something: self.something,
            sudo_key: self.sudo_key,
            now: self.now,
        }
    }

    pub fn set_account(&mut self, who: u64, info: AccountInfo)
        ensures
            final(self)@ == with_account(old(self)@, who, info),
    {
        self.accounts.insert(who, info);
    }
}

} // verus!
