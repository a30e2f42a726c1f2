//! The set of allowed accounts.

use crate::AccountId;
use vstd::prelude::*;

verus! {

/// The accounts that are allowed, each held once, in the order in which they
/// were let in. Nothing is ever taken out.
#[derive(Debug)]
pub struct MembershipStore {
    accounts: Vec<AccountId>,
}

impl MembershipStore {
    /// The members in the order of their admission.
    pub closed spec fn view(&self) -> Seq<AccountId> {
        self.accounts@
    }

    /// No account is held twice.
    pub open spec fn wf(&self) -> bool {
        self@.no_duplicates()
    }

    pub open spec fn spec_is_member(&self, account: AccountId) -> bool {
        self@.contains(account)
    }

    /// A store without members.
    pub fn new() -> (store: MembershipStore)
        ensures
            store@ == Seq::<AccountId>::empty(),
            store.wf(),
    {
        MembershipStore { accounts: Vec::new() }
    }

    /// Whether `account` is allowed.
    pub fn is_member(&self, account: AccountId) -> (found: bool)
        ensures
            found == self@.contains(account),
    {
        let mut i: usize = 0;
        while i < self.accounts.len()
            invariant
                i <= self.accounts.len(),
                forall|k: int| 0 <= k < i ==> self.accounts@[k] != account,
            decreases self.accounts.len() - i,
        {
            if self.accounts[i] == account {
                return true;
            }
            i += 1;
        }
        false
    }

    /// Lets `account` in unless it is a member already, and says whether it
    /// was let in by this call.
    pub fn add(&mut self, account: AccountId) -> (added: bool)
        requires
            old(self).wf(),
        ensures
            final(self).wf(),
            added == !old(self)@.contains(account),
            added ==> final(self)@ == old(self)@.push(account),
            !added ==> *final(self) == *old(self),
    {
        if self.is_member(account) {
            false
        } else {
            self.accounts.push(account);
            true
        }
    }

    /// The number of members.
    pub fn size(&self) -> (n: usize)
        ensures
            n == self@.len(),
    {
        self.accounts.len()
    }

    /// The members in the order of their admission.
    pub fn list(&self) -> (members: Vec<AccountId>)
        ensures
            members@ == self@,
    {
        self.accounts.clone()
    }
}

} // verus!
