//! The authorization guard.
//!
//! A call arrives together with the accounts that proved control of their
//! identity for it. Every operation that changes state asks the guard first,
//! for the account that bears the consequence of the operation.

use vstd::prelude::*;
use crate::error::Error;
use crate::identity::Address;

verus! {

/// The accounts that authorized the current call.
#[derive(Debug)]
pub struct Authorization {
    approvers: Vec<Address>,
}

impl View for Authorization {
    type V = Set<Seq<char>>;

    closed spec fn view(&self) -> Set<Seq<char>> {
        Set::new(
            |account: Seq<char>|
                exists|i: int| 0 <= i < self.approvers@.len() && self.approvers@[i]@ == account,
        )
    }
}

impl Authorization {
    /// A call that nobody authorized.
    pub fn none() -> (auth: Authorization)
        ensures
            auth@ == Set::<Seq<char>>::empty(),
    {
        let auth = Authorization { approvers: Vec::new() };
        assert(auth@ =~= Set::<Seq<char>>::empty());
        auth
    }

    /// A call that `actor` alone authorized.
    pub fn of(actor: Address) -> (auth: Authorization)
        ensures
            auth@ == Set::<Seq<char>>::empty().insert(actor@),
    {
        let mut auth = Authorization::none();
        auth.approve(actor);
        auth
    }

    /// Records that `actor` authorized the call as well.
    pub fn approve(&mut self, actor: Address)
        ensures
            final(self)@ == old(self)@.insert(actor@),
    {
        let ghost before = self.approvers@;
        self.approvers.push(actor);
        proof {
            let after = self.approvers@;
            assert forall|account: Seq<char>|
                final(self)@.contains(account) == old(self)@.insert(actor@).contains(
                    account,
                ) by {
                if old(self)@.contains(account) {
                    let i = choose|i: int| 0 <= i < before.len() && before[i]@ == account;
                    assert(after[i]@ == account);
                }
                if account == actor@ {
                    assert(after[before.len() as int]@ == account);
                }
            }
            assert(final(self)@ =~= old(self)@.insert(actor@));
        }
    }

    /// Whether `actor` authorized the call.
    pub fn has_authorized(&self, actor: &Address) -> (found: bool)
        ensures
            found == self@.contains(actor@),
    {
        let mut i: usize = 0;
        while i < self.approvers.len()
            invariant
                i <= self.approvers@.len(),
                forall|j: int| 0 <= j < i ==> self.approvers@[j]@ != actor@,
            decreases self.approvers@.len() - i,
        {
            if self.approvers[i] == *actor {
                return true;
            }
            i += 1;
        }
        false
    }

    /// Passes when `actor` authorized the call and fails with `Unauthorized`
    /// when not.
    pub fn require_authorized(&self, actor: &Address) -> (outcome: Result<(), Error>)
        ensures
            outcome == authorized(self@, actor@),
    {
        if self.has_authorized(actor) {
            Ok(())
        } else {
            Err(Error::Unauthorized)
        }
    }
}

/// The guard's answer for `actor` on a call authorized by `approvers`.
pub open spec fn authorized(approvers: Set<Seq<char>>, actor: Seq<char>) -> Result<(), Error> {
    if approvers.contains(actor) {
        Ok(())
    } else {
        Err(Error::Unauthorized)
    }
}

} // verus!
