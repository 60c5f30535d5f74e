//! The delegates of one ticket: each approved account with the approval id it
//! was given, and the storage that the entries take.

use vstd::prelude::*;
use crate::account_map::AccountMap;
use crate::internal::{account_bytes, bytes_for_approved_account_id};

verus! {

/// The storage that approval entries for the accounts take together.
pub open spec fn total_bytes(accounts: Seq<Seq<char>>) -> nat
    decreases accounts.len(),
{
    if accounts.len() == 0 {
        0
    } else {
        total_bytes(accounts.drop_last()) + account_bytes(accounts.last())
    }
}

/// Taking one account out lowers the total by that account's bytes.
pub proof fn lemma_total_bytes_remove(accounts: Seq<Seq<char>>, at: int)
    requires
        0 <= at < accounts.len(),
    ensures
        total_bytes(accounts.remove(at)) + account_bytes(accounts[at]) == total_bytes(accounts),
    decreases accounts.len(),
{
    if at == accounts.len() - 1 {
        assert(accounts.remove(at) =~= accounts.drop_last());
    } else {
        lemma_total_bytes_remove(accounts.drop_last(), at);
        assert(accounts.remove(at).drop_last() =~= accounts.drop_last().remove(at));
        assert(accounts.remove(at).last() == accounts.last());
    }
}

/// Adding one account at the end raises the total by that account's bytes.
pub proof fn lemma_total_bytes_push(accounts: Seq<Seq<char>>, account: Seq<char>)
    ensures
        total_bytes(accounts.push(account)) == total_bytes(accounts) + account_bytes(account),
{
    assert(accounts.push(account).drop_last() =~= accounts);
}

/// The total of a prefix is at most the total of the whole.
pub proof fn lemma_total_bytes_prefix(accounts: Seq<Seq<char>>, upto: int)
    requires
        0 <= upto <= accounts.len(),
    ensures
        total_bytes(accounts.take(upto)) <= total_bytes(accounts),
    decreases accounts.len(),
{
    if upto == accounts.len() {
        assert(accounts.take(upto) =~= accounts);
    } else {
        lemma_total_bytes_prefix(accounts.drop_last(), upto);
        assert(accounts.drop_last().take(upto) =~= accounts.take(upto));
    }
}

/// The approved accounts of a ticket, each with its approval id. The storage
/// that the entries take together fits in a `u64`.
pub struct ApprovalMap {
    pub(crate) map: AccountMap<u64>,
}

impl View for ApprovalMap {
    type V = Map<Seq<char>, u64>;

    open(crate) spec fn view(&self) -> Map<Seq<char>, u64> {
        self.map@
    }
}

impl ApprovalMap {
    /// The approved accounts, in the order in which they were approved.
    pub open(crate) spec fn accounts(&self) -> Seq<Seq<char>> {
        self.map.accounts()
    }

    /// No account occurs twice and the total storage fits in a `u64`.
    pub open(crate) spec fn wf(&self) -> bool {
        &&& self.map.wf()
        &&& total_bytes(self.accounts()) <= u64::MAX
    }

    /// The storage that the entries take together.
    pub open(crate) spec fn released_bytes(&self) -> nat {
        total_bytes(self.accounts())
    }

    /// A map without entries takes no storage, and only such a map.
    pub proof fn lemma_empty(&self)
        requires
            self.wf(),
        ensures
            (self@ == Map::<Seq<char>, u64>::empty()) == (self.accounts().len() == 0),
            self.accounts().len() == 0 ==> self.released_bytes() == 0,
            self.accounts().len() > 0 ==> self.released_bytes() > 0,
    {
        if self.accounts().len() == 0 {
            assert(self@ =~= Map::<Seq<char>, u64>::empty());
        } else {
            self.map.lemma_entry(0);
        }
    }

    /// An empty map.
    pub fn new() -> (approvals: Self)
        ensures
            approvals.wf(),
            approvals@ == Map::<Seq<char>, u64>::empty(),
            approvals.released_bytes() == 0,
    {
        ApprovalMap { map: AccountMap::new() }
    }

    /// The number of approved accounts.
    pub fn len(&self) -> (n: usize)
        ensures
            n == self.accounts().len(),
    {
        self.map.len()
    }

    /// Whether no account is approved.
    pub fn is_empty(&self) -> (empty: bool)
        requires
            self.wf(),
        ensures
            empty == (self@ == Map::<Seq<char>, u64>::empty()),
            empty == (self.released_bytes() == 0),
    {
        proof {
            self.lemma_empty();
        }
        self.map.len() == 0
    }

    /// The approval id of the account, if it is approved.
    pub fn get(&self, account_id: &String) -> (approval_id: Option<u64>)
        requires
            self.wf(),
        ensures
            approval_id == (if self@.contains_key(account_id@) {
                Some(self@[account_id@])
            } else {
                None
            }),
    {
        match self.map.get(account_id) {
            Some(id) => Some(*id),
            None => None,
        }
    }

    /// Whether the account is approved.
    pub fn contains_key(&self, account_id: &String) -> (found: bool)
        ensures
            found == self@.contains_key(account_id@),
    {
        self.map.contains_key(account_id)
    }

    /// The account approved at place `at`, with its approval id.
    pub fn entry_at(&self, at: usize) -> (entry: (&String, u64))
        requires
            self.wf(),
            at < self.accounts().len(),
        ensures
            entry.0@ == self.accounts()[at as int],
            self@.contains_key(entry.0@),
            self@[entry.0@] == entry.1,
    {
        proof {
            self.map.lemma_entry(at as int);
        }
        (self.map.account_at(at), *self.map.value_at(at))
    }

    /// Gives the account the approval id, in place of the one it had, and
    /// returns that earlier one.
    pub fn insert(&mut self, account_id: String, approval_id: u64) -> (earlier: Option<u64>)
        requires
            old(self).wf(),
            old(self)@.contains_key(account_id@) || old(self).released_bytes() + account_bytes(
                account_id@,
            ) <= u64::MAX,
        ensures
            final(self).wf(),
            final(self)@ == old(self)@.insert(account_id@, approval_id),
            earlier == (if old(self)@.contains_key(account_id@) {
                Some(old(self)@[account_id@])
            } else {
                None
            }),
            final(self).released_bytes() == old(self).released_bytes() + (if old(
                self,
            )@.contains_key(account_id@) {
                0
            } else {
                account_bytes(account_id@)
            }),
    {
        proof {
            lemma_total_bytes_push(self.accounts(), account_id@);
        }
        self.map.insert(account_id, approval_id)
    }

    /// Takes the account's entry out and returns the approval id it had.
    pub fn remove(&mut self, account_id: &String) -> (earlier: Option<u64>)
        requires
            old(self).wf(),
        ensures
            final(self).wf(),
            final(self)@ == old(self)@.remove(account_id@),
            earlier == (if old(self)@.contains_key(account_id@) {
                Some(old(self)@[account_id@])
            } else {
                None
            }),
            final(self).released_bytes() + (if old(self)@.contains_key(account_id@) {
                account_bytes(account_id@)
            } else {
                0
            }) == old(self).released_bytes(),
    {
        proof {
            if self@.contains_key(account_id@) {
                self.map.lemma_place(account_id@);
                lemma_total_bytes_remove(self.accounts(), self.map.place(account_id@));
            }
        }
        self.map.remove(account_id)
    }

    /// Takes every entry out.
    pub fn clear(&mut self)
        ensures
            final(self).wf(),
            final(self)@ == Map::<Seq<char>, u64>::empty(),
            final(self).released_bytes() == 0,
    {
        self.map = AccountMap::new();
    }

    /// The storage that the entries take together.
    pub fn storage_bytes(&self) -> (bytes: u64)
        requires
            self.wf(),
        ensures
            bytes == self.released_bytes(),
    {
        let mut bytes: u64 = 0;
        let mut i: usize = 0;
        while i < self.map.len()
            invariant
                i <= self.accounts().len(),
                self.wf(),
                bytes == total_bytes(self.accounts().take(i as int)),
            decreases self.accounts().len() - i,
        {
            proof {
                let upto = self.accounts().take(i as int + 1);
                assert(upto.drop_last() =~= self.accounts().take(i as int));
                assert(upto.last() == self.accounts()[i as int]);
                lemma_total_bytes_prefix(self.accounts(), i as int + 1);
            }
            bytes = bytes + bytes_for_approved_account_id(self.map.account_at(i));
            i += 1;
        }
        proof {
            assert(self.accounts().take(i as int) =~= self.accounts());
        }
        bytes
    }

    /// A copy of the map.
    pub fn duplicate(&self) -> (copy: Self)
        requires
            self.wf(),
        ensures
            copy.wf(),
            copy@ == self@,
            copy.accounts() == self.accounts(),
    {
        ApprovalMap { map: self.map.duplicate() }
    }
}

} // verus!
