//! A small map keyed by account: the entries are kept in a vector, in the
//! order in which their accounts were first added, and no account occurs twice.

use vstd::prelude::*;

verus! {

/// One account and what the map holds for it.
pub struct AccountEntry<V> {
    pub account_id: String,
    pub value: V,
}

/// A map from accounts to values of `V`.
pub struct AccountMap<V> {
    pub(crate) entries: Vec<AccountEntry<V>>,
}

impl<V> View for AccountMap<V> {
    type V = Map<Seq<char>, V>;

    open(crate) spec fn view(&self) -> Map<Seq<char>, V> {
        Map::new(|k: Seq<char>| self.has(k), |k: Seq<char>| self.entries@[self.place(k)].value)
    }
}

impl<V> AccountMap<V> {
    /// The accounts, in the order in which they are kept.
    pub open(crate) spec fn accounts(&self) -> Seq<Seq<char>> {
        Seq::new(self.entries@.len(), |i: int| self.entries@[i].account_id@)
    }

    /// The values, in the order in which they are kept.
    pub open(crate) spec fn values(&self) -> Seq<V> {
        Seq::new(self.entries@.len(), |i: int| self.entries@[i].value)
    }

    /// Whether the account has an entry.
    pub open(crate) spec fn has(&self, account: Seq<char>) -> bool {
        exists|i: int|
            0 <= i < self.entries@.len() && #[trigger] self.entries@[i].account_id@ == account
    }

    /// The place of the account's entry.
    pub open(crate) spec fn place(&self, account: Seq<char>) -> int {
        choose|i: int|
            0 <= i < self.entries@.len() && #[trigger] self.entries@[i].account_id@ == account
    }

    /// No account occurs twice.
    pub open(crate) spec fn wf(&self) -> bool {
        forall|i: int, j: int|
            0 <= i < j < self.entries@.len() ==> #[trigger] self.entries@[i].account_id@
                != #[trigger] self.entries@[j].account_id@
    }

    /// With no account twice, the entry at `at` is the one that the map holds
    /// for its account.
    pub proof fn lemma_entry(&self, at: int)
        requires
            self.wf(),
            0 <= at < self.accounts().len(),
        ensures
            self@.contains_key(self.accounts()[at]),
            self@[self.accounts()[at]] == self.values()[at],
            self.place(self.accounts()[at]) == at,
    {
        let account = self.entries@[at].account_id@;
        assert(self.has(account));
        let p = self.place(account);
        if p < at {
            assert(self.entries@[p].account_id@ != self.entries@[at].account_id@);
        } else if at < p {
            assert(self.entries@[at].account_id@ != self.entries@[p].account_id@);
        }
    }

    /// Every account of the map stands at its place in the sequence of accounts.
    pub proof fn lemma_place(&self, account: Seq<char>)
        requires
            self@.contains_key(account),
        ensures
            0 <= self.place(account) < self.accounts().len(),
            self.accounts()[self.place(account)] == account,
            self.values()[self.place(account)] == self@[account],
    {
    }

    /// The accounts of the map are those of the sequence.
    pub proof fn lemma_accounts(&self)
        ensures
            forall|k: Seq<char>| self@.contains_key(k) <==> self.accounts().contains(k),
            self.accounts().len() == self.values().len(),
    {
        assert forall|k: Seq<char>| self@.contains_key(k) <==> self.accounts().contains(k) by {
            if self@.contains_key(k) {
                assert(self.accounts()[self.place(k)] == k);
            }
            if self.accounts().contains(k) {
                let i = choose|i: int| 0 <= i < self.accounts().len() && self.accounts()[i] == k;
                assert(self.entries@[i].account_id@ == k);
            }
        }
    }

    /// An empty map.
    pub fn new() -> (map: Self)
        ensures
            map.wf(),
            map@ == Map::<Seq<char>, V>::empty(),
            map.accounts() == Seq::<Seq<char>>::empty(),
            map.values() == Seq::<V>::empty(),
    {
        let map = AccountMap { entries: Vec::new() };
        assert(map.values() =~= Seq::<V>::empty());
        assert(map@ =~= Map::<Seq<char>, V>::empty());
        assert(map.accounts() =~= Seq::<Seq<char>>::empty());
        map
    }

    /// The number of entries.
    pub fn len(&self) -> (n: usize)
        ensures
            n == self.accounts().len(),
    {
        self.entries.len()
    }

    /// The account of the entry at `at`.
    pub fn account_at(&self, at: usize) -> (account_id: &String)
        requires
            at < self.accounts().len(),
        ensures
            account_id@ == self.accounts()[at as int],
    {
        &self.entries[at].account_id
    }

    /// The value of the entry at `at`.
    pub fn value_at(&self, at: usize) -> (value: &V)
        requires
            at < self.accounts().len(),
        ensures
            *value == self.values()[at as int],
    {
        &self.entries[at].value
    }

    /// Where the account's entry stands, if it has one.
    pub fn find(&self, account_id: &String) -> (found: Option<usize>)
        ensures
            match found {
                Some(at) => at < self.accounts().len() && self.accounts()[at as int]
                    == account_id@,
                None => !self@.contains_key(account_id@),
            },
    {
        let mut i: usize = 0;
        while i < self.entries.len()
            invariant
                i <= self.entries@.len(),
                forall|j: int| 0 <= j < i ==> self.entries@[j].account_id@ != account_id@,
            decreases self.entries@.len() - i,
        {
            if self.entries[i].account_id == *account_id {
                return Some(i);
            }
            i += 1;
        }
        None
    }

    /// What the map holds for the account, if anything.
    pub fn get(&self, account_id: &String) -> (value: Option<&V>)
        requires
            self.wf(),
        ensures
            match value {
                Some(v) => self@.contains_key(account_id@) && *v == self@[account_id@],
                None => !self@.contains_key(account_id@),
            },
    {
        match self.find(account_id) {
            Some(at) => {
                proof {
                    self.lemma_entry(at as int);
                }
                Some(&self.entries[at].value)
            },
            None => None,
        }
    }

    /// Whether the account has an entry.
    pub fn contains_key(&self, account_id: &String) -> (found: bool)
        ensures
            found == self@.contains_key(account_id@),
    {
        self.find(account_id).is_some()
    }

    /// Gives the account the value, in place of the one it had, and returns
    /// that earlier one. A new account goes to the end.
    pub fn insert(&mut self, account_id: String, value: V) -> (earlier: Option<V>)
        requires
            old(self).wf(),
        ensures
            final(self).wf(),
            final(self)@ == old(self)@.insert(account_id@, value),
            earlier == (if old(self)@.contains_key(account_id@) {
                Some(old(self)@[account_id@])
            } else {
                None
            }),
            final(self).accounts() == (if old(self)@.contains_key(account_id@) {
                old(self).accounts()
            } else {
                old(self).accounts().push(account_id@)
            }),
            final(self).values() == (if old(self)@.contains_key(account_id@) {
                old(self).values().update(old(self).place(account_id@), value)
            } else {
                old(self).values().push(value)
            }),
    {
        let ghost before = *self;
        match self.find(&account_id) {
            Some(at) => {
                proof {
                    before.lemma_entry(at as int);
                }
                let entry = self.entries.remove(at);
                self.entries.insert(at, AccountEntry { account_id, value });
                proof {
                    assert(self.entries@.len() == before.entries@.len());
                    assert forall|i: int| 0 <= i < self.entries@.len() implies (
                    #[trigger] self.entries@[i]).account_id@ == before.entries@[i].account_id@ by {}
                    assert(self.accounts() =~= before.accounts());
                    assert(self.values() =~= before.values().update(at as int, value));
                    assert forall|k: Seq<char>| self.has(k) == before.has(k) by {
                        if self.has(k) {
                            let i = self.place(k);
                            assert(before.entries@[i].account_id@ == k);
                        }
                        if before.has(k) {
                            let i = before.place(k);
                            assert(self.entries@[i].account_id@ == k);
                        }
                    }
                    assert forall|k: Seq<char>| self.has(k) implies #[trigger] self@[k]
                        == before@.insert(account_id@, value)[k] by {
                        let i = self.place(k);
                        self.lemma_entry(i);
                        before.lemma_entry(i);
                    }
                    assert(self@ =~= before@.insert(account_id@, value));
                }
                Some(entry.value)
            },
            None => {
                self.entries.push(AccountEntry { account_id, value });
                proof {
                    let last = before.entries@.len() as int;
                    assert(self.accounts() =~= before.accounts().push(account_id@));
                    assert(self.values() =~= before.values().push(value));
                    assert forall|i: int, j: int| 0 <= i < j < self.entries@.len() implies
                        #[trigger] self.entries@[i].account_id@
                        != #[trigger] self.entries@[j].account_id@ by {
                        if j == last {
                            assert(before.entries@[i].account_id@ != account_id@);
                        }
                    }
                    assert forall|k: Seq<char>|
                        self.has(k) == (before.has(k) || k == account_id@) by {
                        if self.has(k) {
                            let i = self.place(k);
                            if i < last {
                                assert(before.entries@[i].account_id@ == k);
                            }
                        }
                        if before.has(k) {
                            let i = before.place(k);
                            assert(self.entries@[i].account_id@ == k);
                        }
                        if k == account_id@ {
                            assert(self.entries@[last].account_id@ == k);
                        }
                    }
                    assert forall|k: Seq<char>| self.has(k) implies #[trigger] self@[k]
                        == before@.insert(account_id@, value)[k] by {
                        let i = self.place(k);
                        self.lemma_entry(i);
                        if i < last {
                            before.lemma_entry(i);
                        }
                    }
                    assert(self@ =~= before@.insert(account_id@, value));
                }
                None
            },
        }
    }

    /// Takes the account's entry out and returns the value it had. The other
    /// entries keep their order.
    pub fn remove(&mut self, account_id: &String) -> (earlier: Option<V>)
        requires
            old(self).wf(),
        ensures
            final(self).wf(),
            final(self)@ == old(self)@.remove(account_id@),
            earlier == (if old(self)@.contains_key(account_id@) {
                Some(old(self)@[account_id@])
            } else {
                None
            }),
            final(self).accounts() == (if old(self)@.contains_key(account_id@) {
                old(self).accounts().remove(old(self).place(account_id@))
            } else {
                old(self).accounts()
            }),
            final(self).values() == (if old(self)@.contains_key(account_id@) {
                old(self).values().remove(old(self).place(account_id@))
            } else {
                old(self).values()
            }),
    {
        let ghost before = *self;
        match self.find(account_id) {
            Some(at) => {
                proof {
                    before.lemma_entry(at as int);
                }
                let entry = self.entries.remove(at);
                proof {
                    assert(self.accounts() =~= before.accounts().remove(at as int));
                    assert(self.values() =~= before.values().remove(at as int));
                    assert forall|i: int| 0 <= i < self.entries@.len() implies
                        #[trigger] self.entries@[i] == before.entries@[if i < at {
                        i
                    } else {
                        i + 1
                    }] by {}
                    assert forall|i: int, j: int| 0 <= i < j < self.entries@.len() implies
                        #[trigger] self.entries@[i].account_id@
                        != #[trigger] self.entries@[j].account_id@ by {
                        let bi = if i < at { i } else { i + 1 };
                        let bj = if j < at { j } else { j + 1 };
                        assert(before.entries@[bi].account_id@ != before.entries@[bj].account_id@);
                    }
                    assert forall|k: Seq<char>|
                        self.has(k) == (before.has(k) && k != account_id@) by {
                        if self.has(k) {
                            let i = self.place(k);
                            let bi = if i < at { i } else { i + 1 };
                            assert(before.entries@[bi].account_id@ == k);
                            if bi < at {
                                assert(before.entries@[bi].account_id@
                                    != before.entries@[at as int].account_id@);
                            } else {
                                assert(before.entries@[at as int].account_id@
                                    != before.entries@[bi].account_id@);
                            }
                        }
                        if before.has(k) && k != account_id@ {
                            let bi = before.place(k);
                            let i = if bi < at { bi } else { bi - 1 };
                            assert(self.entries@[i].account_id@ == k);
                        }
                    }
                    assert forall|k: Seq<char>| self.has(k) implies #[trigger] self@[k]
                        == before@.remove(account_id@)[k] by {
                        let i = self.place(k);
                        let bi = if i < at { i } else { i + 1 };
                        self.lemma_entry(i);
                        before.lemma_entry(bi);
                    }
                    assert(self@ =~= before@.remove(account_id@));
                }
                Some(entry.value)
            },
            None => {
                proof {
                    assert(self@ =~= before@.remove(account_id@));
                }
                None
            },
        }
    }
}

impl<V: Copy> AccountMap<V> {
    /// A copy of the map, with the entries in the same order.
    pub fn duplicate(&self) -> (copy: Self)
        requires
            self.wf(),
        ensures
            copy.wf(),
            copy@ == self@,
            copy.accounts() == self.accounts(),
            copy.values() == self.values(),
    {
        let mut entries: Vec<AccountEntry<V>> = Vec::new();
        let mut i: usize = 0;
        while i < self.entries.len()
            invariant
                i <= self.entries@.len(),
                entries@.len() == i,
                forall|j: int|
                    0 <= j < i ==> (#[trigger] entries@[j]).account_id@
                        == self.entries@[j].account_id@ && entries@[j].value
                        == self.entries@[j].value,
            decreases self.entries@.len() - i,
        {
            let account_id = self.entries[i].account_id.clone();
            entries.push(AccountEntry { account_id, value: self.entries[i].value });
            i += 1;
        }
        let copy = AccountMap { entries };
        proof {
            assert(copy.accounts() =~= self.accounts());
            assert(copy.values() =~= self.values());
            assert forall|k: Seq<char>| copy.has(k) == self.has(k) by {
                if copy.has(k) {
                    let i = copy.place(k);
                    assert(self.entries@[i].account_id@ == k);
                }
                if self.has(k) {
                    let i = self.place(k);
                    assert(copy.entries@[i].account_id@ == k);
                }
            }
            assert forall|k: Seq<char>| copy.has(k) implies #[trigger] copy@[k] == self@[k] by {
                let i = copy.place(k);
                copy.lemma_entry(i);
                self.lemma_entry(i);
            }
            assert(copy@ =~= self@);
        }
        copy
    }
}

} // verus!
