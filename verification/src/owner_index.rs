//! The reverse index: for each account, the tickets it owns.

use vstd::prelude::*;
use crate::account_map::AccountMap;

verus! {

/// The order with the id at its end, unless it holds the id already.
pub open spec fn with_ticket(order: Seq<u64>, ticket_id: u64) -> Seq<u64> {
    if order.contains(ticket_id) {
        order
    } else {
        order.push(ticket_id)
    }
}

/// The order without the id; the ids behind it move up.
pub open spec fn without_ticket(order: Seq<u64>, ticket_id: u64) -> Seq<u64> {
    if order.contains(ticket_id) {
        order.remove(order.index_of(ticket_id))
    } else {
        order
    }
}

/// The order after the ids have been added one by one.
pub open spec fn with_tickets(order: Seq<u64>, ticket_ids: Seq<u64>) -> Seq<u64>
    decreases ticket_ids.len(),
{
    if ticket_ids.len() == 0 {
        order
    } else {
        with_ticket(with_tickets(order, ticket_ids.drop_last()), ticket_ids.last())
    }
}

/// The order after the ids have been taken out one by one.
pub open spec fn without_tickets(order: Seq<u64>, ticket_ids: Seq<u64>) -> Seq<u64>
    decreases ticket_ids.len(),
{
    if ticket_ids.len() == 0 {
        order
    } else {
        without_ticket(without_tickets(order, ticket_ids.drop_last()), ticket_ids.last())
    }
}

/// Adding or taking out a single id is one step.
pub proof fn lemma_single_ticket(order: Seq<u64>, ticket_id: u64)
    ensures
        with_tickets(order, seq![ticket_id]) == with_ticket(order, ticket_id),
        without_tickets(order, seq![ticket_id]) == without_ticket(order, ticket_id),
{
    let one = seq![ticket_id];
    assert(one.drop_last() =~= Seq::<u64>::empty());
    assert(one.last() == ticket_id);
    reveal_with_fuel(with_tickets, 2);
    reveal_with_fuel(without_tickets, 2);
}

/// A set of ticket ids, kept in the order in which they were added.
pub struct TicketSet {
    pub(crate) ids: Vec<u64>,
}

impl View for TicketSet {
    type V = Set<u64>;

    open(crate) spec fn view(&self) -> Set<u64> {
        Set::new(|t: u64| self.ids@.contains(t))
    }
}

impl TicketSet {
    /// The ids, in the order in which they are kept.
    pub open(crate) spec fn order(&self) -> Seq<u64> {
        self.ids@
    }

    /// No id occurs twice.
    pub open(crate) spec fn wf(&self) -> bool {
        self.ids@.no_duplicates()
    }

    /// An empty set.
    pub fn new() -> (set: Self)
        ensures
            set.wf(),
            set@ == Set::<u64>::empty(),
            set.order() == Seq::<u64>::empty(),
    {
        let set = TicketSet { ids: Vec::new() };
        assert(set@ =~= Set::<u64>::empty());
        set
    }

    /// The number of ids.
    pub fn len(&self) -> (n: usize)
        ensures
            n == self.order().len(),
    {
        self.ids.len()
    }

    /// Whether the set holds no id.
    pub fn is_empty(&self) -> (empty: bool)
        ensures
            empty == (self@ == Set::<u64>::empty()),
            empty == (self.order().len() == 0),
    {
        let empty = self.ids.len() == 0;
        proof {
            if empty {
                assert(self@ =~= Set::<u64>::empty());
            } else {
                assert(self.ids@.contains(self.ids@[0]));
                assert(self@.contains(self.ids@[0]));
            }
        }
        empty
    }

    /// The id at place `at`.
    pub fn id_at(&self, at: usize) -> (id: u64)
        requires
            at < self.order().len(),
        ensures
            id == self.order()[at as int],
            self@.contains(id),
    {
        assert(self.ids@.contains(self.ids@[at as int]));
        self.ids[at]
    }

    /// Where the id stands, if the set holds it.
    pub(crate) fn find(&self, ticket_id: u64) -> (found: Option<usize>)
        ensures
            match found {
                Some(at) => at < self.ids@.len() && self.ids@[at as int] == ticket_id,
                None => !self@.contains(ticket_id),
            },
    {
        let mut i: usize = 0;
        while i < self.ids.len()
            invariant
                i <= self.ids@.len(),
                forall|j: int| 0 <= j < i ==> self.ids@[j] != ticket_id,
            decreases self.ids@.len() - i,
        {
            if self.ids[i] == ticket_id {
                return Some(i);
            }
            i += 1;
        }
        None
    }

    /// Whether the set holds the id.
    pub fn contains(&self, ticket_id: u64) -> (found: bool)
        ensures
            found == self@.contains(ticket_id),
    {
        let found = self.find(ticket_id);
        proof {
            if let Some(at) = found {
                assert(self.ids@.contains(self.ids@[at as int]));
            }
        }
        found.is_some()
    }

    /// Adds the id; returns whether it was new.
    pub fn insert(&mut self, ticket_id: u64) -> (added: bool)
        requires
            old(self).wf(),
        ensures
            final(self).wf(),
            final(self)@ == old(self)@.insert(ticket_id),
            final(self).order() == with_ticket(old(self).order(), ticket_id),
            added == !old(self)@.contains(ticket_id),
    {
        let ghost before = self.ids@;
        if self.contains(ticket_id) {
            assert(self@ =~= self@.insert(ticket_id));
            false
        } else {
            self.ids.push(ticket_id);
            proof {
                assert forall|t: u64| self@.contains(t) == (before.contains(t) || t
                    == ticket_id) by {
                    if before.contains(t) {
                        let j = choose|j: int| 0 <= j < before.len() && before[j] == t;
                        assert(self.ids@[j] == t);
                    }
                    if t == ticket_id {
                        assert(self.ids@[before.len() as int] == t);
                    }
                }
                assert(self@ =~= old(self)@.insert(ticket_id));
            }
            true
        }
    }

    /// Takes the id out; returns whether the set held it.
    pub fn remove(&mut self, ticket_id: u64) -> (removed: bool)
        requires
            old(self).wf(),
        ensures
            final(self).wf(),
            final(self)@ == old(self)@.remove(ticket_id),
            final(self).order() == without_ticket(old(self).order(), ticket_id),
            removed == old(self)@.contains(ticket_id),
    {
        let ghost before = self.ids@;
        match self.find(ticket_id) {
            Some(at) => {
                assert(before.contains(before[at as int]));
                assert(before.index_of(ticket_id) == at as int);
                self.ids.remove(at);
                proof {
                    assert forall|i: int| 0 <= i < self.ids@.len() implies #[trigger] self.ids@[i]
                        == before[if i < at { i } else { i + 1 }] by {}
                    assert forall|t: u64| self@.contains(t) == (before.contains(t) && t
                        != ticket_id) by {
                        if self.ids@.contains(t) {
                            let i = choose|i: int| 0 <= i < self.ids@.len() && self.ids@[i] == t;
                            let bi = if i < at { i } else { i + 1 };
                            assert(before[bi] == t);
                        }
                        if before.contains(t) && t != ticket_id {
                            let bi = choose|bi: int| 0 <= bi < before.len() && before[bi] == t;
                            let i = if bi < at { bi } else { bi - 1 };
                            assert(self.ids@[i] == t);
                        }
                    }
                    assert(self@ =~= old(self)@.remove(ticket_id));
                }
                true
            },
            None => {
                assert(self@ =~= self@.remove(ticket_id));
                false
            },
        }
    }
}

/// One more element of a sequence's prefix adds that element and no other.
pub proof fn lemma_take_contains(ids: Seq<u64>, upto: int, ticket_id: u64)
    requires
        0 <= upto < ids.len(),
    ensures
        ids.take(upto + 1).contains(ticket_id) <==> ids.take(upto).contains(ticket_id)
            || ids[upto] == ticket_id,
{
    if ids.take(upto + 1).contains(ticket_id) {
        let more = ids.take(upto + 1);
        let j = choose|j: int| 0 <= j < more.len() && more[j] == ticket_id;
        if j < upto {
            assert(ids.take(upto)[j] == ticket_id);
        }
    }
    if ids.take(upto).contains(ticket_id) {
        let fewer = ids.take(upto);
        let j = choose|j: int| 0 <= j < fewer.len() && fewer[j] == ticket_id;
        assert(ids.take(upto + 1)[j] == ticket_id);
    }
    if ids[upto] == ticket_id {
        assert(ids.take(upto + 1)[upto] == ticket_id);
    }
}

/// For each account, the set of the tickets it owns.
pub struct OwnerIndex {
    pub(crate) map: AccountMap<TicketSet>,
}

impl OwnerIndex {
    /// Whether the index lists the ticket under the account.
    pub open(crate) spec fn owns(&self, account: Seq<char>, ticket_id: u64) -> bool {
        self.map@.contains_key(account) && self.map@[account]@.contains(ticket_id)
    }

    /// The tickets listed under the account.
    pub open(crate) spec fn tickets_of(&self, account: Seq<char>) -> Set<u64> {
        Set::new(|t: u64| self.owns(account, t))
    }

    /// The tickets listed under the account, in the order in which they
    /// came; none where the account has no set.
    pub open(crate) spec fn order_of(&self, account: Seq<char>) -> Seq<u64> {
        if self.map@.contains_key(account) {
            self.map@[account].order()
        } else {
            Seq::empty()
        }
    }

    /// Whether the account has a set of its own, empty or not.
    pub open(crate) spec fn has_set(&self, account: Seq<char>) -> bool {
        self.map@.contains_key(account)
    }

    /// No account occurs twice, and no ticket twice under one account.
    pub open(crate) spec fn wf(&self) -> bool {
        &&& self.map.wf()
        &&& forall|k: Seq<char>| #[trigger] self.map@.contains_key(k) ==> self.map@[k].wf()
    }

    /// An index without entries.
    pub fn new() -> (index: Self)
        ensures
            index.wf(),
            forall|a: Seq<char>, t: u64| !index.owns(a, t),
            forall|a: Seq<char>| !index.has_set(a),
    {
        OwnerIndex { map: AccountMap::new() }
    }

    /// The number of tickets listed under the account.
    pub fn supply_for(&self, account_id: &String) -> (n: usize)
        requires
            self.wf(),
        ensures
            n == self.tickets_of(account_id@).len(),
    {
        match self.map.get(account_id) {
            Some(set) => {
                proof {
                    assert(self.tickets_of(account_id@) =~= set.ids@.to_set());
                    set.ids@.unique_seq_to_set();
                }
                set.len()
            },
            None => {
                assert(self.tickets_of(account_id@) =~= Set::<u64>::empty());
                0
            },
        }
    }

    /// Whether the index lists the ticket under the account.
    pub fn lists(&self, account_id: &String, ticket_id: u64) -> (found: bool)
        requires
            self.wf(),
        ensures
            found == self.owns(account_id@, ticket_id),
    {
        match self.map.get(account_id) {
            Some(set) => set.contains(ticket_id),
            None => false,
        }
    }

    /// Adds the tickets to the set of the account, which gets a set if it had
    /// none.
    pub fn internal_add_tickets_to_owner(&mut self, account_id: &String, ticket_id: &Vec<u64>)
        requires
            old(self).wf(),
        ensures
            final(self).wf(),
            forall|a: Seq<char>, t: u64|
                final(self).owns(a, t) <==> old(self).owns(a, t) || (a == account_id@
                    && ticket_id@.contains(t)),
            forall|a: Seq<char>| final(self).has_set(a) <==> old(self).has_set(a) || a == account_id@,
            final(self).order_of(account_id@) == with_tickets(
                old(self).order_of(account_id@),
                ticket_id@,
            ),
            forall|a: Seq<char>|
                a != account_id@ ==> #[trigger] final(self).order_of(a) == old(self).order_of(a),
    {
        let ghost before = *self;
        let mut set = match self.map.remove(account_id) {
            Some(set) => set,
            None => TicketSet::new(),
        };
        let ghost start = set@;
        let ghost start_order = set.order();
        let mut i: usize = 0;
        assert(ticket_id@.take(0) =~= Seq::<u64>::empty());
        while i < ticket_id.len()
            invariant
                i <= ticket_id@.len(),
                set.wf(),
                set.order() == with_tickets(start_order, ticket_id@.take(i as int)),
                forall|t: u64|
                    #[trigger] set@.contains(t) <==> start.contains(t) || ticket_id@.take(i as int).contains(
                        t,
                    ),
            decreases ticket_id@.len() - i,
        {
            set.insert(ticket_id[i]);
            proof {
                assert(ticket_id@.take(i as int + 1).drop_last() =~= ticket_id@.take(i as int));
                assert forall|t: u64|
                    #[trigger] set@.contains(t) <==> start.contains(t) || ticket_id@.take(
                        i as int + 1,
                    ).contains(t) by {
                    lemma_take_contains(ticket_id@, i as int, t);
                }
            }
            i += 1;
        }
        let ghost added = set@;
        self.map.insert(account_id.clone(), set);
        proof {
            assert(ticket_id@.take(i as int) =~= ticket_id@);
            assert forall|a: Seq<char>, t: u64|
                self.owns(a, t) <==> before.owns(a, t) || (a == account_id@
                    && ticket_id@.contains(t)) by {
                if a == account_id@ {
                    assert(self.owns(a, t) == added.contains(t));
                    assert(before.owns(a, t) == start.contains(t));
                }
            }
        }
    }

    /// Takes the tickets out of the set of the account, and the set itself
    /// out of the index once it is empty.
    pub fn internal_remove_tickets_from_owner(
        &mut self,
        account_id: &String,
        ticket_id: &Vec<u64>,
    )
        requires
            old(self).wf(),
            old(self).has_set(account_id@),
        ensures
            final(self).wf(),
            forall|a: Seq<char>, t: u64|
                final(self).owns(a, t) <==> old(self).owns(a, t) && !(a == account_id@
                    && ticket_id@.contains(t)),
            forall|a: Seq<char>| a != account_id@ ==> (final(self).has_set(a) <==> old(self).has_set(a)),
            final(self).has_set(account_id@) <==> exists|t: u64| final(self).owns(account_id@, t),
            final(self).order_of(account_id@) == without_tickets(
                old(self).order_of(account_id@),
                ticket_id@,
            ),
            forall|a: Seq<char>|
                a != account_id@ ==> #[trigger] final(self).order_of(a) == old(self).order_of(a),
    {
        let ghost before = *self;
        let mut set = match self.map.remove(account_id) {
            Some(set) => set,
            None => TicketSet::new(),
        };
        let ghost start = set@;
        let ghost start_order = set.order();
        let mut i: usize = 0;
        assert(ticket_id@.take(0) =~= Seq::<u64>::empty());
        while i < ticket_id.len()
            invariant
                i <= ticket_id@.len(),
                set.wf(),
                set.order() == without_tickets(start_order, ticket_id@.take(i as int)),
                forall|t: u64|
                    #[trigger] set@.contains(t) <==> start.contains(t) && !ticket_id@.take(i as int).contains(
                        t,
                    ),
            decreases ticket_id@.len() - i,
        {
            set.remove(ticket_id[i]);
            proof {
                assert(ticket_id@.take(i as int + 1).drop_last() =~= ticket_id@.take(i as int));
                assert forall|t: u64|
                    #[trigger] set@.contains(t) <==> start.contains(t) && !ticket_id@.take(
                        i as int + 1,
                    ).contains(t) by {
                    lemma_take_contains(ticket_id@, i as int, t);
                }
            }
            i += 1;
        }
        assert(ticket_id@.take(i as int) =~= ticket_id@);
        let ghost rest = set@;
        if !set.is_empty() {
            proof {
                assert(set.ids@.contains(set.ids@[0]));
            }
            self.map.insert(account_id.clone(), set);
            assert(self.owns(account_id@, set.order()[0]));
        } else {
            assert(!self.has_set(account_id@));
        }
        proof {
            assert forall|a: Seq<char>, t: u64|
                self.owns(a, t) <==> before.owns(a, t) && !(a == account_id@
                    && ticket_id@.contains(t)) by {
                if a == account_id@ {
                    assert(self.owns(a, t) == rest.contains(t));
                    assert(before.owns(a, t) == start.contains(t));
                }
            }
        }
    }
}

} // verus!
