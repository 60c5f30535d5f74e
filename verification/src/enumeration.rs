//! Queries: how many tickets and raffles there are, and what they are.

use vstd::prelude::*;
use crate::contract::{Contract, Raffle, RaffleMetadata};
use crate::events::opt_text;
use crate::nft_core::{JsonTicket, describes};
use crate::owner_index::TicketSet;
use crate::royalty::RoyaltySchedule;

verus! {

broadcast use vstd::std_specs::hash::group_hash_axioms;

/// A raffle as handed out to callers.
pub struct JsonSeries {
    pub series_id: u64,
    pub metadata: RaffleMetadata,
    pub royalty: Option<RoyaltySchedule>,
    pub owner_id: String,
}

/// Whether `series` describes the raffle `raffle` under the id `series_id`.
pub open spec fn describes_series(series: JsonSeries, series_id: u64, raffle: Raffle) -> bool {
    &&& series.series_id == series_id
    &&& series.owner_id@ == raffle.owner_id@
    &&& opt_text(series.metadata.title) == opt_text(raffle.metadata.title)
    &&& opt_text(series.metadata.description) == opt_text(raffle.metadata.description)
    &&& match series.royalty {
        Some(schedule) => raffle.royalty is Some && schedule.wf() && schedule@
            == raffle.royalty->0@ && schedule.recipients() == raffle.royalty->0.recipients()
            && schedule.shares() == raffle.royalty->0.shares(),
        None => raffle.royalty is None,
    }
}

/// The number of entries of a page that starts at `start` and holds at most
/// `limit` of `supply` entries.
pub open spec fn page_len(supply: int, start: int, limit: int) -> int {
    if start >= supply {
        0
    } else if supply - start < limit {
        supply - start
    } else {
        limit
    }
}

impl Contract {
    /// The number of tickets.
    pub fn nft_total_supply(&self) -> (supply: u128)
        requires
            self.wf(),
        ensures
            supply == self.next_ticket(),
            forall|id: u64| self.tickets().contains_key(id) <==> id < supply,
    {
        self.next_ticket_id as u128
    }

    /// The tickets from the one at `from_index` on, at most `limit` of them
    /// (50 where no limit is given), in the order of their ids.
    pub fn nft_tokens(&self, from_index: Option<u128>, limit: Option<u64>) -> (page: Vec<JsonTicket>)
        requires
            self.wf(),
        ensures
            page@.len() == page_len(
                self.next_ticket() as int,
                from_index.unwrap_or(0) as int,
                limit.unwrap_or(50) as int,
            ),
            forall|i: int|
                0 <= i < page@.len() ==> {
                    let id = (from_index.unwrap_or(0) + i) as u64;
                    describes(
                        #[trigger] page@[i],
                        id,
                        self.tickets()[id],
                        self.raffles()[self.tickets()[id].raffle_id],
                    )
                },
    {
        let start: u128 = match from_index {
            Some(index) => index,
            None => 0,
        };
        let most: u64 = match limit {
            Some(most) => most,
            None => 50,
        };
        let mut page: Vec<JsonTicket> = Vec::new();
        if start >= self.next_ticket_id as u128 {
            return page;
        }
        let first: u64 = start as u64;
        let mut taken: u64 = 0;
        while taken < most && first + taken < self.next_ticket_id
            invariant
                self.wf(),
                first == start,
                first < self.next_ticket(),
                taken <= most,
                first + taken <= self.next_ticket(),
                page@.len() == taken,
                forall|i: int|
                    0 <= i < page@.len() ==> {
                        let id = (start + i) as u64;
                        describes(
                            #[trigger] page@[i],
                            id,
                            self.tickets()[id],
                            self.raffles()[self.tickets()[id].raffle_id],
                        )
                    },
            decreases most - taken,
        {
            let id: u64 = first + taken;
            page.push(self.nft_token(id).unwrap());
            taken = taken + 1;
        }
        page
    }

    /// The tickets of `ids` from the one at place `from_index` on, at most
    /// `limit` of them (50 where no limit is given), in the order of `ids`.
    fn page_of(&self, ids: &TicketSet, from_index: Option<u128>, limit: Option<u64>) -> (page: Vec<
        JsonTicket,
    >)
        requires
            self.wf(),
            forall|i: int|
                0 <= i < ids.order().len() ==> self.tickets().contains_key(#[trigger] ids.order()[i]),
        ensures
            page@.len() == page_len(
                ids.order().len() as int,
                from_index.unwrap_or(0) as int,
                limit.unwrap_or(50) as int,
            ),
            forall|i: int|
                0 <= i < page@.len() ==> {
                    let id = ids.order()[from_index.unwrap_or(0) + i];
                    describes(
                        #[trigger] page@[i],
                        id,
                        self.tickets()[id],
                        self.raffles()[self.tickets()[id].raffle_id],
                    )
                },
    {
        let start: u128 = match from_index {
            Some(index) => index,
            None => 0,
        };
        let most: u64 = match limit {
            Some(most) => most,
            None => 50,
        };
        let mut page: Vec<JsonTicket> = Vec::new();
        let supply: usize = ids.len();
        if start >= supply as u128 {
            return page;
        }
        let first: usize = start as usize;
        let mut taken: usize = 0;
        while (taken as u64) < most && taken < supply - first
            invariant
                self.wf(),
                supply == ids.order().len(),
                first == start,
                first < supply,
                taken <= most,
                taken <= supply - first,
                page@.len() == taken,
                forall|i: int|
                    0 <= i < ids.order().len() ==> self.tickets().contains_key(
                        #[trigger] ids.order()[i],
                    ),
                forall|i: int|
                    0 <= i < page@.len() ==> {
                        let id = ids.order()[start + i];
                        describes(
                            #[trigger] page@[i],
                            id,
                            self.tickets()[id],
                            self.raffles()[self.tickets()[id].raffle_id],
                        )
                    },
            decreases supply - first - taken,
        {
            let id: u64 = ids.id_at(first + taken);
            page.push(self.nft_token(id).unwrap());
            taken = taken + 1;
        }
        page
    }

    /// The tickets that the account owns, from the one at place
    /// `from_index` on, at most `limit` of them (50 where no limit is
    /// given), in the order in which the account got them.
    pub fn nft_tokens_for_owner(
        &self,
        account_id: &String,
        from_index: Option<u128>,
        limit: Option<u64>,
    ) -> (page: Vec<JsonTicket>)
        requires
            self.wf(),
        ensures
            page@.len() == page_len(
                self.owner_order(account_id@).len() as int,
                from_index.unwrap_or(0) as int,
                limit.unwrap_or(50) as int,
            ),
            forall|i: int|
                0 <= i < page@.len() ==> {
                    let id = self.owner_order(account_id@)[from_index.unwrap_or(0) + i];
                    &&& self.tickets()[id].owner_id == account_id@
                    &&& describes(
                        #[trigger] page@[i],
                        id,
                        self.tickets()[id],
                        self.raffles()[self.tickets()[id].raffle_id],
                    )
                },
    {
        match self.tickets_per_owner.map.get(account_id) {
            Some(tokens) => {
                proof {
                    let order = tokens.order();
                    assert forall|i: int| 0 <= i < order.len() implies self.tickets().contains_key(
                        #[trigger] order[i],
                    ) && self.tickets()[order[i]].owner_id == account_id@ by {
                        assert(tokens.ids@.contains(tokens.ids@[i]));
                        assert(self.tickets_per_owner.owns(account_id@, tokens.order()[i]));
                    }
                }
                self.page_of(tokens, from_index, limit)
            },
            None => Vec::new(),
        }
    }

    /// The tickets issued in the raffle, from the one at place `from_index`
    /// on, at most `limit` of them (50 where no limit is given), in the
    /// order of their issue; none where there is no such raffle.
    pub fn nft_tokens_for_series(
        &self,
        series_id: u64,
        from_index: Option<u128>,
        limit: Option<u64>,
    ) -> (page: Vec<JsonTicket>)
        requires
            self.wf(),
        ensures
            page@.len() == page_len(
                self.series_order(series_id).len() as int,
                from_index.unwrap_or(0) as int,
                limit.unwrap_or(50) as int,
            ),
            forall|i: int|
                0 <= i < page@.len() ==> {
                    let id = self.series_order(series_id)[from_index.unwrap_or(0) + i];
                    &&& self.tickets()[id].raffle_id == series_id
                    &&& describes(
                        #[trigger] page@[i],
                        id,
                        self.tickets()[id],
                        self.raffles()[self.tickets()[id].raffle_id],
                    )
                },
    {
        match self.raffle_by_id.get(&series_id) {
            Some(series) => {
                proof {
                    let order = series.tickets.order();
                    assert forall|i: int| 0 <= i < order.len() implies self.tickets().contains_key(
                        #[trigger] order[i],
                    ) && self.tickets()[order[i]].raffle_id == series_id by {
                        assert(series.tickets.ids@.contains(series.tickets.ids@[i]));
                        assert(self.raffle_by_id@[series_id].tickets@.contains(
                            series.tickets.order()[i],
                        ));
                    }
                }
                self.page_of(&series.tickets, from_index, limit)
            },
            None => Vec::new(),
        }
    }

    /// The raffles from the one at place `from_index` on, at most `limit`
    /// of them (50 where no limit is given), in the order of their creation.
    pub fn get_series(&self, from_index: Option<u128>, limit: Option<u64>) -> (page: Vec<JsonSeries>)
        requires
            self.wf(),
        ensures
            page@.len() == page_len(
                self.raffle_order().len() as int,
                from_index.unwrap_or(0) as int,
                limit.unwrap_or(50) as int,
            ),
            forall|k: int|
                0 <= k < self.raffle_order().len() ==> self.raffles().contains_key(
                    #[trigger] self.raffle_order()[k],
                ),
            forall|i: int|
                0 <= i < page@.len() ==> {
                    let id = self.raffle_order()[from_index.unwrap_or(0) + i];
                    describes_series(#[trigger] page@[i], id, self.raffles()[id])
                },
    {
        proof {
            let order = self.raffle_order();
            assert forall|k: int| 0 <= k < order.len() implies self.raffles().contains_key(
                #[trigger] order[k],
            ) by {
                assert(self.raffle_ids@.contains(self.raffle_ids@[k]));
            }
        }
        let start: u128 = match from_index {
            Some(index) => index,
            None => 0,
        };
        let most: u64 = match limit {
            Some(most) => most,
            None => 50,
        };
        let mut page: Vec<JsonSeries> = Vec::new();
        let supply: usize = self.raffle_ids.len();
        if start >= supply as u128 {
            return page;
        }
        let first: usize = start as usize;
        let mut taken: usize = 0;
        while (taken as u64) < most && taken < supply - first
            invariant
                self.wf(),
                supply == self.raffle_order().len(),
                first == start,
                first < supply,
                taken <= most,
                taken <= supply - first,
                page@.len() == taken,
                forall|i: int|
                    0 <= i < page@.len() ==> {
                        let id = self.raffle_order()[start + i];
                        describes_series(#[trigger] page@[i], id, self.raffles()[id])
                    },
            decreases supply - first - taken,
        {
            let id: u64 = self.raffle_ids[first + taken];
            assert(self.raffle_ids@.contains(self.raffle_ids@[first + taken]));
            page.push(self.get_series_info(id).unwrap());
            taken = taken + 1;
        }
        page
    }

    /// The number of tickets that the account owns.
    pub fn nft_supply_for_owner(&self, account_id: &String) -> (supply: u128)
        requires
            self.wf(),
        ensures
            supply == self.tickets_of(account_id@).len(),
            forall|id: u64|
                self.tickets_of(account_id@).contains(id) <==> self.tickets().contains_key(id)
                    && self.tickets()[id].owner_id == account_id@,
    {
        proof {
            assert forall|id: u64|
                self.tickets_of(account_id@).contains(id) <==> self.tickets().contains_key(id)
                    && self.tickets()[id].owner_id == account_id@ by {
                assert(self.tickets_of(account_id@).contains(id)
                    == self.tickets_per_owner.owns(account_id@, id));
            }
        }
        self.tickets_per_owner.supply_for(account_id) as u128
    }

    /// The number of raffles.
    pub fn get_supply_series(&self) -> (supply: u64)
        ensures
            supply == self.raffles().dom().len() as u64,
    {
        self.raffle_by_id.len() as u64
    }

    /// The raffle with this id, if there is one.
    pub fn get_series_info(&self, series_id: u64) -> (found: Option<JsonSeries>)
        requires
            self.wf(),
        ensures
            found is Some <==> self.raffles().contains_key(series_id),
            found is Some ==> describes_series(found->0, series_id, self.raffles()[series_id]),
    {
        let raffle = match self.raffle_by_id.get(&series_id) {
            Some(raffle) => raffle,
            None => {
                return None;
            },
        };
        let royalty = match &raffle.royalty {
            Some(schedule) => Some(schedule.duplicate()),
            None => None,
        };
        Some(
            JsonSeries {
                series_id,
                metadata: raffle.metadata.duplicate(),
                royalty,
                owner_id: raffle.owner_id.clone(),
            },
        )
    }

    /// The number of tickets issued in the raffle; none where there is no
    /// such raffle.
    pub fn nft_supply_for_series(&self, series_id: u64) -> (supply: u128)
        requires
            self.wf(),
        ensures
            supply == (if self.raffles().contains_key(series_id) {
                self.raffle_tickets(series_id).len()
            } else {
                0
            }),
    {
        match self.raffle_by_id.get(&series_id) {
            Some(raffle) => {
                proof {
                    assert(raffle.tickets@ =~= raffle.tickets.ids@.to_set());
                    raffle.tickets.ids@.unique_seq_to_set();
                }
                raffle.tickets.len() as u128
            },
            None => 0,
        }
    }
}

} // verus!
