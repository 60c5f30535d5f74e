//! Raffles and their tickets: how the registry starts, how a raffle is
//! created and how tickets are minted into it.

use vstd::prelude::*;
use std::collections::HashMap;
use crate::account_map::AccountMap;
use crate::approvals::ApprovalMap;
use crate::contract::{Contract, NFTContractMetadata, Raffle, RaffleMetadata, Ticket, TicketView};
use crate::events::{RegistryError, opt_text};
use crate::owner_index::{OwnerIndex, TicketSet, lemma_single_ticket};
use crate::royalty::RoyaltySchedule;

verus! {

broadcast use vstd::std_specs::hash::group_hash_axioms;

/// The names of the arguments into which an upstream minting service has
/// put the account, the funder, the drop and the key it acts for.
#[derive(Debug)]
pub struct KeypomArgs {
    pub account_id_field: Option<String>,
    pub funder_id_field: Option<String>,
    pub drop_id_field: Option<String>,
    pub key_id_field: Option<String>,
}

impl KeypomArgs {
    /// Whether the service put the values where a minting call expects them:
    /// the account under `receiver_id`, the funder under `funder_id` and the
    /// drop under `drop_id`.
    pub open spec fn genuine(&self) -> bool {
        &&& opt_text(self.funder_id_field) == Some("funder_id"@)
        &&& opt_text(self.drop_id_field) == Some("drop_id"@)
        &&& opt_text(self.account_id_field) == Some("receiver_id"@)
    }

    /// Tells whether the injected names are those of a minting call.
    pub fn fields_match(&self) -> (ok: bool)
        ensures
            ok == self.genuine(),
    {
        let funder = match &self.funder_id_field {
            Some(name) => *name == "funder_id".to_string(),
            None => false,
        };
        let raffle_drop = match &self.drop_id_field {
            Some(name) => *name == "drop_id".to_string(),
            None => false,
        };
        let account = match &self.account_id_field {
            Some(name) => *name == "receiver_id".to_string(),
            None => false,
        };
        funder && raffle_drop && account
    }
}

/// A ticket as it is minted: no approvals, and the counter of approval ids
/// at zero.
pub open spec fn minted(raffle_id: u64, owner: Seq<char>) -> TicketView {
    TicketView {
        raffle_id,
        owner_id: owner,
        approved_account_ids: Map::empty(),
        next_approval_id: 0,
    }
}

/// Why the minting of tickets is refused, if it is.
pub open spec fn mint_error(
    minters: Set<Seq<char>>,
    raffles: Set<u64>,
    caller: Seq<char>,
    raffle_id: u64,
) -> Option<RegistryError> {
    if !minters.contains(caller) {
        Some(RegistryError::Unauthorized)
    } else if !raffles.contains(raffle_id) {
        Some(RegistryError::NotFound)
    } else {
        None
    }
}

impl Contract {
    /// A registry without raffles or tickets, with the metadata given. The
    /// owner may mint tickets and create raffles.
    pub fn new(owner_id: String, metadata: NFTContractMetadata) -> (contract: Self)
        ensures
            contract.wf(),
            contract.admin() == owner_id@,
            contract.tickets() == Map::<u64, TicketView>::empty(),
            contract.raffles() == Map::<u64, Raffle>::empty(),
            contract.minters() == Set::<Seq<char>>::empty().insert(owner_id@),
            contract.creators() == Set::<Seq<char>>::empty().insert(owner_id@),
            contract.next_ticket() == 0,
            contract.contract_metadata() == metadata,
            contract.raffle_order() == Seq::<u64>::empty(),
    {
        let mut approved_minters: AccountMap<()> = AccountMap::new();
        approved_minters.insert(owner_id.clone(), ());
        let mut approved_creators: AccountMap<()> = AccountMap::new();
        approved_creators.insert(owner_id.clone(), ());
        let this = Contract {
            owner_id,
            approved_minters,
            approved_creators,
            raffle_by_id: HashMap::new(),
            raffle_ids: Vec::new(),
            ticket_by_id: HashMap::new(),
            tickets_per_owner: OwnerIndex::new(),
            metadata,
            next_ticket_id: 0,
        };
        proof {
            assert(this.tickets() =~= Map::<u64, TicketView>::empty());
            assert(this.minters() =~= Set::<Seq<char>>::empty().insert(owner_id@));
            assert(this.creators() =~= Set::<Seq<char>>::empty().insert(owner_id@));
        }
        this
    }

    /// A registry without raffles or tickets, with the default metadata.
    pub fn new_default_meta(owner_id: String) -> (contract: Self)
        ensures
            contract.wf(),
            contract.admin() == owner_id@,
            contract.tickets() == Map::<u64, TicketView>::empty(),
            contract.raffles() == Map::<u64, Raffle>::empty(),
            contract.minters() == Set::<Seq<char>>::empty().insert(owner_id@),
            contract.creators() == Set::<Seq<char>>::empty().insert(owner_id@),
            contract.next_ticket() == 0,
            contract.raffle_order() == Seq::<u64>::empty(),
            contract.contract_metadata().spec@ == "nft-1.0.0"@,
            contract.contract_metadata().name@ == "NFT Tutorial Contract"@,
            contract.contract_metadata().symbol@ == "GOTEAM"@,
            contract.contract_metadata().icon is None,
            contract.contract_metadata().base_uri is None,
            contract.contract_metadata().reference is None,
            contract.contract_metadata().reference_hash is None,
    {
        Self::new(
            owner_id,
            NFTContractMetadata {
                spec: "nft-1.0.0".to_string(),
                name: "NFT Tutorial Contract".to_string(),
                symbol: "GOTEAM".to_string(),
                icon: None,
                base_uri: None,
                reference: None,
                reference_hash: None,
            },
        )
    }

    /// What the registry says of itself.
    pub fn nft_metadata(&self) -> (metadata: &NFTContractMetadata)
        ensures
            *metadata == self.contract_metadata(),
    {
        &self.metadata
    }

    /// Accepts the account that administers the registry and no other.
    pub fn assert_contract_owner(&self, caller: &String) -> (res: Result<(), RegistryError>)
        ensures
            res is Ok <==> caller@ == self.admin(),
            res is Err ==> res == Err::<(), RegistryError>(RegistryError::Unauthorized),
    {
        if self.owner_id == *caller {
            Ok(())
        } else {
            Err(RegistryError::Unauthorized)
        }
    }

    /// Whether the account may mint tickets.
    pub fn is_approved_minter(&self, account_id: &String) -> (yes: bool)
        ensures
            yes == self.minters().contains(account_id@),
    {
        self.approved_minters.contains_key(account_id)
    }

    /// Whether the account may create raffles.
    pub fn is_approved_creator(&self, account_id: &String) -> (yes: bool)
        ensures
            yes == self.creators().contains(account_id@),
    {
        self.approved_creators.contains_key(account_id)
    }

    /// Creates a raffle without tickets, owned by the caller. The schedule's
    /// shares come to at most the whole, as every schedule's do.
    pub fn create_raffle(
        &mut self,
        caller: &String,
        raffle_id: u64,
        raffle_metadata: RaffleMetadata,
        royalty: Option<RoyaltySchedule>,
    ) -> (res: Result<(), RegistryError>)
        requires
            old(self).wf(),
            royalty is Some ==> royalty->0.wf(),
        ensures
            final(self).wf(),
            final(self).tickets() == old(self).tickets(),
            final(self).admin() == old(self).admin(),
            final(self).minters() == old(self).minters(),
            final(self).creators() == old(self).creators(),
            final(self).owner_index() == old(self).owner_index(),
            final(self).next_ticket() == old(self).next_ticket(),
            match res {
                Ok(_) => {
                    &&& !old(self).raffles().contains_key(raffle_id)
                    &&& final(self).raffles().dom() == old(self).raffles().dom().insert(raffle_id)
                    &&& final(self).raffle_order() == old(self).raffle_order().push(raffle_id)
                    &&& forall|other: u64|
                        other != raffle_id && old(self).raffles().contains_key(other) ==> (
                        #[trigger] final(self).raffles()[other]) == old(self).raffles()[other]
                    &&& final(self).raffles()[raffle_id].royalty == royalty
                    &&& final(self).raffles()[raffle_id].metadata == raffle_metadata
                    &&& final(self).raffles()[raffle_id].owner_id@ == caller@
                    &&& final(self).raffle_tickets(raffle_id) == Set::<u64>::empty()
                },
                Err(e) => {
                    &&& e == RegistryError::AlreadyExists
                    &&& old(self).raffles().contains_key(raffle_id)
                    &&& *final(self) == *old(self)
                },
            },
    {
        if self.raffle_by_id.contains_key(&raffle_id) {
            return Err(RegistryError::AlreadyExists);
        }
        let ghost before = *self;
        self.raffle_by_id.insert(
            raffle_id,
            Raffle {
                metadata: raffle_metadata,
                royalty,
                tickets: TicketSet::new(),
                owner_id: caller.clone(),
            },
        );
        self.raffle_ids.push(raffle_id);
        proof {
            assert(self.tickets() =~= before.tickets());
            assert(self.raffles().dom() =~= before.raffles().dom().insert(raffle_id));
            assert(!before.raffle_ids@.contains(raffle_id));
            assert forall|i: int, j: int|
                0 <= i < self.raffle_ids@.len() && 0 <= j < self.raffle_ids@.len() && i
                    != j implies self.raffle_ids@[i] != self.raffle_ids@[j] by {
                let last = before.raffle_ids@.len() as int;
                if i < last {
                    assert(before.raffle_ids@.contains(before.raffle_ids@[i]));
                }
                if j < last {
                    assert(before.raffle_ids@.contains(before.raffle_ids@[j]));
                }
            }
            assert forall|id: u64| #[trigger]
                self.raffle_ids@.contains(id) <==> self.raffle_by_id@.contains_key(id) by {
                if before.raffle_ids@.contains(id) {
                    let j = choose|j: int|
                        0 <= j < before.raffle_ids@.len() && before.raffle_ids@[j] == id;
                    assert(self.raffle_ids@[j] == id);
                }
                if id == raffle_id {
                    assert(self.raffle_ids@[before.raffle_ids@.len() as int] == id);
                }
            }
        }
        Ok(())
    }

    /// Mints one ticket of the raffle for the receiver, under the next id.
    fn mint_one(&mut self, raffle_id: u64, receiver_id: &String) -> (ticket_id: u64)
        requires
            old(self).wf(),
            old(self).raffles().contains_key(raffle_id),
            old(self).next_ticket() < u64::MAX,
        ensures
            final(self).wf(),
            ticket_id == old(self).next_ticket(),
            final(self).next_ticket() == old(self).next_ticket() + 1,
            final(self).tickets() == old(self).tickets().insert(
                ticket_id,
                minted(raffle_id, receiver_id@),
            ),
            final(self).admin() == old(self).admin(),
            final(self).minters() == old(self).minters(),
            final(self).raffles().dom() == old(self).raffles().dom(),
            forall|other: u64|
                other != raffle_id && old(self).raffles().contains_key(other) ==> (
                #[trigger] final(self).raffles()[other]) == old(self).raffles()[other],
            final(self).raffles()[raffle_id].royalty == old(self).raffles()[raffle_id].royalty,
            final(self).raffles()[raffle_id].metadata == old(self).raffles()[raffle_id].metadata,
            final(self).raffles()[raffle_id].owner_id == old(self).raffles()[raffle_id].owner_id,
            final(self).raffle_order() == old(self).raffle_order(),
            final(self).raffle_tickets(raffle_id) == old(self).raffle_tickets(raffle_id).insert(
                ticket_id,
            ),
            final(self).series_order(raffle_id) == old(self).series_order(raffle_id).push(
                ticket_id,
            ),
            final(self).owner_order(receiver_id@) == old(self).owner_order(receiver_id@).push(
                ticket_id,
            ),
            forall|a: Seq<char>|
                a != receiver_id@ ==> #[trigger] final(self).owner_order(a) == old(
                    self,
                ).owner_order(a),
    {
        let ghost before = *self;
        let ticket_id = self.next_ticket_id;
        let mut raffle = self.raffle_by_id.remove(&raffle_id).unwrap();
        raffle.tickets.insert(ticket_id);
        self.raffle_by_id.insert(raffle_id, raffle);
        let ticket = Ticket {
            raffle_id,
            owner_id: receiver_id.clone(),
            approved_account_ids: ApprovalMap::new(),
            next_approval_id: 0,
        };
        self.ticket_by_id.insert(ticket_id, ticket);
        let added: Vec<u64> = vec![ticket_id];
        proof {
            assert forall|t: u64| added@.contains(t) <==> t == ticket_id by {
                if t == ticket_id {
                    assert(added@[0] == t);
                }
            }
        }
        self.tickets_per_owner.internal_add_tickets_to_owner(receiver_id, &added);
        self.next_ticket_id = ticket_id + 1;
        proof {
            assert(added@ =~= seq![ticket_id]);
            lemma_single_ticket(before.owner_order(receiver_id@), ticket_id);
            if before.owner_order(receiver_id@).contains(ticket_id) {
                assert(before.tickets_per_owner.map@[receiver_id@]@.contains(ticket_id));
                assert(before.tickets_per_owner.owns(receiver_id@, ticket_id));
            }
            if before.series_order(raffle_id).contains(ticket_id) {
                assert(before.raffle_by_id@[raffle_id].tickets@.contains(ticket_id));
            }
            assert(self.tickets() =~= before.tickets().insert(
                ticket_id,
                minted(raffle_id, receiver_id@),
            ));
            assert(self.raffles().dom() =~= before.raffles().dom());
        }
        ticket_id
    }

    /// Tells whether `ticket_amount` more tickets can still be numbered.
    pub fn can_mint(&self, ticket_amount: u64) -> (room: bool)
        ensures
            room == (self.next_ticket() + ticket_amount <= u64::MAX),
    {
        ticket_amount <= u64::MAX - self.next_ticket_id
    }

    /// Mints `ticket_amount` tickets of the raffle for the receiver and
    /// returns their ids, which follow one another from the next free id.
    /// Only an approved minter may do so. Each ticket starts without
    /// approvals and with its counter of approval ids at zero.
    pub fn mint_ticket(
        &mut self,
        caller: &String,
        raffle_id: u64,
        receiver_id: &String,
        ticket_amount: u64,
    ) -> (res: Result<Vec<u64>, RegistryError>)
        requires
            old(self).wf(),
            old(self).next_ticket() + ticket_amount <= u64::MAX,
        ensures
            final(self).wf(),
            final(self).admin() == old(self).admin(),
            final(self).minters() == old(self).minters(),
            match res {
                Ok(ids) => {
                    let first = old(self).next_ticket();
                    &&& mint_error(
                        old(self).minters(),
                        old(self).raffles().dom(),
                        caller@,
                        raffle_id,
                    ) is None
                    &&& ids@ == Seq::new(ticket_amount as nat, |i: int| (first + i) as u64)
                    &&& final(self).next_ticket() == first + ticket_amount
                    &&& final(self).tickets() == Map::new(
                        |id: u64| old(self).tickets().contains_key(id) || first <= id < first + ticket_amount,
                        |id: u64|
                            if first <= id {
                                minted(raffle_id, receiver_id@)
                            } else {
                                old(self).tickets()[id]
                            },
                    )
                    &&& final(self).raffles().dom() == old(self).raffles().dom()
                    &&& forall|other: u64|
                        other != raffle_id && old(self).raffles().contains_key(other) ==> (
                        #[trigger] final(self).raffles()[other]) == old(self).raffles()[other]
                    &&& final(self).raffles()[raffle_id].royalty == old(
                        self,
                    ).raffles()[raffle_id].royalty
                    &&& final(self).raffles()[raffle_id].metadata == old(
                        self,
                    ).raffles()[raffle_id].metadata
                    &&& final(self).raffles()[raffle_id].owner_id == old(
                        self,
                    ).raffles()[raffle_id].owner_id
                    &&& final(self).raffle_order() == old(self).raffle_order()
                    &&& final(self).series_order(raffle_id) == old(self).series_order(raffle_id)
                        + ids@
                    &&& final(self).owner_order(receiver_id@) == old(self).owner_order(
                        receiver_id@,
                    ) + ids@
                    &&& forall|a: Seq<char>|
                        a != receiver_id@ ==> #[trigger] final(self).owner_order(a) == old(
                            self,
                        ).owner_order(a)
                    &&& final(self).raffle_tickets(raffle_id) == Set::new(
                        |id: u64|
                            old(self).raffle_tickets(raffle_id).contains(id) || first <= id < first
                                + ticket_amount,
                    )
                },
                Err(e) => {
                    &&& mint_error(
                        old(self).minters(),
                        old(self).raffles().dom(),
                        caller@,
                        raffle_id,
                    ) == Some(e)
                    &&& *final(self) == *old(self)
                },
            },
    {
        if !self.approved_minters.contains_key(caller) {
            return Err(RegistryError::Unauthorized);
        }
        if !self.raffle_by_id.contains_key(&raffle_id) {
            return Err(RegistryError::NotFound);
        }
        let ghost before = *self;
        let ghost first = self.next_ticket_id;
        let mut ids: Vec<u64> = Vec::new();
        let mut minted_so_far: u64 = 0;
        proof {
            assert(before.series_order(raffle_id) + ids@ =~= before.series_order(raffle_id));
            assert(before.owner_order(receiver_id@) + ids@ =~= before.owner_order(receiver_id@));
        }
        while minted_so_far < ticket_amount
            invariant
                minted_so_far <= ticket_amount,
                first + ticket_amount <= u64::MAX,
                first == before.next_ticket(),
                before.wf(),
                self.wf(),
                self.admin() == before.admin(),
                self.minters() == before.minters(),
                self.next_ticket() == first + minted_so_far,
                ids@ == Seq::new(minted_so_far as nat, |i: int| (first + i) as u64),
                self.tickets() == Map::new(
                    |id: u64| before.tickets().contains_key(id) || first <= id < first + minted_so_far,
                    |id: u64|
                        if first <= id {
                            minted(raffle_id, receiver_id@)
                        } else {
                            before.tickets()[id]
                        },
                ),
                self.raffles().dom() == before.raffles().dom(),
                before.raffles().contains_key(raffle_id),
                forall|other: u64|
                    other != raffle_id && before.raffles().contains_key(other) ==> (
                    #[trigger] self.raffles()[other]) == before.raffles()[other],
                self.raffles()[raffle_id].royalty == before.raffles()[raffle_id].royalty,
                self.raffles()[raffle_id].metadata == before.raffles()[raffle_id].metadata,
                self.raffles()[raffle_id].owner_id == before.raffles()[raffle_id].owner_id,
                self.raffle_order() == before.raffle_order(),
                self.series_order(raffle_id) == before.series_order(raffle_id) + ids@,
                self.owner_order(receiver_id@) == before.owner_order(receiver_id@) + ids@,
                forall|a: Seq<char>|
                    a != receiver_id@ ==> #[trigger] self.owner_order(a) == before.owner_order(a),
                self.raffle_tickets(raffle_id) == Set::new(
                    |id: u64|
                        before.raffle_tickets(raffle_id).contains(id) || first <= id < first
                            + minted_so_far,
                ),
            decreases ticket_amount - minted_so_far,
        {
            let ghost step = *self;
            let ghost so_far = ids@;
            let ticket_id = self.mint_one(raffle_id, receiver_id);
            ids.push(ticket_id);
            minted_so_far = minted_so_far + 1;
            proof {
                assert(before.series_order(raffle_id) + so_far.push(ticket_id) =~= (
                before.series_order(raffle_id) + so_far).push(ticket_id));
                assert(before.owner_order(receiver_id@) + so_far.push(ticket_id) =~= (
                before.owner_order(receiver_id@) + so_far).push(ticket_id));
                assert(ids@ =~= Seq::new(minted_so_far as nat, |i: int| (first + i) as u64));
                assert(self.tickets() =~= Map::new(
                    |id: u64| before.tickets().contains_key(id) || first <= id < first + minted_so_far,
                    |id: u64|
                        if first <= id {
                            minted(raffle_id, receiver_id@)
                        } else {
                            before.tickets()[id]
                        },
                ));
                assert(self.raffle_tickets(raffle_id) =~= Set::new(
                    |id: u64|
                        before.raffle_tickets(raffle_id).contains(id) || first <= id < first
                            + minted_so_far,
                ));
            }
        }
        Ok(ids)
    }
}

} // verus!
