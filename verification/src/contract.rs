//! The registry itself: tickets, raffles and the reverse index of owners,
//! with the invariant that ties them together.

use vstd::prelude::*;
use std::collections::HashMap;
use crate::account_map::AccountMap;
use crate::approvals::ApprovalMap;
use crate::events::{RegistryError, TransferRecord, TransferRecordView, clone_opt_text, opt_text};
use crate::owner_index::{OwnerIndex, TicketSet, lemma_single_ticket, with_ticket, without_ticket};
use crate::royalty::RoyaltySchedule;

verus! {

broadcast use vstd::std_specs::hash::group_hash_axioms;

/// A ticket: the raffle it belongs to, its one owner, the accounts approved
/// to move it, and the id that the next approval will get.
pub struct Ticket {
    pub raffle_id: u64,
    pub owner_id: String,
    pub approved_account_ids: ApprovalMap,
    pub next_approval_id: u64,
}

/// A ticket as plain values.
pub struct TicketView {
    pub raffle_id: u64,
    pub owner_id: Seq<char>,
    pub approved_account_ids: Map<Seq<char>, u64>,
    pub next_approval_id: u64,
}

impl View for Ticket {
    type V = TicketView;

    open spec fn view(&self) -> TicketView {
        TicketView {
            raffle_id: self.raffle_id,
            owner_id: self.owner_id@,
            approved_account_ids: self.approved_account_ids@,
            next_approval_id: self.next_approval_id,
        }
    }
}

impl Ticket {
    /// The approvals of the ticket are well formed.
    pub open spec fn wf(&self) -> bool {
        self.approved_account_ids.wf()
    }
}

/// What is known of a raffle besides its tickets and royalties.
pub struct RaffleMetadata {
    pub title: Option<String>,
    pub description: Option<String>,
}

impl RaffleMetadata {
    /// A copy of the metadata.
    pub fn duplicate(&self) -> (copy: Self)
        ensures
            opt_text(copy.title) == opt_text(self.title),
            opt_text(copy.description) == opt_text(self.description),
    {
        RaffleMetadata {
            title: clone_opt_text(&self.title),
            description: clone_opt_text(&self.description),
        }
    }
}

/// What the registry says of itself.
pub struct NFTContractMetadata {
    pub spec: String,
    pub name: String,
    pub symbol: String,
    pub icon: Option<String>,
    pub base_uri: Option<String>,
    pub reference: Option<String>,
    pub reference_hash: Option<Vec<u8>>,
}

/// A raffle: a collection of tickets that share metadata and royalties.
pub struct Raffle {
    pub metadata: RaffleMetadata,
    /// The royalty schedule of every ticket of the raffle.
    pub royalty: Option<RoyaltySchedule>,
    /// The tickets issued so far.
    pub tickets: TicketSet,
    pub owner_id: String,
}

impl Raffle {
    /// The royalty schedule and the set of tickets are well formed.
    pub open spec fn wf(&self) -> bool {
        &&& self.tickets.wf()
        &&& match self.royalty {
            Some(schedule) => schedule.wf(),
            None => true,
        }
    }
}

/// The registry: every ticket with its owner and approvals, every raffle, and
/// for each account the tickets it owns.
pub struct Contract {
    pub(crate) owner_id: String,
    /// The accounts that may mint tickets.
    pub(crate) approved_minters: AccountMap<()>,
    /// The accounts that may create raffles.
    pub(crate) approved_creators: AccountMap<()>,
    pub(crate) raffle_by_id: HashMap<u64, Raffle>,
    /// The ids of the raffles, in the order in which they were created.
    pub(crate) raffle_ids: Vec<u64>,
    pub(crate) ticket_by_id: HashMap<u64, Ticket>,
    pub(crate) tickets_per_owner: OwnerIndex,
    pub(crate) metadata: NFTContractMetadata,
    /// The id that the next ticket will get.
    pub(crate) next_ticket_id: u64,
}

/// What a transfer hands back: the ticket as it was before, and the record of
/// the change.
pub struct CommittedTransfer {
    pub previous: Ticket,
    pub record: TransferRecord,
}

/// Why a transfer of the ticket by `sender` to `receiver` is refused, if it is.
pub open spec fn transfer_error(
    tickets: Map<u64, TicketView>,
    sender: Seq<char>,
    receiver: Seq<char>,
    ticket_id: u64,
    approval_id: Option<u64>,
) -> Option<RegistryError> {
    if !tickets.contains_key(ticket_id) {
        Some(RegistryError::NotFound)
    } else {
        let ticket = tickets[ticket_id];
        if sender != ticket.owner_id && !ticket.approved_account_ids.contains_key(sender) {
            Some(RegistryError::Unauthorized)
        } else if sender != ticket.owner_id && approval_id is Some
            && ticket.approved_account_ids[sender] != approval_id->0 {
            Some(RegistryError::StaleApproval)
        } else if receiver == ticket.owner_id {
            Some(RegistryError::InvalidTarget)
        } else {
            None
        }
    }
}

/// The ticket after it has gone to `receiver`: a new owner, no approvals, and
/// the same counter of approval ids.
pub open spec fn transferred(ticket: TicketView, receiver: Seq<char>) -> TicketView {
    TicketView {
        raffle_id: ticket.raffle_id,
        owner_id: receiver,
        approved_account_ids: Map::empty(),
        next_approval_id: ticket.next_approval_id,
    }
}

/// The record of a transfer of `ticket` by `sender` to `receiver`.
pub open spec fn transfer_record(
    ticket: TicketView,
    sender: Seq<char>,
    receiver: Seq<char>,
    ticket_id: u64,
    memo: Option<Seq<char>>,
) -> TransferRecordView {
    TransferRecordView {
        authorized_id: if sender != ticket.owner_id {
            Some(sender)
        } else {
            None
        },
        old_owner_id: ticket.owner_id,
        new_owner_id: receiver,
        ticket_id,
        memo,
    }
}

/// The tickets of `account` in their order, after the ticket has gone from
/// `from` to `to`: it leaves the list of the one and goes to the end of the
/// list of the other.
pub open spec fn after_move(
    order: Seq<u64>,
    account: Seq<char>,
    from: Seq<char>,
    to: Seq<char>,
    ticket_id: u64,
) -> Seq<u64> {
    let left = if account == from {
        without_ticket(order, ticket_id)
    } else {
        order
    };
    if account == to {
        with_ticket(left, ticket_id)
    } else {
        left
    }
}

impl Contract {
    /// The tickets, as plain values.
    pub open(crate) spec fn tickets(&self) -> Map<u64, TicketView> {
        Map::new(
            |id: u64| self.ticket_by_id@.contains_key(id),
            |id: u64| self.ticket_by_id@[id]@,
        )
    }

    /// The storage that the approvals of the ticket take.
    pub open(crate) spec fn approval_bytes(&self, ticket_id: u64) -> nat {
        self.ticket_by_id@[ticket_id].approved_account_ids.released_bytes()
    }

    /// The raffles.
    pub open(crate) spec fn raffles(&self) -> Map<u64, Raffle> {
        self.raffle_by_id@
    }

    /// The accounts that may mint tickets.
    pub open(crate) spec fn minters(&self) -> Set<Seq<char>> {
        self.approved_minters@.dom()
    }

    /// The accounts that may create raffles.
    pub open(crate) spec fn creators(&self) -> Set<Seq<char>> {
        self.approved_creators@.dom()
    }

    /// The id that the next ticket will get.
    pub open(crate) spec fn next_ticket(&self) -> u64 {
        self.next_ticket_id
    }

    /// The ids of the raffles, in the order in which they were created.
    pub open(crate) spec fn raffle_order(&self) -> Seq<u64> {
        self.raffle_ids@
    }

    /// The tickets that the account owns, in the order in which it got them;
    /// none where the account owns no ticket.
    pub open(crate) spec fn owner_order(&self, account: Seq<char>) -> Seq<u64> {
        self.tickets_per_owner.order_of(account)
    }

    /// The reverse index.
    pub open(crate) spec fn owner_index(&self) -> OwnerIndex {
        self.tickets_per_owner
    }

    /// The tickets issued in the raffle, in the order of their issue; none
    /// where there is no such raffle.
    pub open(crate) spec fn series_order(&self, raffle_id: u64) -> Seq<u64> {
        if self.raffle_by_id@.contains_key(raffle_id) {
            self.raffle_by_id@[raffle_id].tickets.order()
        } else {
            Seq::empty()
        }
    }

    /// The tickets issued in the raffle.
    pub open(crate) spec fn raffle_tickets(&self, raffle_id: u64) -> Set<u64> {
        self.raffle_by_id@[raffle_id].tickets@
    }

    /// What the registry says of itself.
    pub open(crate) spec fn contract_metadata(&self) -> NFTContractMetadata {
        self.metadata
    }

    /// The account that administers the registry.
    pub open(crate) spec fn admin(&self) -> Seq<char> {
        self.owner_id@
    }

    /// The tickets that the reverse index lists under the account.
    pub open(crate) spec fn tickets_of(&self, account: Seq<char>) -> Set<u64> {
        self.tickets_per_owner.tickets_of(account)
    }

    /// The state is consistent: every ticket and raffle is well formed, every
    /// ticket belongs to a raffle that exists, a raffle lists exactly the
    /// tickets that belong to it, the tickets are numbered from zero without
    /// a gap, and the reverse index lists a ticket under an account exactly
    /// if that account is the ticket's owner.
    pub open(crate) spec fn wf(&self) -> bool {
        &&& self.tickets_per_owner.wf()
        &&& self.approved_minters.wf()
        &&& self.approved_creators.wf()
        &&& forall|id: u64| #[trigger]
            self.ticket_by_id@.contains_key(id) ==> self.ticket_by_id@[id].wf()
                && self.raffle_by_id@.contains_key(self.ticket_by_id@[id].raffle_id)
        &&& forall|id: u64| #[trigger] self.ticket_by_id@.contains_key(id) <==> id < self.next_ticket_id
        &&& forall|id: u64| #[trigger]
            self.raffle_by_id@.contains_key(id) ==> self.raffle_by_id@[id].wf()
        &&& self.raffle_ids@.no_duplicates()
        &&& forall|id: u64| #[trigger]
            self.raffle_ids@.contains(id) <==> self.raffle_by_id@.contains_key(id)
        &&& forall|r: u64, t: u64|
            (self.raffle_by_id@.contains_key(r) && #[trigger] self.raffle_by_id@[r].tickets@.contains(
                t,
            )) <==> (self.ticket_by_id@.contains_key(t) && self.ticket_by_id@[t].raffle_id == r)
        &&& forall|a: Seq<char>, id: u64| #[trigger]
            self.tickets_per_owner.owns(a, id) <==> self.ticket_by_id@.contains_key(id)
                && self.ticket_by_id@[id].owner_id@ == a
    }

    /// Tells whether `sender_id` may transfer the ticket to `receiver_id`:
    /// the sender is the owner, or it is approved and, where an approval id
    /// is given, approved under exactly that id; and the receiver is not the
    /// owner.
    pub fn check_transfer(
        &self,
        sender_id: &String,
        receiver_id: &String,
        ticket_id: u64,
        approval_id: Option<u64>,
    ) -> (res: Result<(), RegistryError>)
        requires
            self.wf(),
        ensures
            match res {
                Ok(_) => transfer_error(
                    self.tickets(),
                    sender_id@,
                    receiver_id@,
                    ticket_id,
                    approval_id,
                ) is None,
                Err(e) => transfer_error(
                    self.tickets(),
                    sender_id@,
                    receiver_id@,
                    ticket_id,
                    approval_id,
                ) == Some(e),
            },
    {
        let ticket = match self.ticket_by_id.get(&ticket_id) {
            Some(ticket) => ticket,
            None => {
                return Err(RegistryError::NotFound);
            },
        };
        if *sender_id != ticket.owner_id {
            match ticket.approved_account_ids.get(sender_id) {
                None => {
                    return Err(RegistryError::Unauthorized);
                },
                Some(actual_approval_id) => {
                    if let Some(enforced_approval_id) = approval_id {
                        if actual_approval_id != enforced_approval_id {
                            return Err(RegistryError::StaleApproval);
                        }
                    }
                },
            }
        }
        if ticket.owner_id == *receiver_id {
            return Err(RegistryError::InvalidTarget);
        }
        Ok(())
    }

    /// Transfers the ticket to the receiver: takes it out of the set of its
    /// owner and puts it into the receiver's, makes the receiver the owner and
    /// voids every approval. The counter of approval ids goes on. Returns the
    /// ticket as it was and the record of the change.
    pub fn internal_transfer(
        &mut self,
        sender_id: &String,
        receiver_id: &String,
        ticket_id: u64,
        approval_id: Option<u64>,
        memo: Option<String>,
    ) -> (res: Result<CommittedTransfer, RegistryError>)
        requires
            old(self).wf(),
        ensures
            final(self).wf(),
            final(self).raffles() == old(self).raffles(),
            final(self).admin() == old(self).admin(),
            match res {
                Ok(done) => {
                    &&& transfer_error(
                        old(self).tickets(),
                        sender_id@,
                        receiver_id@,
                        ticket_id,
                        approval_id,
                    ) is None
                    &&& final(self).tickets() == old(self).tickets().insert(
                        ticket_id,
                        transferred(old(self).tickets()[ticket_id], receiver_id@),
                    )
                    &&& final(self).approval_bytes(ticket_id) == 0
                    &&& forall|a: Seq<char>| #[trigger]
                        final(self).owner_order(a) == after_move(
                            old(self).owner_order(a),
                            a,
                            old(self).tickets()[ticket_id].owner_id,
                            receiver_id@,
                            ticket_id,
                        )
                    &&& done.previous.wf()
                    &&& done.previous@ == old(self).tickets()[ticket_id]
                    &&& done.previous.approved_account_ids.released_bytes() == old(
                        self,
                    ).approval_bytes(ticket_id)
                    &&& done.record@ == transfer_record(
                        old(self).tickets()[ticket_id],
                        sender_id@,
                        receiver_id@,
                        ticket_id,
                        opt_text(memo),
                    )
                },
                Err(e) => {
                    &&& transfer_error(
                        old(self).tickets(),
                        sender_id@,
                        receiver_id@,
                        ticket_id,
                        approval_id,
                    ) == Some(e)
                    &&& *final(self) == *old(self)
                },
            },
    {
        match self.check_transfer(sender_id, receiver_id, ticket_id, approval_id) {
            Err(e) => {
                return Err(e);
            },
            Ok(()) => {},
        }
        let ghost before = *self;
        let ticket = self.ticket_by_id.remove(&ticket_id).unwrap();
        let by_owner = *sender_id == ticket.owner_id;
        let moved: Vec<u64> = vec![ticket_id];
        proof {
            assert(before.tickets_per_owner.owns(ticket.owner_id@, ticket_id));
            assert forall|t: u64| moved@.contains(t) <==> t == ticket_id by {
                if t == ticket_id {
                    assert(moved@[0] == t);
                }
            }
        }
        self.tickets_per_owner.internal_remove_tickets_from_owner(&ticket.owner_id, &moved);
        let ghost between = self.tickets_per_owner;
        self.tickets_per_owner.internal_add_tickets_to_owner(receiver_id, &moved);
        let new_ticket = Ticket {
            raffle_id: ticket.raffle_id,
            owner_id: receiver_id.clone(),
            approved_account_ids: ApprovalMap::new(),
            next_approval_id: ticket.next_approval_id,
        };
        self.ticket_by_id.insert(ticket_id, new_ticket);
        let authorized_id = if by_owner {
            None
        } else {
            Some(sender_id.clone())
        };
        let record = TransferRecord {
            authorized_id,
            old_owner_id: ticket.owner_id.clone(),
            new_owner_id: receiver_id.clone(),
            ticket_id,
            memo,
        };
        proof {
            assert(self.tickets() =~= before.tickets().insert(
                ticket_id,
                transferred(before.tickets()[ticket_id], receiver_id@),
            ));
            assert(moved@ =~= seq![ticket_id]);
            assert forall|a: Seq<char>| #[trigger]
                self.owner_order(a) == after_move(
                    before.owner_order(a),
                    a,
                    ticket.owner_id@,
                    receiver_id@,
                    ticket_id,
                ) by {
                lemma_single_ticket(before.owner_order(a), ticket_id);
                lemma_single_ticket(between.order_of(a), ticket_id);
            }
        }
        Ok(CommittedTransfer { previous: ticket, record })
    }
}

} // verus!
