//! Approvals: how the owner of a ticket lets another account move it, and
//! how it takes that right back.

use vstd::prelude::*;
use crate::contract::{Contract, TicketView};
use crate::events::{ApprovalNotification, Refund, RegistryError, opt_refund};
use crate::internal::{
    account_bytes,
    assert_at_least_one_yocto,
    assert_one_yocto,
    bytes_for_approved_account_id,
    cost_of_bytes,
    excess,
    refund_approved_account_ids,
    refund_deposit,
    storage_cost,
};

verus! {

broadcast use vstd::std_specs::hash::group_hash_axioms;

/// What a granted approval hands back.
pub struct ApprovalGranted {
    /// The id under which the account is approved.
    pub approval_id: u64,
    /// What is left of the deposit, for the caller.
    pub refund: Option<Refund>,
    /// The call to make to the approved account's contract, if a message was
    /// given.
    pub notification: Option<ApprovalNotification>,
}

/// The storage that approving `account` for the ticket newly takes: that of
/// one entry, unless the account is approved already.
pub open spec fn approval_storage(ticket: TicketView, account: Seq<char>) -> nat {
    if ticket.approved_account_ids.contains_key(account) {
        0
    } else {
        account_bytes(account)
    }
}

/// Why an approval is refused, if it is.
pub open spec fn approve_error(
    tickets: Map<u64, TicketView>,
    caller: Seq<char>,
    attached_deposit: u128,
    ticket_id: u64,
    account: Seq<char>,
) -> Option<RegistryError> {
    if attached_deposit < 1 {
        Some(RegistryError::InsufficientPayment)
    } else if !tickets.contains_key(ticket_id) {
        Some(RegistryError::NotFound)
    } else if caller != tickets[ticket_id].owner_id {
        Some(RegistryError::Unauthorized)
    } else if storage_cost(approval_storage(tickets[ticket_id], account) as int)
        > attached_deposit {
        Some(RegistryError::InsufficientPayment)
    } else {
        None
    }
}

/// The id under which `account` is approved once the approval is granted: the
/// one it holds already, or else the next of the ticket's counter.
pub open spec fn issued_approval_id(ticket: TicketView, account: Seq<char>) -> u64 {
    if ticket.approved_account_ids.contains_key(account) {
        ticket.approved_account_ids[account]
    } else {
        ticket.next_approval_id
    }
}

/// The ticket after `account` has been approved. The counter moves on
/// whether or not the account is new.
pub open spec fn approved(ticket: TicketView, account: Seq<char>) -> TicketView {
    TicketView {
        raffle_id: ticket.raffle_id,
        owner_id: ticket.owner_id,
        approved_account_ids: ticket.approved_account_ids.insert(
            account,
            issued_approval_id(ticket, account),
        ),
        next_approval_id: (ticket.next_approval_id + 1) as u64,
    }
}

/// The ticket after the approval of `account` has been revoked.
pub open spec fn revoked(ticket: TicketView, account: Seq<char>) -> TicketView {
    TicketView {
        raffle_id: ticket.raffle_id,
        owner_id: ticket.owner_id,
        approved_account_ids: ticket.approved_account_ids.remove(account),
        next_approval_id: ticket.next_approval_id,
    }
}

/// The ticket after every approval has been revoked.
pub open spec fn revoked_all(ticket: TicketView) -> TicketView {
    TicketView {
        raffle_id: ticket.raffle_id,
        owner_id: ticket.owner_id,
        approved_account_ids: Map::empty(),
        next_approval_id: ticket.next_approval_id,
    }
}

/// Why a revocation is refused, if it is.
pub open spec fn revoke_error(
    tickets: Map<u64, TicketView>,
    caller: Seq<char>,
    attached_deposit: u128,
    ticket_id: u64,
) -> Option<RegistryError> {
    if attached_deposit != 1 {
        Some(RegistryError::InsufficientPayment)
    } else if !tickets.contains_key(ticket_id) {
        Some(RegistryError::NotFound)
    } else if caller != tickets[ticket_id].owner_id {
        Some(RegistryError::Unauthorized)
    } else {
        None
    }
}

impl Contract {
    /// Whether the ticket, if there is one, can take one more approval: its
    /// counter of approval ids has not run out, and the storage of its
    /// approvals together with that of `account` still fits in a `u64`.
    pub open(crate) spec fn approval_has_room(&self, ticket_id: u64, account: Seq<char>) -> bool {
        self.tickets().contains_key(ticket_id) ==> {
            &&& self.tickets()[ticket_id].next_approval_id < u64::MAX
            &&& self.approval_bytes(ticket_id) + approval_storage(
                self.tickets()[ticket_id],
                account,
            ) <= u64::MAX
        }
    }

    /// Tells whether `nft_approve` can be called for the ticket and account.
    pub fn can_approve(&self, token_id: u64, account_id: &String) -> (room: bool)
        requires
            self.wf(),
        ensures
            room == self.approval_has_room(token_id, account_id@),
    {
        match self.ticket_by_id.get(&token_id) {
            None => true,
            Some(ticket) => {
                if ticket.next_approval_id == u64::MAX {
                    false
                } else if ticket.approved_account_ids.contains_key(account_id) {
                    true
                } else {
                    let len: usize = account_id.as_str().as_bytes().len();
                    let used: u64 = ticket.approved_account_ids.storage_bytes();
                    len as u64 <= u64::MAX - 12 && used <= u64::MAX - 12 - len as u64
                }
            },
        }
    }

    /// Approves `account_id` to move the ticket on the owner's behalf. Only
    /// the owner may do so, with a deposit of at least one unit that covers
    /// the storage of a new entry. An account that is approved already keeps
    /// its id; a new one gets the next id. What is left of the deposit goes
    /// back to the caller, and a message, if given, is sent on to the
    /// approved account's contract.
    pub fn nft_approve(
        &mut self,
        caller: &String,
        attached_deposit: u128,
        token_id: u64,
        account_id: String,
        msg: Option<String>,
    ) -> (res: Result<ApprovalGranted, RegistryError>)
        requires
            old(self).wf(),
            old(self).approval_has_room(token_id, account_id@),
        ensures
            final(self).wf(),
            final(self).raffles() == old(self).raffles(),
            final(self).admin() == old(self).admin(),
            final(self).owner_index() == old(self).owner_index(),
            match res {
                Ok(granted) => {
                    let ticket = old(self).tickets()[token_id];
                    &&& approve_error(
                        old(self).tickets(),
                        caller@,
                        attached_deposit,
                        token_id,
                        account_id@,
                    ) is None
                    &&& final(self).tickets() == old(self).tickets().insert(
                        token_id,
                        approved(ticket, account_id@),
                    )
                    &&& final(self).approval_bytes(token_id) == old(self).approval_bytes(token_id)
                        + approval_storage(ticket, account_id@)
                    &&& granted.approval_id == issued_approval_id(ticket, account_id@)
                    &&& opt_refund(granted.refund) == (match excess(
                        attached_deposit as int,
                        storage_cost(approval_storage(ticket, account_id@) as int),
                    ) {
                        Some(amount) => Some((caller@, amount as u128)),
                        None => None,
                    })
                    &&& match granted.notification {
                        Some(n) => msg is Some && n.msg@ == msg->0@ && n.ticket_id == token_id
                            && n.owner_id@ == ticket.owner_id && n.approval_id
                            == granted.approval_id,
                        None => msg is None,
                    }
                },
                Err(e) => {
                    &&& approve_error(
                        old(self).tickets(),
                        caller@,
                        attached_deposit,
                        token_id,
                        account_id@,
                    ) == Some(e)
                    &&& *final(self) == *old(self)
                },
            },
    {
        if assert_at_least_one_yocto(attached_deposit).is_err() {
            return Err(RegistryError::InsufficientPayment);
        }
        let ticket = match self.ticket_by_id.get(&token_id) {
            Some(ticket) => ticket,
            None => {
                return Err(RegistryError::NotFound);
            },
        };
        if *caller != ticket.owner_id {
            return Err(RegistryError::Unauthorized);
        }
        let held = ticket.approved_account_ids.get(&account_id);
        let storage_used: u64 = if held.is_none() {
            bytes_for_approved_account_id(&account_id)
        } else {
            0
        };
        let approval_id: u64 = match held {
            Some(id) => id,
            None => ticket.next_approval_id,
        };
        let refund = match refund_deposit(storage_used, attached_deposit, caller) {
            Ok(refund) => refund,
            Err(e) => {
                return Err(e);
            },
        };
        let ghost before = *self;
        let ghost account = account_id@;
        let mut ticket = self.ticket_by_id.remove(&token_id).unwrap();
        let notification = match msg {
            Some(msg) => Some(
                ApprovalNotification {
                    ticket_id: token_id,
                    owner_id: ticket.owner_id.clone(),
                    approval_id,
                    msg,
                },
            ),
            None => None,
        };
        ticket.approved_account_ids.insert(account_id, approval_id);
        ticket.next_approval_id = ticket.next_approval_id + 1;
        self.ticket_by_id.insert(token_id, ticket);
        proof {
            assert(self.tickets() =~= before.tickets().insert(
                token_id,
                approved(before.tickets()[token_id], account),
            ));
        }
        Ok(ApprovalGranted { approval_id, refund, notification })
    }

    /// Tells whether the account is approved for the ticket, and, where an
    /// approval id is given, whether it is approved under exactly that id.
    pub fn nft_is_approved(
        &self,
        token_id: u64,
        approved_account_id: &String,
        approval_id: Option<u64>,
    ) -> (res: Result<bool, RegistryError>)
        requires
            self.wf(),
        ensures
            match res {
                Ok(yes) => {
                    let approvals = self.tickets()[token_id].approved_account_ids;
                    &&& self.tickets().contains_key(token_id)
                    &&& yes == (approvals.contains_key(approved_account_id@) && (approval_id is Some
                        ==> approvals[approved_account_id@] == approval_id->0))
                },
                Err(e) => e == RegistryError::NotFound && !self.tickets().contains_key(token_id),
            },
    {
        let ticket = match self.ticket_by_id.get(&token_id) {
            Some(ticket) => ticket,
            None => {
                return Err(RegistryError::NotFound);
            },
        };
        match ticket.approved_account_ids.get(approved_account_id) {
            Some(approval) => match approval_id {
                Some(approval_id) => Ok(approval_id == approval),
                None => Ok(true),
            },
            None => Ok(false),
        }
    }

    /// Revokes the approval of `account_id` for the ticket. Only the owner
    /// may do so, with a deposit of exactly one unit. The storage of the
    /// entry is refunded to the caller. Where the account is not approved,
    /// nothing changes and nothing is refunded.
    pub fn nft_revoke(
        &mut self,
        caller: &String,
        attached_deposit: u128,
        token_id: u64,
        account_id: &String,
    ) -> (res: Result<Option<Refund>, RegistryError>)
        requires
            old(self).wf(),
        ensures
            final(self).wf(),
            final(self).raffles() == old(self).raffles(),
            final(self).admin() == old(self).admin(),
            final(self).owner_index() == old(self).owner_index(),
            match res {
                Ok(refund) => {
                    let ticket = old(self).tickets()[token_id];
                    &&& revoke_error(old(self).tickets(), caller@, attached_deposit, token_id)
                        is None
                    &&& final(self).tickets() == old(self).tickets().insert(
                        token_id,
                        revoked(ticket, account_id@),
                    )
                    &&& if ticket.approved_account_ids.contains_key(account_id@) {
                        &&& opt_refund(refund) == Some(
                            (caller@, storage_cost(account_bytes(account_id@) as int) as u128),
                        )
                        &&& final(self).approval_bytes(token_id) + account_bytes(account_id@)
                            == old(self).approval_bytes(token_id)
                    } else {
                        &&& refund is None
                        &&& *final(self) == *old(self)
                    }
                },
                Err(e) => {
                    &&& revoke_error(old(self).tickets(), caller@, attached_deposit, token_id)
                        == Some(e)
                    &&& *final(self) == *old(self)
                },
            },
    {
        if assert_one_yocto(attached_deposit).is_err() {
            return Err(RegistryError::InsufficientPayment);
        }
        let ticket = match self.ticket_by_id.get(&token_id) {
            Some(ticket) => ticket,
            None => {
                return Err(RegistryError::NotFound);
            },
        };
        if *caller != ticket.owner_id {
            return Err(RegistryError::Unauthorized);
        }
        if !ticket.approved_account_ids.contains_key(account_id) {
            proof {
                let approvals = self.tickets()[token_id].approved_account_ids;
                assert(approvals.remove(account_id@) =~= approvals);
                assert(self.tickets() =~= self.tickets().insert(
                    token_id,
                    revoked(self.tickets()[token_id], account_id@),
                ));
            }
            return Ok(None);
        }
        let ghost before = *self;
        let mut ticket = self.ticket_by_id.remove(&token_id).unwrap();
        ticket.approved_account_ids.remove(account_id);
        self.ticket_by_id.insert(token_id, ticket);
        let refund = Refund {
            account_id: caller.clone(),
            amount: cost_of_bytes(bytes_for_approved_account_id(account_id)),
        };
        proof {
            assert(self.tickets() =~= before.tickets().insert(
                token_id,
                revoked(before.tickets()[token_id], account_id@),
            ));
        }
        Ok(Some(refund))
    }

    /// Revokes every approval of the ticket. Only the owner may do so, with a
    /// deposit of exactly one unit. The storage of the entries is refunded to
    /// the caller. Where no account is approved, nothing changes and nothing
    /// is refunded.
    pub fn nft_revoke_all(&mut self, caller: &String, attached_deposit: u128, token_id: u64) -> (res:
        Result<Option<Refund>, RegistryError>)
        requires
            old(self).wf(),
        ensures
            final(self).wf(),
            final(self).raffles() == old(self).raffles(),
            final(self).admin() == old(self).admin(),
            final(self).owner_index() == old(self).owner_index(),
            match res {
                Ok(refund) => {
                    let ticket = old(self).tickets()[token_id];
                    &&& revoke_error(old(self).tickets(), caller@, attached_deposit, token_id)
                        is None
                    &&& final(self).tickets() == old(self).tickets().insert(
                        token_id,
                        revoked_all(ticket),
                    )
                    &&& if ticket.approved_account_ids == Map::<Seq<char>, u64>::empty() {
                        &&& refund is None
                        &&& *final(self) == *old(self)
                    } else {
                        &&& opt_refund(refund) == Some(
                            (
                                caller@,
                                storage_cost(old(self).approval_bytes(token_id) as int) as u128,
                            ),
                        )
                        &&& final(self).approval_bytes(token_id) == 0
                    }
                },
                Err(e) => {
                    &&& revoke_error(old(self).tickets(), caller@, attached_deposit, token_id)
                        == Some(e)
                    &&& *final(self) == *old(self)
                },
            },
    {
        if assert_one_yocto(attached_deposit).is_err() {
            return Err(RegistryError::InsufficientPayment);
        }
        let ticket = match self.ticket_by_id.get(&token_id) {
            Some(ticket) => ticket,
            None => {
                return Err(RegistryError::NotFound);
            },
        };
        if *caller != ticket.owner_id {
            return Err(RegistryError::Unauthorized);
        }
        if ticket.approved_account_ids.is_empty() {
            proof {
                assert(self.tickets() =~= self.tickets().insert(
                    token_id,
                    revoked_all(self.tickets()[token_id]),
                ));
            }
            return Ok(None);
        }
        let refund = refund_approved_account_ids(caller.clone(), &ticket.approved_account_ids);
        let ghost before = *self;
        let mut ticket = self.ticket_by_id.remove(&token_id).unwrap();
        ticket.approved_account_ids.clear();
        self.ticket_by_id.insert(token_id, ticket);
        proof {
            assert(self.tickets() =~= before.tickets().insert(
                token_id,
                revoked_all(before.tickets()[token_id]),
            ));
        }
        Ok(Some(refund))
    }
}

} // verus!
