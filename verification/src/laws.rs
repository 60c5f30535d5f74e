//! What holds of the registry whatever is done with it.

use vstd::prelude::*;
use crate::approval::{approved, issued_approval_id, revoked, revoked_all};
use crate::contract::{Contract, TicketView, transferred};
use crate::nft_core::returned_ticket;
use crate::raffle::minted;

verus! {

/// Every ticket of a consistent registry has exactly one owner: the reverse
/// index lists it under the account that the ticket names as its owner, and
/// under no other.
pub proof fn lemma_exactly_one_owner(contract: Contract, ticket_id: u64)
    requires
        contract.wf(),
        contract.tickets().contains_key(ticket_id),
    ensures
        forall|account: Seq<char>|
            contract.tickets_of(account).contains(ticket_id) <==> account
                == contract.tickets()[ticket_id].owner_id,
{
    assert forall|account: Seq<char>|
        contract.tickets_of(account).contains(ticket_id) <==> account
            == contract.tickets()[ticket_id].owner_id by {
        assert(contract.tickets_of(account).contains(ticket_id)
            == contract.tickets_per_owner.owns(account, ticket_id));
    }
}

/// A ticket that the reverse index lists under an account exists, and no
/// other account has it.
pub proof fn lemma_no_orphan_in_index(contract: Contract, account: Seq<char>, ticket_id: u64)
    requires
        contract.wf(),
        contract.tickets_of(account).contains(ticket_id),
    ensures
        contract.tickets().contains_key(ticket_id),
        contract.tickets()[ticket_id].owner_id == account,
        forall|other: Seq<char>| other != account ==> !contract.tickets_of(other).contains(ticket_id),
{
    assert(contract.tickets_per_owner.owns(account, ticket_id));
    lemma_exactly_one_owner(contract, ticket_id);
}

/// No step that the registry takes on a ticket lowers its counter of
/// approval ids, and an approval raises it.
pub proof fn lemma_counter_never_falls(
    ticket: TicketView,
    account: Seq<char>,
    receiver: Seq<char>,
    approvals: Map<Seq<char>, u64>,
)
    requires
        ticket.next_approval_id < u64::MAX,
    ensures
        approved(ticket, account).next_approval_id == ticket.next_approval_id + 1,
        revoked(ticket, account).next_approval_id == ticket.next_approval_id,
        revoked_all(ticket).next_approval_id == ticket.next_approval_id,
        transferred(ticket, receiver).next_approval_id == ticket.next_approval_id,
        returned_ticket(ticket, receiver, approvals).next_approval_id == ticket.next_approval_id,
{
}

/// An account that is approved anew gets the id at which the counter
/// stands, so an id that is higher than every id issued before.
pub proof fn lemma_new_approval_gets_counter(ticket: TicketView, account: Seq<char>)
    requires
        !ticket.approved_account_ids.contains_key(account),
        ticket.next_approval_id < u64::MAX,
    ensures
        issued_approval_id(ticket, account) == ticket.next_approval_id,
        approved(ticket, account).approved_account_ids[account] == ticket.next_approval_id,
        issued_approval_id(ticket, account) < approved(ticket, account).next_approval_id,
{
}

/// An approval that is granted, revoked and granted again comes back under
/// the next id, not under the one it had.
pub proof fn lemma_reapproval_gets_higher_id(ticket: TicketView, account: Seq<char>)
    requires
        !ticket.approved_account_ids.contains_key(account),
        ticket.next_approval_id < u64::MAX - 1,
    ensures
        issued_approval_id(ticket, account) == ticket.next_approval_id,
        issued_approval_id(revoked(approved(ticket, account), account), account)
            == ticket.next_approval_id + 1,
        issued_approval_id(revoked_all(approved(ticket, account)), account)
            == ticket.next_approval_id + 1,
{
}

/// Two accounts that are approved anew one after the other, with whatever
/// revocation in between, get ids that rise strictly.
pub proof fn lemma_issued_ids_rise(ticket: TicketView, first: Seq<char>, second: Seq<char>)
    requires
        !ticket.approved_account_ids.contains_key(first),
        !ticket.approved_account_ids.contains_key(second),
        first != second,
        ticket.next_approval_id < u64::MAX - 1,
    ensures
        issued_approval_id(ticket, first) < issued_approval_id(approved(ticket, first), second),
        issued_approval_id(ticket, first) < issued_approval_id(
            revoked(approved(ticket, first), first),
            second,
        ),
        issued_approval_id(ticket, first) < issued_approval_id(
            revoked_all(approved(ticket, first)),
            second,
        ),
{
}

/// Whether every approval id that the ticket holds lies below its counter.
pub open spec fn ids_below_counter(ticket: TicketView) -> bool {
    forall|account: Seq<char>|
        ticket.approved_account_ids.contains_key(account) ==> (
        #[trigger] ticket.approved_account_ids[account]) < ticket.next_approval_id
}

/// A ticket starts with its ids below its counter, and every step keeps
/// them there: approving, revoking, transferring, and returning the ticket
/// with approvals that were below the counter before.
pub proof fn lemma_ids_stay_below_counter(
    ticket: TicketView,
    account: Seq<char>,
    receiver: Seq<char>,
    approvals: Map<Seq<char>, u64>,
)
    requires
        ids_below_counter(ticket),
        ticket.next_approval_id < u64::MAX,
    ensures
        ids_below_counter(minted(ticket.raffle_id, receiver)),
        ids_below_counter(approved(ticket, account)),
        ids_below_counter(revoked(ticket, account)),
        ids_below_counter(revoked_all(ticket)),
        ids_below_counter(transferred(ticket, receiver)),
        (forall|held: Seq<char>|
            approvals.contains_key(held) ==> #[trigger] approvals[held] < ticket.next_approval_id)
            ==> ids_below_counter(returned_ticket(ticket, receiver, approvals)),
{
    let after = approved(ticket, account);
    assert forall|held: Seq<char>| after.approved_account_ids.contains_key(held) implies (
    #[trigger] after.approved_account_ids[held]) < after.next_approval_id by {
        if held != account {
            assert(ticket.approved_account_ids.contains_key(held));
            assert(ticket.approved_account_ids[held] < ticket.next_approval_id);
        } else if ticket.approved_account_ids.contains_key(account) {
            assert(ticket.approved_account_ids[account] < ticket.next_approval_id);
        }
    }
    let less = revoked(ticket, account);
    assert forall|held: Seq<char>| less.approved_account_ids.contains_key(held) implies (
    #[trigger] less.approved_account_ids[held]) < less.next_approval_id by {
        assert(ticket.approved_account_ids.contains_key(held));
        assert(ticket.approved_account_ids[held] < ticket.next_approval_id);
    }
}

/// The id that a newly approved account gets is held by no other account of
/// the ticket: an id is never used twice.
pub proof fn lemma_new_id_is_unused(ticket: TicketView, account: Seq<char>)
    requires
        ids_below_counter(ticket),
        !ticket.approved_account_ids.contains_key(account),
    ensures
        forall|held: Seq<char>|
            ticket.approved_account_ids.contains_key(held) ==> (
            #[trigger] ticket.approved_account_ids[held]) < issued_approval_id(ticket, account),
{
}

/// After a transfer the ticket has no approved account, whoever receives it.
pub proof fn lemma_transfer_voids_approvals(ticket: TicketView, receiver: Seq<char>)
    ensures
        transferred(ticket, receiver).approved_account_ids == Map::<Seq<char>, u64>::empty(),
        transferred(ticket, receiver).owner_id == receiver,
        forall|account: Seq<char>|
            !transferred(ticket, receiver).approved_account_ids.contains_key(account),
{
}

/// Revoking the approval of an account that has none leaves the ticket as
/// it is.
pub proof fn lemma_revoke_absent_is_noop(ticket: TicketView, account: Seq<char>)
    requires
        !ticket.approved_account_ids.contains_key(account),
    ensures
        revoked(ticket, account) == ticket,
{
    assert(ticket.approved_account_ids.remove(account) =~= ticket.approved_account_ids);
}

} // verus!
