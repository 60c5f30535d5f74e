//! Transfers: the direct one, the one that asks the receiver's contract for
//! an acknowledgment, and the continuation that keeps or undoes it.

use vstd::prelude::*;
use crate::approvals::ApprovalMap;
use crate::contract::{
    after_move,
    Contract,
    Raffle,
    RaffleMetadata,
    TicketView,
    transfer_error,
    transfer_record,
    transferred,
};
use crate::royalty::RoyaltySchedule;
use crate::events::{
    AcknowledgmentOutcome,
    Refund,
    RegistryError,
    ResolveInput,
    TransferAcknowledgmentRequest,
    TransferRecord,
    TransferRecordView,
    clone_opt_text,
    opt_text,
};
use crate::internal::{assert_one_yocto, refund_approved_account_ids, storage_cost};
use crate::owner_index::lemma_single_ticket;

verus! {

broadcast use vstd::std_specs::hash::group_hash_axioms;

/// What a direct transfer hands back.
pub struct TransferDone {
    /// The storage of the voided approvals, for the previous owner.
    pub refund: Refund,
    pub record: TransferRecord,
}

/// What a transfer that asks for an acknowledgment hands back: the call to
/// make to the receiver's contract, and what the continuation will need.
pub struct PendingTransfer {
    pub request: TransferAcknowledgmentRequest,
    pub resolve: ResolveInput,
    pub record: TransferRecord,
}

/// How the continuation of a transfer ended.
pub struct ResolveOutcome {
    /// Whether the ticket ended up back with the previous owner.
    pub returned: bool,
    /// The storage of the approvals that were voided for good.
    pub refund: Refund,
    /// The record of the reversal, if there was one.
    pub record: Option<TransferRecord>,
}

/// A ticket with what its raffle says of it, as handed out to callers.
pub struct JsonTicket {
    pub raffle_id: u64,
    pub ticket_id: u64,
    pub owner_id: String,
    pub metadata: RaffleMetadata,
    pub approved_account_ids: ApprovalMap,
    pub royalty: Option<RoyaltySchedule>,
}

/// Whether `json` describes the ticket `ticket` of the raffle `raffle` under
/// the id `ticket_id`.
pub open spec fn describes(
    json: JsonTicket,
    ticket_id: u64,
    ticket: TicketView,
    raffle: Raffle,
) -> bool {
    &&& json.ticket_id == ticket_id
    &&& json.raffle_id == ticket.raffle_id
    &&& json.owner_id@ == ticket.owner_id
    &&& json.approved_account_ids.wf()
    &&& json.approved_account_ids@ == ticket.approved_account_ids
    &&& opt_text(json.metadata.title) == opt_text(raffle.metadata.title)
    &&& opt_text(json.metadata.description) == opt_text(raffle.metadata.description)
    &&& match json.royalty {
        Some(schedule) => raffle.royalty is Some && schedule.wf() && schedule@ == raffle.royalty->0@
            && schedule.recipients() == raffle.royalty->0.recipients() && schedule.shares()
            == raffle.royalty->0.shares(),
        None => raffle.royalty is None,
    }
}

/// Whether the byte is one that JSON treats as blank: a space, a line
/// feed, a tab or a carriage return.
pub open spec fn is_json_space(byte: u8) -> bool {
    byte == 0x20 || byte == 0x0a || byte == 0x09 || byte == 0x0d
}

/// The bytes of the JSON text `true`.
pub open spec fn json_true() -> Seq<u8> {
    seq![0x74u8, 0x72u8, 0x75u8, 0x65u8]
}

/// The bytes of the JSON text `false`.
pub open spec fn json_false() -> Seq<u8> {
    seq![0x66u8, 0x61u8, 0x6cu8, 0x73u8, 0x65u8]
}

/// Whether `value` is `word` with nothing but blanks before and after it.
pub open spec fn is_padded(value: Seq<u8>, word: Seq<u8>) -> bool {
    exists|start: int|
        0 <= start && start + word.len() <= value.len() && #[trigger] value.subrange(
            start,
            start + word.len(),
        ) == word && (forall|i: int| 0 <= i < start ==> is_json_space(#[trigger] value[i]))
            && (forall|i: int|
            start + word.len() <= i < value.len() ==> is_json_space(#[trigger] value[i]))
}

/// The boolean that the bytes are the JSON text of, if they are that of one.
pub open spec fn acknowledgment_flag(value: Seq<u8>) -> Option<bool> {
    if is_padded(value, json_true()) {
        Some(true)
    } else if is_padded(value, json_false()) {
        Some(false)
    } else {
        None
    }
}

/// The text `true` alone asks for the ticket back.
pub proof fn lemma_true_alone()
    ensures
        acknowledgment_flag(json_true()) == Some(true),
{
    let word = json_true();
    assert(word.len() == 4);
    assert(word.subrange(0int, 0int + word.len()) =~= word);
}

/// The text `false` alone lets the transfer stand.
pub proof fn lemma_false_alone()
    ensures
        acknowledgment_flag(json_false()) == Some(false),
{
    let value = json_false();
    let word = json_true();
    assert(value.len() == 5);
    assert(word.len() == 4);
    assert(value.subrange(0int, 0int + value.len()) =~= value);
    assert forall|start: int| 0 <= start && start + word.len() <= value.len() implies
        #[trigger] value.subrange(start, start + word.len()) != word by {
        let part = value.subrange(start, start + word.len());
        assert(part[1] == value[start + 1]);
        assert(word[1] == 0x72u8);
    }
}

/// No text at all is no answer.
pub proof fn lemma_empty_is_no_answer()
    ensures
        acknowledgment_flag(Seq::<u8>::empty()) is None,
{
    assert(json_true().len() == 4);
    assert(json_false().len() == 5);
}

/// `near_sdk::serde_json::from_slice::<bool>`: reads the bytes as a JSON
/// boolean. It accepts the text `true` or `false` with blanks around it and
/// nothing else.
#[verifier::external_body]
fn parse_acknowledgment(value: &Vec<u8>) -> (flag: Option<bool>)
    ensures
        flag == acknowledgment_flag(value@),
{
    near_sdk::serde_json::from_slice::<bool>(value.as_slice()).ok()
}

/// Why a transfer with the given deposit is refused, if it is.
pub open spec fn paid_transfer_error(
    tickets: Map<u64, TicketView>,
    attached_deposit: u128,
    sender: Seq<char>,
    receiver: Seq<char>,
    ticket_id: u64,
    approval_id: Option<u64>,
) -> Option<RegistryError> {
    if attached_deposit != 1 {
        Some(RegistryError::InsufficientPayment)
    } else {
        transfer_error(tickets, sender, receiver, ticket_id, approval_id)
    }
}

/// Whether the receiver's answer asks for the ticket to go back: the call
/// succeeded and returned the JSON boolean `true`.
pub open spec fn asks_return(outcome: AcknowledgmentOutcome) -> bool {
    match outcome {
        AcknowledgmentOutcome::Successful(value) => acknowledgment_flag(value@) == Some(true),
        AcknowledgmentOutcome::Failed => false,
    }
}

/// Whether the continuation undoes the transfer: the receiver asked for it,
/// and the ticket is still the receiver's.
pub open spec fn reverts(
    tickets: Map<u64, TicketView>,
    receiver: Seq<char>,
    ticket_id: u64,
    return_token: bool,
) -> bool {
    return_token && tickets.contains_key(ticket_id) && tickets[ticket_id].owner_id == receiver
}

/// The ticket after the transfer has been undone: back with the previous
/// owner, with the approvals it had before the transfer.
pub open spec fn returned_ticket(
    ticket: TicketView,
    owner: Seq<char>,
    approvals: Map<Seq<char>, u64>,
) -> TicketView {
    TicketView {
        raffle_id: ticket.raffle_id,
        owner_id: owner,
        approved_account_ids: approvals,
        next_approval_id: ticket.next_approval_id,
    }
}

impl Contract {
    /// The ticket with this id, with the metadata and the royalty schedule
    /// of its raffle, if there is such a ticket.
    pub fn nft_token(&self, token_id: u64) -> (found: Option<JsonTicket>)
        requires
            self.wf(),
        ensures
            found is Some <==> self.tickets().contains_key(token_id),
            found is Some ==> describes(
                found->0,
                token_id,
                self.tickets()[token_id],
                self.raffles()[self.tickets()[token_id].raffle_id],
            ),
    {
        let ticket = match self.ticket_by_id.get(&token_id) {
            Some(ticket) => ticket,
            None => {
                return None;
            },
        };
        let cur_series = self.raffle_by_id.get(&ticket.raffle_id).unwrap();
        let royalty = match &cur_series.royalty {
            Some(schedule) => Some(schedule.duplicate()),
            None => None,
        };
        Some(
            JsonTicket {
                raffle_id: ticket.raffle_id,
                ticket_id: token_id,
                owner_id: ticket.owner_id.clone(),
                metadata: cur_series.metadata.duplicate(),
                approved_account_ids: ticket.approved_account_ids.duplicate(),
                royalty,
            },
        )
    }

    /// Transfers the ticket to `receiver_id`. The caller is the owner or an
    /// approved account and attaches exactly one unit. The storage of the
    /// voided approvals is refunded to the previous owner.
    pub fn nft_transfer(
        &mut self,
        caller: &String,
        attached_deposit: u128,
        receiver_id: &String,
        token_id: u64,
        approval_id: Option<u64>,
        memo: Option<String>,
    ) -> (res: Result<TransferDone, RegistryError>)
        requires
            old(self).wf(),
        ensures
            final(self).wf(),
            final(self).raffles() == old(self).raffles(),
            final(self).admin() == old(self).admin(),
            match res {
                Ok(done) => {
                    let ticket = old(self).tickets()[token_id];
                    &&& paid_transfer_error(
                        old(self).tickets(),
                        attached_deposit,
                        caller@,
                        receiver_id@,
                        token_id,
                        approval_id,
                    ) is None
                    &&& final(self).tickets() == old(self).tickets().insert(
                        token_id,
                        transferred(ticket, receiver_id@),
                    )
                    &&& final(self).approval_bytes(token_id) == 0
                    &&& forall|a: Seq<char>| #[trigger]
                        final(self).owner_order(a) == after_move(
                            old(self).owner_order(a),
                            a,
                            ticket.owner_id,
                            receiver_id@,
                            token_id,
                        )
                    &&& done.refund@ == (
                        ticket.owner_id,
                        storage_cost(old(self).approval_bytes(token_id) as int) as u128,
                    )
                    &&& done.record@ == transfer_record(
                        ticket,
                        caller@,
                        receiver_id@,
                        token_id,
                        opt_text(memo),
                    )
                },
                Err(e) => {
                    &&& paid_transfer_error(
                        old(self).tickets(),
                        attached_deposit,
                        caller@,
                        receiver_id@,
                        token_id,
                        approval_id,
                    ) == Some(e)
                    &&& *final(self) == *old(self)
                },
            },
    {
        if assert_one_yocto(attached_deposit).is_err() {
            return Err(RegistryError::InsufficientPayment);
        }
        let done = match self.internal_transfer(caller, receiver_id, token_id, approval_id, memo) {
            Ok(done) => done,
            Err(e) => {
                return Err(e);
            },
        };
        let refund = refund_approved_account_ids(
            done.previous.owner_id.clone(),
            &done.previous.approved_account_ids,
        );
        Ok(TransferDone { refund, record: done.record })
    }

    /// Transfers the ticket to `receiver_id` and prepares the call that asks
    /// the receiver's contract whether it keeps the ticket. Ownership is
    /// committed at once; the continuation, `nft_resolve_transfer`, undoes it
    /// if the receiver says so. No refund is paid before that.
    pub fn nft_transfer_call(
        &mut self,
        caller: &String,
        attached_deposit: u128,
        receiver_id: &String,
        token_id: u64,
        approval_id: Option<u64>,
        memo: Option<String>,
        msg: String,
    ) -> (res: Result<PendingTransfer, RegistryError>)
        requires
            old(self).wf(),
        ensures
            final(self).wf(),
            final(self).raffles() == old(self).raffles(),
            final(self).admin() == old(self).admin(),
            match res {
                Ok(pending) => {
                    let ticket = old(self).tickets()[token_id];
                    let record = transfer_record(
                        ticket,
                        caller@,
                        receiver_id@,
                        token_id,
                        opt_text(memo),
                    );
                    &&& paid_transfer_error(
                        old(self).tickets(),
                        attached_deposit,
                        caller@,
                        receiver_id@,
                        token_id,
                        approval_id,
                    ) is None
                    &&& final(self).tickets() == old(self).tickets().insert(
                        token_id,
                        transferred(ticket, receiver_id@),
                    )
                    &&& final(self).approval_bytes(token_id) == 0
                    &&& forall|a: Seq<char>| #[trigger]
                        final(self).owner_order(a) == after_move(
                            old(self).owner_order(a),
                            a,
                            ticket.owner_id,
                            receiver_id@,
                            token_id,
                        )
                    &&& pending.record@ == record
                    &&& pending.request.sender_id@ == caller@
                    &&& pending.request.previous_owner_id@ == ticket.owner_id
                    &&& pending.request.ticket_id == token_id
                    &&& pending.request.msg@ == msg@
                    &&& opt_text(pending.resolve.authorized_id) == record.authorized_id
                    &&& pending.resolve.owner_id@ == ticket.owner_id
                    &&& pending.resolve.receiver_id@ == receiver_id@
                    &&& pending.resolve.ticket_id == token_id
                    &&& pending.resolve.approved_account_ids.wf()
                    &&& pending.resolve.approved_account_ids@ == ticket.approved_account_ids
                    &&& pending.resolve.approved_account_ids.released_bytes() == old(
                        self,
                    ).approval_bytes(token_id)
                    &&& opt_text(pending.resolve.memo) == opt_text(memo)
                },
                Err(e) => {
                    &&& paid_transfer_error(
                        old(self).tickets(),
                        attached_deposit,
                        caller@,
                        receiver_id@,
                        token_id,
                        approval_id,
                    ) == Some(e)
                    &&& *final(self) == *old(self)
                },
            },
    {
        if assert_one_yocto(attached_deposit).is_err() {
            return Err(RegistryError::InsufficientPayment);
        }
        let memo_copy = clone_opt_text(&memo);
        let done = match self.internal_transfer(caller, receiver_id, token_id, approval_id, memo) {
            Ok(done) => done,
            Err(e) => {
                return Err(e);
            },
        };
        let previous = done.previous;
        let request = TransferAcknowledgmentRequest {
            sender_id: caller.clone(),
            previous_owner_id: previous.owner_id.clone(),
            ticket_id: token_id,
            msg,
        };
        let resolve = ResolveInput {
            authorized_id: clone_opt_text(&done.record.authorized_id),
            owner_id: previous.owner_id,
            receiver_id: receiver_id.clone(),
            ticket_id: token_id,
            approved_account_ids: previous.approved_account_ids,
            memo: memo_copy,
        };
        Ok(PendingTransfer { request, resolve, record: done.record })
    }

    /// The continuation of a transfer, once it is known whether the receiver
    /// asks for the ticket to go back. Where it does and the ticket is still
    /// the receiver's, the ticket returns to the previous owner with the
    /// approvals it had, and the storage of the approvals that the receiver
    /// made meanwhile is refunded to the receiver. Otherwise nothing changes,
    /// and the storage of the approvals that the transfer voided is refunded
    /// to the previous owner.
    pub fn resolve_transfer(&mut self, input: ResolveInput, return_token: bool) -> (out:
        ResolveOutcome)
        requires
            old(self).wf(),
            input.approved_account_ids.wf(),
        ensures
            final(self).wf(),
            final(self).raffles() == old(self).raffles(),
            final(self).admin() == old(self).admin(),
            out.returned == reverts(
                old(self).tickets(),
                input.receiver_id@,
                input.ticket_id,
                return_token,
            ),
            if out.returned {
                let ticket = old(self).tickets()[input.ticket_id];
                &&& final(self).tickets() == old(self).tickets().insert(
                    input.ticket_id,
                    returned_ticket(ticket, input.owner_id@, input.approved_account_ids@),
                )
                &&& final(self).approval_bytes(input.ticket_id)
                    == input.approved_account_ids.released_bytes()
                &&& forall|a: Seq<char>| #[trigger]
                    final(self).owner_order(a) == after_move(
                        old(self).owner_order(a),
                        a,
                        input.receiver_id@,
                        input.owner_id@,
                        input.ticket_id,
                    )
                &&& out.refund@ == (
                    input.receiver_id@,
                    storage_cost(old(self).approval_bytes(input.ticket_id) as int) as u128,
                )
                &&& out.record is Some
                &&& out.record->0@ == (TransferRecordView {
                    authorized_id: opt_text(input.authorized_id),
                    old_owner_id: input.receiver_id@,
                    new_owner_id: input.owner_id@,
                    ticket_id: input.ticket_id,
                    memo: opt_text(input.memo),
                })
            } else {
                &&& *final(self) == *old(self)
                &&& out.refund@ == (
                    input.owner_id@,
                    storage_cost(input.approved_account_ids.released_bytes() as int) as u128,
                )
                &&& out.record is None
            },
    {
        let stays = if !return_token {
            true
        } else {
            match self.ticket_by_id.get(&input.ticket_id) {
                Some(ticket) => ticket.owner_id != input.receiver_id,
                None => true,
            }
        };
        if stays {
            let refund = refund_approved_account_ids(input.owner_id, &input.approved_account_ids);
            return ResolveOutcome { returned: false, refund, record: None };
        }
        let ghost before = *self;
        let token = self.ticket_by_id.remove(&input.ticket_id).unwrap();
        let moved: Vec<u64> = vec![input.ticket_id];
        proof {
            assert(before.tickets_per_owner.owns(token.owner_id@, input.ticket_id));
            assert forall|t: u64| moved@.contains(t) <==> t == input.ticket_id by {
                if t == input.ticket_id {
                    assert(moved@[0] == t);
                }
            }
        }
        self.tickets_per_owner.internal_remove_tickets_from_owner(&input.receiver_id, &moved);
        let ghost between = self.tickets_per_owner;
        self.tickets_per_owner.internal_add_tickets_to_owner(&input.owner_id, &moved);

        let refund = refund_approved_account_ids(
            input.receiver_id.clone(),
            &token.approved_account_ids,
        );
        let restored = crate::contract::Ticket {
            raffle_id: token.raffle_id,
            owner_id: input.owner_id.clone(),
            approved_account_ids: input.approved_account_ids,
            next_approval_id: token.next_approval_id,
        };
        self.ticket_by_id.insert(input.ticket_id, restored);
        let record = TransferRecord {
            authorized_id: input.authorized_id,
            old_owner_id: input.receiver_id,
            new_owner_id: input.owner_id,
            ticket_id: input.ticket_id,
            memo: input.memo,
        };
        proof {
            assert(moved@ =~= seq![input.ticket_id]);
            assert forall|a: Seq<char>| #[trigger]
                self.owner_order(a) == after_move(
                    before.owner_order(a),
                    a,
                    input.receiver_id@,
                    input.owner_id@,
                    input.ticket_id,
                ) by {
                lemma_single_ticket(before.owner_order(a), input.ticket_id);
                lemma_single_ticket(between.order_of(a), input.ticket_id);
            }
            assert(self.tickets() =~= before.tickets().insert(
                input.ticket_id,
                returned_ticket(
                    before.tickets()[input.ticket_id],
                    input.owner_id@,
                    input.approved_account_ids@,
                ),
            ));
        }
        ResolveOutcome { returned: true, refund, record: Some(record) }
    }

    /// The continuation of a transfer, given how the call to the receiver's
    /// contract ended. The ticket goes back only where that call succeeded
    /// and returned the JSON boolean `true`; a failed call or any other
    /// answer lets the transfer stand.
    pub fn nft_resolve_transfer(&mut self, input: ResolveInput, outcome: AcknowledgmentOutcome) -> (out:
        ResolveOutcome)
        requires
            old(self).wf(),
            input.approved_account_ids.wf(),
        ensures
            final(self).wf(),
            final(self).raffles() == old(self).raffles(),
            final(self).admin() == old(self).admin(),
            out.returned == reverts(
                old(self).tickets(),
                input.receiver_id@,
                input.ticket_id,
                asks_return(outcome),
            ),
            if out.returned {
                let ticket = old(self).tickets()[input.ticket_id];
                &&& final(self).tickets() == old(self).tickets().insert(
                    input.ticket_id,
                    returned_ticket(ticket, input.owner_id@, input.approved_account_ids@),
                )
                &&& final(self).approval_bytes(input.ticket_id)
                    == input.approved_account_ids.released_bytes()
                &&& forall|a: Seq<char>| #[trigger]
                    final(self).owner_order(a) == after_move(
                        old(self).owner_order(a),
                        a,
                        input.receiver_id@,
                        input.owner_id@,
                        input.ticket_id,
                    )
                &&& out.refund@ == (
                    input.receiver_id@,
                    storage_cost(old(self).approval_bytes(input.ticket_id) as int) as u128,
                )
                &&& out.record is Some
                &&& out.record->0@ == (TransferRecordView {
                    authorized_id: opt_text(input.authorized_id),
                    old_owner_id: input.receiver_id@,
                    new_owner_id: input.owner_id@,
                    ticket_id: input.ticket_id,
                    memo: opt_text(input.memo),
                })
            } else {
                &&& *final(self) == *old(self)
                &&& out.refund@ == (
                    input.owner_id@,
                    storage_cost(input.approved_account_ids.released_bytes() as int) as u128,
                )
                &&& out.record is None
            },
    {
        let return_token = match outcome {
            AcknowledgmentOutcome::Successful(value) => match parse_acknowledgment(&value) {
                Some(flag) => flag,
                None => false,
            },
            AcknowledgmentOutcome::Failed => false,
        };
        self.resolve_transfer(input, return_token)
    }
}

} // verus!
