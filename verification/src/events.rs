//! What an operation hands back for the surrounding runtime to carry out:
//! errors, refunds, transfer records and the payloads of calls to other
//! contracts.

use vstd::prelude::*;
use crate::approvals::ApprovalMap;

verus! {

/// Why an operation was refused. A refused operation changes nothing.
#[derive(PartialEq, Eq, Structural, Clone, Copy, Debug)]
pub enum RegistryError {
    /// The caller has neither ownership nor approval.
    Unauthorized,
    /// No such ticket or raffle.
    NotFound,
    /// The receiver already owns the ticket.
    InvalidTarget,
    /// The approval id given is not the one the caller holds.
    StaleApproval,
    /// The attached deposit is not what the operation asks for.
    InsufficientPayment,
    /// The royalty schedule has more recipients than the caller accepts.
    TooManyRecipients,
    /// A raffle or ticket with this id exists already.
    AlreadyExists,
}

/// The reason given when a call is aborted for the error.
pub open spec fn reason_of(error: RegistryError) -> Seq<char> {
    match error {
        RegistryError::Unauthorized => "Unauthorized"@,
        RegistryError::NotFound => "No token"@,
        RegistryError::InvalidTarget => "The ticket owner and the receiver should be different"@,
        RegistryError::StaleApproval => "The approval id given is not the actual approval id"@,
        RegistryError::InsufficientPayment => "The attached deposit does not cover the cost"@,
        RegistryError::TooManyRecipients => "Market cannot payout to that many receivers"@,
        RegistryError::AlreadyExists => "An entry with this id already exists"@,
    }
}

impl RegistryError {
    /// The reason to give when the call is aborted.
    pub fn abort_reason(&self) -> (reason: &'static str)
        ensures
            reason@ == reason_of(*self),
    {
        match self {
            RegistryError::Unauthorized => "Unauthorized",
            RegistryError::NotFound => "No token",
            RegistryError::InvalidTarget => "The ticket owner and the receiver should be different",
            RegistryError::StaleApproval => "The approval id given is not the actual approval id",
            RegistryError::InsufficientPayment => "The attached deposit does not cover the cost",
            RegistryError::TooManyRecipients => "Market cannot payout to that many receivers",
            RegistryError::AlreadyExists => "An entry with this id already exists",
        }
    }
}

/// An amount to send to an account.
pub struct Refund {
    pub account_id: String,
    pub amount: u128,
}

impl View for Refund {
    type V = (Seq<char>, u128);

    open spec fn view(&self) -> (Seq<char>, u128) {
        (self.account_id@, self.amount)
    }
}

/// An optional refund as plain values: the account and the amount.
pub open spec fn opt_refund(refund: Option<Refund>) -> Option<(Seq<char>, u128)> {
    match refund {
        Some(r) => Some(r@),
        None => None,
    }
}

/// The text of an optional string.
pub open spec fn opt_text(text: Option<String>) -> Option<Seq<char>> {
    match text {
        Some(t) => Some(t@),
        None => None,
    }
}

/// A copy of an optional string.
pub fn clone_opt_text(text: &Option<String>) -> (copy: Option<String>)
    ensures
        opt_text(copy) == opt_text(*text),
{
    match text {
        Some(t) => Some(t.clone()),
        None => None,
    }
}

/// The record of one change of ownership, to be written to the event log.
pub struct TransferRecord {
    /// The delegate that moved the ticket, where it was not the owner.
    pub authorized_id: Option<String>,
    pub old_owner_id: String,
    pub new_owner_id: String,
    pub ticket_id: u64,
    pub memo: Option<String>,
}

/// What a transfer record says, as plain values.
pub struct TransferRecordView {
    pub authorized_id: Option<Seq<char>>,
    pub old_owner_id: Seq<char>,
    pub new_owner_id: Seq<char>,
    pub ticket_id: u64,
    pub memo: Option<Seq<char>>,
}

impl View for TransferRecord {
    type V = TransferRecordView;

    open spec fn view(&self) -> TransferRecordView {
        TransferRecordView {
            authorized_id: opt_text(self.authorized_id),
            old_owner_id: self.old_owner_id@,
            new_owner_id: self.new_owner_id@,
            ticket_id: self.ticket_id,
            memo: opt_text(self.memo),
        }
    }
}

/// The payload sent to a delegate's contract when an approval comes with a
/// message.
pub struct ApprovalNotification {
    pub ticket_id: u64,
    pub owner_id: String,
    pub approval_id: u64,
    pub msg: String,
}

/// The payload sent to the receiver's contract to ask whether it keeps the
/// ticket.
pub struct TransferAcknowledgmentRequest {
    pub sender_id: String,
    pub previous_owner_id: String,
    pub ticket_id: u64,
    pub msg: String,
}

/// What the continuation of a transfer needs once the receiver has answered.
pub struct ResolveInput {
    pub authorized_id: Option<String>,
    pub owner_id: String,
    pub receiver_id: String,
    pub ticket_id: u64,
    pub approved_account_ids: ApprovalMap,
    pub memo: Option<String>,
}

/// How the call to the receiver's contract ended.
pub enum AcknowledgmentOutcome {
    /// The call failed, or its result is not there.
    Failed,
    /// The call returned these bytes.
    Successful(Vec<u8>),
}

} // verus!
