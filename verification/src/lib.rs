//! A registry of raffle tickets: who owns each ticket, who may move it on the
//! owner's behalf, how a transfer is committed, acknowledged and possibly
//! rolled back, and how a sale price is split between royalty recipients.
//!
//! The registry is one owned value. Every operation takes the caller's
//! identity and the attached deposit as plain arguments and hands back, as
//! plain values, what the surrounding runtime has to do: the refunds to pay,
//! the records to log and the calls to make to other contracts.

pub mod account_map;
pub mod approval;
pub mod approvals;
pub mod contract;
pub mod enumeration;
pub mod events;
pub mod internal;
pub mod laws;
pub mod nft_core;
pub mod owner_index;
pub mod raffle;
pub mod royalty;
