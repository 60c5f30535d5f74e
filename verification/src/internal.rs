//! Storage cost accounting: what an approval entry costs, what a caller has
//! to attach, and what is paid back.

use vstd::prelude::*;
use vstd::utf8::encode_utf8;
use vstd::slice::axiom_spec_len;
use crate::approvals::{ApprovalMap, total_bytes, lemma_total_bytes_prefix};
use crate::events::{Refund, RegistryError, opt_refund};

verus! {

broadcast use axiom_spec_len;

/// The price of one byte of storage.
pub const STORAGE_PRICE_PER_BYTE: u128 = 10_000_000_000_000_000_000;

/// The share of `amount_to_pay` that `royalty_percentage` basis points stand for.
pub open spec fn payout_share(royalty_percentage: int, amount_to_pay: int) -> int {
    royalty_percentage * amount_to_pay / 10_000
}

/// The bytes of storage that one approval entry for `account` takes.
pub open spec fn account_bytes(account: Seq<char>) -> nat {
    encode_utf8(account).len() + 12
}

/// Converts a royalty in basis points and an amount into the payout owed,
/// rounded down. The product itself is never formed, so the only limit is
/// that the payout fits its type, as it does for every share up to the whole.
pub fn royalty_to_payout(royalty_percentage: u32, amount_to_pay: u128) -> (payout: u128)
    requires
        payout_share(royalty_percentage as int, amount_to_pay as int) <= u128::MAX,
    ensures
        payout == payout_share(royalty_percentage as int, amount_to_pay as int),
{
    let share: u128 = royalty_percentage as u128;
    let whole: u128 = amount_to_pay / 10_000;
    let rest: u128 = amount_to_pay % 10_000;
    proof {
        assert(share * amount_to_pay == (share * whole) * 10_000 + share * rest) by (nonlinear_arith)
            requires
                amount_to_pay == whole * 10_000 + rest,
        ;
        assert(0 <= share * rest <= 10_000 * 0x1_0000_0000) by (nonlinear_arith)
            requires
                0 <= share < 0x1_0000_0000,
                0 <= rest < 10_000,
        ;
        assert(0 <= share * whole) by (nonlinear_arith)
            requires
                0 <= share,
                0 <= whole,
        ;
    }
    whole * share + rest * share / 10_000
}

/// A share of up to the whole never pays more than the amount.
pub proof fn lemma_payout_share_bounded(royalty_percentage: int, amount_to_pay: int)
    requires
        0 <= royalty_percentage <= 10_000,
        0 <= amount_to_pay,
    ensures
        0 <= payout_share(royalty_percentage, amount_to_pay) <= amount_to_pay,
{
    assert(0 <= royalty_percentage * amount_to_pay <= 10_000 * amount_to_pay) by (nonlinear_arith)
        requires
            0 <= royalty_percentage <= 10_000,
            0 <= amount_to_pay,
    ;
}

/// Calculates how many bytes of storage an approval entry for the account
/// takes: the text, four bytes for its length and eight for the approval id.
pub fn bytes_for_approved_account_id(account_id: &String) -> (bytes: u64)
    requires
        account_bytes(account_id@) <= u64::MAX,
    ensures
        bytes == account_bytes(account_id@),
{
    let text = account_id.as_str().as_bytes();
    let len: usize = text.len();
    len as u64 + 4 + 8
}

/// `near_sdk::env::storage_byte_cost`: the price of one byte of storage,
/// which that crate defines as a constant.
#[verifier::external_body]
pub(crate) fn storage_byte_cost() -> (cost: u128)
    ensures
        cost == STORAGE_PRICE_PER_BYTE,
{
    near_sdk::env::storage_byte_cost()
}

/// The cost of `bytes` bytes of storage.
pub open spec fn storage_cost(bytes: int) -> int {
    bytes * STORAGE_PRICE_PER_BYTE
}

/// The cost of storing `bytes` bytes at the price per byte.
pub fn cost_of_bytes(bytes: u64) -> (cost: u128)
    ensures
        cost == storage_cost(bytes as int),
{
    let price: u128 = storage_byte_cost();
    assert(bytes * price <= 0xffff_ffff_ffff_ffff * 10_000_000_000_000_000_000) by (nonlinear_arith)
        requires
            0 <= bytes <= 0xffff_ffff_ffff_ffff,
            price == 10_000_000_000_000_000_000,
    ;
    bytes as u128 * price
}

/// The views of the accounts.
pub open spec fn account_texts(accounts: Seq<String>) -> Seq<Seq<char>> {
    Seq::new(accounts.len(), |i: int| accounts[i]@)
}

/// Refunds the storage that approval entries for the given accounts took:
/// the amount goes to `account_id`, at the price per byte.
pub fn refund_approved_account_ids_iter(
    account_id: String,
    approved_account_ids: &Vec<String>,
) -> (refund: Refund)
    requires
        total_bytes(account_texts(approved_account_ids@)) <= u64::MAX,
    ensures
        refund@ == (
            account_id@,
            storage_cost(total_bytes(account_texts(approved_account_ids@)) as int) as u128,
        ),
{
    let ghost texts = account_texts(approved_account_ids@);
    let mut storage_released: u64 = 0;
    let mut i: usize = 0;
    while i < approved_account_ids.len()
        invariant
            i <= approved_account_ids@.len(),
            texts == account_texts(approved_account_ids@),
            total_bytes(texts) <= u64::MAX,
            storage_released == total_bytes(texts.take(i as int)),
        decreases approved_account_ids@.len() - i,
    {
        proof {
            let upto = texts.take(i as int + 1);
            assert(upto.drop_last() =~= texts.take(i as int));
            assert(upto.last() == approved_account_ids@[i as int]@);
            lemma_total_bytes_prefix(texts, i as int + 1);
        }
        storage_released = storage_released + bytes_for_approved_account_id(
            &approved_account_ids[i],
        );
        i += 1;
    }
    proof {
        assert(texts.take(i as int) =~= texts);
    }
    Refund { account_id, amount: cost_of_bytes(storage_released) }
}

/// Refunds the storage that the approvals took: the amount goes to
/// `account_id`, at the price per byte.
pub fn refund_approved_account_ids(account_id: String, approved_account_ids: &ApprovalMap) -> (refund:
    Refund)
    requires
        approved_account_ids.wf(),
    ensures
        refund@ == (account_id@, storage_cost(approved_account_ids.released_bytes() as int) as u128),
{
    Refund { account_id, amount: cost_of_bytes(approved_account_ids.storage_bytes()) }
}

/// Accepts a deposit of exactly one unit and no other.
pub fn assert_one_yocto(attached_deposit: u128) -> (res: Result<(), RegistryError>)
    ensures
        res is Ok <==> attached_deposit == 1,
        res is Err ==> res == Err::<(), RegistryError>(RegistryError::InsufficientPayment),
{
    if attached_deposit == 1 {
        Ok(())
    } else {
        Err(RegistryError::InsufficientPayment)
    }
}

/// Accepts a deposit of at least one unit.
pub fn assert_at_least_one_yocto(attached_deposit: u128) -> (res: Result<(), RegistryError>)
    ensures
        res is Ok <==> attached_deposit >= 1,
        res is Err ==> res == Err::<(), RegistryError>(RegistryError::InsufficientPayment),
{
    if attached_deposit >= 1 {
        Ok(())
    } else {
        Err(RegistryError::InsufficientPayment)
    }
}

/// What goes back to the caller of a deposit once the cost is paid: the
/// rest, where it is more than one unit.
pub open spec fn excess(attached_deposit: int, required_cost: int) -> Option<int> {
    if attached_deposit - required_cost > 1 {
        Some(attached_deposit - required_cost)
    } else {
        None
    }
}

/// Settles the storage that an operation used: the deposit has to cover its
/// cost, and what is left over, if more than one unit, goes back to the
/// caller.
pub fn refund_deposit(storage_used: u64, attached_deposit: u128, predecessor_id: &String) -> (res:
    Result<Option<Refund>, RegistryError>)
    ensures
        res is Ok <==> storage_cost(storage_used as int) <= attached_deposit,
        res is Err ==> res->Err_0 == RegistryError::InsufficientPayment,
        res is Ok ==> opt_refund(res->Ok_0) == (match excess(
            attached_deposit as int,
            storage_cost(storage_used as int),
        ) {
            Some(amount) => Some((predecessor_id@, amount as u128)),
            None => None,
        }),
{
    let required_cost = cost_of_bytes(storage_used);
    if required_cost > attached_deposit {
        return Err(RegistryError::InsufficientPayment);
    }
    let refund = attached_deposit - required_cost;
    if refund > 1 {
        Ok(Some(Refund { account_id: predecessor_id.clone(), amount: refund }))
    } else {
        Ok(None)
    }
}

} // verus!
