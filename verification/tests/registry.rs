use ticket_registry::contract::{Contract, NFTContractMetadata, RaffleMetadata};
use ticket_registry::events::{AcknowledgmentOutcome, RegistryError};
use ticket_registry::internal::STORAGE_PRICE_PER_BYTE;
use ticket_registry::royalty::RoyaltySchedule;

fn acct(name: &str) -> String {
    name.to_string()
}

fn plain_metadata() -> RaffleMetadata {
    RaffleMetadata { title: Some("Spring raffle".to_string()), description: None }
}

/// A registry run by "admin" with raffle 7 (no royalties) and one ticket, id 0, owned by "alice".
fn registry_with_ticket() -> Contract {
    let mut contract = Contract::new_default_meta(acct("admin"));
    assert_eq!(contract.create_raffle(&acct("admin"), 7, plain_metadata(), None), Ok(()));
    let ids = contract.mint_ticket(&acct("admin"), 7, &acct("alice"), 1).unwrap();
    assert_eq!(ids, vec![0]);
    contract
}

fn owner_of(contract: &Contract, ticket_id: u64) -> String {
    contract.nft_token(ticket_id).unwrap().owner_id
}

fn approval_count(contract: &Contract, ticket_id: u64) -> usize {
    contract.nft_token(ticket_id).unwrap().approved_account_ids.len()
}

#[test]
fn minted_ticket_has_one_owner_and_no_approvals() {
    let contract = registry_with_ticket();
    let ticket = contract.nft_token(0).unwrap();
    assert_eq!(ticket.owner_id, "alice");
    assert_eq!(ticket.raffle_id, 7);
    assert_eq!(ticket.ticket_id, 0);
    assert!(ticket.approved_account_ids.is_empty());
    assert_eq!(contract.nft_supply_for_owner(&acct("alice")), 1);
    assert_eq!(contract.nft_supply_for_owner(&acct("bob")), 0);
    assert_eq!(contract.nft_total_supply(), 1);
    assert!(contract.nft_token(1).is_none());
}

#[test]
fn approve_issues_id_zero_and_charges_storage() {
    let mut contract = registry_with_ticket();
    let cost = 15 * STORAGE_PRICE_PER_BYTE;
    assert!(contract.can_approve(0, &acct("bob")));
    let granted = contract
        .nft_approve(&acct("alice"), cost + 100, 0, acct("bob"), Some("hello".to_string()))
        .unwrap();
    assert_eq!(granted.approval_id, 0);
    let refund = granted.refund.unwrap();
    assert_eq!(refund.account_id, "alice");
    assert_eq!(refund.amount, 100);
    let note = granted.notification.unwrap();
    assert_eq!(note.ticket_id, 0);
    assert_eq!(note.owner_id, "alice");
    assert_eq!(note.approval_id, 0);
    assert_eq!(note.msg, "hello");
    assert_eq!(contract.nft_is_approved(0, &acct("bob"), None), Ok(true));
    assert_eq!(contract.nft_is_approved(0, &acct("bob"), Some(0)), Ok(true));
    assert_eq!(contract.nft_is_approved(0, &acct("bob"), Some(1)), Ok(false));
    assert_eq!(contract.nft_is_approved(0, &acct("carol"), None), Ok(false));
    assert_eq!(contract.nft_is_approved(9, &acct("bob"), None), Err(RegistryError::NotFound));
}

#[test]
fn approve_without_message_sends_nothing_and_keeps_small_change() {
    let mut contract = registry_with_ticket();
    let cost = 15 * STORAGE_PRICE_PER_BYTE;
    let granted = contract.nft_approve(&acct("alice"), cost + 1, 0, acct("bob"), None).unwrap();
    assert!(granted.notification.is_none());
    assert!(granted.refund.is_none());
}

#[test]
fn approve_is_refused_for_the_right_reasons() {
    let mut contract = registry_with_ticket();
    let cost = 15 * STORAGE_PRICE_PER_BYTE;
    assert_eq!(
        contract.nft_approve(&acct("alice"), 0, 0, acct("bob"), None).err(),
        Some(RegistryError::InsufficientPayment)
    );
    assert_eq!(
        contract.nft_approve(&acct("alice"), cost, 5, acct("bob"), None).err(),
        Some(RegistryError::NotFound)
    );
    assert_eq!(
        contract.nft_approve(&acct("mallory"), cost, 0, acct("bob"), None).err(),
        Some(RegistryError::Unauthorized)
    );
    assert_eq!(
        contract.nft_approve(&acct("alice"), cost - 1, 0, acct("bob"), None).err(),
        Some(RegistryError::InsufficientPayment)
    );
    assert_eq!(approval_count(&contract, 0), 0);
    assert!(contract.nft_approve(&acct("alice"), cost, 0, acct("bob"), None).is_ok());
}

#[test]
fn approval_ids_rise_and_are_not_reused() {
    let mut contract = registry_with_ticket();
    let deposit = 100 * STORAGE_PRICE_PER_BYTE;
    let first = contract.nft_approve(&acct("alice"), deposit, 0, acct("bob"), None).unwrap();
    assert_eq!(first.approval_id, 0);
    assert!(contract.nft_revoke(&acct("alice"), 1, 0, &acct("bob")).unwrap().is_some());
    let second = contract.nft_approve(&acct("alice"), deposit, 0, acct("bob"), None).unwrap();
    assert_eq!(second.approval_id, 1);
    let third = contract.nft_approve(&acct("alice"), deposit, 0, acct("carol"), None).unwrap();
    assert_eq!(third.approval_id, 2);
    assert!(contract.nft_revoke_all(&acct("alice"), 1, 0).unwrap().is_some());
    let fourth = contract.nft_approve(&acct("alice"), deposit, 0, acct("bob"), None).unwrap();
    assert_eq!(fourth.approval_id, 3);
}

#[test]
fn approving_an_approved_account_keeps_its_id_and_costs_nothing() {
    let mut contract = registry_with_ticket();
    let deposit = 15 * STORAGE_PRICE_PER_BYTE;
    assert_eq!(
        contract.nft_approve(&acct("alice"), deposit, 0, acct("bob"), None).unwrap().approval_id,
        0
    );
    let again = contract.nft_approve(&acct("alice"), 1, 0, acct("bob"), None).unwrap();
    assert_eq!(again.approval_id, 0);
    assert!(again.refund.is_none());
    assert_eq!(contract.nft_is_approved(0, &acct("bob"), Some(0)), Ok(true));
    assert_eq!(approval_count(&contract, 0), 1);
    let next = contract
        .nft_approve(&acct("alice"), 100 * STORAGE_PRICE_PER_BYTE, 0, acct("carol"), None)
        .unwrap();
    assert_eq!(next.approval_id, 2);
}

#[test]
fn revoke_refunds_the_entry_to_the_owner() {
    let mut contract = registry_with_ticket();
    let deposit = 15 * STORAGE_PRICE_PER_BYTE;
    contract.nft_approve(&acct("alice"), deposit, 0, acct("bob"), None).unwrap();
    let refund = contract.nft_revoke(&acct("alice"), 1, 0, &acct("bob")).unwrap().unwrap();
    assert_eq!(refund.account_id, "alice");
    assert_eq!(refund.amount, 15 * STORAGE_PRICE_PER_BYTE);
    assert_eq!(contract.nft_is_approved(0, &acct("bob"), None), Ok(false));
}

#[test]
fn revoking_an_absent_approval_changes_nothing() {
    let mut contract = registry_with_ticket();
    let deposit = 17 * STORAGE_PRICE_PER_BYTE;
    contract.nft_approve(&acct("alice"), deposit, 0, acct("carol"), None).unwrap();
    assert_eq!(contract.nft_revoke(&acct("alice"), 1, 0, &acct("bob")).unwrap().map(|r| r.amount), None);
    assert_eq!(approval_count(&contract, 0), 1);
    assert_eq!(contract.nft_is_approved(0, &acct("carol"), Some(0)), Ok(true));
    assert_eq!(owner_of(&contract, 0), "alice");
}

#[test]
fn revoke_is_refused_for_the_right_reasons() {
    let mut contract = registry_with_ticket();
    let deposit = 15 * STORAGE_PRICE_PER_BYTE;
    contract.nft_approve(&acct("alice"), deposit, 0, acct("bob"), None).unwrap();
    assert_eq!(
        contract.nft_revoke(&acct("alice"), 2, 0, &acct("bob")).err(),
        Some(RegistryError::InsufficientPayment)
    );
    assert_eq!(
        contract.nft_revoke(&acct("alice"), 0, 0, &acct("bob")).err(),
        Some(RegistryError::InsufficientPayment)
    );
    assert_eq!(
        contract.nft_revoke(&acct("alice"), 1, 3, &acct("bob")).err(),
        Some(RegistryError::NotFound)
    );
    assert_eq!(
        contract.nft_revoke(&acct("bob"), 1, 0, &acct("bob")).err(),
        Some(RegistryError::Unauthorized)
    );
    assert_eq!(
        contract.nft_revoke_all(&acct("bob"), 1, 0).err(),
        Some(RegistryError::Unauthorized)
    );
    assert_eq!(
        contract.nft_revoke_all(&acct("alice"), 3, 0).err(),
        Some(RegistryError::InsufficientPayment)
    );
    assert_eq!(
        contract.nft_revoke_all(&acct("alice"), 1, 4).err(),
        Some(RegistryError::NotFound)
    );
    assert_eq!(contract.nft_is_approved(0, &acct("bob"), Some(0)), Ok(true));
}

#[test]
fn revoke_all_refunds_every_entry_and_is_a_noop_when_empty() {
    let mut contract = registry_with_ticket();
    let deposit = 100 * STORAGE_PRICE_PER_BYTE;
    contract.nft_approve(&acct("alice"), deposit, 0, acct("bob"), None).unwrap();
    contract.nft_approve(&acct("alice"), deposit, 0, acct("carol"), None).unwrap();
    let refund = contract.nft_revoke_all(&acct("alice"), 1, 0).unwrap().unwrap();
    assert_eq!(refund.account_id, "alice");
    assert_eq!(refund.amount, (15 + 17) * STORAGE_PRICE_PER_BYTE);
    assert_eq!(approval_count(&contract, 0), 0);
    assert!(contract.nft_revoke_all(&acct("alice"), 1, 0).unwrap().is_none());
}

#[test]
fn direct_transfer_by_owner_voids_approvals_and_refunds_previous_owner() {
    let mut contract = registry_with_ticket();
    let deposit = 15 * STORAGE_PRICE_PER_BYTE;
    let granted = contract.nft_approve(&acct("alice"), deposit, 0, acct("bob"), None).unwrap();
    assert_eq!(granted.approval_id, 0);
    let done = contract
        .nft_transfer(&acct("alice"), 1, &acct("carol"), 0, None, Some("gift".to_string()))
        .unwrap();
    assert_eq!(owner_of(&contract, 0), "carol");
    assert_eq!(approval_count(&contract, 0), 0);
    assert_eq!(contract.nft_is_approved(0, &acct("bob"), None), Ok(false));
    assert_eq!(done.refund.account_id, "alice");
    assert_eq!(done.refund.amount, 15 * STORAGE_PRICE_PER_BYTE);
    assert_eq!(done.record.authorized_id, None);
    assert_eq!(done.record.old_owner_id, "alice");
    assert_eq!(done.record.new_owner_id, "carol");
    assert_eq!(done.record.ticket_id, 0);
    assert_eq!(done.record.memo, Some("gift".to_string()));
    assert_eq!(contract.nft_supply_for_owner(&acct("alice")), 0);
    assert_eq!(contract.nft_supply_for_owner(&acct("carol")), 1);
}

#[test]
fn transfer_by_delegate_names_the_delegate_and_keeps_the_counter() {
    let mut contract = registry_with_ticket();
    let deposit = 15 * STORAGE_PRICE_PER_BYTE;
    contract.nft_approve(&acct("alice"), deposit, 0, acct("bob"), None).unwrap();
    let done = contract.nft_transfer(&acct("bob"), 1, &acct("carol"), 0, Some(0), None).unwrap();
    assert_eq!(done.record.authorized_id, Some("bob".to_string()));
    assert_eq!(done.record.old_owner_id, "alice");
    assert_eq!(done.refund.account_id, "alice");
    assert_eq!(owner_of(&contract, 0), "carol");
    let granted = contract
        .nft_approve(&acct("carol"), 100 * STORAGE_PRICE_PER_BYTE, 0, acct("dave"), None)
        .unwrap();
    assert_eq!(granted.approval_id, 1);
}

#[test]
fn transfer_without_approvals_refunds_nothing_worth() {
    let mut contract = registry_with_ticket();
    let done = contract.nft_transfer(&acct("alice"), 1, &acct("bob"), 0, None, None).unwrap();
    assert_eq!(done.refund.account_id, "alice");
    assert_eq!(done.refund.amount, 0);
}

#[test]
fn transfer_is_refused_for_the_right_reasons() {
    let mut contract = registry_with_ticket();
    let deposit = 15 * STORAGE_PRICE_PER_BYTE;
    contract.nft_approve(&acct("alice"), deposit, 0, acct("bob"), None).unwrap();
    assert_eq!(
        contract.nft_transfer(&acct("alice"), 0, &acct("carol"), 0, None, None).err(),
        Some(RegistryError::InsufficientPayment)
    );
    assert_eq!(
        contract.nft_transfer(&acct("alice"), 1, &acct("carol"), 8, None, None).err(),
        Some(RegistryError::NotFound)
    );
    assert_eq!(
        contract.nft_transfer(&acct("mallory"), 1, &acct("carol"), 0, None, None).err(),
        Some(RegistryError::Unauthorized)
    );
    assert_eq!(
        contract.nft_transfer(&acct("bob"), 1, &acct("carol"), 0, Some(4), None).err(),
        Some(RegistryError::StaleApproval)
    );
    assert_eq!(
        contract.nft_transfer(&acct("alice"), 1, &acct("alice"), 0, None, None).err(),
        Some(RegistryError::InvalidTarget)
    );
    assert_eq!(
        contract.nft_transfer(&acct("bob"), 1, &acct("alice"), 0, Some(0), None).err(),
        Some(RegistryError::InvalidTarget)
    );
    assert_eq!(owner_of(&contract, 0), "alice");
    assert_eq!(approval_count(&contract, 0), 1);
    assert_eq!(contract.check_transfer(&acct("bob"), &acct("carol"), 0, Some(0)), Ok(()));
    assert_eq!(contract.check_transfer(&acct("bob"), &acct("carol"), 0, None), Ok(()));
}

#[test]
fn transfer_call_returned_by_receiver_reverts_ownership() {
    let mut contract = registry_with_ticket();
    let deposit = 15 * STORAGE_PRICE_PER_BYTE;
    contract.nft_approve(&acct("alice"), deposit, 0, acct("bob"), None).unwrap();
    let pending = contract
        .nft_transfer_call(&acct("alice"), 1, &acct("market"), 0, None, None, "list".to_string())
        .unwrap();
    assert_eq!(owner_of(&contract, 0), "market");
    assert_eq!(approval_count(&contract, 0), 0);
    assert_eq!(pending.request.sender_id, "alice");
    assert_eq!(pending.request.previous_owner_id, "alice");
    assert_eq!(pending.request.ticket_id, 0);
    assert_eq!(pending.request.msg, "list");
    assert_eq!(pending.resolve.authorized_id, None);
    assert_eq!(pending.resolve.owner_id, "alice");
    assert_eq!(pending.resolve.receiver_id, "market");
    assert_eq!(pending.resolve.approved_account_ids.get(&acct("bob")), Some(0));
    let out = contract
        .nft_resolve_transfer(pending.resolve, AcknowledgmentOutcome::Successful(b"true".to_vec()));
    assert!(out.returned);
    assert_eq!(owner_of(&contract, 0), "alice");
    let record = out.record.unwrap();
    assert_eq!(record.old_owner_id, "market");
    assert_eq!(record.new_owner_id, "alice");
    assert_eq!(record.ticket_id, 0);
    assert_eq!(out.refund.account_id, "market");
    assert_eq!(out.refund.amount, 0);
    assert_eq!(contract.nft_is_approved(0, &acct("bob"), Some(0)), Ok(true));
    assert_eq!(contract.nft_supply_for_owner(&acct("alice")), 1);
    assert_eq!(contract.nft_supply_for_owner(&acct("market")), 0);
}

#[test]
fn transfer_call_moved_on_before_resolve_is_not_reverted() {
    let mut contract = registry_with_ticket();
    let deposit = 15 * STORAGE_PRICE_PER_BYTE;
    contract.nft_approve(&acct("alice"), deposit, 0, acct("bob"), None).unwrap();
    let pending = contract
        .nft_transfer_call(&acct("alice"), 1, &acct("market"), 0, None, None, "list".to_string())
        .unwrap();
    contract.nft_transfer(&acct("market"), 1, &acct("dave"), 0, None, None).unwrap();
    let out = contract
        .nft_resolve_transfer(pending.resolve, AcknowledgmentOutcome::Successful(b"true".to_vec()));
    assert!(!out.returned);
    assert!(out.record.is_none());
    assert_eq!(owner_of(&contract, 0), "dave");
    assert_eq!(out.refund.account_id, "alice");
    assert_eq!(out.refund.amount, 15 * STORAGE_PRICE_PER_BYTE);
}

#[test]
fn transfer_call_stands_when_receiver_keeps_fails_or_answers_nonsense() {
    let answers = vec![
        AcknowledgmentOutcome::Successful(b"false".to_vec()),
        AcknowledgmentOutcome::Successful(b"maybe".to_vec()),
        AcknowledgmentOutcome::Successful(b"\"true\"".to_vec()),
        AcknowledgmentOutcome::Successful(Vec::new()),
        AcknowledgmentOutcome::Failed,
    ];
    for answer in answers {
        let mut contract = registry_with_ticket();
        let deposit = 15 * STORAGE_PRICE_PER_BYTE;
        contract.nft_approve(&acct("alice"), deposit, 0, acct("bob"), None).unwrap();
        let pending = contract
            .nft_transfer_call(&acct("bob"), 1, &acct("market"), 0, Some(0), None, "x".to_string())
            .unwrap();
        assert_eq!(pending.resolve.authorized_id, Some("bob".to_string()));
        assert_eq!(pending.request.sender_id, "bob");
        let out = contract.nft_resolve_transfer(pending.resolve, answer);
        assert!(!out.returned);
        assert!(out.record.is_none());
        assert_eq!(out.refund.account_id, "alice");
        assert_eq!(out.refund.amount, 15 * STORAGE_PRICE_PER_BYTE);
        assert_eq!(owner_of(&contract, 0), "market");
        assert_eq!(approval_count(&contract, 0), 0);
    }
}

#[test]
fn acknowledgment_is_read_as_json() {
    let mut contract = registry_with_ticket();
    let pending = contract
        .nft_transfer_call(&acct("alice"), 1, &acct("market"), 0, None, None, "x".to_string())
        .unwrap();
    let out = contract
        .nft_resolve_transfer(pending.resolve, AcknowledgmentOutcome::Successful(b" true\n".to_vec()));
    assert!(out.returned);
    assert_eq!(owner_of(&contract, 0), "alice");
}

#[test]
fn reversal_refunds_the_receivers_own_approvals() {
    let mut contract = registry_with_ticket();
    let pending = contract
        .nft_transfer_call(&acct("alice"), 1, &acct("market"), 0, None, Some("m".to_string()), "x".to_string())
        .unwrap();
    contract
        .nft_approve(&acct("market"), 100 * STORAGE_PRICE_PER_BYTE, 0, acct("broker"), None)
        .unwrap();
    let out = contract.resolve_transfer(pending.resolve, true);
    assert!(out.returned);
    assert_eq!(out.refund.account_id, "market");
    assert_eq!(out.refund.amount, 18 * STORAGE_PRICE_PER_BYTE);
    assert_eq!(out.record.unwrap().memo, Some("m".to_string()));
    assert_eq!(approval_count(&contract, 0), 0);
    let granted = contract
        .nft_approve(&acct("alice"), 100 * STORAGE_PRICE_PER_BYTE, 0, acct("bob"), None)
        .unwrap();
    assert_eq!(granted.approval_id, 1);
}

fn schedule(entries: &[(&str, u32)]) -> RoyaltySchedule {
    let mut schedule = RoyaltySchedule::new();
    for (account, share) in entries {
        assert!(schedule.insert(account.to_string(), *share));
    }
    schedule
}

fn registry_with_royalties(entries: &[(&str, u32)], owner: &str) -> Contract {
    let mut contract = Contract::new_default_meta(acct("admin"));
    contract.create_raffle(&acct("admin"), 1, plain_metadata(), Some(schedule(entries))).unwrap();
    contract.mint_ticket(&acct("admin"), 1, &acct(owner), 1).unwrap();
    contract
}

#[test]
fn payout_splits_by_basis_points() {
    let contract = registry_with_royalties(&[("xavier", 500), ("yolanda", 300)], "zoe");
    let payout = contract.nft_payout(0, 1000, 10).unwrap();
    assert_eq!(payout.len(), 3);
    assert_eq!(payout.get(&acct("xavier")), Some(50));
    assert_eq!(payout.get(&acct("yolanda")), Some(30));
    assert_eq!(payout.get(&acct("zoe")), Some(920));
    assert_eq!(payout.get(&acct("nobody")), None);
}

#[test]
fn payout_rounds_down_and_never_exceeds_balance() {
    let contract = registry_with_royalties(&[("xavier", 3333), ("yolanda", 3333)], "zoe");
    let payout = contract.nft_payout(0, 999, 2).unwrap();
    assert_eq!(payout.get(&acct("xavier")), Some(332));
    assert_eq!(payout.get(&acct("yolanda")), Some(332));
    assert_eq!(payout.get(&acct("zoe")), Some(333));
    let mut sum: u128 = 0;
    for i in 0..payout.len() {
        sum += payout.entry_at(i).1;
    }
    assert_eq!(sum, 997);
}

#[test]
fn payout_of_the_largest_balance_does_not_overflow() {
    let contract = registry_with_royalties(&[("xavier", 2500)], "zoe");
    let payout = contract.nft_payout(0, u128::MAX, 1).unwrap();
    assert_eq!(payout.get(&acct("xavier")), Some(u128::MAX / 4));
    assert_eq!(payout.get(&acct("zoe")), Some(255211775190703847597530955573826158591));
}

#[test]
fn payout_pays_an_owner_who_is_a_recipient_once() {
    let contract = registry_with_royalties(&[("xavier", 500), ("zoe", 300)], "zoe");
    let payout = contract.nft_payout(0, 1000, 10).unwrap();
    assert_eq!(payout.len(), 2);
    assert_eq!(payout.get(&acct("xavier")), Some(50));
    assert_eq!(payout.get(&acct("zoe")), Some(950));
}

#[test]
fn payout_without_schedule_goes_to_the_owner() {
    let contract = registry_with_ticket();
    let payout = contract.nft_payout(0, 777, 0).unwrap();
    assert_eq!(payout.len(), 1);
    assert_eq!(payout.get(&acct("alice")), Some(777));
}

#[test]
fn payout_is_refused_for_too_many_recipients_or_no_ticket() {
    let contract = registry_with_royalties(&[("xavier", 500), ("yolanda", 300)], "zoe");
    assert_eq!(contract.nft_payout(0, 1000, 1).err(), Some(RegistryError::TooManyRecipients));
    assert_eq!(contract.nft_payout(3, 1000, 10).err(), Some(RegistryError::NotFound));
    assert!(contract.nft_payout(0, 1000, 2).is_ok());
}

#[test]
fn transfer_payout_pays_by_the_previous_owner() {
    let mut contract = registry_with_royalties(&[("xavier", 500), ("yolanda", 300)], "zoe");
    contract
        .nft_approve(&acct("zoe"), 100 * STORAGE_PRICE_PER_BYTE, 0, acct("market"), None)
        .unwrap();
    let done = contract
        .nft_transfer_payout(&acct("market"), 1, &acct("buyer"), 0, 0, None, 1000, 10)
        .unwrap();
    assert_eq!(owner_of(&contract, 0), "buyer");
    assert_eq!(done.payout.get(&acct("zoe")), Some(920));
    assert_eq!(done.payout.get(&acct("xavier")), Some(50));
    assert_eq!(done.payout.get(&acct("yolanda")), Some(30));
    assert_eq!(done.payout.get(&acct("buyer")), None);
    assert_eq!(done.refund.account_id, "zoe");
    assert_eq!(done.refund.amount, 18 * STORAGE_PRICE_PER_BYTE);
    assert_eq!(done.record.authorized_id, Some("market".to_string()));
}

#[test]
fn transfer_payout_refused_leaves_everything_as_it_was() {
    let mut contract = registry_with_royalties(&[("xavier", 500), ("yolanda", 300)], "zoe");
    assert_eq!(
        contract.nft_transfer_payout(&acct("zoe"), 1, &acct("buyer"), 0, 0, None, 1000, 1).err(),
        Some(RegistryError::TooManyRecipients)
    );
    assert_eq!(owner_of(&contract, 0), "zoe");
    assert_eq!(
        contract.nft_transfer_payout(&acct("zoe"), 5, &acct("buyer"), 0, 0, None, 1000, 9).err(),
        Some(RegistryError::InsufficientPayment)
    );
    assert_eq!(
        contract.nft_transfer_payout(&acct("eve"), 1, &acct("buyer"), 0, 0, None, 1000, 1).err(),
        Some(RegistryError::Unauthorized)
    );
}

#[test]
fn royalty_schedule_refuses_duplicates_and_more_than_the_whole() {
    let mut schedule = RoyaltySchedule::new();
    assert!(schedule.insert(acct("xavier"), 6000));
    assert!(!schedule.insert(acct("xavier"), 100));
    assert!(!schedule.insert(acct("yolanda"), 4001));
    assert!(schedule.insert(acct("yolanda"), 4000));
    assert!(!schedule.insert(acct("zoe"), 1));
    assert_eq!(schedule.len(), 2);
    assert_eq!(schedule.total(), 10_000);
    assert_eq!(schedule.get(&acct("xavier")), Some(6000));
    assert_eq!(schedule.get(&acct("zoe")), None);
}

#[test]
fn raffles_and_tickets_are_created_once() {
    let mut contract = Contract::new(
        acct("admin"),
        NFTContractMetadata {
            spec: "nft-1.0.0".to_string(),
            name: "Raffles".to_string(),
            symbol: "RFL".to_string(),
            icon: None,
            base_uri: None,
            reference: None,
            reference_hash: None,
        },
    );
    assert_eq!(contract.create_raffle(&acct("creator"), 3, plain_metadata(), None), Ok(()));
    assert_eq!(
        contract.create_raffle(&acct("creator"), 3, plain_metadata(), None),
        Err(RegistryError::AlreadyExists)
    );
    assert_eq!(contract.get_supply_series(), 1);
    assert_eq!(
        contract.mint_ticket(&acct("creator"), 3, &acct("alice"), 1),
        Err(RegistryError::Unauthorized)
    );
    assert_eq!(
        contract.mint_ticket(&acct("admin"), 4, &acct("alice"), 1),
        Err(RegistryError::NotFound)
    );
    assert!(contract.can_mint(3));
    assert_eq!(contract.mint_ticket(&acct("admin"), 3, &acct("alice"), 3), Ok(vec![0, 1, 2]));
    assert_eq!(contract.mint_ticket(&acct("admin"), 3, &acct("bob"), 2), Ok(vec![3, 4]));
    assert!(!contract.can_mint(u64::MAX));
    assert_eq!(contract.nft_total_supply(), 5);
    assert_eq!(contract.nft_supply_for_owner(&acct("alice")), 3);
    assert_eq!(contract.nft_supply_for_owner(&acct("bob")), 2);
    assert_eq!(contract.nft_supply_for_series(3), 5);
    assert_eq!(contract.nft_supply_for_series(9), 0);
    let series = contract.get_series_info(3).unwrap();
    assert_eq!(series.series_id, 3);
    assert_eq!(series.owner_id, "creator");
    assert_eq!(series.metadata.title, Some("Spring raffle".to_string()));
    assert!(contract.get_series_info(9).is_none());
}

#[test]
fn tickets_are_listed_in_pages() {
    let mut contract = registry_with_ticket();
    contract.mint_ticket(&acct("admin"), 7, &acct("bob"), 4).unwrap();
    let all = contract.nft_tokens(None, None);
    assert_eq!(all.len(), 5);
    assert_eq!(all[0].owner_id, "alice");
    assert_eq!(all[4].ticket_id, 4);
    let page = contract.nft_tokens(Some(1), Some(2));
    assert_eq!(page.len(), 2);
    assert_eq!(page[0].ticket_id, 1);
    assert_eq!(page[1].ticket_id, 2);
    assert_eq!(page[1].owner_id, "bob");
    assert_eq!(contract.nft_tokens(Some(3), Some(10)).len(), 2);
    assert_eq!(contract.nft_tokens(Some(5), Some(10)).len(), 0);
    assert_eq!(contract.nft_tokens(Some(u128::MAX), None).len(), 0);
    assert_eq!(contract.nft_tokens(Some(0), Some(0)).len(), 0);
}

#[test]
fn every_ticket_stays_with_exactly_one_owner() {
    let mut contract = registry_with_ticket();
    contract.mint_ticket(&acct("admin"), 7, &acct("alice"), 2).unwrap();
    contract.nft_transfer(&acct("alice"), 1, &acct("bob"), 1, None, None).unwrap();
    contract.nft_transfer(&acct("bob"), 1, &acct("carol"), 1, None, None).unwrap();
    contract.nft_transfer(&acct("alice"), 1, &acct("carol"), 2, None, None).unwrap();
    let names = ["alice", "bob", "carol"];
    let mut listed: u128 = 0;
    for name in names {
        listed += contract.nft_supply_for_owner(&acct(name));
    }
    assert_eq!(listed, contract.nft_total_supply());
    assert_eq!(contract.nft_supply_for_owner(&acct("alice")), 1);
    assert_eq!(contract.nft_supply_for_owner(&acct("bob")), 0);
    assert_eq!(contract.nft_supply_for_owner(&acct("carol")), 2);
    assert_eq!(owner_of(&contract, 0), "alice");
    assert_eq!(owner_of(&contract, 1), "carol");
    assert_eq!(owner_of(&contract, 2), "carol");
}

#[test]
fn tickets_of_an_owner_and_of_a_raffle_are_listed_in_pages() {
    let mut contract = registry_with_ticket();
    contract.create_raffle(&acct("bob"), 8, plain_metadata(), None).unwrap();
    contract.mint_ticket(&acct("admin"), 8, &acct("alice"), 2).unwrap();
    contract.mint_ticket(&acct("admin"), 7, &acct("bob"), 1).unwrap();
    let of_alice = contract.nft_tokens_for_owner(&acct("alice"), None, None);
    assert_eq!(of_alice.iter().map(|t| t.ticket_id).collect::<Vec<u64>>(), vec![0, 1, 2]);
    let page = contract.nft_tokens_for_owner(&acct("alice"), Some(1), Some(1));
    assert_eq!(page.len(), 1);
    assert_eq!(page[0].ticket_id, 1);
    assert_eq!(page[0].raffle_id, 8);
    assert!(contract.nft_tokens_for_owner(&acct("nobody"), None, None).is_empty());
    assert!(contract.nft_tokens_for_owner(&acct("alice"), Some(3), None).is_empty());
    let of_first = contract.nft_tokens_for_series(7, None, None);
    assert_eq!(of_first.iter().map(|t| t.ticket_id).collect::<Vec<u64>>(), vec![0, 3]);
    let of_second = contract.nft_tokens_for_series(8, Some(1), Some(5));
    assert_eq!(of_second.iter().map(|t| t.ticket_id).collect::<Vec<u64>>(), vec![2]);
    assert!(contract.nft_tokens_for_series(9, None, None).is_empty());
    let series = contract.get_series(None, None);
    assert_eq!(series.iter().map(|s| s.series_id).collect::<Vec<u64>>(), vec![7, 8]);
    assert_eq!(series[1].owner_id, "bob");
    assert_eq!(contract.get_series(Some(1), Some(1)).len(), 1);
    assert_eq!(contract.get_series(Some(2), None).len(), 0);
    contract.nft_transfer(&acct("alice"), 1, &acct("bob"), 1, None, None).unwrap();
    let of_bob = contract.nft_tokens_for_owner(&acct("bob"), None, None);
    assert_eq!(of_bob.iter().map(|t| t.ticket_id).collect::<Vec<u64>>(), vec![3, 1]);
}

#[test]
fn errors_carry_their_reason() {
    assert_eq!(RegistryError::Unauthorized.abort_reason(), "Unauthorized");
    assert_eq!(RegistryError::NotFound.abort_reason(), "No token");
    assert_eq!(
        RegistryError::TooManyRecipients.abort_reason(),
        "Market cannot payout to that many receivers"
    );
    assert_eq!(
        RegistryError::InvalidTarget.abort_reason(),
        "The ticket owner and the receiver should be different"
    );
    assert_ne!(
        RegistryError::StaleApproval.abort_reason(),
        RegistryError::InsufficientPayment.abort_reason()
    );
    assert_ne!(RegistryError::AlreadyExists.abort_reason(), "");
}
