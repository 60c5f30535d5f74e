use ticket_registry::approvals::ApprovalMap;
use ticket_registry::contract::Contract;
use ticket_registry::events::RegistryError;
use ticket_registry::internal::{
    assert_at_least_one_yocto, assert_one_yocto, bytes_for_approved_account_id, cost_of_bytes,
    refund_approved_account_ids, refund_approved_account_ids_iter, refund_deposit,
    royalty_to_payout, STORAGE_PRICE_PER_BYTE,
};
use ticket_registry::owner_index::{OwnerIndex, TicketSet};
use ticket_registry::raffle::KeypomArgs;

#[test]
fn royalty_to_payout_rounds_down() {
    assert_eq!(royalty_to_payout(500, 1000), 50);
    assert_eq!(royalty_to_payout(300, 1000), 30);
    assert_eq!(royalty_to_payout(9200, 1000), 920);
    assert_eq!(royalty_to_payout(1, 9999), 0);
    assert_eq!(royalty_to_payout(1, 10_000), 1);
    assert_eq!(royalty_to_payout(3333, 999), 332);
    assert_eq!(royalty_to_payout(0, 12345), 0);
    assert_eq!(royalty_to_payout(10_000, u128::MAX), u128::MAX);
    assert_eq!(royalty_to_payout(5000, u128::MAX), u128::MAX / 2);
    assert_eq!(royalty_to_payout(20_000, 50), 100);
}

#[test]
fn approval_entry_bytes_are_text_plus_twelve() {
    assert_eq!(bytes_for_approved_account_id(&"bob".to_string()), 15);
    assert_eq!(bytes_for_approved_account_id(&"alice.near".to_string()), 22);
    assert_eq!(bytes_for_approved_account_id(&String::new()), 12);
}

#[test]
fn storage_is_priced_by_the_byte() {
    assert_eq!(STORAGE_PRICE_PER_BYTE, 10_000_000_000_000_000_000);
    assert_eq!(cost_of_bytes(0), 0);
    assert_eq!(cost_of_bytes(1), 10_000_000_000_000_000_000);
    assert_eq!(cost_of_bytes(15), 150_000_000_000_000_000_000);
    assert_eq!(cost_of_bytes(u64::MAX), 184_467_440_737_095_516_150_000_000_000_000_000_000);
}

#[test]
fn unit_fees_are_exact_or_at_least() {
    assert_eq!(assert_one_yocto(1), Ok(()));
    assert_eq!(assert_one_yocto(0), Err(RegistryError::InsufficientPayment));
    assert_eq!(assert_one_yocto(2), Err(RegistryError::InsufficientPayment));
    assert_eq!(assert_at_least_one_yocto(1), Ok(()));
    assert_eq!(assert_at_least_one_yocto(u128::MAX), Ok(()));
    assert_eq!(assert_at_least_one_yocto(0), Err(RegistryError::InsufficientPayment));
}

#[test]
fn deposit_covers_cost_and_excess_goes_back() {
    let caller = "alice".to_string();
    let cost = 10 * STORAGE_PRICE_PER_BYTE;
    assert_eq!(refund_deposit(10, cost - 1, &caller).err(), Some(RegistryError::InsufficientPayment));
    assert!(refund_deposit(10, cost, &caller).unwrap().is_none());
    assert!(refund_deposit(10, cost + 1, &caller).unwrap().is_none());
    let refund = refund_deposit(10, cost + 2, &caller).unwrap().unwrap();
    assert_eq!(refund.account_id, "alice");
    assert_eq!(refund.amount, 2);
    let all = refund_deposit(0, 500, &caller).unwrap().unwrap();
    assert_eq!(all.amount, 500);
}

#[test]
fn released_approvals_are_refunded_in_full() {
    let mut approvals = ApprovalMap::new();
    assert!(approvals.is_empty());
    assert_eq!(approvals.insert("bob".to_string(), 0), None);
    assert_eq!(approvals.insert("carol".to_string(), 1), None);
    assert_eq!(approvals.insert("bob".to_string(), 5), Some(0));
    assert_eq!(approvals.len(), 2);
    assert_eq!(approvals.storage_bytes(), 32);
    assert_eq!(approvals.get(&"bob".to_string()), Some(5));
    assert!(approvals.contains_key(&"carol".to_string()));
    let first = approvals.entry_at(0);
    assert_eq!(first.0, "bob");
    assert_eq!(first.1, 5);
    let refund = refund_approved_account_ids("alice".to_string(), &approvals);
    assert_eq!(refund.account_id, "alice");
    assert_eq!(refund.amount, 32 * STORAGE_PRICE_PER_BYTE);
    let copy = approvals.duplicate();
    assert_eq!(approvals.remove(&"bob".to_string()), Some(5));
    assert_eq!(approvals.remove(&"bob".to_string()), None);
    assert_eq!(approvals.storage_bytes(), 17);
    assert_eq!(copy.storage_bytes(), 32);
    approvals.clear();
    assert_eq!(approvals.storage_bytes(), 0);
    let by_list = refund_approved_account_ids_iter(
        "alice".to_string(),
        &vec!["bob".to_string(), "dave".to_string()],
    );
    assert_eq!(by_list.amount, 31 * STORAGE_PRICE_PER_BYTE);
    let nothing = refund_approved_account_ids_iter("alice".to_string(), &Vec::new());
    assert_eq!(nothing.amount, 0);
}

#[test]
fn owner_index_adds_and_removes_in_lockstep() {
    let mut index = OwnerIndex::new();
    let alice = "alice".to_string();
    let bob = "bob".to_string();
    index.internal_add_tickets_to_owner(&alice, &vec![1, 2, 2, 3]);
    index.internal_add_tickets_to_owner(&bob, &vec![4]);
    assert_eq!(index.supply_for(&alice), 3);
    assert!(index.lists(&alice, 2));
    assert!(!index.lists(&bob, 2));
    index.internal_remove_tickets_from_owner(&alice, &vec![2, 9]);
    assert_eq!(index.supply_for(&alice), 2);
    assert!(!index.lists(&alice, 2));
    index.internal_remove_tickets_from_owner(&bob, &vec![4]);
    assert_eq!(index.supply_for(&bob), 0);
    assert!(!index.lists(&bob, 4));
}

#[test]
fn ticket_set_holds_each_id_once() {
    let mut set = TicketSet::new();
    assert!(set.is_empty());
    assert!(set.insert(5));
    assert!(!set.insert(5));
    assert!(set.insert(6));
    assert_eq!(set.len(), 2);
    assert_eq!(set.id_at(1), 6);
    assert!(set.contains(5));
    assert!(set.remove(5));
    assert!(!set.remove(5));
    assert!(!set.contains(5));
    assert_eq!(set.len(), 1);
}

#[test]
fn injected_field_names_are_checked() {
    let good = KeypomArgs {
        account_id_field: Some("receiver_id".to_string()),
        funder_id_field: Some("funder_id".to_string()),
        drop_id_field: Some("drop_id".to_string()),
        key_id_field: None,
    };
    assert!(good.fields_match());
    let swapped = KeypomArgs {
        account_id_field: Some("funder_id".to_string()),
        funder_id_field: Some("funder_id".to_string()),
        drop_id_field: Some("drop_id".to_string()),
        key_id_field: None,
    };
    assert!(!swapped.fields_match());
    let missing = KeypomArgs {
        account_id_field: Some("receiver_id".to_string()),
        funder_id_field: None,
        drop_id_field: Some("drop_id".to_string()),
        key_id_field: Some("key_id".to_string()),
    };
    assert!(!missing.fields_match());
}

#[test]
fn administrator_and_minters_are_known() {
    let contract = Contract::new_default_meta("admin".to_string());
    assert_eq!(contract.assert_contract_owner(&"admin".to_string()), Ok(()));
    assert_eq!(
        contract.assert_contract_owner(&"alice".to_string()),
        Err(RegistryError::Unauthorized)
    );
    assert!(contract.is_approved_minter(&"admin".to_string()));
    assert!(!contract.is_approved_minter(&"alice".to_string()));
    assert!(contract.is_approved_creator(&"admin".to_string()));
    assert!(!contract.is_approved_creator(&"alice".to_string()));
    let metadata = contract.nft_metadata();
    assert_eq!(metadata.spec, "nft-1.0.0");
    assert_eq!(metadata.name, "NFT Tutorial Contract");
    assert_eq!(metadata.symbol, "GOTEAM");
    assert!(metadata.icon.is_none());
    assert!(metadata.reference_hash.is_none());
    assert_eq!(contract.nft_total_supply(), 0);
    assert_eq!(contract.get_supply_series(), 0);
}
