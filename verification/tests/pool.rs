use iou_pools::account::AccountId;
use iou_pools::error::LedgerError;
use iou_pools::pool::{IOUType, LedgerAction, PoolContract, StorageKey};
use near_contract_standards::fungible_token::{FungibleToken, FungibleTokenCore};

fn account(name: &str) -> AccountId {
    AccountId::parse(name).unwrap()
}

fn host_id(id: &AccountId) -> near_sdk::AccountId {
    id.as_str().parse().unwrap()
}

fn test_pool() -> PoolContract {
    PoolContract::new("Test Pool".to_string(), "TP".to_string(), account("bob"), account("bob"))
}

/// What a host does with an action: the balance ledger is the real one.
fn perform(token: &mut FungibleToken, action: &LedgerAction) -> Option<(AccountId, u128)> {
    match action {
        LedgerAction::Debit { account, amount } => {
            token.internal_withdraw(&host_id(account), *amount);
            None
        }
        LedgerAction::Credit { account, amount } => {
            let id = host_id(account);
            if !token.accounts.contains_key(&id) {
                token.internal_register_account(&id);
            }
            token.internal_deposit(&id, *amount);
            None
        }
        LedgerAction::Payout { account, amount } => Some((account.clone(), *amount)),
    }
}

fn balance(token: &FungibleToken, id: &AccountId) -> u128 {
    token.ft_balance_of(host_id(id)).0
}

#[test]
fn pool_metadata_follows_the_token_standard() {
    let contract = test_pool();
    assert_eq!(*contract.authorized_account(), account("bob"));
    let metadata = contract.token_metadata();
    assert_eq!(metadata.name, "Test Pool");
    assert_eq!(metadata.symbol, "TP");
    assert_eq!(metadata.spec, "ft-1.0.0");
    assert_eq!(metadata.decimals, 24);
    assert_eq!(metadata.icon, None);
    assert_eq!(metadata.reference, None);
    assert_eq!(metadata.reference_hash, None);
    assert_eq!(contract.get_creator(), account("bob"));
    assert_eq!(contract.next_iou_id(), 0);
}

#[test]
fn lib_test_deposit() {
    let mut contract = test_pool();
    let id = contract.deposit(account("charlie"), 1_000_000_000_000_000_000_000_000).unwrap();
    assert_eq!(id, 0);
    let ious = contract.list_ious();
    assert_eq!(ious.len(), 1);
    let iou = &ious[0];
    assert_eq!(iou.amount, 1_000_000_000_000_000_000_000_000);
    assert_eq!(iou.account_id, account("charlie"));
    assert_eq!(iou.iou_type, IOUType::Deposit);
}

#[test]
fn test_withdraw() {
    let mut contract = test_pool();
    let mut token = FungibleToken::new(StorageKey::Token.into_storage_key());
    let charlie = account("charlie");

    token.internal_register_account(&host_id(&charlie));
    token.internal_deposit(&host_id(&charlie), 1_000_000);

    let action = contract.withdraw(charlie.clone(), 500_000, balance(&token, &charlie)).unwrap();
    assert_eq!(action, LedgerAction::Debit { account: charlie.clone(), amount: 500_000 });
    perform(&mut token, &action);

    let ious = contract.list_ious();
    assert_eq!(ious.len(), 1);
    let iou = &ious[0];
    assert_eq!(iou.amount, 500_000);
    assert_eq!(iou.account_id, account("charlie"));
    assert_eq!(iou.iou_type, IOUType::Withdraw);

    assert_eq!(balance(&token, &charlie), 500_000);
}

#[test]
fn test_fulfill_deposit_iou_with_auth() {
    let mut contract = test_pool();
    let mut token = FungibleToken::new(StorageKey::Token.into_storage_key());
    contract.deposit(account("charlie"), 1_000_000_000_000_000_000_000_000).unwrap();

    let ious = contract.list_ious();
    let iou_id = ious[0].iou_id;

    let refused = contract.fulfill_deposit_iou(&account("danny"), iou_id, 1_000_000);
    assert_eq!(refused, Err(LedgerError::Unauthorized));
    assert_eq!(contract.list_ious().len(), 1);

    let action = contract.fulfill_deposit_iou(&account("bob"), iou_id, 1_000_000).unwrap();
    perform(&mut token, &action);

    assert_eq!(balance(&token, &account("charlie")), 1_000_000);

    let ious = contract.list_ious();
    assert_eq!(ious.len(), 0);
}

#[test]
fn test_fulfill_withdraw_iou_with_auth() {
    let mut contract = test_pool();
    let mut token = FungibleToken::new(StorageKey::Token.into_storage_key());
    let charlie = account("charlie");

    token.internal_register_account(&host_id(&charlie));
    token.internal_deposit(&host_id(&charlie), 1_000_000);

    let action = contract.withdraw(charlie.clone(), 500_000, balance(&token, &charlie)).unwrap();
    perform(&mut token, &action);

    let ious = contract.list_ious();
    let iou_id = ious[0].iou_id;

    let refused = contract.fulfill_withdraw_iou(&account("danny"), iou_id, 500_000_000_000_000_000_000_000);
    assert_eq!(refused, Err(LedgerError::Unauthorized));

    let action = contract
        .fulfill_withdraw_iou(&account("bob"), iou_id, 500_000_000_000_000_000_000_000)
        .unwrap();
    assert_eq!(
        perform(&mut token, &action),
        Some((charlie.clone(), 500_000_000_000_000_000_000_000))
    );

    let ious = contract.list_ious();
    assert_eq!(ious.len(), 0);
}

#[test]
fn deposit_of_one_unit_is_credited_on_fulfillment() {
    let mut contract = test_pool();
    let mut token = FungibleToken::new(StorageKey::Token.into_storage_key());
    let alice = account("alice");

    assert_eq!(contract.deposit(alice.clone(), 1), Ok(0));
    let ious = contract.list_ious();
    assert_eq!(ious.len(), 1);
    assert_eq!(ious[0].iou_type, IOUType::Deposit);
    assert_eq!(ious[0].amount, 1);
    assert_eq!(ious[0].account_id, alice);
    assert_eq!(balance(&token, &alice), 0);

    let action = contract.fulfill_deposit_iou(&account("bob"), 0, 1).unwrap();
    assert_eq!(action, LedgerAction::Credit { account: alice.clone(), amount: 1 });
    perform(&mut token, &action);
    assert_eq!(balance(&token, &alice), 1);
    assert!(contract.list_ious().is_empty());
}

#[test]
fn withdrawal_debits_at_once_and_pays_out_on_fulfillment() {
    let mut contract = test_pool();
    let mut token = FungibleToken::new(StorageKey::Token.into_storage_key());
    let alice = account("alice");
    token.internal_register_account(&host_id(&alice));
    token.internal_deposit(&host_id(&alice), 1000);

    let action = contract.withdraw(alice.clone(), 500, balance(&token, &alice)).unwrap();
    perform(&mut token, &action);
    assert_eq!(balance(&token, &alice), 500);
    assert_eq!(token.ft_total_supply().0, 500);
    let ious = contract.list_ious();
    assert_eq!(ious.len(), 1);
    assert_eq!(ious[0].iou_type, IOUType::Withdraw);
    assert_eq!(ious[0].amount, 500);

    let action = contract.fulfill_withdraw_iou(&account("bob"), ious[0].iou_id, 500).unwrap();
    assert_eq!(action, LedgerAction::Payout { account: alice.clone(), amount: 500 });
    assert_eq!(perform(&mut token, &action), Some((alice.clone(), 500)));
    assert_eq!(balance(&token, &alice), 500);
    assert!(contract.list_ious().is_empty());
}

#[test]
fn zero_deposit_is_an_invalid_amount() {
    let mut contract = test_pool();
    assert_eq!(contract.deposit(account("alice"), 0), Err(LedgerError::InvalidAmount));
    assert!(contract.list_ious().is_empty());
    assert_eq!(contract.next_iou_id(), 0);
}

#[test]
fn zero_withdrawal_is_an_invalid_amount() {
    let mut contract = test_pool();
    assert_eq!(contract.withdraw(account("alice"), 0, 10), Err(LedgerError::InvalidAmount));
    assert!(contract.list_ious().is_empty());
}

#[test]
fn withdrawal_beyond_the_balance_is_refused() {
    let mut contract = test_pool();
    assert_eq!(contract.withdraw(account("alice"), 11, 10), Err(LedgerError::InsufficientBalance));
    assert!(contract.list_ious().is_empty());
    assert!(contract.withdraw(account("alice"), 10, 10).is_ok());
}

#[test]
fn fulfillment_of_an_unknown_receipt_is_not_found() {
    let mut contract = test_pool();
    assert_eq!(contract.fulfill_deposit_iou(&account("bob"), 7, 1), Err(LedgerError::NotFound));
    assert_eq!(contract.fulfill_withdraw_iou(&account("bob"), 7, 1), Err(LedgerError::NotFound));
}

#[test]
fn fulfillment_as_the_other_kind_is_a_mismatch() {
    let mut contract = test_pool();
    contract.deposit(account("alice"), 5).unwrap();
    contract.withdraw(account("alice"), 3, 3).unwrap();
    assert_eq!(contract.fulfill_withdraw_iou(&account("bob"), 0, 5), Err(LedgerError::KindMismatch));
    assert_eq!(contract.fulfill_deposit_iou(&account("bob"), 1, 3), Err(LedgerError::KindMismatch));
    assert_eq!(contract.list_ious().len(), 2);
}

#[test]
fn a_receipt_is_fulfilled_at_most_once() {
    let mut contract = test_pool();
    contract.deposit(account("alice"), 5).unwrap();
    assert!(contract.fulfill_deposit_iou(&account("bob"), 0, 5).is_ok());
    contract.deposit(account("alice"), 6).unwrap();
    assert_eq!(contract.fulfill_deposit_iou(&account("bob"), 0, 5), Err(LedgerError::NotFound));
    assert_eq!(contract.fulfill_withdraw_iou(&account("bob"), 0, 5), Err(LedgerError::NotFound));
    assert_eq!(contract.fulfill_deposit_iou(&account("alice"), 0, 5), Err(LedgerError::Unauthorized));
}

#[test]
fn receipt_ids_grow_and_are_listed_oldest_first() {
    let mut contract = test_pool();
    assert_eq!(contract.deposit(account("alice"), 5), Ok(0));
    assert_eq!(contract.deposit(account("bob"), 6), Ok(1));
    assert_eq!(contract.deposit(account("charlie"), 7), Ok(2));
    contract.fulfill_deposit_iou(&account("bob"), 1, 6).unwrap();
    assert_eq!(contract.deposit(account("danny"), 8), Ok(3));
    let ids: Vec<u64> = contract.list_ious().iter().map(|r| r.iou_id).collect();
    assert_eq!(ids, vec![0, 2, 3]);
    assert_eq!(contract.next_iou_id(), 4);
}

#[test]
fn the_fulfillment_amount_is_the_authority_s_to_name() {
    let mut contract = test_pool();
    contract.deposit(account("alice"), 5).unwrap();
    let action = contract.fulfill_deposit_iou(&account("bob"), 0, 9).unwrap();
    assert_eq!(action, LedgerAction::Credit { account: account("alice"), amount: 9 });
}

#[test]
fn sum_of_balances_is_fulfilled_deposits_minus_withdrawals() {
    let mut contract = test_pool();
    let mut token = FungibleToken::new(StorageKey::Token.into_storage_key());
    let alice = account("alice");
    let carol = account("carol");

    contract.deposit(alice.clone(), 100).unwrap();
    contract.deposit(carol.clone(), 40).unwrap();
    assert_eq!(token.ft_total_supply().0, 0);
    let a = contract.fulfill_deposit_iou(&account("bob"), 0, 100).unwrap();
    perform(&mut token, &a);
    let a = contract.fulfill_deposit_iou(&account("bob"), 1, 40).unwrap();
    perform(&mut token, &a);
    assert_eq!(token.ft_total_supply().0, 140);
    let a = contract.withdraw(alice.clone(), 30, balance(&token, &alice)).unwrap();
    perform(&mut token, &a);
    assert_eq!(token.ft_total_supply().0, 110);
    let a = contract.fulfill_withdraw_iou(&account("bob"), 2, 30).unwrap();
    perform(&mut token, &a);
    assert_eq!(token.ft_total_supply().0, 110);
    assert_eq!(balance(&token, &alice) + balance(&token, &carol), 110);
}

#[test]
fn only_the_authority_calls_funds_back() {
    let contract = test_pool();
    assert_eq!(contract.transfer_to_owner(&account("alice"), 5), Err(LedgerError::Unauthorized));
    assert_eq!(
        contract.transfer_to_owner(&account("bob"), 5),
        Ok(LedgerAction::Payout { account: account("bob"), amount: 5 })
    );
}

#[test]
fn pool_namespaces_do_not_collide() {
    assert_eq!(StorageKey::Token.into_storage_key(), vec![0u8]);
    assert_eq!(StorageKey::IOUs.into_storage_key(), vec![1u8]);
}

#[test]
fn refused_calls_need_no_receipt_id() {
    let full = PoolContract::restore(
        "Test Pool".to_string(),
        "TP".to_string(),
        account("bob"),
        account("bob"),
        Vec::new(),
        u64::MAX,
    );
    let mut contract = full.unwrap();
    assert_eq!(contract.deposit(account("alice"), 0), Err(LedgerError::InvalidAmount));
    assert_eq!(contract.withdraw(account("alice"), 0, 10), Err(LedgerError::InvalidAmount));
    assert_eq!(contract.withdraw(account("alice"), 11, 10), Err(LedgerError::InsufficientBalance));
    assert_eq!(contract.next_iou_id(), u64::MAX);
}

#[test]
fn a_persisted_pool_is_restored_or_refused() {
    let mut contract = test_pool();
    contract.deposit(account("alice"), 5).unwrap();
    contract.deposit(account("charlie"), 6).unwrap();
    contract.fulfill_deposit_iou(&account("bob"), 0, 5).unwrap();
    let restore = |receipts, next| {
        PoolContract::restore("Test Pool".to_string(), "TP".to_string(), account("bob"), account("bob"), receipts, next)
    };
    let restored = restore(contract.list_ious(), contract.next_iou_id()).unwrap();
    assert_eq!(restored.list_ious(), contract.list_ious());
    assert_eq!(restored.next_iou_id(), 2);
    assert_eq!(restored.token_metadata(), contract.token_metadata());

    let mut twice = contract.list_ious();
    twice.extend(contract.list_ious());
    assert!(restore(twice, 2).is_none());
    assert!(restore(contract.list_ious(), 1).is_none());
}
