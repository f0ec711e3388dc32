use iou_pools::account::AccountId;
use iou_pools::error::LedgerError;
use iou_pools::gateway::{Contract, IOUReceipt, IOUType, VContract};
use iou_pools::pool::{LedgerAction, PoolContract};

fn account(name: &str) -> AccountId {
    AccountId::parse(name).unwrap()
}

fn gateway() -> Contract {
    Contract::new(account("owner.testnet"))
}

#[test]
fn lib_test_new() {
    let contract = gateway();
    assert_eq!(contract.next_iou_id(), 0);

    let pool = PoolContract::new("Test Pool".to_string(), "TP".to_string(), account("bob"), account("bob"));
    assert_eq!(pool.token_metadata().name, "Test Pool");
    assert_eq!(pool.token_metadata().symbol, "TP");
    assert_eq!(*pool.authorized_account(), account("bob"));
}

#[test]
fn a_new_gateway_is_empty_and_knows_its_authority() {
    let contract = gateway();
    assert_eq!(*contract.authorized_account(), account("owner.testnet"));
    assert!(contract.list_ious().is_empty());
    assert!(contract.receipt_log().is_empty());
    assert!(contract.list_lps().is_empty());
}

#[test]
fn test_add_and_list_lps() {
    let mut contract = gateway();
    contract.add_lp("lp1".to_string(), account("lp1.token.testnet"));
    contract.add_lp("lp2".to_string(), account("lp2.token.testnet"));
    let lps = contract.list_lps();
    assert_eq!(lps.len(), 2);
    assert!(lps.contains(&("lp1".to_string(), account("lp1.token.testnet"))));
    assert!(lps.contains(&("lp2".to_string(), account("lp2.token.testnet"))));
}

#[test]
fn test_deposit() {
    let mut contract = gateway();
    contract.add_lp("lp1".to_string(), account("lp1.token.testnet"));
    contract
        .deposit(account("user.testnet"), 1_000_000_000_000_000_000_000_000, "lp1".to_string())
        .unwrap();
    let ious = contract.list_ious();
    assert_eq!(ious.len(), 1);
    let iou = &ious[0];
    assert_eq!(iou.recipient, account("user.testnet"));
    assert_eq!(iou.amount, 1_000_000_000_000_000_000_000_000);
    assert_eq!(iou.fulfilled, false);
    assert_eq!(iou.iou_type, IOUType::Deposit);
    assert_eq!(iou.lp_id, "lp1");
}

#[test]
fn test_ft_on_transfer() {
    let mut contract = gateway();
    contract.add_lp("lp1".to_string(), account("lp1.token.testnet"));
    let result = contract.ft_on_transfer(&account("system"), account("lpuser.testnet"), 500, "lp1".to_string());
    assert_eq!(result, Ok(0));
    let ious = contract.list_ious();
    assert_eq!(ious.len(), 1);
    let iou = &ious[0];
    assert_eq!(iou.recipient, account("lpuser.testnet"));
    assert_eq!(iou.amount, 500);
    assert_eq!(iou.fulfilled, false);
    assert_eq!(iou.iou_type, IOUType::Withdraw);
    assert_eq!(iou.lp_id, "lp_token_id");
}

#[test]
fn test_fulfill_iou_near() {
    let mut contract = gateway();
    contract.add_lp("lp1".to_string(), account("lp1.token.testnet"));
    contract
        .ft_on_transfer(
            &account("system"),
            account("user.testnet"),
            500_000_000_000_000_000_000_000,
            "lp1".to_string(),
        )
        .unwrap();
    let ious = contract.list_ious();
    let iou_id = ious[0].iou_id.clone();

    let action = contract.fulfill_iou_near(&account("owner.testnet"), iou_id.clone(), 500_000_000_000_000_000_000_000);
    assert_eq!(
        action,
        Ok(LedgerAction::Payout { account: account("user.testnet"), amount: 500_000_000_000_000_000_000_000 })
    );
    let log = contract.receipt_log();
    let updated_iou = log.iter().find(|r| r.iou_id == iou_id).unwrap();
    assert!(updated_iou.fulfilled);
}

#[test]
fn receipt_ids_are_the_counter_in_decimal() {
    let mut contract = gateway();
    for n in 0..12u64 {
        let id = contract.deposit(account("user.testnet"), 5, "lp1".to_string()).unwrap();
        assert_eq!(id, n.to_string());
    }
    let ious = contract.list_ious();
    assert_eq!(ious[0].iou_id, "0");
    assert_eq!(ious[9].iou_id, "9");
    assert_eq!(ious[10].iou_id, "10");
    assert_eq!(ious[11].iou_id, "11");
    assert_eq!(contract.next_iou_id(), 12);
}

#[test]
fn a_zero_deposit_is_an_invalid_amount() {
    let mut contract = gateway();
    assert_eq!(
        contract.deposit(account("user.testnet"), 0, "lp1".to_string()),
        Err(LedgerError::InvalidAmount)
    );
    assert!(contract.list_ious().is_empty());
    assert_eq!(contract.next_iou_id(), 0);
}

#[test]
fn any_other_transfer_is_handed_back() {
    let mut contract = gateway();
    let unused = contract.ft_on_transfer(&account("lpuser.testnet"), account("system"), 500, "lp1".to_string());
    assert_eq!(unused, Ok(500));
    assert_eq!(
        contract.ft_on_transfer(&account("lpuser.testnet"), account("system"), 0, String::new()),
        Ok(0)
    );
    assert!(contract.list_ious().is_empty());
}

#[test]
fn a_redemption_of_nothing_is_an_invalid_amount() {
    let mut contract = gateway();
    assert_eq!(contract.redeem_lp_for_near(account("user.testnet"), 0), Err(LedgerError::InvalidAmount));
    assert!(contract.receipt_log().is_empty());
    assert_eq!(
        contract.ft_on_transfer(&account("system"), account("user.testnet"), 0, String::new()),
        Err(LedgerError::InvalidAmount)
    );
    assert!(contract.receipt_log().is_empty());
    assert_eq!(contract.next_iou_id(), 0);
}

#[test]
fn a_redemption_answers_with_the_receipt_id() {
    let mut contract = gateway();
    assert_eq!(contract.redeem_lp_for_near(account("user.testnet"), 9), Ok("0".to_string()));
    assert_eq!(contract.redeem_lp_for_near(account("user.testnet"), 9), Ok("1".to_string()));
}

#[test]
fn only_the_authority_fulfills() {
    let mut contract = gateway();
    contract.redeem_lp_for_near(account("user.testnet"), 9).unwrap();
    for caller in ["user.testnet", "system", "other.testnet"] {
        assert_eq!(
            contract.fulfill_iou_near(&account(caller), "0".to_string(), 9),
            Err(LedgerError::Unauthorized)
        );
        assert_eq!(
            contract.fulfill_iou_near(&account(caller), "7".to_string(), 9),
            Err(LedgerError::Unauthorized)
        );
    }
    let open = contract.list_ious();
    assert_eq!(open.len(), 1);
    assert_eq!(open[0].fulfilled, false);
    assert!(contract.fulfill_iou_near(&account("owner.testnet"), "0".to_string(), 9).is_ok());
}

#[test]
fn a_redemption_is_paid_out_once() {
    let mut contract = gateway();
    let owner = account("owner.testnet");
    contract.redeem_lp_for_near(account("user.testnet"), 500).unwrap();
    assert!(contract.fulfill_iou_near(&owner, "0".to_string(), 500).is_ok());
    assert!(contract.list_ious().is_empty());

    contract.deposit(account("other.testnet"), 1, "lp1".to_string()).unwrap();
    assert_eq!(contract.fulfill_iou_near(&owner, "0".to_string(), 500), Err(LedgerError::AlreadyFulfilled));
    assert_eq!(contract.fulfill_iou_near(&owner, "0".to_string(), 1), Err(LedgerError::AlreadyFulfilled));
    assert_eq!(
        contract.fulfill_iou_near(&account("user.testnet"), "0".to_string(), 500),
        Err(LedgerError::Unauthorized)
    );
}

#[test]
fn fulfillment_is_refused_for_each_reason() {
    let mut contract = gateway();
    let owner = account("owner.testnet");
    contract.deposit(account("user.testnet"), 7, "lp1".to_string()).unwrap();
    contract.redeem_lp_for_near(account("user.testnet"), 9).unwrap();
    assert_eq!(contract.fulfill_iou_near(&owner, "2".to_string(), 9), Err(LedgerError::NotFound));
    assert_eq!(contract.fulfill_iou_near(&owner, "01".to_string(), 9), Err(LedgerError::NotFound));
    assert_eq!(contract.fulfill_iou_near(&owner, "".to_string(), 9), Err(LedgerError::NotFound));
    assert_eq!(contract.fulfill_iou_near(&owner, "0".to_string(), 7), Err(LedgerError::KindMismatch));
    assert_eq!(contract.fulfill_iou_near(&owner, "1".to_string(), 8), Err(LedgerError::InvalidAmount));
    assert_eq!(contract.list_ious().len(), 2);
    assert!(contract.fulfill_iou_near(&owner, "1".to_string(), 9).is_ok());
    let open = contract.list_ious();
    assert_eq!(open.len(), 1);
    assert_eq!(open[0].iou_id, "0");
}

#[test]
fn adding_a_pool_again_replaces_its_token() {
    let mut contract = gateway();
    contract.add_lp("lp1".to_string(), account("old.token.testnet"));
    contract.add_lp("lp1".to_string(), account("new.token.testnet"));
    assert_eq!(contract.list_lps(), vec![("lp1".to_string(), account("new.token.testnet"))]);
}

#[test]
fn the_current_layout_is_the_gateway_itself() {
    let mut contract = gateway();
    contract.deposit(account("user.testnet"), 7, "lp1".to_string()).unwrap();
    let restored = Contract::from(VContract::Current(contract));
    assert_eq!(restored.next_iou_id(), 1);
    assert_eq!(restored.list_ious().len(), 1);
    assert_eq!(*restored.authorized_account(), account("owner.testnet"));
}

#[test]
fn a_persisted_gateway_is_restored_or_refused() {
    let mut contract = gateway();
    contract.deposit(account("user.testnet"), 7, "lp1".to_string()).unwrap();
    contract.redeem_lp_for_near(account("user.testnet"), 9).unwrap();
    contract.add_lp("lp1".to_string(), account("lp1.token.testnet"));
    let restored = Contract::restore(account("owner.testnet"), contract.receipt_log(), &contract.list_lps()).unwrap();
    assert_eq!(restored.receipt_log(), contract.receipt_log());
    assert_eq!(restored.list_lps(), contract.list_lps());
    assert_eq!(restored.next_iou_id(), 2);

    let receipt = |id: &str, amount: u128| IOUReceipt {
        iou_id: id.to_string(),
        lp_id: "lp1".to_string(),
        amount,
        recipient: account("user.testnet"),
        fulfilled: false,
        iou_type: IOUType::Deposit,
    };
    assert!(Contract::restore(account("owner.testnet"), vec![receipt("0", 1), receipt("1", 1)], &vec![]).is_some());
    assert!(Contract::restore(account("owner.testnet"), vec![receipt("1", 1)], &vec![]).is_none());
    assert!(Contract::restore(account("owner.testnet"), vec![receipt("0", 1), receipt("0", 1)], &vec![]).is_none());
    assert!(Contract::restore(account("owner.testnet"), vec![receipt("0", 0)], &vec![]).is_none());
}
