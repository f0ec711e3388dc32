use iou_pools::account::AccountId;
use iou_pools::controller::{MainController, PromiseOutcome, StorageKey};
use iou_pools::error::LedgerError;
use iou_pools::promise::{Callback, PromiseAction, PromisePlan, RemoteCall};
use iou_pools::units::min_pool_balance;

fn account(name: &str) -> AccountId {
    AccountId::parse(name).unwrap()
}

fn registry() -> AccountId {
    account("controller.testnet")
}

fn succeeded() -> Vec<PromiseOutcome> {
    vec![PromiseOutcome::Successful]
}

fn create(contract: &MainController, caller: &str, pool_id: &str, funding: u128) -> Result<PromisePlan, LedgerError> {
    contract.create_pool(
        &account(caller),
        &registry(),
        pool_id.to_string(),
        "Test Pool".to_string(),
        "TP".to_string(),
        funding,
    )
}

#[test]
fn test_new() {
    let contract = MainController::new(account("alice"));
    assert_eq!(*contract.owner_id(), account("alice"));
    assert!(contract.list_pools().is_empty());
}

#[test]
fn test_create_pool() {
    let mut contract = MainController::new(account("alice"));
    assert!(create(&contract, "alice", "pool1", min_pool_balance()).is_ok());

    contract
        .on_pool_initialized("pool1".to_string(), account("pool1.controller.testnet"), &succeeded())
        .unwrap();

    let pools = contract.list_pools();
    assert_eq!(pools.len(), 1);
    assert_eq!(pools[0], "pool1".to_string());
}

#[test]
fn test_list_pools() {
    let mut contract = MainController::new(account("alice"));
    contract
        .on_pool_initialized("pool1".to_string(), account("pool1.controller.testnet"), &succeeded())
        .unwrap();
    contract
        .on_pool_initialized("pool2".to_string(), account("pool2.controller.testnet"), &succeeded())
        .unwrap();

    let pools = contract.list_pools();
    assert_eq!(pools.len(), 2);
    assert!(pools.contains(&"pool1".to_string()));
    assert!(pools.contains(&"pool2".to_string()));
}

#[test]
fn the_provisioning_plan_lists_every_step_in_order() {
    let contract = MainController::new(account("alice"));
    let funding = 3_000_000_000_000_000_000_000_000;
    let plan = create(&contract, "alice", "p1", funding).unwrap();
    let address = account("p1.controller.testnet");
    assert_eq!(plan.receiver, address);
    assert_eq!(
        plan.actions,
        vec![
            PromiseAction::CreateAccount,
            PromiseAction::Transfer { amount: funding },
            PromiseAction::AddFullAccessKey,
            PromiseAction::DeployContract,
            PromiseAction::FunctionCall {
                call: RemoteCall::InitializePool {
                    name: "Test Pool".to_string(),
                    symbol: "TP".to_string(),
                    authorized_account: registry(),
                    creator: account("alice"),
                },
                deposit: 0,
                gas: 50_000_000_000_000,
            },
        ]
    );
    assert_eq!(
        plan.callback,
        Some(Callback {
            receiver: registry(),
            action: PromiseAction::FunctionCall {
                call: RemoteCall::PoolInitialized { pool_id: "p1".to_string(), pool_account_id: address },
                deposit: 0,
                gas: 50_000_000_000_000,
            },
        })
    );
    assert!(contract.list_pools().is_empty());
}

#[test]
fn funding_below_the_minimum_is_insufficient() {
    let contract = MainController::new(account("alice"));
    assert_eq!(
        create(&contract, "alice", "p1", min_pool_balance() - 1),
        Err(LedgerError::InsufficientFunding)
    );
    assert_eq!(create(&contract, "alice", "p1", 0), Err(LedgerError::InsufficientFunding));
    assert!(create(&contract, "alice", "p1", min_pool_balance()).is_ok());
    assert!(contract.list_pools().is_empty());
}

#[test]
fn failed_initialization_registers_nothing() {
    let mut contract = MainController::new(account("alice"));
    assert!(create(&contract, "alice", "p1", min_pool_balance()).is_ok());
    let answer = contract.on_pool_initialized(
        "p1".to_string(),
        account("p1.controller.testnet"),
        &vec![PromiseOutcome::Failed],
    );
    assert_eq!(answer, Err(LedgerError::ProvisioningFailed));
    assert!(contract.list_pools().is_empty());
    assert_eq!(contract.pool_address(&"p1".to_string()), None);
}

#[test]
fn a_callback_without_exactly_one_result_fails() {
    let mut contract = MainController::new(account("alice"));
    let none: Vec<PromiseOutcome> = vec![];
    let two = vec![PromiseOutcome::Successful, PromiseOutcome::Successful];
    for results in [none, two] {
        let answer = contract.on_pool_initialized("p1".to_string(), account("p1.controller.testnet"), &results);
        assert_eq!(answer, Err(LedgerError::ProvisioningFailed));
    }
    assert!(contract.list_pools().is_empty());
}

#[test]
fn a_registered_pool_id_is_a_duplicate() {
    let mut contract = MainController::new(account("alice"));
    assert!(create(&contract, "alice", "p1", min_pool_balance()).is_ok());
    contract
        .on_pool_initialized("p1".to_string(), account("p1.controller.testnet"), &succeeded())
        .unwrap();
    assert_eq!(create(&contract, "alice", "p1", min_pool_balance()), Err(LedgerError::DuplicateId));
    assert_eq!(create(&contract, "alice", "p1", 0), Err(LedgerError::DuplicateId));
    assert!(create(&contract, "alice", "p2", min_pool_balance()).is_ok());
    assert_eq!(
        contract.pool_address(&"p1".to_string()),
        Some(&account("p1.controller.testnet"))
    );
}

#[test]
fn a_pool_id_that_makes_no_address_is_refused() {
    let contract = MainController::new(account("alice"));
    assert_eq!(create(&contract, "alice", "Pool One", min_pool_balance()), Err(LedgerError::InvalidAccountId));
    assert_eq!(create(&contract, "alice", "", min_pool_balance()), Err(LedgerError::InvalidAccountId));
}

#[test]
fn only_the_owner_commands_the_registry() {
    let mut contract = MainController::new(account("alice"));
    contract
        .on_pool_initialized("p1".to_string(), account("p1.controller.testnet"), &succeeded())
        .unwrap();
    let bob = account("bob");
    let p1 = "p1".to_string();
    assert_eq!(create(&contract, "bob", "p2", min_pool_balance()), Err(LedgerError::Unauthorized));
    assert_eq!(create(&contract, "bob", "p1", min_pool_balance()), Err(LedgerError::Unauthorized));
    assert_eq!(contract.transfer_to_pool(&bob, &registry(), p1.clone(), 5), Err(LedgerError::Unauthorized));
    assert_eq!(contract.transfer_from_pool(&bob, &registry(), p1.clone(), 5), Err(LedgerError::Unauthorized));
    assert_eq!(contract.fulfill_deposit_iou(&bob, &registry(), p1.clone(), 0, 5), Err(LedgerError::Unauthorized));
    assert_eq!(contract.fulfill_withdraw_iou(&bob, &registry(), p1.clone(), 0, 5), Err(LedgerError::Unauthorized));
    assert_eq!(contract.clear_pools(&bob), Err(LedgerError::Unauthorized));
    assert_eq!(contract.list_pools(), vec!["p1".to_string()]);
}

#[test]
fn the_owner_clears_the_pools() {
    let mut contract = MainController::new(account("alice"));
    contract
        .on_pool_initialized("p1".to_string(), account("p1.controller.testnet"), &succeeded())
        .unwrap();
    assert_eq!(contract.clear_pools(&account("alice")), Ok(()));
    assert!(contract.list_pools().is_empty());
    assert!(create(&contract, "alice", "p1", min_pool_balance()).is_ok());
}

#[test]
fn funds_go_to_registered_pools_only() {
    let mut contract = MainController::new(account("alice"));
    let alice = account("alice");
    assert_eq!(
        contract.transfer_to_pool(&alice, &registry(), "p1".to_string(), 5),
        Err(LedgerError::NotFound)
    );
    contract
        .on_pool_initialized("p1".to_string(), account("p1.controller.testnet"), &succeeded())
        .unwrap();
    let plan = contract.transfer_to_pool(&alice, &registry(), "p1".to_string(), 5).unwrap();
    assert_eq!(plan.receiver, account("p1.controller.testnet"));
    assert_eq!(plan.actions, vec![PromiseAction::Transfer { amount: 5 }]);
    assert_eq!(plan.callback, None);
}

#[test]
fn commands_are_forwarded_to_the_pool_s_address() {
    let contract = MainController::new(account("alice"));
    let alice = account("alice");
    let address = account("p1.controller.testnet");

    let plan = contract.transfer_from_pool(&alice, &registry(), "p1".to_string(), 7).unwrap();
    assert_eq!(plan.receiver, address);
    assert_eq!(
        plan.actions,
        vec![PromiseAction::FunctionCall {
            call: RemoteCall::TransferToOwner { amount: 7 },
            deposit: 0,
            gas: 20_000_000_000_000,
        }]
    );

    let plan = contract.fulfill_deposit_iou(&alice, &registry(), "p1".to_string(), 3, 9).unwrap();
    assert_eq!(plan.receiver, address);
    assert_eq!(
        plan.actions,
        vec![PromiseAction::FunctionCall {
            call: RemoteCall::FulfillDepositIou { iou_id: 3, amount: 9 },
            deposit: 0,
            gas: 30_000_000_000_000,
        }]
    );

    let plan = contract.fulfill_withdraw_iou(&alice, &registry(), "p1".to_string(), 4, 8).unwrap();
    assert_eq!(
        plan.actions,
        vec![PromiseAction::FunctionCall {
            call: RemoteCall::FulfillWithdrawIou { iou_id: 4, amount: 8 },
            deposit: 0,
            gas: 30_000_000_000_000,
        }]
    );
    assert_eq!(plan.callback, None);

    assert_eq!(
        contract.fulfill_deposit_iou(&alice, &registry(), "P1".to_string(), 3, 9),
        Err(LedgerError::InvalidAccountId)
    );
}

#[test]
fn remote_methods_go_by_their_exported_names() {
    let a = account("alice");
    assert_eq!(
        RemoteCall::InitializePool {
            name: "n".to_string(),
            symbol: "s".to_string(),
            authorized_account: a.clone(),
            creator: a.clone()
        }
        .method_name(),
        "new"
    );
    assert_eq!(
        RemoteCall::PoolInitialized { pool_id: "p".to_string(), pool_account_id: a.clone() }.method_name(),
        "on_pool_initialized"
    );
    assert_eq!(RemoteCall::TransferToOwner { amount: 1 }.method_name(), "transfer_to_owner");
    assert_eq!(RemoteCall::FulfillDepositIou { iou_id: 1, amount: 1 }.method_name(), "fulfill_deposit_iou");
    assert_eq!(RemoteCall::FulfillWithdrawIou { iou_id: 1, amount: 1 }.method_name(), "fulfill_withdraw_iou");
}

#[test]
fn a_repeated_callback_keeps_one_record() {
    let mut contract = MainController::new(account("alice"));
    for _ in 0..2 {
        contract
            .on_pool_initialized("p1".to_string(), account("p1.controller.testnet"), &succeeded())
            .unwrap();
    }
    assert_eq!(contract.list_pools(), vec!["p1".to_string()]);
}

#[test]
fn a_pool_record_is_never_changed() {
    let mut contract = MainController::new(account("alice"));
    contract
        .on_pool_initialized("p1".to_string(), account("p1.controller.testnet"), &succeeded())
        .unwrap();
    let answer = contract.on_pool_initialized("p1".to_string(), account("elsewhere.testnet"), &succeeded());
    assert_eq!(answer, Ok(()));
    assert_eq!(
        contract.pool_address(&"p1".to_string()),
        Some(&account("p1.controller.testnet"))
    );
    assert_eq!(contract.pool_records(), vec![("p1".to_string(), account("p1.controller.testnet"))]);
}

#[test]
fn a_persisted_registry_is_restored() {
    let records = vec![
        ("p1".to_string(), account("p1.controller.testnet")),
        ("p2".to_string(), account("p2.controller.testnet")),
    ];
    let contract = MainController::restore(account("alice"), &records);
    assert_eq!(*contract.owner_id(), account("alice"));
    assert_eq!(contract.pool_records(), records);
}

#[test]
fn the_registry_namespace_has_its_prefix() {
    assert_eq!(StorageKey::Pools.into_storage_key(), vec![0u8]);
}
