//! The registry service: provisions pools and routes its owner's commands
//! to them.
//!
//! A pool is provisioned by a chain of steps on its new account: bring the
//! account into existence, fund it, install the pool's program, initialize
//! it, and then report to the registry. Between funding and installing,
//! the chain gives the signer of the request full access to the account.
//! That action is part of bringing the account into existence: an account
//! without a key could never be managed from outside. It moves no funds
//! and decides nothing in the registry.
//!
//! The registry files a pool only when the chain reports success, and a
//! record that is filed is never changed: a callback for an id that is
//! registered leaves its address as it is.

use crate::account::{sub_account_text, valid_account_id, AccountId};
use crate::directory::{pairs_to_map, AccountDirectory};
use crate::error::LedgerError;
use crate::promise::{
    Callback, CallbackView, PromiseAction, PromiseActionView, PromisePlan, PromisePlanView, RemoteCall,
    RemoteCallView,
};
use crate::units::{
    gas_for, min_pool_balance, min_pool_balance_spec, GAS_PER_TGAS, TGAS_FOR_CALLBACK, TGAS_FOR_FULFILL,
    TGAS_FOR_INIT_POOL, TGAS_FOR_TRANSFER_TO_OWNER,
};
use vstd::prelude::*;

verus! {

/// The namespaces under which the registry persists its collections.
#[derive(Clone, Copy, Debug, PartialEq, Eq, Structural)]
pub enum StorageKey {
    Pools,
}

impl StorageKey {
    /// The byte that prefixes every key of the namespace.
    pub open spec fn tag(self) -> u8 {
        0u8
    }

    /// The prefix of the namespace.
    pub fn into_storage_key(self) -> (key: Vec<u8>)
        ensures
            key@ == seq![self.tag()],
    {
        let mut key: Vec<u8> = Vec::new();
        key.push(0u8);
        key
    }
}

/// How one step of a provisioning chain ended.
#[derive(Clone, Copy, Debug, PartialEq, Eq, Structural)]
pub enum PromiseOutcome {
    Successful,
    Failed,
}

/// The registry's state as a value: its owner and the address of each pool.
pub struct ControllerView {
    pub owner: Seq<char>,
    pub pools: Map<Seq<char>, Seq<char>>,
}

/// The chain that brings a pool into existence at its address and then
/// reports to the registry: create the account, fund it, give the signer
/// access to it, install the program, initialize it; afterwards call back.
pub open spec fn provisioning_plan(
    registry: Seq<char>,
    caller: Seq<char>,
    pool_id: Seq<char>,
    name: Seq<char>,
    symbol: Seq<char>,
    funding: u128,
) -> PromisePlanView {
    let address = sub_account_text(pool_id, registry);
    PromisePlanView {
        receiver: address,
        actions: seq![
            PromiseActionView::CreateAccount,
            PromiseActionView::Transfer { amount: funding },
            PromiseActionView::AddFullAccessKey,
            PromiseActionView::DeployContract,
            PromiseActionView::FunctionCall {
                call: RemoteCallView::InitializePool { name, symbol, authorized_account: registry, creator: caller },
                deposit: 0,
                gas: (TGAS_FOR_INIT_POOL * GAS_PER_TGAS) as u64,
            },
        ],
        callback: Some(
            CallbackView {
                receiver: registry,
                action: PromiseActionView::FunctionCall {
                    call: RemoteCallView::PoolInitialized { pool_id, pool_account_id: address },
                    deposit: 0,
                    gas: (TGAS_FOR_CALLBACK * GAS_PER_TGAS) as u64,
                },
            },
        ),
    }
}

/// A plan of one action on the pool `pool_id` of `registry`.
pub open spec fn pool_plan(registry: Seq<char>, pool_id: Seq<char>, action: PromiseActionView) -> PromisePlanView {
    PromisePlanView { receiver: sub_account_text(pool_id, registry), actions: seq![action], callback: None }
}

/// A call of a pool's method with nothing attached.
pub open spec fn pool_call(call: RemoteCallView, tgas: u64) -> PromiseActionView {
    PromiseActionView::FunctionCall { call, deposit: 0, gas: (tgas * GAS_PER_TGAS) as u64 }
}

impl ControllerView {
    /// What `create_pool` answers.
    pub open spec fn create_pool(
        self,
        caller: Seq<char>,
        registry: Seq<char>,
        pool_id: Seq<char>,
        name: Seq<char>,
        symbol: Seq<char>,
        funding: u128,
    ) -> Result<PromisePlanView, LedgerError> {
        if caller != self.owner {
            Err(LedgerError::Unauthorized)
        } else if self.pools.dom().contains(pool_id) {
            Err(LedgerError::DuplicateId)
        } else if !valid_account_id(sub_account_text(pool_id, registry)) {
            Err(LedgerError::InvalidAccountId)
        } else if funding < min_pool_balance_spec() {
            Err(LedgerError::InsufficientFunding)
        } else {
            Ok(provisioning_plan(registry, caller, pool_id, name, symbol, funding))
        }
    }

    /// Whether a provisioning chain reported success: it resolved to one
    /// result, and that result is a success.
    pub open spec fn provisioned(results: Seq<PromiseOutcome>) -> bool {
        results.len() == 1 && results[0] == PromiseOutcome::Successful
    }

    /// The registry after the provisioning callback: the pool is filed if
    /// the chain reported success and the id is not registered yet.
    pub open spec fn on_pool_initialized(
        self,
        pool_id: Seq<char>,
        pool_account_id: Seq<char>,
        results: Seq<PromiseOutcome>,
    ) -> ControllerView {
        if Self::provisioned(results) && !self.pools.dom().contains(pool_id) {
            ControllerView { owner: self.owner, pools: self.pools.insert(pool_id, pool_account_id) }
        } else {
            self
        }
    }

    /// The registry after `clear_pools`.
    pub open spec fn clear_pools(self, caller: Seq<char>) -> ControllerView {
        if caller == self.owner {
            ControllerView { owner: self.owner, pools: Map::empty() }
        } else {
            self
        }
    }

    /// What `transfer_to_pool` answers.
    pub open spec fn transfer_to_pool(
        self,
        caller: Seq<char>,
        registry: Seq<char>,
        pool_id: Seq<char>,
        amount: u128,
    ) -> Result<PromisePlanView, LedgerError> {
        if caller != self.owner {
            Err(LedgerError::Unauthorized)
        } else if !self.pools.dom().contains(pool_id) {
            Err(LedgerError::NotFound)
        } else if !valid_account_id(sub_account_text(pool_id, registry)) {
            Err(LedgerError::InvalidAccountId)
        } else {
            Ok(pool_plan(registry, pool_id, PromiseActionView::Transfer { amount }))
        }
    }

    /// What a command answers that the registry forwards to a pool as the
    /// call `call`.
    pub open spec fn forward(
        self,
        caller: Seq<char>,
        registry: Seq<char>,
        pool_id: Seq<char>,
        call: RemoteCallView,
        tgas: u64,
    ) -> Result<PromisePlanView, LedgerError> {
        if caller != self.owner {
            Err(LedgerError::Unauthorized)
        } else if !valid_account_id(sub_account_text(pool_id, registry)) {
            Err(LedgerError::InvalidAccountId)
        } else {
            Ok(pool_plan(registry, pool_id, pool_call(call, tgas)))
        }
    }
}

impl ControllerView {
    /// Uniqueness. Once the provisioning of a pool has been planned and
    /// its callback has reported success, every further request to create
    /// a pool of that id is refused: as a duplicate where the owner asks,
    /// as unauthorized where anyone else does.
    pub proof fn lemma_pool_id_unique(
        self,
        caller: Seq<char>,
        registry: Seq<char>,
        pool_id: Seq<char>,
        name: Seq<char>,
        symbol: Seq<char>,
        funding: u128,
        pool_account_id: Seq<char>,
        results: Seq<PromiseOutcome>,
        second_caller: Seq<char>,
        second_registry: Seq<char>,
        second_name: Seq<char>,
        second_symbol: Seq<char>,
        second_funding: u128,
    )
        requires
            self.create_pool(caller, registry, pool_id, name, symbol, funding) is Ok,
            Self::provisioned(results),
        ensures
            self.on_pool_initialized(pool_id, pool_account_id, results).create_pool(
                second_caller,
                second_registry,
                pool_id,
                second_name,
                second_symbol,
                second_funding,
            ) == Err::<PromisePlanView, LedgerError>(
                if second_caller == self.owner {
                    LedgerError::DuplicateId
                } else {
                    LedgerError::Unauthorized
                },
            ),
    {
    }

    /// A pool record is never changed: a pool that is registered stays
    /// registered at its address through every further callback, whatever
    /// the callback hands in.
    pub proof fn lemma_registered_stays(
        self,
        pool_id: Seq<char>,
        other_id: Seq<char>,
        other_account_id: Seq<char>,
        results: Seq<PromiseOutcome>,
    )
        requires
            self.pools.dom().contains(pool_id),
        ensures
            self.on_pool_initialized(other_id, other_account_id, results).pools.dom().contains(pool_id),
            self.on_pool_initialized(other_id, other_account_id, results).pools[pool_id] == self.pools[pool_id],
    {
    }

    /// A provisioning chain that did not report success registers nothing.
    pub proof fn lemma_failed_provisioning(self, pool_id: Seq<char>, pool_account_id: Seq<char>, results: Seq<PromiseOutcome>)
        requires
            !Self::provisioned(results),
        ensures
            self.on_pool_initialized(pool_id, pool_account_id, results) == self,
    {
    }

    /// Authorization. Whatever anyone but the owner asks of the registry
    /// is refused as unauthorized, and the registry stays as it is.
    pub proof fn lemma_unauthorized(
        self,
        caller: Seq<char>,
        registry: Seq<char>,
        pool_id: Seq<char>,
        name: Seq<char>,
        symbol: Seq<char>,
        amount: u128,
        call: RemoteCallView,
        tgas: u64,
    )
        requires
            caller != self.owner,
        ensures
            self.create_pool(caller, registry, pool_id, name, symbol, amount) == Err::<PromisePlanView, LedgerError>(
                LedgerError::Unauthorized,
            ),
            self.transfer_to_pool(caller, registry, pool_id, amount) == Err::<PromisePlanView, LedgerError>(
                LedgerError::Unauthorized,
            ),
            self.forward(caller, registry, pool_id, call, tgas) == Err::<PromisePlanView, LedgerError>(
                LedgerError::Unauthorized,
            ),
            self.clear_pools(caller) == self,
    {
    }
}

/// Whether an answer of the registry is the one that its model gives.
pub open spec fn plan_matches(answer: Result<PromisePlan, LedgerError>, model: Result<PromisePlanView, LedgerError>) -> bool {
    match answer {
        Ok(plan) => model == Ok::<PromisePlanView, LedgerError>(plan@),
        Err(e) => model == Err::<PromisePlanView, LedgerError>(e),
    }
}

/// The registry: its owner and the pools that were provisioned.
#[derive(Debug)]
pub struct MainController {
    owner_id: AccountId,
    pools: AccountDirectory,
}

impl View for MainController {
    type V = ControllerView;

    closed spec fn view(&self) -> ControllerView {
        ControllerView { owner: self.owner_id@, pools: self.pools@ }
    }
}

impl MainController {
    /// A registry without pools.
    pub fn new(owner_id: AccountId) -> (controller: Self)
        ensures
            controller@.owner == owner_id@,
            controller@.pools == Map::<Seq<char>, Seq<char>>::empty(),
    {
        MainController { owner_id, pools: AccountDirectory::new() }
    }

    /// The registry with the given owner and pool records, as it was
    /// persisted.
    pub fn restore(owner_id: AccountId, pools: &Vec<(String, AccountId)>) -> (controller: Self)
        ensures
            controller@.owner == owner_id@,
            controller@.pools == pairs_to_map(pools@),
    {
        MainController { owner_id, pools: AccountDirectory::from_vec(pools) }
    }

    /// The pool records, each id once with its address.
    pub fn pool_records(&self) -> (pairs: Vec<(String, AccountId)>)
        ensures
            self@.pools.dom().finite(),
            pairs@.len() == self@.pools.dom().len(),
            forall|i: int|
                0 <= i < pairs@.len() ==> self@.pools.dom().contains((#[trigger] pairs@[i]).0@)
                    && self@.pools[pairs@[i].0@] == pairs@[i].1@,
            forall|i: int, j: int| 0 <= i < j < pairs@.len() ==> (#[trigger] pairs@[i]).0@ != (#[trigger] pairs@[j]).0@,
    {
        self.pools.to_vec()
    }

    /// The owner of the registry.
    pub fn owner_id(&self) -> (owner: &AccountId)
        ensures
            owner@ == self@.owner,
    {
        &self.owner_id
    }

    /// The address of a registered pool.
    pub fn pool_address(&self, pool_id: &String) -> (address: Option<&AccountId>)
        ensures
            address is Some <==> self@.pools.dom().contains(pool_id@),
            address matches Some(a) ==> a@ == self@.pools[pool_id@],
    {
        self.pools.get(pool_id)
    }

    /// Plans the provisioning of a pool for the owner. Nothing is
    /// registered yet: that is the callback's part.
    pub fn create_pool(
        &self,
        caller: &AccountId,
        registry: &AccountId,
        pool_id: String,
        name: String,
        symbol: String,
        funding: u128,
    ) -> (answer: Result<PromisePlan, LedgerError>)
        ensures
            plan_matches(answer, self@.create_pool(caller@, registry@, pool_id@, name@, symbol@, funding)),
    {
        if !caller.same_as(&self.owner_id) {
            return Err(LedgerError::Unauthorized);
        }
        if self.pools.contains_key(&pool_id) {
            return Err(LedgerError::DuplicateId);
        }
        let address = match registry.sub_account(pool_id.as_str()) {
            Ok(address) => address,
            Err(e) => {
                return Err(e);
            },
        };
        if funding < min_pool_balance() {
            return Err(LedgerError::InsufficientFunding);
        }
        let ghost model = provisioning_plan(registry@, caller@, pool_id@, name@, symbol@, funding);
        let init = PromiseAction::FunctionCall {
            call: RemoteCall::InitializePool {
                name,
                symbol,
                authorized_account: registry.clone(),
                creator: caller.clone(),
            },
            deposit: 0,
            gas: gas_for(TGAS_FOR_INIT_POOL),
        };
        let confirm = PromiseAction::FunctionCall {
            call: RemoteCall::PoolInitialized { pool_id, pool_account_id: address.clone() },
            deposit: 0,
            gas: gas_for(TGAS_FOR_CALLBACK),
        };
        let mut actions: Vec<PromiseAction> = Vec::new();
        actions.push(PromiseAction::CreateAccount);
        actions.push(PromiseAction::Transfer { amount: funding });
        actions.push(PromiseAction::AddFullAccessKey);
        actions.push(PromiseAction::DeployContract);
        actions.push(init);
        let plan = PromisePlan {
            receiver: address,
            actions,
            callback: Some(Callback { receiver: registry.clone(), action: confirm }),
        };
        assert(plan@.actions =~= model.actions);
        assert(plan@ == model);
        Ok(plan)
    }

    /// Removes every pool record, for the owner.
    pub fn clear_pools(&mut self, caller: &AccountId) -> (answer: Result<(), LedgerError>)
        ensures
            answer is Ok <==> caller@ == old(self)@.owner,
            answer matches Err(e) ==> e == LedgerError::Unauthorized,
            final(self)@ == old(self)@.clear_pools(caller@),
    {
        if !caller.same_as(&self.owner_id) {
            return Err(LedgerError::Unauthorized);
        }
        self.pools.clear();
        Ok(())
    }

    /// The provisioning callback: registers the pool if the chain reported
    /// success, and fails without a change if it did not. A pool that is
    /// registered keeps its record, so a callback that is delivered twice
    /// does no harm.
    pub fn on_pool_initialized(
        &mut self,
        pool_id: String,
        pool_account_id: AccountId,
        results: &Vec<PromiseOutcome>,
    ) -> (answer: Result<(), LedgerError>)
        ensures
            answer is Ok <==> ControllerView::provisioned(results@),
            answer matches Err(e) ==> e == LedgerError::ProvisioningFailed,
            final(self)@ == old(self)@.on_pool_initialized(pool_id@, pool_account_id@, results@),
    {
        if results.len() != 1 {
            return Err(LedgerError::ProvisioningFailed);
        }
        match results[0] {
            PromiseOutcome::Successful => {},
            PromiseOutcome::Failed => {
                return Err(LedgerError::ProvisioningFailed);
            },
        }
        if !self.pools.contains_key(&pool_id) {
            self.pools.insert(pool_id, pool_account_id);
        }
        Ok(())
    }

    /// Plans a transfer of base asset to a registered pool, for the owner.
    pub fn transfer_to_pool(
        &self,
        caller: &AccountId,
        registry: &AccountId,
        pool_id: String,
        amount: u128,
    ) -> (answer: Result<PromisePlan, LedgerError>)
        ensures
            plan_matches(answer, self@.transfer_to_pool(caller@, registry@, pool_id@, amount)),
    {
        if !caller.same_as(&self.owner_id) {
            return Err(LedgerError::Unauthorized);
        }
        if !self.pools.contains_key(&pool_id) {
            return Err(LedgerError::NotFound);
        }
        match registry.sub_account(pool_id.as_str()) {
            Ok(address) => Ok(PromisePlan::single(address, PromiseAction::Transfer { amount })),
            Err(e) => Err(e),
        }
    }

    fn forward(&self, caller: &AccountId, registry: &AccountId, pool_id: &String, call: RemoteCall, tgas: u64) -> (answer:
        Result<PromisePlan, LedgerError>)
        requires
            tgas <= 1000,
        ensures
            plan_matches(answer, self@.forward(caller@, registry@, pool_id@, call@, tgas)),
    {
        if !caller.same_as(&self.owner_id) {
            return Err(LedgerError::Unauthorized);
        }
        match registry.sub_account(pool_id.as_str()) {
            Ok(address) => {
                let action = PromiseAction::FunctionCall { call, deposit: 0, gas: gas_for(tgas) };
                Ok(PromisePlan::single(address, action))
            },
            Err(e) => Err(e),
        }
    }

    /// Plans a request that a pool pay `amount` back to the registry, for
    /// the owner. The pool checks its authority by itself.
    pub fn transfer_from_pool(
        &self,
        caller: &AccountId,
        registry: &AccountId,
        pool_id: String,
        amount: u128,
    ) -> (answer: Result<PromisePlan, LedgerError>)
        ensures
            plan_matches(
                answer,
                self@.forward(
                    caller@,
                    registry@,
                    pool_id@,
                    RemoteCallView::TransferToOwner { amount },
                    TGAS_FOR_TRANSFER_TO_OWNER,
                ),
            ),
    {
        self.forward(caller, registry, &pool_id, RemoteCall::TransferToOwner { amount }, TGAS_FOR_TRANSFER_TO_OWNER)
    }

    /// The ids of the registered pools, each once, in no promised order.
    pub fn list_pools(&self) -> (ids: Vec<String>)
        ensures
            self@.pools.dom().finite(),
            ids@.len() == self@.pools.dom().len(),
            forall|i: int| 0 <= i < ids@.len() ==> self@.pools.dom().contains((#[trigger] ids@[i])@),
            forall|i: int, j: int| 0 <= i < j < ids@.len() ==> (#[trigger] ids@[i])@ != (#[trigger] ids@[j])@,
    {
        self.pools.keys()
    }

    /// Plans the forwarding of a deposit fulfillment to a pool, for the
    /// owner. Whether the receipt exists is for the pool to say.
    pub fn fulfill_deposit_iou(
        &self,
        caller: &AccountId,
        registry: &AccountId,
        pool_id: String,
        iou_id: u64,
        amount: u128,
    ) -> (answer: Result<PromisePlan, LedgerError>)
        ensures
            plan_matches(
                answer,
                self@.forward(
                    caller@,
                    registry@,
                    pool_id@,
                    RemoteCallView::FulfillDepositIou { iou_id, amount },
                    TGAS_FOR_FULFILL,
                ),
            ),
    {
        self.forward(caller, registry, &pool_id, RemoteCall::FulfillDepositIou { iou_id, amount }, TGAS_FOR_FULFILL)
    }

    /// Plans the forwarding of a withdraw fulfillment to a pool, for the
    /// owner. Whether the receipt exists is for the pool to say.
    pub fn fulfill_withdraw_iou(
        &self,
        caller: &AccountId,
        registry: &AccountId,
        pool_id: String,
        iou_id: u64,
        amount: u128,
    ) -> (answer: Result<PromisePlan, LedgerError>)
        ensures
            plan_matches(
                answer,
                self@.forward(
                    caller@,
                    registry@,
                    pool_id@,
                    RemoteCallView::FulfillWithdrawIou { iou_id, amount },
                    TGAS_FOR_FULFILL,
                ),
            ),
    {
        self.forward(caller, registry, &pool_id, RemoteCall::FulfillWithdrawIou { iou_id, amount }, TGAS_FOR_FULFILL)
    }
}

} // verus!
