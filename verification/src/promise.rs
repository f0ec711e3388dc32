//! Remote invocations that a service asks its host to issue.
//!
//! A service never performs a remote call itself: it decides what is to be
//! called and hands the host a plan. The host issues the plan's actions in
//! order, each only after the one before it has completed.

use crate::account::AccountId;
use vstd::prelude::*;

verus! {

/// A method of another service, with its arguments.
#[derive(Debug, PartialEq, Eq)]
pub enum RemoteCall {
    /// A pool's initializer.
    InitializePool { name: String, symbol: String, authorized_account: AccountId, creator: AccountId },
    /// The registry's provisioning callback.
    PoolInitialized { pool_id: String, pool_account_id: AccountId },
    /// A pool's payout to its authority.
    TransferToOwner { amount: u128 },
    /// A pool's fulfillment of a deposit receipt.
    FulfillDepositIou { iou_id: u64, amount: u128 },
    /// A pool's fulfillment of a withdraw receipt.
    FulfillWithdrawIou { iou_id: u64, amount: u128 },
}

/// What a `RemoteCall` says, with texts as sequences of characters.
pub enum RemoteCallView {
    InitializePool { name: Seq<char>, symbol: Seq<char>, authorized_account: Seq<char>, creator: Seq<char> },
    PoolInitialized { pool_id: Seq<char>, pool_account_id: Seq<char> },
    TransferToOwner { amount: u128 },
    FulfillDepositIou { iou_id: u64, amount: u128 },
    FulfillWithdrawIou { iou_id: u64, amount: u128 },
}

impl View for RemoteCall {
    type V = RemoteCallView;

    open spec fn view(&self) -> RemoteCallView {
        match *self {
            RemoteCall::InitializePool { name, symbol, authorized_account, creator } => RemoteCallView::InitializePool {
                name: name@,
                symbol: symbol@,
                authorized_account: authorized_account@,
                creator: creator@,
            },
            RemoteCall::PoolInitialized { pool_id, pool_account_id } => RemoteCallView::PoolInitialized {
                pool_id: pool_id@,
                pool_account_id: pool_account_id@,
            },
            RemoteCall::TransferToOwner { amount } => RemoteCallView::TransferToOwner { amount },
            RemoteCall::FulfillDepositIou { iou_id, amount } => RemoteCallView::FulfillDepositIou { iou_id, amount },
            RemoteCall::FulfillWithdrawIou { iou_id, amount } => RemoteCallView::FulfillWithdrawIou { iou_id, amount },
        }
    }
}

impl RemoteCallView {
    /// The name under which the receiver exports the method.
    pub open spec fn method_name(self) -> Seq<char> {
        match self {
            RemoteCallView::InitializePool { .. } => "new"@,
            RemoteCallView::PoolInitialized { .. } => "on_pool_initialized"@,
            RemoteCallView::TransferToOwner { .. } => "transfer_to_owner"@,
            RemoteCallView::FulfillDepositIou { .. } => "fulfill_deposit_iou"@,
            RemoteCallView::FulfillWithdrawIou { .. } => "fulfill_withdraw_iou"@,
        }
    }
}

impl RemoteCall {
    /// The name under which the receiver exports the method.
    pub fn method_name(&self) -> (name: &'static str)
        ensures
            name@ == self@.method_name(),
    {
        match self {
            RemoteCall::InitializePool { .. } => "new",
            RemoteCall::PoolInitialized { .. } => "on_pool_initialized",
            RemoteCall::TransferToOwner { .. } => "transfer_to_owner",
            RemoteCall::FulfillDepositIou { .. } => "fulfill_deposit_iou",
            RemoteCall::FulfillWithdrawIou { .. } => "fulfill_withdraw_iou",
        }
    }
}

/// One action on the account that a plan addresses.
#[derive(Debug, PartialEq, Eq)]
pub enum PromiseAction {
    /// Bring the account into existence.
    CreateAccount,
    /// Move base asset from the issuing service to the account.
    Transfer { amount: u128 },
    /// Give the signer of the current invocation full access to the account.
    AddFullAccessKey,
    /// Install the pool's program image on the account.
    DeployContract,
    /// Invoke a method of the account.
    FunctionCall { call: RemoteCall, deposit: u128, gas: u64 },
}

/// What a `PromiseAction` says.
pub enum PromiseActionView {
    CreateAccount,
    Transfer { amount: u128 },
    AddFullAccessKey,
    DeployContract,
    FunctionCall { call: RemoteCallView, deposit: u128, gas: u64 },
}

impl View for PromiseAction {
    type V = PromiseActionView;

    open spec fn view(&self) -> PromiseActionView {
        match *self {
            PromiseAction::CreateAccount => PromiseActionView::CreateAccount,
            PromiseAction::Transfer { amount } => PromiseActionView::Transfer { amount },
            PromiseAction::AddFullAccessKey => PromiseActionView::AddFullAccessKey,
            PromiseAction::DeployContract => PromiseActionView::DeployContract,
            PromiseAction::FunctionCall { call, deposit, gas } => PromiseActionView::FunctionCall {
                call: call@,
                deposit,
                gas,
            },
        }
    }
}

/// A call that the host issues once every action of a plan has resolved,
/// whether they succeeded or not.
#[derive(Debug, PartialEq, Eq)]
pub struct Callback {
    pub receiver: AccountId,
    pub action: PromiseAction,
}

/// What a `Callback` says.
pub struct CallbackView {
    pub receiver: Seq<char>,
    pub action: PromiseActionView,
}

impl View for Callback {
    type V = CallbackView;

    open spec fn view(&self) -> CallbackView {
        CallbackView { receiver: self.receiver@, action: self.action@ }
    }
}

/// An ordered chain of actions on one account, with an optional callback.
#[derive(Debug, PartialEq, Eq)]
pub struct PromisePlan {
    pub receiver: AccountId,
    pub actions: Vec<PromiseAction>,
    pub callback: Option<Callback>,
}

/// What a `PromisePlan` says.
pub struct PromisePlanView {
    pub receiver: Seq<char>,
    pub actions: Seq<PromiseActionView>,
    pub callback: Option<CallbackView>,
}

impl View for PromisePlan {
    type V = PromisePlanView;

    open spec fn view(&self) -> PromisePlanView {
        PromisePlanView {
            receiver: self.receiver@,
            actions: self.actions@.map_values(|a: PromiseAction| a@),
            callback: match self.callback {
                Some(c) => Some(c@),
                None => None,
            },
        }
    }
}

impl PromisePlan {
    /// A plan of one action and no callback.
    pub fn single(receiver: AccountId, action: PromiseAction) -> (plan: PromisePlan)
        ensures
            plan@ == (PromisePlanView { receiver: receiver@, actions: seq![action@], callback: None }),
    {
        let mut actions: Vec<PromiseAction> = Vec::new();
        actions.push(action);
        let plan = PromisePlan { receiver, actions, callback: None };
        assert(plan@.actions =~= seq![action@]);
        plan
    }
}

} // verus!
