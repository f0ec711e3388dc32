//! A pool together with the balance ledger that its host keeps for it.
//!
//! The balance ledger is not part of a pool: the host owns it and performs
//! on it what the pool answers. This module says what the two do together.
//! It models the ledger by what its interface promises, runs sequences of
//! calls against the pair, and states what holds of every run.

use crate::error::LedgerError;
use crate::pool::{IOUType, LedgerActionView, PoolView, ReceiptView};
use vstd::prelude::*;

verus! {

/// The sum of all balances of a finite table.
pub open spec fn sum_of(balances: Map<Seq<char>, u128>) -> nat
    decreases balances.dom().len(),
    when balances.dom().finite()
{
    if balances.dom().len() == 0 {
        0
    } else {
        let account = balances.dom().choose();
        balances[account] as nat + sum_of(balances.remove(account))
    }
}

/// The sum of a table is the balance of any one account plus the sum of
/// the others.
pub proof fn lemma_sum_split(balances: Map<Seq<char>, u128>, account: Seq<char>)
    requires
        balances.dom().finite(),
        balances.dom().contains(account),
    ensures
        sum_of(balances) == balances[account] + sum_of(balances.remove(account)),
    decreases balances.dom().len(),
{
    let first = balances.dom().choose();
    if first != account {
        lemma_sum_split(balances.remove(first), account);
        lemma_sum_split(balances.remove(account), first);
        assert(balances.remove(first).remove(account) =~= balances.remove(account).remove(first));
    }
}

/// Setting one balance changes the sum by the difference.
pub proof fn lemma_sum_insert(balances: Map<Seq<char>, u128>, account: Seq<char>, balance: u128)
    requires
        balances.dom().finite(),
    ensures
        sum_of(balances.insert(account, balance)) + (if balances.dom().contains(account) {
            balances[account] as nat
        } else {
            0
        }) == sum_of(balances) + balance,
{
    let updated = balances.insert(account, balance);
    lemma_sum_split(updated, account);
    assert(updated.remove(account) =~= balances.remove(account));
    if balances.dom().contains(account) {
        lemma_sum_split(balances, account);
    } else {
        assert(balances.remove(account) =~= balances);
    }
}

/// The balance ledger as its interface shows it: the registered accounts,
/// each with its balance.
pub struct BalanceSheet {
    pub balances: Map<Seq<char>, u128>,
}

impl BalanceSheet {
    /// A ledger without accounts.
    pub open spec fn empty() -> BalanceSheet {
        BalanceSheet { balances: Map::empty() }
    }

    /// Finitely many accounts are registered.
    pub open spec fn well_formed(self) -> bool {
        self.balances.dom().finite()
    }

    /// The balance of an account; nothing, if it is not registered.
    pub open spec fn balance_of(self, account: Seq<char>) -> u128 {
        if self.balances.dom().contains(account) {
            self.balances[account]
        } else {
            0
        }
    }

    /// The sum of all balances.
    pub open spec fn total(self) -> nat {
        sum_of(self.balances)
    }

    /// Whether the ledger performs the action. It refuses a debit that the
    /// balance does not cover, and a credit that a balance or the supply
    /// cannot hold. A payout is not the ledger's business.
    pub open spec fn accepts(self, action: LedgerActionView) -> bool {
        match action {
            LedgerActionView::Debit { account, amount } => self.balances.dom().contains(account)
                && self.balances[account] >= amount,
            LedgerActionView::Credit { account, amount } => self.balance_of(account) + amount <= u128::MAX
                && self.total() + amount <= u128::MAX,
            LedgerActionView::Payout { .. } => true,
        }
    }

    /// The ledger after an action that it accepts.
    pub open spec fn apply(self, action: LedgerActionView) -> BalanceSheet {
        match action {
            LedgerActionView::Debit { account, amount } => BalanceSheet {
                balances: self.balances.insert(account, (self.balances[account] - amount) as u128),
            },
            LedgerActionView::Credit { account, amount } => BalanceSheet {
                balances: self.balances.insert(account, (self.balance_of(account) + amount) as u128),
            },
            LedgerActionView::Payout { .. } => self,
        }
    }

    /// What an action adds to the sum of balances.
    pub open spec fn minted(action: LedgerActionView) -> nat {
        match action {
            LedgerActionView::Credit { amount, .. } => amount as nat,
            _ => 0,
        }
    }

    /// What an action takes from the sum of balances.
    pub open spec fn burned(action: LedgerActionView) -> nat {
        match action {
            LedgerActionView::Debit { amount, .. } => amount as nat,
            _ => 0,
        }
    }

    /// An accepted action changes the sum of balances by what it mints
    /// and burns, and leaves the ledger well formed.
    pub proof fn lemma_apply_total(self, action: LedgerActionView)
        requires
            self.well_formed(),
            self.accepts(action),
        ensures
            self.apply(action).well_formed(),
            self.apply(action).total() + Self::burned(action) == self.total() + Self::minted(action),
    {
        match action {
            LedgerActionView::Debit { account, amount } => {
                lemma_sum_insert(self.balances, account, (self.balances[account] - amount) as u128);
            },
            LedgerActionView::Credit { account, amount } => {
                lemma_sum_insert(self.balances, account, (self.balance_of(account) + amount) as u128);
            },
            LedgerActionView::Payout { .. } => {},
        }
    }
}

/// A call that a pool may receive.
pub enum PoolCall {
    Deposit { caller: Seq<char>, amount: u128 },
    Withdraw { caller: Seq<char>, amount: u128 },
    FulfillDeposit { caller: Seq<char>, iou_id: u64, amount: u128 },
    FulfillWithdraw { caller: Seq<char>, iou_id: u64, amount: u128 },
    TransferToOwner { caller: Seq<char>, amount: u128 },
}

impl PoolCall {
    /// Whether the call asks for the fulfillment of the receipt `iou_id`.
    pub open spec fn fulfills(self, iou_id: u64) -> bool {
        match self {
            PoolCall::FulfillDeposit { iou_id: id, .. } => id == iou_id,
            PoolCall::FulfillWithdraw { iou_id: id, .. } => id == iou_id,
            _ => false,
        }
    }

    /// Whether only the authority may make the call.
    pub open spec fn privileged(self) -> bool {
        !(self is Deposit || self is Withdraw)
    }

    /// Who makes the call.
    pub open spec fn caller(self) -> Seq<char> {
        match self {
            PoolCall::Deposit { caller, .. } => caller,
            PoolCall::Withdraw { caller, .. } => caller,
            PoolCall::FulfillDeposit { caller, .. } => caller,
            PoolCall::FulfillWithdraw { caller, .. } => caller,
            PoolCall::TransferToOwner { caller, .. } => caller,
        }
    }
}

/// A pool and the balance ledger that its host keeps for it.
pub struct Service {
    pub pool: PoolView,
    pub sheet: BalanceSheet,
}

impl Service {
    /// Both parts are well formed.
    pub open spec fn well_formed(self) -> bool {
        self.pool.well_formed() && self.sheet.well_formed()
    }

    /// Why the pool refuses the call, if it does.
    pub open spec fn refusal(self, call: PoolCall) -> Option<LedgerError> {
        match call {
            PoolCall::Deposit { caller, amount } => match self.pool.deposit_answer(amount) {
                Ok(_) => None,
                Err(e) => Some(e),
            },
            PoolCall::Withdraw { caller, amount } => match self.pool.withdraw_answer(
                caller,
                amount,
                self.sheet.balance_of(caller),
            ) {
                Ok(_) => None,
                Err(e) => Some(e),
            },
            PoolCall::FulfillDeposit { caller, iou_id, amount } => self.pool.fulfill_refusal(
                IOUType::Deposit,
                caller,
                iou_id,
            ),
            PoolCall::FulfillWithdraw { caller, iou_id, amount } => self.pool.fulfill_refusal(
                IOUType::Withdraw,
                caller,
                iou_id,
            ),
            PoolCall::TransferToOwner { caller, amount } => match self.pool.transfer_to_owner_answer(caller, amount) {
                Ok(_) => None,
                Err(e) => Some(e),
            },
        }
    }

    /// What the pool asks of the host in answer to a call it accepts.
    pub open spec fn action(self, call: PoolCall) -> Option<LedgerActionView> {
        match call {
            PoolCall::Deposit { .. } => None,
            PoolCall::Withdraw { caller, amount } => Some(LedgerActionView::Debit { account: caller, amount }),
            PoolCall::FulfillDeposit { caller, iou_id, amount } => Some(
                LedgerActionView::Credit { account: self.pool.receipts[iou_id].account, amount },
            ),
            PoolCall::FulfillWithdraw { caller, iou_id, amount } => Some(
                LedgerActionView::Payout { account: self.pool.receipts[iou_id].account, amount },
            ),
            PoolCall::TransferToOwner { caller, amount } => Some(LedgerActionView::Payout { account: caller, amount }),
        }
    }

    /// The pool after a call that it accepts.
    pub open spec fn pool_after(self, call: PoolCall) -> PoolView {
        match call {
            PoolCall::Deposit { caller, amount } => self.pool.deposit(caller, amount),
            PoolCall::Withdraw { caller, amount } => self.pool.withdraw(caller, amount, self.sheet.balance_of(caller)),
            PoolCall::FulfillDeposit { caller, iou_id, amount } => self.pool.fulfill(IOUType::Deposit, caller, iou_id),
            PoolCall::FulfillWithdraw { caller, iou_id, amount } => self.pool.fulfill(
                IOUType::Withdraw,
                caller,
                iou_id,
            ),
            PoolCall::TransferToOwner { .. } => self.pool,
        }
    }

    /// Whether the pool opens a receipt if the call is made.
    pub open spec fn issues(self, call: PoolCall) -> bool {
        (call is Deposit || call is Withdraw) && self.refusal(call) is None
    }

    /// Whether the call can be made at all: one that opens a receipt needs
    /// an id to give.
    pub open spec fn admits(self, call: PoolCall) -> bool {
        self.issues(call) ==> self.pool.next_iou_id < u64::MAX
    }

    /// Whether the call takes effect: the pool accepts it, and the ledger
    /// performs what the pool asks for.
    pub open spec fn succeeds(self, call: PoolCall) -> bool {
        &&& self.admits(call)
        &&& self.refusal(call) is None
        &&& match self.action(call) {
            Some(action) => self.sheet.accepts(action),
            None => true,
        }
    }

    /// The pair after the call. A call that does not take effect changes
    /// nothing.
    pub open spec fn step(self, call: PoolCall) -> Service {
        if self.succeeds(call) {
            Service {
                pool: self.pool_after(call),
                sheet: match self.action(call) {
                    Some(action) => self.sheet.apply(action),
                    None => self.sheet,
                },
            }
        } else {
            self
        }
    }

    /// The pair after a sequence of calls.
    pub open spec fn run(self, calls: Seq<PoolCall>) -> Service
        decreases calls.len(),
    {
        if calls.len() == 0 {
            self
        } else {
            self.run(calls.drop_last()).step(calls.last())
        }
    }

    /// The amount of a call if it is a deposit fulfillment that takes
    /// effect.
    pub open spec fn credit_of(self, call: PoolCall) -> nat {
        match call {
            PoolCall::FulfillDeposit { amount, .. } => if self.succeeds(call) {
                amount as nat
            } else {
                0
            },
            _ => 0,
        }
    }

    /// The amount of a call if it is a withdrawal that takes effect.
    pub open spec fn debit_of(self, call: PoolCall) -> nat {
        match call {
            PoolCall::Withdraw { amount, .. } => if self.succeeds(call) {
                amount as nat
            } else {
                0
            },
            _ => 0,
        }
    }

    /// The sum of the amounts of all deposit fulfillments of a run that
    /// took effect.
    pub open spec fn fulfilled_deposits(self, calls: Seq<PoolCall>) -> nat
        decreases calls.len(),
    {
        if calls.len() == 0 {
            0
        } else {
            self.fulfilled_deposits(calls.drop_last()) + self.run(calls.drop_last()).credit_of(calls.last())
        }
    }

    /// The sum of the amounts of all withdrawals of a run that took
    /// effect.
    pub open spec fn withdrawals(self, calls: Seq<PoolCall>) -> nat
        decreases calls.len(),
    {
        if calls.len() == 0 {
            0
        } else {
            self.withdrawals(calls.drop_last()) + self.run(calls.drop_last()).debit_of(calls.last())
        }
    }

    /// A call leaves the pair well formed, and changes the sum of balances
    /// by the amount of a deposit fulfillment or of a withdrawal that took
    /// effect, and by nothing else.
    pub proof fn lemma_step(self, call: PoolCall)
        requires
            self.well_formed(),
        ensures
            self.step(call).well_formed(),
            self.step(call).sheet.total() + self.debit_of(call) == self.sheet.total() + self.credit_of(call),
            self.step(call).pool.next_iou_id >= self.pool.next_iou_id,
            self.step(call).pool.authority == self.pool.authority,
            forall|id: u64|
                id < self.pool.next_iou_id && !self.pool.receipts.dom().contains(id)
                    ==> !#[trigger] self.step(call).pool.receipts.dom().contains(id),
    {
        if self.succeeds(call) {
            match self.action(call) {
                Some(action) => {
                    self.sheet.lemma_apply_total(action);
                },
                None => {},
            }
        }
    }

    /// An unfulfilled deposit adds nothing to the balances: whether or not
    /// a receipt is opened, the ledger stays exactly as it was, and no
    /// account is registered.
    pub proof fn lemma_deposit_leaves_balances(self, caller: Seq<char>, amount: u128)
        ensures
            self.step(PoolCall::Deposit { caller, amount }).sheet == self.sheet,
    {
    }

    /// A withdrawal debits when it is made, not when it is fulfilled. On a
    /// pool that has an id left, a withdrawal of more than nothing that
    /// the caller's balance covers takes effect: the caller's balance and
    /// the sum of balances drop by the amount, every other balance stays,
    /// and a withdraw receipt over the amount is open under the next id.
    pub proof fn lemma_withdraw_debits_at_once(self, caller: Seq<char>, amount: u128)
        requires
            self.well_formed(),
            amount > 0,
            self.sheet.balance_of(caller) >= amount,
            self.pool.next_iou_id < u64::MAX,
        ensures
            self.succeeds(PoolCall::Withdraw { caller, amount }),
            self.step(PoolCall::Withdraw { caller, amount }).sheet.balance_of(caller) == self.sheet.balance_of(caller)
                - amount,
            self.step(PoolCall::Withdraw { caller, amount }).sheet.total() == self.sheet.total() - amount,
            forall|other: Seq<char>|
                other != caller ==> #[trigger] self.step(PoolCall::Withdraw { caller, amount }).sheet.balance_of(other)
                    == self.sheet.balance_of(other),
            forall|other: Seq<char>| #[trigger]
                self.step(PoolCall::Withdraw { caller, amount }).sheet.balances.dom().contains(other)
                    <==> self.sheet.balances.dom().contains(other),
            self.step(PoolCall::Withdraw { caller, amount }).pool.receipts.dom().contains(self.pool.next_iou_id),
            self.step(PoolCall::Withdraw { caller, amount }).pool.receipts[self.pool.next_iou_id] == (ReceiptView {
                iou_id: self.pool.next_iou_id,
                amount,
                account: caller,
                kind: IOUType::Withdraw,
            }),
    {
        let call = PoolCall::Withdraw { caller, amount };
        self.lemma_step(call);
    }

    /// The fulfillment of a withdraw receipt leaves the ledger exactly as
    /// it was: the debit was made when the receipt was opened.
    pub proof fn lemma_withdraw_fulfillment_leaves_balances(self, caller: Seq<char>, iou_id: u64, amount: u128)
        ensures
            self.step(PoolCall::FulfillWithdraw { caller, iou_id, amount }).sheet == self.sheet,
    {
    }

    /// A deposit is credited when it is fulfilled. Where the fulfillment of
    /// a deposit receipt takes effect, the balance of the receipt's account
    /// and the sum of balances rise by the amount, and every other balance
    /// stays.
    pub proof fn lemma_deposit_fulfillment_credits(self, caller: Seq<char>, iou_id: u64, amount: u128)
        requires
            self.well_formed(),
            self.succeeds(PoolCall::FulfillDeposit { caller, iou_id, amount }),
        ensures
            self.step(PoolCall::FulfillDeposit { caller, iou_id, amount }).sheet.balance_of(
                self.pool.receipts[iou_id].account,
            ) == self.sheet.balance_of(self.pool.receipts[iou_id].account) + amount,
            self.step(PoolCall::FulfillDeposit { caller, iou_id, amount }).sheet.total() == self.sheet.total() + amount,
            forall|other: Seq<char>|
                other != self.pool.receipts[iou_id].account ==> #[trigger] self.step(
                    PoolCall::FulfillDeposit { caller, iou_id, amount },
                ).sheet.balance_of(other) == self.sheet.balance_of(other),
    {
        let call = PoolCall::FulfillDeposit { caller, iou_id, amount };
        self.lemma_step(call);
    }

    /// Every run leaves the pair well formed; receipt ids only grow, the
    /// authority stays, and a receipt that was closed stays closed.
    pub proof fn lemma_run(self, calls: Seq<PoolCall>)
        requires
            self.well_formed(),
        ensures
            self.run(calls).well_formed(),
            self.run(calls).pool.next_iou_id >= self.pool.next_iou_id,
            self.run(calls).pool.authority == self.pool.authority,
            forall|id: u64|
                id < self.pool.next_iou_id && !self.pool.receipts.dom().contains(id)
                    ==> !#[trigger] self.run(calls).pool.receipts.dom().contains(id),
        decreases calls.len(),
    {
        if calls.len() > 0 {
            self.lemma_run(calls.drop_last());
            self.run(calls.drop_last()).lemma_step(calls.last());
        }
    }

    /// Conservation. After any sequence of calls, the sum of balances is
    /// what it was, plus the amounts of the deposit fulfillments that took
    /// effect, minus the amounts of the withdrawals that took effect. A
    /// withdrawal counts when it is made, not when it is fulfilled; the
    /// opening of a deposit receipt and the fulfillment of a withdraw
    /// receipt do not count at all.
    pub proof fn lemma_conservation(self, calls: Seq<PoolCall>)
        requires
            self.well_formed(),
        ensures
            self.run(calls).sheet.total() + self.withdrawals(calls) == self.sheet.total() + self.fulfilled_deposits(
                calls,
            ),
            self.sheet == BalanceSheet::empty() ==> self.run(calls).sheet.total() == self.fulfilled_deposits(calls)
                - self.withdrawals(calls),
        decreases calls.len(),
    {
        if calls.len() > 0 {
            self.lemma_conservation(calls.drop_last());
            self.lemma_run(calls.drop_last());
            self.run(calls.drop_last()).lemma_step(calls.last());
        } else {
            if self.sheet == BalanceSheet::empty() {
                assert(self.sheet.balances.dom() =~= Set::<Seq<char>>::empty());
            }
        }
        if self.sheet == BalanceSheet::empty() {
            assert(Map::<Seq<char>, u128>::empty().dom().len() == 0);
            assert(self.sheet.total() == 0);
        }
    }

    /// At most one fulfillment. Once a fulfillment of a receipt has taken
    /// effect, no later call for the fulfillment of the same receipt does,
    /// whatever was called in between: the authority is told that there
    /// is no such receipt, and anyone else that they are not authorized.
    pub proof fn lemma_fulfilled_once(self, first: PoolCall, between: Seq<PoolCall>, again: PoolCall, iou_id: u64)
        requires
            self.well_formed(),
            first.fulfills(iou_id),
            self.succeeds(first),
            again.fulfills(iou_id),
        ensures
            !self.step(first).run(between).succeeds(again),
            self.step(first).run(between).step(again) == self.step(first).run(between),
            self.step(first).run(between).refusal(again) == Some(
                if again.caller() == self.pool.authority {
                    LedgerError::NotFound
                } else {
                    LedgerError::Unauthorized
                },
            ),
    {
        self.lemma_step(first);
        let closed = self.step(first);
        assert(!closed.pool.receipts.dom().contains(iou_id));
        assert(iou_id < closed.pool.next_iou_id);
        closed.lemma_run(between);
    }

    /// Authorization. A fulfillment, or a call for funds, from anyone but
    /// the authority is refused as unauthorized and changes nothing.
    pub proof fn lemma_unauthorized(self, call: PoolCall)
        requires
            call.privileged(),
            call.caller() != self.pool.authority,
        ensures
            self.refusal(call) == Some(LedgerError::Unauthorized),
            self.step(call) == self,
    {
    }

    /// A refused call changes nothing.
    pub proof fn lemma_refused_changes_nothing(self, call: PoolCall)
        requires
            self.refusal(call) is Some,
        ensures
            self.step(call) == self,
            self.pool_after(call) == self.pool,
    {
    }
}

} // verus!
