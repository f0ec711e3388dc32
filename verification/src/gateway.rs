//! The gateway service: receipts for base asset that was deposited towards
//! a liquidity pool token, and for pool tokens that were handed in for
//! base asset.
//!
//! The gateway keeps every receipt that it issued. A fulfilled receipt is
//! flagged, not removed, and `list_ious` shows the unfulfilled ones. Only
//! the gateway's authority fulfills a receipt, and only by attaching
//! exactly its amount, which is then paid out to the receipt's recipient.

use crate::account::{is_alphanumeric, is_separator, valid_account_id, AccountId};
use crate::directory::{pairs_to_map, AccountDirectory};
use crate::error::LedgerError;
use crate::pool::{action_matches, LedgerAction, LedgerActionView};
use vstd::prelude::*;

verus! {

/// Whether a receipt stands for deposited base asset or for pool tokens
/// handed in.
#[derive(Clone, Copy, Debug, PartialEq, Eq, Structural)]
pub enum IOUType {
    Deposit,
    Withdraw,
}

/// The character of a decimal digit.
pub open spec fn digit_char(digit: nat) -> char {
    if digit == 0 {
        '0'
    } else if digit == 1 {
        '1'
    } else if digit == 2 {
        '2'
    } else if digit == 3 {
        '3'
    } else if digit == 4 {
        '4'
    } else if digit == 5 {
        '5'
    } else if digit == 6 {
        '6'
    } else if digit == 7 {
        '7'
    } else if digit == 8 {
        '8'
    } else {
        '9'
    }
}

/// A number in decimal, without sign or leading zeros.
pub open spec fn decimal_text(n: nat) -> Seq<char>
    decreases n,
{
    if n < 10 {
        seq![digit_char(n)]
    } else {
        decimal_text(n / 10).push(digit_char(n % 10))
    }
}

/// Different numbers read differently.
pub proof fn lemma_decimal_text_injective(a: nat, b: nat)
    requires
        decimal_text(a) == decimal_text(b),
    ensures
        a == b,
    decreases a,
{
    lemma_decimal_text_len(a);
    lemma_decimal_text_len(b);
    if a < 10 && b < 10 {
        assert(decimal_text(a)[0] == digit_char(a));
        assert(decimal_text(b)[0] == digit_char(b));
    } else if a >= 10 && b >= 10 {
        let x = decimal_text(a / 10);
        let y = decimal_text(b / 10);
        assert(x.push(digit_char(a % 10)).last() == digit_char(a % 10));
        assert(y.push(digit_char(b % 10)).last() == digit_char(b % 10));
        assert(x.push(digit_char(a % 10)).drop_last() =~= x);
        assert(y.push(digit_char(b % 10)).drop_last() =~= y);
        lemma_decimal_text_injective(a / 10, b / 10);
    } else {
        lemma_decimal_text_len(a / 10);
        lemma_decimal_text_len(b / 10);
    }
}

proof fn lemma_decimal_text_len(n: nat)
    ensures
        decimal_text(n).len() >= 1,
        n < 10 ==> decimal_text(n).len() == 1,
        n >= 10 ==> decimal_text(n).len() >= 2,
    decreases n,
{
    if n >= 10 {
        lemma_decimal_text_len(n / 10);
    }
}

/// Calls `ToString::to_string` on a `u64`, which writes the number in
/// decimal.
#[verifier::external_body]
fn decimal_string(n: u64) -> (text: String)
    ensures
        text@ == decimal_text(n as nat),
{
    n.to_string()
}

/// The name under which redeemed pool tokens are booked.
pub open spec fn redeemed_lp_id() -> Seq<char> {
    "lp_token_id"@
}

/// The account whose transfers count as a redemption.
pub open spec fn system_account() -> Seq<char> {
    "system"@
}

/// A promised settlement and whether it has been made.
#[derive(Debug, PartialEq, Eq)]
pub struct IOUReceipt {
    pub iou_id: String,
    pub lp_id: String,
    pub amount: u128,
    pub recipient: AccountId,
    pub fulfilled: bool,
    pub iou_type: IOUType,
}

/// What an `IOUReceipt` says.
pub struct ReceiptView {
    pub iou_id: Seq<char>,
    pub lp_id: Seq<char>,
    pub amount: u128,
    pub recipient: Seq<char>,
    pub fulfilled: bool,
    pub kind: IOUType,
}

impl View for IOUReceipt {
    type V = ReceiptView;

    open spec fn view(&self) -> ReceiptView {
        ReceiptView {
            iou_id: self.iou_id@,
            lp_id: self.lp_id@,
            amount: self.amount,
            recipient: self.recipient@,
            fulfilled: self.fulfilled,
            kind: self.iou_type,
        }
    }
}

impl Clone for IOUReceipt {
    fn clone(&self) -> (copy: Self)
        ensures
            copy@ == self@,
    {
        IOUReceipt {
            iou_id: self.iou_id.clone(),
            lp_id: self.lp_id.clone(),
            amount: self.amount,
            recipient: self.recipient.clone(),
            fulfilled: self.fulfilled,
            iou_type: self.iou_type,
        }
    }
}

/// The gateway's state as a value: who may fulfill, every receipt it
/// issued, in the order of issue, and the token account of each liquidity
/// pool.
pub struct ContractView {
    pub authority: Seq<char>,
    pub log: Seq<ReceiptView>,
    pub lps: Map<Seq<char>, Seq<char>>,
}

impl ContractView {
    /// What holds of every gateway: the receipt at each place of the log
    /// carries the place as its id, in decimal, and is for more than
    /// nothing.
    pub open spec fn well_formed(self) -> bool {
        &&& self.log.len() <= u64::MAX
        &&& forall|i: int|
            0 <= i < self.log.len() ==> (#[trigger] self.log[i]).iou_id == decimal_text(i as nat) && self.log[i].amount
                > 0
    }

    /// Whether a receipt was issued under the id.
    pub open spec fn issued(self, iou_id: Seq<char>) -> bool {
        exists|i: int| 0 <= i < self.log.len() && #[trigger] decimal_text(i as nat) == iou_id
    }

    /// The place in the log of the receipt with the id.
    pub open spec fn place_of(self, iou_id: Seq<char>) -> int {
        choose|i: int| 0 <= i < self.log.len() && #[trigger] decimal_text(i as nat) == iou_id
    }

    /// The gateway with one more receipt, unfulfilled, under the next id.
    pub open spec fn issue(self, kind: IOUType, lp_id: Seq<char>, recipient: Seq<char>, amount: u128) -> ContractView {
        ContractView {
            log: self.log.push(
                ReceiptView {
                    iou_id: decimal_text(self.log.len()),
                    lp_id,
                    amount,
                    recipient,
                    fulfilled: false,
                    kind,
                },
            ),
            ..self
        }
    }

    /// The gateway after `add_lp`.
    pub open spec fn add_lp(self, lp_id: Seq<char>, token: Seq<char>) -> ContractView {
        ContractView { lps: self.lps.insert(lp_id, token), ..self }
    }

    /// What `deposit` and `redeem_lp_for_near` answer: the id of the new
    /// receipt.
    pub open spec fn issue_answer(self, amount: u128) -> Result<Seq<char>, LedgerError> {
        if amount == 0 {
            Err(LedgerError::InvalidAmount)
        } else {
            Ok(decimal_text(self.log.len()))
        }
    }

    /// The gateway after `deposit`.
    pub open spec fn deposit(self, caller: Seq<char>, amount: u128, lp_id: Seq<char>) -> ContractView {
        if amount == 0 {
            self
        } else {
            self.issue(IOUType::Deposit, lp_id, caller, amount)
        }
    }

    /// The gateway after `redeem_lp_for_near`.
    pub open spec fn redeem(self, sender: Seq<char>, amount: u128) -> ContractView {
        if amount == 0 {
            self
        } else {
            self.issue(IOUType::Withdraw, redeemed_lp_id(), sender, amount)
        }
    }

    /// Why a fulfillment is refused, if it is.
    pub open spec fn fulfill_refusal(self, caller: Seq<char>, iou_id: Seq<char>, attached: u128) -> Option<
        LedgerError,
    > {
        if caller != self.authority {
            Some(LedgerError::Unauthorized)
        } else if !self.issued(iou_id) {
            Some(LedgerError::NotFound)
        } else if self.log[self.place_of(iou_id)].fulfilled {
            Some(LedgerError::AlreadyFulfilled)
        } else if self.log[self.place_of(iou_id)].kind != IOUType::Withdraw {
            Some(LedgerError::KindMismatch)
        } else if self.log[self.place_of(iou_id)].amount != attached {
            Some(LedgerError::InvalidAmount)
        } else {
            None
        }
    }

    /// What `fulfill_iou_near` answers.
    pub open spec fn fulfill_answer(self, caller: Seq<char>, iou_id: Seq<char>, attached: u128) -> Result<
        LedgerActionView,
        LedgerError,
    > {
        match self.fulfill_refusal(caller, iou_id, attached) {
            Some(e) => Err(e),
            None => Ok(
                LedgerActionView::Payout { account: self.log[self.place_of(iou_id)].recipient, amount: attached },
            ),
        }
    }

    /// The gateway after `fulfill_iou_near`.
    pub open spec fn fulfill(self, caller: Seq<char>, iou_id: Seq<char>, attached: u128) -> ContractView {
        if self.fulfill_refusal(caller, iou_id, attached) is None {
            let place = self.place_of(iou_id);
            ContractView { log: self.log.update(place, ReceiptView { fulfilled: true, ..self.log[place] }), ..self }
        } else {
            self
        }
    }

    /// What `ft_on_transfer` answers: how much of the transfer it did not
    /// use.
    pub open spec fn ft_on_transfer_answer(predecessor: Seq<char>, amount: u128) -> Result<u128, LedgerError> {
        if predecessor != system_account() {
            Ok(amount)
        } else if amount == 0 {
            Err(LedgerError::InvalidAmount)
        } else {
            Ok(0)
        }
    }

    /// The gateway after `ft_on_transfer`.
    pub open spec fn ft_on_transfer(self, predecessor: Seq<char>, sender: Seq<char>, amount: u128) -> ContractView {
        if predecessor == system_account() {
            self.redeem(sender, amount)
        } else {
            self
        }
    }

    /// The unfulfilled receipts, in the order of issue.
    pub open spec fn open_receipts(self) -> Seq<ReceiptView> {
        self.log.filter(|r: ReceiptView| !r.fulfilled)
    }
}

/// A call that the gateway may receive.
pub enum GatewayCall {
    AddLp { lp_id: Seq<char>, token: Seq<char> },
    Deposit { caller: Seq<char>, amount: u128, lp_id: Seq<char> },
    Redeem { sender: Seq<char>, amount: u128 },
    Fulfill { caller: Seq<char>, iou_id: Seq<char>, attached: u128 },
    FtOnTransfer { predecessor: Seq<char>, sender: Seq<char>, amount: u128 },
}

impl ContractView {
    /// Whether the call issues a receipt if it is made.
    pub open spec fn issues(call: GatewayCall) -> bool {
        match call {
            GatewayCall::Deposit { amount, .. } => amount > 0,
            GatewayCall::Redeem { amount, .. } => amount > 0,
            GatewayCall::FtOnTransfer { predecessor, amount, .. } => predecessor == system_account() && amount > 0,
            _ => false,
        }
    }

    /// Whether the call can be made at all: one that issues a receipt
    /// needs an id to give.
    pub open spec fn admits(self, call: GatewayCall) -> bool {
        Self::issues(call) ==> self.log.len() < u64::MAX
    }

    /// The gateway after the call.
    pub open spec fn step(self, call: GatewayCall) -> ContractView {
        if !self.admits(call) {
            self
        } else {
            match call {
                GatewayCall::AddLp { lp_id, token } => self.add_lp(lp_id, token),
                GatewayCall::Deposit { caller, amount, lp_id } => self.deposit(caller, amount, lp_id),
                GatewayCall::Redeem { sender, amount } => self.redeem(sender, amount),
                GatewayCall::Fulfill { caller, iou_id, attached } => self.fulfill(caller, iou_id, attached),
                GatewayCall::FtOnTransfer { predecessor, sender, amount } => self.ft_on_transfer(
                    predecessor,
                    sender,
                    amount,
                ),
            }
        }
    }

    /// The gateway after a sequence of calls.
    pub open spec fn run(self, calls: Seq<GatewayCall>) -> ContractView
        decreases calls.len(),
    {
        if calls.len() == 0 {
            self
        } else {
            self.run(calls.drop_last()).step(calls.last())
        }
    }

    /// In a well-formed gateway the receipt with an id stands at the place
    /// that the id names.
    pub proof fn lemma_place(self, i: int)
        requires
            self.well_formed(),
            0 <= i < self.log.len(),
        ensures
            self.issued(decimal_text(i as nat)),
            self.place_of(decimal_text(i as nat)) == i,
    {
        let id = decimal_text(i as nat);
        assert(self.issued(id));
        let p = self.place_of(id);
        lemma_decimal_text_injective(p as nat, i as nat);
    }

    /// A call leaves the gateway well formed, forgets no receipt, and
    /// leaves a fulfilled receipt fulfilled.
    pub proof fn lemma_step(self, call: GatewayCall)
        requires
            self.well_formed(),
        ensures
            self.step(call).well_formed(),
            self.step(call).authority == self.authority,
            self.step(call).log.len() >= self.log.len(),
            forall|i: int|
                0 <= i < self.log.len() && (#[trigger] self.log[i]).fulfilled ==> self.step(call).log[i].fulfilled,
    {
        match call {
            GatewayCall::Fulfill { caller, iou_id, attached } => {
                if self.fulfill_refusal(caller, iou_id, attached) is None {
                    let p = self.place_of(iou_id);
                    assert(0 <= p < self.log.len());
                }
            },
            _ => {},
        }
    }

    /// Every run leaves the gateway well formed, forgets no receipt, and
    /// leaves a fulfilled receipt fulfilled.
    pub proof fn lemma_run(self, calls: Seq<GatewayCall>)
        requires
            self.well_formed(),
        ensures
            self.run(calls).well_formed(),
            self.run(calls).authority == self.authority,
            self.run(calls).log.len() >= self.log.len(),
            forall|i: int|
                0 <= i < self.log.len() && (#[trigger] self.log[i]).fulfilled ==> self.run(calls).log[i].fulfilled,
        decreases calls.len(),
    {
        if calls.len() > 0 {
            self.lemma_run(calls.drop_last());
            self.run(calls.drop_last()).lemma_step(calls.last());
        }
    }

    /// At most one fulfillment. Once a receipt has been fulfilled, every
    /// later request to fulfill it is refused and changes nothing, whatever
    /// was called in between and whatever is attached: the authority is
    /// told that it is already fulfilled, and anyone else that they are not
    /// authorized.
    pub proof fn lemma_fulfilled_once(
        self,
        caller: Seq<char>,
        iou_id: Seq<char>,
        attached: u128,
        between: Seq<GatewayCall>,
        caller_again: Seq<char>,
        attached_again: u128,
    )
        requires
            self.well_formed(),
            self.fulfill_refusal(caller, iou_id, attached) is None,
        ensures
            self.fulfill(caller, iou_id, attached).run(between).fulfill_refusal(caller_again, iou_id, attached_again)
                == Some(
                if caller_again == self.authority {
                    LedgerError::AlreadyFulfilled
                } else {
                    LedgerError::Unauthorized
                },
            ),
            self.fulfill(caller, iou_id, attached).run(between).fulfill(caller_again, iou_id, attached_again)
                == self.fulfill(caller, iou_id, attached).run(between),
    {
        let p = self.place_of(iou_id);
        let closed = self.fulfill(caller, iou_id, attached);
        self.lemma_step(GatewayCall::Fulfill { caller, iou_id, attached });
        assert(closed == self.step(GatewayCall::Fulfill { caller, iou_id, attached }));
        assert(closed.log[p].fulfilled);
        closed.lemma_run(between);
        let later = closed.run(between);
        later.lemma_place(p);
    }

    /// Authorization. A fulfillment that anyone but the authority asks for
    /// is refused as unauthorized and changes nothing, whatever the
    /// receipt and whatever is attached.
    pub proof fn lemma_unauthorized(self, caller: Seq<char>, iou_id: Seq<char>, attached: u128)
        requires
            caller != self.authority,
        ensures
            self.fulfill_refusal(caller, iou_id, attached) == Some(LedgerError::Unauthorized),
            self.fulfill_answer(caller, iou_id, attached) == Err::<LedgerActionView, LedgerError>(
                LedgerError::Unauthorized,
            ),
            self.fulfill(caller, iou_id, attached) == self,
            self.step(GatewayCall::Fulfill { caller, iou_id, attached }) == self,
    {
    }
}

/// The gateway: who may fulfill, its receipts and the token account of
/// each liquidity pool.
#[derive(Debug)]
pub struct Contract {
    authorized_account: AccountId,
    iou_receipts: Vec<IOUReceipt>,
    next_iou_id: u64,
    lps: AccountDirectory,
}

/// The gateway's state in each layout in which it was ever persisted.
#[derive(Debug)]
pub enum VContract {
    Current(Contract),
}

impl From<VContract> for Contract {
    fn from(v: VContract) -> (contract: Contract) {
        match v {
            VContract::Current(c) => c,
        }
    }
}

impl vstd::std_specs::convert::FromSpecImpl<VContract> for Contract {
    open spec fn obeys_from_spec() -> bool {
        true
    }

    open spec fn from_spec(v: VContract) -> Contract {
        v->Current_0
    }
}

impl View for Contract {
    type V = ContractView;

    closed spec fn view(&self) -> ContractView {
        ContractView {
            authority: self.authorized_account@,
            log: self.iou_receipts@.map_values(|r: IOUReceipt| r@),
            lps: self.lps@,
        }
    }
}

impl Contract {
    #[verifier::type_invariant]
    spec fn well_formed(self) -> bool {
        &&& self.iou_receipts@.len() == self.next_iou_id
        &&& forall|i: int|
            0 <= i < self.iou_receipts@.len() ==> (#[trigger] self.iou_receipts@[i]).iou_id@ == decimal_text(i as nat)
                && self.iou_receipts@[i].amount > 0
    }

    fn check_well_formed(&self)
        ensures
            self@.well_formed(),
            self@.log.len() == self.next_iou_id,
    {
        proof {
            use_type_invariant(self);
        }
    }

    /// A gateway without receipts and without pools, whose receipts
    /// `authorized_account` may fulfill.
    pub fn new(authorized_account: AccountId) -> (contract: Self)
        ensures
            contract@.authority == authorized_account@,
            contract@.log == Seq::<ReceiptView>::empty(),
            contract@.lps == Map::<Seq<char>, Seq<char>>::empty(),
            contract@.well_formed(),
    {
        let contract = Contract {
            authorized_account,
            iou_receipts: Vec::new(),
            next_iou_id: 0,
            lps: AccountDirectory::new(),
        };
        assert(contract@.log =~= Seq::<ReceiptView>::empty());
        contract
    }

    /// The gateway with the given authority, receipts and pools, as it was
    /// persisted; `None` exactly when the receipts cannot be the log of a
    /// gateway.
    pub fn restore(authorized_account: AccountId, receipts: Vec<IOUReceipt>, lps: &Vec<(String, AccountId)>) -> (contract:
        Option<Self>)
        ensures
            contract is Some <==> (ContractView {
                authority: authorized_account@,
                log: receipts@.map_values(|r: IOUReceipt| r@),
                lps: pairs_to_map(lps@),
            }).well_formed(),
            contract matches Some(c) ==> c@ == (ContractView {
                authority: authorized_account@,
                log: receipts@.map_values(|r: IOUReceipt| r@),
                lps: pairs_to_map(lps@),
            }),
    {
        let ghost log = receipts@.map_values(|r: IOUReceipt| r@);
        let mut next: u64 = 0;
        let mut i: usize = 0;
        while i < receipts.len()
            invariant
                i <= receipts@.len(),
                i == next,
                log == receipts@.map_values(|r: IOUReceipt| r@),
                forall|j: int|
                    0 <= j < i ==> (#[trigger] receipts@[j]).iou_id@ == decimal_text(j as nat) && receipts@[j].amount > 0,
            decreases receipts@.len() - i,
        {
            assert(log[i as int] == receipts@[i as int]@);
            if next == u64::MAX {
                return None;
            }
            let expected = decimal_string(next);
            if receipts[i].amount == 0 || receipts[i].iou_id != expected {
                return None;
            }
            next = next + 1;
            i += 1;
        }
        proof {
            assert forall|j: int| 0 <= j < log.len() implies (#[trigger] log[j]).iou_id == decimal_text(j as nat)
                && log[j].amount > 0 by {
                assert(log[j] == receipts@[j]@);
            }
        }
        Some(
            Contract {
                authorized_account,
                iou_receipts: receipts,
                next_iou_id: next,
                lps: AccountDirectory::from_vec(lps),
            },
        )
    }

    /// Every receipt that was issued, in the order of issue.
    pub fn receipt_log(&self) -> (log: Vec<IOUReceipt>)
        ensures
            log@.map_values(|r: IOUReceipt| r@) == self@.log,
    {
        let mut log: Vec<IOUReceipt> = Vec::new();
        let mut i: usize = 0;
        while i < self.iou_receipts.len()
            invariant
                i <= self.iou_receipts@.len(),
                log@.len() == i,
                forall|j: int| 0 <= j < i ==> (#[trigger] log@[j])@ == self.iou_receipts@[j]@,
            decreases self.iou_receipts@.len() - i,
        {
            log.push(self.iou_receipts[i].clone());
            i += 1;
        }
        assert(log@.map_values(|r: IOUReceipt| r@) =~= self@.log);
        log
    }

    /// Who may fulfill receipts.
    pub fn authorized_account(&self) -> (authority: &AccountId)
        ensures
            authority@ == self@.authority,
    {
        &self.authorized_account
    }

    /// The number that the next receipt's id will state.
    pub fn next_iou_id(&self) -> (next: u64)
        ensures
            next == self@.log.len(),
    {
        proof {
            use_type_invariant(self);
        }
        self.next_iou_id
    }

    /// Files the token account of a liquidity pool, in place of what was
    /// filed under the id.
    pub fn add_lp(&mut self, lp_id: String, lp_token_contract_id: AccountId)
        ensures
            final(self)@ == old(self)@.add_lp(lp_id@, lp_token_contract_id@),
            final(self)@.well_formed(),
    {
        proof {
            use_type_invariant(&*self);
        }
        let mut lps = AccountDirectory::new();
        std::mem::swap(&mut lps, &mut self.lps);
        lps.insert(lp_id, lp_token_contract_id);
        self.lps = lps;
        self.check_well_formed();
    }

    /// The liquidity pools, each id once with its token account.
    pub fn list_lps(&self) -> (pairs: Vec<(String, AccountId)>)
        ensures
            self@.lps.dom().finite(),
            pairs@.len() == self@.lps.dom().len(),
            forall|i: int|
                0 <= i < pairs@.len() ==> self@.lps.dom().contains((#[trigger] pairs@[i]).0@) && self@.lps[pairs@[i].0@]
                    == pairs@[i].1@,
            forall|i: int, j: int| 0 <= i < j < pairs@.len() ==> (#[trigger] pairs@[i]).0@ != (#[trigger] pairs@[j]).0@,
    {
        self.lps.to_vec()
    }

    fn generate_iou_id(&self) -> (iou_id: String)
        ensures
            iou_id@ == decimal_text(self@.log.len()),
    {
        proof {
            use_type_invariant(self);
        }
        decimal_string(self.next_iou_id)
    }

    fn issue(&mut self, kind: IOUType, lp_id: String, recipient: AccountId, amount: u128) -> (iou_id: String)
        requires
            old(self)@.log.len() < u64::MAX,
            amount > 0,
        ensures
            iou_id@ == decimal_text(old(self)@.log.len()),
            final(self)@ == old(self)@.issue(kind, lp_id@, recipient@, amount),
            final(self)@.well_formed(),
    {
        proof {
            use_type_invariant(&*self);
        }
        let iou_id = self.generate_iou_id();
        let receipt = IOUReceipt {
            iou_id: iou_id.clone(),
            lp_id,
            amount,
            recipient,
            fulfilled: false,
            iou_type: kind,
        };
        let ghost before = self@;
        let mut taken = Contract::new(self.authorized_account.clone());
        std::mem::swap(&mut taken, self);
        let Contract { authorized_account, iou_receipts, next_iou_id, lps } = taken;
        let mut receipts = iou_receipts;
        let ghost old_receipts = receipts@;
        receipts.push(receipt);
        proof {
            assert forall|i: int| 0 <= i < receipts@.len() implies (#[trigger] receipts@[i]).iou_id@ == decimal_text(
                i as nat,
            ) && receipts@[i].amount > 0 by {
                if i < old_receipts.len() {
                    assert(receipts@[i] == old_receipts[i]);
                }
            }
        }
        *self = Contract { authorized_account, iou_receipts: receipts, next_iou_id: next_iou_id + 1, lps };
        proof {
            assert(self@.log =~= before.issue(kind, lp_id@, recipient@, amount).log);
        }
        self.check_well_formed();
        iou_id
    }

    /// Records that pool tokens of `sender_id` were handed in: a withdraw
    /// receipt over `amount` of base asset is issued. An amount of nothing
    /// is refused.
    pub fn redeem_lp_for_near(&mut self, sender_id: AccountId, amount: u128) -> (answer: Result<String, LedgerError>)
        requires
            amount > 0 ==> old(self)@.log.len() < u64::MAX,
        ensures
            answer is Ok <==> old(self)@.issue_answer(amount) is Ok,
            answer matches Ok(iou_id) ==> old(self)@.issue_answer(amount) == Ok::<Seq<char>, LedgerError>(iou_id@),
            answer matches Err(e) ==> old(self)@.issue_answer(amount) == Err::<Seq<char>, LedgerError>(e),
            final(self)@ == old(self)@.redeem(sender_id@, amount),
            final(self)@.well_formed(),
    {
        self.check_well_formed();
        if amount == 0 {
            return Err(LedgerError::InvalidAmount);
        }
        let lp_id = String::from_str("lp_token_id");
        Ok(self.issue(IOUType::Withdraw, lp_id, sender_id, amount))
    }

    /// Records that `caller` attached `amount` of the base asset towards
    /// the pool `lp_id`: a deposit receipt is issued. An amount of nothing
    /// is refused.
    pub fn deposit(&mut self, caller: AccountId, amount: u128, lp_id: String) -> (answer: Result<String, LedgerError>)
        requires
            amount > 0 ==> old(self)@.log.len() < u64::MAX,
        ensures
            answer is Ok <==> old(self)@.issue_answer(amount) is Ok,
            answer matches Ok(iou_id) ==> old(self)@.issue_answer(amount) == Ok::<Seq<char>, LedgerError>(iou_id@),
            answer matches Err(e) ==> old(self)@.issue_answer(amount) == Err::<Seq<char>, LedgerError>(e),
            final(self)@ == old(self)@.deposit(caller@, amount, lp_id@),
            final(self)@.well_formed(),
    {
        self.check_well_formed();
        if amount == 0 {
            return Err(LedgerError::InvalidAmount);
        }
        Ok(self.issue(IOUType::Deposit, lp_id, caller, amount))
    }

    /// The unfulfilled receipts, in the order of issue.
    pub fn list_ious(&self) -> (ious: Vec<IOUReceipt>)
        ensures
            ious@.map_values(|r: IOUReceipt| r@) == self@.open_receipts(),
    {
        let ghost log = self@.log;
        let ghost open = |r: ReceiptView| !r.fulfilled;
        let mut ious: Vec<IOUReceipt> = Vec::new();
        let mut i: usize = 0;
        assert(log.subrange(0, 0).filter(open) =~= Seq::<ReceiptView>::empty()) by {
            assert(log.subrange(0, 0) =~= Seq::<ReceiptView>::empty());
        }
        assert(ious@.map_values(|r: IOUReceipt| r@) =~= Seq::<ReceiptView>::empty());
        while i < self.iou_receipts.len()
            invariant
                i <= self.iou_receipts@.len(),
                log == self@.log,
                log.len() == self.iou_receipts@.len(),
                open == (|r: ReceiptView| !r.fulfilled),
                ious@.map_values(|r: IOUReceipt| r@) == log.subrange(0, i as int).filter(open),
            decreases self.iou_receipts@.len() - i,
        {
            let ghost before = ious@.map_values(|r: IOUReceipt| r@);
            proof {
                assert(log.subrange(0, i + 1) =~= log.subrange(0, i as int).push(log[i as int]));
                assert(log.subrange(0, i + 1).drop_last() =~= log.subrange(0, i as int));
                reveal_with_fuel(Seq::filter, 2);
                assert(log[i as int] == self.iou_receipts@[i as int]@);
            }
            if !self.iou_receipts[i].fulfilled {
                ious.push(self.iou_receipts[i].clone());
                assert(ious@.map_values(|r: IOUReceipt| r@) =~= before.push(log[i as int]));
            }
            i += 1;
        }
        assert(log.subrange(0, log.len() as int) =~= log);
        ious
    }

    fn find(&self, iou_id: &String) -> (found: Option<usize>)
        ensures
            found is Some <==> self@.issued(iou_id@),
            found matches Some(i) ==> i < self.iou_receipts@.len() && i == self@.place_of(iou_id@),
    {
        proof {
            use_type_invariant(self);
        }
        self.check_well_formed();
        let mut i: usize = 0;
        while i < self.iou_receipts.len()
            invariant
                i <= self.iou_receipts@.len(),
                self@.well_formed(),
                self@.log.len() == self.iou_receipts@.len(),
                forall|j: int| 0 <= j < i ==> #[trigger] decimal_text(j as nat) != iou_id@,
            decreases self.iou_receipts@.len() - i,
        {
            proof {
                assert(self@.log[i as int] == self.iou_receipts@[i as int]@);
                assert(self@.log[i as int].iou_id == decimal_text(i as nat));
            }
            if self.iou_receipts[i].iou_id == *iou_id {
                proof {
                    self@.lemma_place(i as int);
                }
                return Some(i);
            }
            i += 1;
        }
        None
    }

    /// Fulfills a withdraw receipt for the authority, who attached
    /// `attached` of the base asset: the receipt is flagged, and the answer
    /// is the payout that is due to its recipient.
    pub fn fulfill_iou_near(&mut self, caller: &AccountId, iou_id: String, attached: u128) -> (answer: Result<
        LedgerAction,
        LedgerError,
    >)
        ensures
            action_matches(answer, old(self)@.fulfill_answer(caller@, iou_id@, attached)),
            final(self)@ == old(self)@.fulfill(caller@, iou_id@, attached),
            final(self)@.well_formed(),
    {
        proof {
            use_type_invariant(&*self);
        }
        self.check_well_formed();
        if !caller.same_as(&self.authorized_account) {
            return Err(LedgerError::Unauthorized);
        }
        let i = match self.find(&iou_id) {
            Some(i) => i,
            None => {
                return Err(LedgerError::NotFound);
            },
        };
        let ghost before = self@;
        assert(before.log[i as int] == self.iou_receipts@[i as int]@);
        if self.iou_receipts[i].fulfilled {
            return Err(LedgerError::AlreadyFulfilled);
        }
        if self.iou_receipts[i].iou_type != IOUType::Withdraw {
            return Err(LedgerError::KindMismatch);
        }
        if self.iou_receipts[i].amount != attached {
            return Err(LedgerError::InvalidAmount);
        }
        let recipient = self.iou_receipts[i].recipient.clone();
        let mut taken = Contract::new(self.authorized_account.clone());
        std::mem::swap(&mut taken, self);
        let Contract { authorized_account, iou_receipts, next_iou_id, lps } = taken;
        let mut receipts = iou_receipts;
        let ghost old_receipts = receipts@;
        let mut receipt = receipts[i].clone();
        receipt.fulfilled = true;
        receipts.set(i, receipt);
        proof {
            assert forall|j: int| 0 <= j < receipts@.len() implies (#[trigger] receipts@[j]).iou_id@ == decimal_text(
                j as nat,
            ) && receipts@[j].amount > 0 by {
                if j != i {
                    assert(receipts@[j] == old_receipts[j]);
                } else {
                    assert(receipts@[j]@.iou_id == old_receipts[j]@.iou_id);
                }
            }
        }
        *self = Contract { authorized_account, iou_receipts: receipts, next_iou_id, lps };
        proof {
            assert(self@.log =~= before.fulfill(caller@, iou_id@, attached).log);
        }
        self.check_well_formed();
        Ok(LedgerAction::Payout { account: recipient, amount: attached })
    }

    /// Receives a transfer of pool tokens that `predecessor` reports, and
    /// answers how much of it is handed back. A transfer that the system
    /// account reports is a redemption and is used up; any other is handed
    /// back whole.
    pub fn ft_on_transfer(&mut self, predecessor: &AccountId, sender_id: AccountId, amount: u128, msg: String) -> (answer:
        Result<u128, LedgerError>)
        requires
            predecessor@ == system_account() && amount > 0 ==> old(self)@.log.len() < u64::MAX,
        ensures
            answer == ContractView::ft_on_transfer_answer(predecessor@, amount),
            final(self)@ == old(self)@.ft_on_transfer(predecessor@, sender_id@, amount),
            final(self)@.well_formed(),
    {
        self.check_well_formed();
        proof {
            lemma_system_account_valid();
        }
        let system_address = AccountId::parse("system").unwrap();
        if predecessor.same_as(&system_address) {
            match self.redeem_lp_for_near(sender_id, amount) {
                Ok(_) => Ok(0),
                Err(e) => Err(e),
            }
        } else {
            Ok(amount)
        }
    }
}

proof fn lemma_system_account_valid()
    ensures
        valid_account_id(system_account()),
{
    reveal_strlit("system");
    let s = "system"@;
    assert(s.len() == 6);
    assert(s[0] == 's' && s[1] == 'y' && s[2] == 's' && s[3] == 't' && s[4] == 'e' && s[5] == 'm');
    assert forall|i: int| 0 <= i < s.len() implies is_alphanumeric(#[trigger] s[i]) || is_separator(s[i]) by {}
    assert forall|i: int| 0 <= i < s.len() - 1 implies !(is_separator(#[trigger] s[i]) && is_separator(s[i + 1])) by {}
}

} // verus!
