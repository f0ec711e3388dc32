//! The sub-ledger service: receipts for deposits and withdrawals, and their
//! fulfillment by the pool's authority.
//!
//! A pool does not touch balances or move assets by itself. Where an
//! operation calls for that, it answers with the `LedgerAction` that the
//! host is to perform on the balance ledger or on the base asset.
//!
//! Two choices are made where more than one policy is known. A fulfilled
//! receipt is removed, so `list_ious` shows the open receipts only. The
//! amount of a fulfillment is the authority's to name: it need not be the
//! amount that the receipt records.

use crate::account::AccountId;
use crate::error::LedgerError;
use vstd::prelude::*;

verus! {

/// Whether a receipt promises a credit or a payout.
#[derive(Clone, Copy, Debug, PartialEq, Eq, Structural)]
pub enum IOUType {
    Deposit,
    Withdraw,
}

/// The namespaces under which a pool persists its collections.
#[derive(Clone, Copy, Debug, PartialEq, Eq, Structural)]
pub enum StorageKey {
    Token,
    IOUs,
}

impl StorageKey {
    /// The byte that prefixes every key of the namespace.
    pub open spec fn tag(self) -> u8 {
        match self {
            StorageKey::Token => 0u8,
            StorageKey::IOUs => 1u8,
        }
    }

    /// The prefix of the namespace.
    pub fn into_storage_key(self) -> (key: Vec<u8>)
        ensures
            key@ == seq![self.tag()],
    {
        let b: u8 = match self {
            StorageKey::Token => 0u8,
            StorageKey::IOUs => 1u8,
        };
        let mut key: Vec<u8> = Vec::new();
        key.push(b);
        key
    }

    /// Different namespaces have different prefixes, and neither prefix
    /// begins the other.
    pub proof fn lemma_namespaces_disjoint(a: StorageKey, b: StorageKey)
        requires
            a != b,
        ensures
            !seq![a.tag()].is_prefix_of(seq![b.tag()]),
            !seq![b.tag()].is_prefix_of(seq![a.tag()]),
    {
        let x = seq![a.tag()];
        let y = seq![b.tag()];
        assert(x[0] != y[0]);
        if x.is_prefix_of(y) {
            assert(y.subrange(0, 1)[0] == x[0]);
        }
        if y.is_prefix_of(x) {
            assert(x.subrange(0, 1)[0] == y[0]);
        }
    }
}

/// The version tag of the token metadata standard.
pub open spec fn ft_metadata_spec_text() -> Seq<char> {
    "ft-1.0.0"@
}

/// Reads `near_contract_standards::fungible_token::metadata::FT_METADATA_SPEC`,
/// the constant `"ft-1.0.0"`.
#[verifier::external_body]
fn ft_metadata_spec() -> (tag: String)
    ensures
        tag@ == ft_metadata_spec_text(),
{
    near_contract_standards::fungible_token::metadata::FT_METADATA_SPEC.to_string()
}

/// The number of decimals of a pool's token: that of the base asset.
pub const POOL_TOKEN_DECIMALS: u8 = 24;

/// How a pool's token presents itself.
#[derive(Debug, PartialEq, Eq)]
pub struct TokenMetadata {
    pub spec: String,
    pub name: String,
    pub symbol: String,
    pub icon: Option<String>,
    pub reference: Option<String>,
    pub reference_hash: Option<Vec<u8>>,
    pub decimals: u8,
}

/// A promised balance change that is not settled yet.
#[derive(Debug, PartialEq, Eq)]
pub struct IOUReceipt {
    pub iou_id: u64,
    pub amount: u128,
    pub account_id: AccountId,
    pub iou_type: IOUType,
}

/// What an `IOUReceipt` says.
pub struct ReceiptView {
    pub iou_id: u64,
    pub amount: u128,
    pub account: Seq<char>,
    pub kind: IOUType,
}

impl View for IOUReceipt {
    type V = ReceiptView;

    open spec fn view(&self) -> ReceiptView {
        ReceiptView { iou_id: self.iou_id, amount: self.amount, account: self.account_id@, kind: self.iou_type }
    }
}

impl Clone for IOUReceipt {
    fn clone(&self) -> (copy: Self)
        ensures
            copy@ == self@,
    {
        IOUReceipt {
            iou_id: self.iou_id,
            amount: self.amount,
            account_id: self.account_id.clone(),
            iou_type: self.iou_type,
        }
    }
}

/// What the host is to do for the pool once an operation has succeeded.
#[derive(Debug, PartialEq, Eq)]
pub enum LedgerAction {
    /// Take `amount` from the account's balance and from the supply.
    Debit { account: AccountId, amount: u128 },
    /// Register the account with the balance ledger unless it is
    /// registered, then add `amount` to its balance and to the supply.
    Credit { account: AccountId, amount: u128 },
    /// Transfer `amount` of the base asset from the pool to the account.
    Payout { account: AccountId, amount: u128 },
}

/// What a `LedgerAction` says.
pub enum LedgerActionView {
    Debit { account: Seq<char>, amount: u128 },
    Credit { account: Seq<char>, amount: u128 },
    Payout { account: Seq<char>, amount: u128 },
}

impl View for LedgerAction {
    type V = LedgerActionView;

    open spec fn view(&self) -> LedgerActionView {
        match *self {
            LedgerAction::Debit { account, amount } => LedgerActionView::Debit { account: account@, amount },
            LedgerAction::Credit { account, amount } => LedgerActionView::Credit { account: account@, amount },
            LedgerAction::Payout { account, amount } => LedgerActionView::Payout { account: account@, amount },
        }
    }
}

/// A pool's state as a value.
pub struct PoolView {
    pub token_name: Seq<char>,
    pub token_symbol: Seq<char>,
    pub authority: Seq<char>,
    pub creator: Seq<char>,
    pub receipts: Map<u64, ReceiptView>,
    pub next_iou_id: u64,
}

impl PoolView {
    /// What holds of every pool: each open receipt is filed under its own
    /// id, was issued before the next id, and is for more than nothing.
    pub open spec fn well_formed(self) -> bool {
        &&& self.receipts.dom().finite()
        &&& forall|id: u64| #[trigger]
            self.receipts.dom().contains(id) ==> {
                &&& self.receipts[id].iou_id == id
                &&& id < self.next_iou_id
                &&& self.receipts[id].amount > 0
            }
    }

    /// The pool with one more open receipt, under the next id.
    pub open spec fn issue(self, kind: IOUType, account: Seq<char>, amount: u128) -> PoolView {
        PoolView {
            receipts: self.receipts.insert(
                self.next_iou_id,
                ReceiptView { iou_id: self.next_iou_id, amount, account, kind },
            ),
            next_iou_id: (self.next_iou_id + 1) as u64,
            ..self
        }
    }

    /// The pool without the receipt `iou_id`.
    pub open spec fn close(self, iou_id: u64) -> PoolView {
        PoolView { receipts: self.receipts.remove(iou_id), ..self }
    }

    /// What `deposit` answers: the id of the new receipt.
    pub open spec fn deposit_answer(self, amount: u128) -> Result<u64, LedgerError> {
        if amount == 0 {
            Err(LedgerError::InvalidAmount)
        } else {
            Ok(self.next_iou_id)
        }
    }

    /// The pool after `deposit`.
    pub open spec fn deposit(self, caller: Seq<char>, amount: u128) -> PoolView {
        if self.deposit_answer(amount) is Ok {
            self.issue(IOUType::Deposit, caller, amount)
        } else {
            self
        }
    }

    /// What `withdraw` answers when the caller's balance is `balance`.
    pub open spec fn withdraw_answer(self, caller: Seq<char>, amount: u128, balance: u128) -> Result<
        LedgerActionView,
        LedgerError,
    > {
        if amount == 0 {
            Err(LedgerError::InvalidAmount)
        } else if balance < amount {
            Err(LedgerError::InsufficientBalance)
        } else {
            Ok(LedgerActionView::Debit { account: caller, amount })
        }
    }

    /// The pool after `withdraw`.
    pub open spec fn withdraw(self, caller: Seq<char>, amount: u128, balance: u128) -> PoolView {
        if self.withdraw_answer(caller, amount, balance) is Ok {
            self.issue(IOUType::Withdraw, caller, amount)
        } else {
            self
        }
    }

    /// Why a fulfillment of the receipt `iou_id` as one of kind `kind` is
    /// refused, if it is.
    pub open spec fn fulfill_refusal(self, kind: IOUType, caller: Seq<char>, iou_id: u64) -> Option<LedgerError> {
        if caller != self.authority {
            Some(LedgerError::Unauthorized)
        } else if !self.receipts.dom().contains(iou_id) {
            Some(LedgerError::NotFound)
        } else if self.receipts[iou_id].kind != kind {
            Some(LedgerError::KindMismatch)
        } else {
            None
        }
    }

    /// What `fulfill_deposit_iou` answers.
    pub open spec fn fulfill_deposit_answer(self, caller: Seq<char>, iou_id: u64, amount: u128) -> Result<
        LedgerActionView,
        LedgerError,
    > {
        match self.fulfill_refusal(IOUType::Deposit, caller, iou_id) {
            Some(e) => Err(e),
            None => Ok(LedgerActionView::Credit { account: self.receipts[iou_id].account, amount }),
        }
    }

    /// What `fulfill_withdraw_iou` answers.
    pub open spec fn fulfill_withdraw_answer(self, caller: Seq<char>, iou_id: u64, amount: u128) -> Result<
        LedgerActionView,
        LedgerError,
    > {
        match self.fulfill_refusal(IOUType::Withdraw, caller, iou_id) {
            Some(e) => Err(e),
            None => Ok(LedgerActionView::Payout { account: self.receipts[iou_id].account, amount }),
        }
    }

    /// The pool after a fulfillment of the receipt `iou_id` as one of kind
    /// `kind`.
    pub open spec fn fulfill(self, kind: IOUType, caller: Seq<char>, iou_id: u64) -> PoolView {
        if self.fulfill_refusal(kind, caller, iou_id) is None {
            self.close(iou_id)
        } else {
            self
        }
    }

    /// What `transfer_to_owner` answers.
    pub open spec fn transfer_to_owner_answer(self, caller: Seq<char>, amount: u128) -> Result<
        LedgerActionView,
        LedgerError,
    > {
        if caller != self.authority {
            Err(LedgerError::Unauthorized)
        } else {
            Ok(LedgerActionView::Payout { account: caller, amount })
        }
    }
}

/// Whether an answer of the pool is the one that its model gives.
pub open spec fn action_matches(
    answer: Result<LedgerAction, LedgerError>,
    model: Result<LedgerActionView, LedgerError>,
) -> bool {
    match answer {
        Ok(action) => model == Ok::<LedgerActionView, LedgerError>(action@),
        Err(e) => model == Err::<LedgerActionView, LedgerError>(e),
    }
}

/// No two receipts of the list share an id.
pub open spec fn distinct_receipts(receipts: Seq<IOUReceipt>) -> bool {
    forall|i: int, j: int|
        0 <= i < j < receipts.len() ==> (#[trigger] receipts[i]).iou_id != (#[trigger] receipts[j]).iou_id
}

/// The receipts of the list stand in the order of their ids.
pub open spec fn increasing_ids(receipts: Seq<IOUReceipt>) -> bool {
    forall|i: int, j: int|
        0 <= i < j < receipts.len() ==> (#[trigger] receipts[i]).iou_id < (#[trigger] receipts[j]).iou_id
}

/// Whether a list of receipts and a next id can be the state of a pool:
/// the receipts stand in the order of their ids, each was issued before
/// the next id, and each is for more than nothing.
pub open spec fn restorable(receipts: Seq<IOUReceipt>, next_iou_id: u64) -> bool {
    &&& increasing_ids(receipts)
    &&& forall|i: int|
        0 <= i < receipts.len() ==> (#[trigger] receipts[i]).iou_id < next_iou_id && receipts[i].amount > 0
}

/// Whether the list holds a receipt with the id.
pub open spec fn holds_receipt(receipts: Seq<IOUReceipt>, id: u64) -> bool {
    exists|i: int| 0 <= i < receipts.len() && (#[trigger] receipts[i]).iou_id == id
}

/// The place of a receipt with the id in the list.
pub open spec fn place_of(receipts: Seq<IOUReceipt>, id: u64) -> int {
    choose|i: int| 0 <= i < receipts.len() && (#[trigger] receipts[i]).iou_id == id
}

/// The receipts of a list, each filed under its id.
pub open spec fn receipts_to_map(receipts: Seq<IOUReceipt>) -> Map<u64, ReceiptView> {
    Map::new(|id: u64| holds_receipt(receipts, id), |id: u64| receipts[place_of(receipts, id)]@)
}

proof fn lemma_receipt_filed(receipts: Seq<IOUReceipt>, i: int)
    requires
        distinct_receipts(receipts),
        0 <= i < receipts.len(),
    ensures
        receipts_to_map(receipts).dom().contains(receipts[i].iou_id),
        receipts_to_map(receipts)[receipts[i].iou_id] == receipts[i]@,
        place_of(receipts, receipts[i].iou_id) == i,
{
    let id = receipts[i].iou_id;
    assert(holds_receipt(receipts, id));
    let p = place_of(receipts, id);
    assert(0 <= p < receipts.len() && receipts[p].iou_id == id);
    if p < i {
        assert(receipts[p].iou_id != receipts[i].iou_id);
    }
    if i < p {
        assert(receipts[i].iou_id != receipts[p].iou_id);
    }
}

proof fn lemma_receipts_finite(receipts: Seq<IOUReceipt>)
    requires
        distinct_receipts(receipts),
    ensures
        receipts_to_map(receipts).dom().finite(),
        receipts_to_map(receipts).dom().len() == receipts.len(),
    decreases receipts.len(),
{
    if receipts.len() == 0 {
        assert(receipts_to_map(receipts).dom() =~= Set::<u64>::empty());
    } else {
        let init = receipts.drop_last();
        let id = receipts.last().iou_id;
        assert(distinct_receipts(init)) by {
            assert forall|a: int, b: int| 0 <= a < b < init.len() implies (#[trigger] init[a]).iou_id != (
            #[trigger] init[b]).iou_id by {
                assert(init[a] == receipts[a] && init[b] == receipts[b]);
            }
        }
        lemma_receipts_finite(init);
        if holds_receipt(init, id) {
            let p = place_of(init, id);
            assert(receipts[p] == init[p]);
            assert(receipts[p].iou_id != receipts[receipts.len() - 1].iou_id);
        }
        assert(receipts_to_map(receipts).dom() =~= receipts_to_map(init).dom().insert(id)) by {
            assert forall|k: u64| receipts_to_map(receipts).dom().contains(k) implies receipts_to_map(
                init,
            ).dom().insert(id).contains(k) by {
                let p = place_of(receipts, k);
                if p < receipts.len() - 1 {
                    assert(init[p].iou_id == k);
                }
            }
            assert forall|k: u64| receipts_to_map(init).dom().insert(id).contains(k) implies receipts_to_map(
                receipts,
            ).dom().contains(k) by {
                if k == id {
                    assert(receipts[receipts.len() - 1].iou_id == k);
                } else {
                    let p = place_of(init, k);
                    assert(receipts[p].iou_id == k);
                }
            }
        }
    }
}

proof fn lemma_receipts_push(receipts: Seq<IOUReceipt>, receipt: IOUReceipt)
    requires
        distinct_receipts(receipts),
        !holds_receipt(receipts, receipt.iou_id),
    ensures
        distinct_receipts(receipts.push(receipt)),
        receipts_to_map(receipts.push(receipt)) == receipts_to_map(receipts).insert(receipt.iou_id, receipt@),
{
    let pushed = receipts.push(receipt);
    assert(distinct_receipts(pushed)) by {
        assert forall|a: int, b: int| 0 <= a < b < pushed.len() implies (#[trigger] pushed[a]).iou_id != (
        #[trigger] pushed[b]).iou_id by {
            assert(pushed[a] == receipts[a]);
            if b < receipts.len() {
                assert(pushed[b] == receipts[b]);
            }
        }
    }
    let before = receipts_to_map(receipts);
    let after = receipts_to_map(pushed);
    assert forall|k: u64| after.dom().contains(k) <==> before.insert(receipt.iou_id, receipt@).dom().contains(
        k,
    ) by {
        if after.dom().contains(k) {
            let p = place_of(pushed, k);
            if p < receipts.len() {
                assert(receipts[p].iou_id == k);
            }
        }
        if before.dom().contains(k) {
            let p = place_of(receipts, k);
            assert(pushed[p].iou_id == k);
        }
        if k == receipt.iou_id {
            assert(pushed[pushed.len() - 1].iou_id == k);
        }
    }
    assert forall|k: u64| after.dom().contains(k) implies #[trigger] after[k] == before.insert(
        receipt.iou_id,
        receipt@,
    )[k] by {
        let p = place_of(pushed, k);
        lemma_receipt_filed(pushed, p);
        if p < receipts.len() {
            assert(pushed[p] == receipts[p]);
            lemma_receipt_filed(receipts, p);
        }
    }
    assert(after =~= before.insert(receipt.iou_id, receipt@));
}

proof fn lemma_receipts_remove(receipts: Seq<IOUReceipt>, i: int)
    requires
        distinct_receipts(receipts),
        0 <= i < receipts.len(),
    ensures
        distinct_receipts(receipts.remove(i)),
        receipts_to_map(receipts.remove(i)) == receipts_to_map(receipts).remove(receipts[i].iou_id),
{
    let rest = receipts.remove(i);
    let id = receipts[i].iou_id;
    assert forall|a: int| 0 <= a < rest.len() implies #[trigger] rest[a] == receipts[if a < i {
        a
    } else {
        a + 1
    }] by {}
    assert(distinct_receipts(rest)) by {
        assert forall|a: int, b: int| 0 <= a < b < rest.len() implies (#[trigger] rest[a]).iou_id != (
        #[trigger] rest[b]).iou_id by {
            let from_a = if a < i {
                a
            } else {
                a + 1
            };
            let from_b = if b < i {
                b
            } else {
                b + 1
            };
            assert(rest[a] == receipts[from_a] && rest[b] == receipts[from_b]);
            assert(receipts[from_a].iou_id != receipts[from_b].iou_id);
        }
    }
    let before = receipts_to_map(receipts);
    let after = receipts_to_map(rest);
    assert forall|k: u64| after.dom().contains(k) <==> before.remove(id).dom().contains(k) by {
        if after.dom().contains(k) {
            let p = place_of(rest, k);
            let origin = if p < i {
                p
            } else {
                p + 1
            };
            assert(rest[p] == receipts[origin]);
            assert(receipts[origin].iou_id == k);
            if origin < i {
                assert(receipts[origin].iou_id != receipts[i].iou_id);
            } else {
                assert(receipts[i].iou_id != receipts[origin].iou_id);
            }
        }
        if before.dom().contains(k) && k != id {
            let p = place_of(receipts, k);
            let q = if p < i {
                p
            } else {
                p - 1
            };
            assert(rest[q] == receipts[p]);
            assert(rest[q].iou_id == k);
        }
    }
    assert forall|k: u64| after.dom().contains(k) implies #[trigger] after[k] == before.remove(id)[k] by {
        let p = place_of(rest, k);
        lemma_receipt_filed(rest, p);
        let origin = if p < i {
            p
        } else {
            p + 1
        };
        assert(rest[p] == receipts[origin]);
        lemma_receipt_filed(receipts, origin);
    }
    assert(after =~= before.remove(id));
}

/// A pool: its open receipts, the next receipt id, and who may fulfill.
#[derive(Debug)]
pub struct PoolContract {
    token_metadata: TokenMetadata,
    iou_receipts: Vec<IOUReceipt>,
    next_iou_id: u64,
    authorized_account: AccountId,
    creator: AccountId,
}

impl View for PoolContract {
    type V = PoolView;

    closed spec fn view(&self) -> PoolView {
        PoolView {
            token_name: self.token_metadata.name@,
            token_symbol: self.token_metadata.symbol@,
            authority: self.authorized_account@,
            creator: self.creator@,
            receipts: receipts_to_map(self.iou_receipts@),
            next_iou_id: self.next_iou_id,
        }
    }
}

impl PoolContract {
    #[verifier::type_invariant]
    spec fn well_formed(self) -> bool {
        &&& self.token_metadata.spec@ == ft_metadata_spec_text()
        &&& self.token_metadata.decimals == POOL_TOKEN_DECIMALS
        &&& self.token_metadata.icon is None
        &&& self.token_metadata.reference is None
        &&& self.token_metadata.reference_hash is None
        &&& increasing_ids(self.iou_receipts@)
        &&& forall|i: int|
            0 <= i < self.iou_receipts@.len() ==> {
                &&& (#[trigger] self.iou_receipts@[i]).iou_id < self.next_iou_id
                &&& self.iou_receipts@[i].amount > 0
            }
    }

    /// A pool without receipts, whose token has the base asset's decimals.
    pub fn new(name: String, symbol: String, authorized_account: AccountId, creator: AccountId) -> (pool: Self)
        ensures
            pool@.token_name == name@,
            pool@.token_symbol == symbol@,
            pool@.authority == authorized_account@,
            pool@.creator == creator@,
            pool@.receipts == Map::<u64, ReceiptView>::empty(),
            pool@.next_iou_id == 0,
            pool@.well_formed(),
    {
        let token_metadata = TokenMetadata {
            spec: ft_metadata_spec(),
            name,
            symbol,
            icon: None,
            reference: None,
            reference_hash: None,
            decimals: POOL_TOKEN_DECIMALS,
        };
        let pool = PoolContract {
            token_metadata,
            iou_receipts: Vec::new(),
            next_iou_id: 0,
            authorized_account,
            creator,
        };
        assert(pool@.receipts =~= Map::<u64, ReceiptView>::empty());
        pool
    }

    /// The pool with the given receipts and next id, as it was persisted;
    /// `None` exactly when these cannot be the state of a pool.
    pub fn restore(
        name: String,
        symbol: String,
        authorized_account: AccountId,
        creator: AccountId,
        receipts: Vec<IOUReceipt>,
        next_iou_id: u64,
    ) -> (pool: Option<Self>)
        ensures
            pool is Some <==> restorable(receipts@, next_iou_id),
            pool matches Some(p) ==> {
                &&& p@.token_name == name@
                &&& p@.token_symbol == symbol@
                &&& p@.authority == authorized_account@
                &&& p@.creator == creator@
                &&& p@.receipts == receipts_to_map(receipts@)
                &&& p@.next_iou_id == next_iou_id
                &&& p@.well_formed()
            },
    {
        let mut i: usize = 0;
        while i < receipts.len()
            invariant
                i <= receipts@.len(),
                restorable(receipts@.subrange(0, i as int), next_iou_id),
            decreases receipts@.len() - i,
        {
            let ghost head = receipts@.subrange(0, i as int);
            let ghost next = receipts@.subrange(0, i + 1);
            if receipts[i].amount == 0 || receipts[i].iou_id >= next_iou_id {
                return None;
            }
            if i > 0 && receipts[i - 1].iou_id >= receipts[i].iou_id {
                return None;
            }
            proof {
                assert forall|a: int, b: int| 0 <= a < b < next.len() implies (#[trigger] next[a]).iou_id < (
                #[trigger] next[b]).iou_id by {
                    assert(next[a] == head[a]);
                    if b < i {
                        assert(next[b] == head[b]);
                    } else if a < i - 1 {
                        assert(head[a].iou_id < head[i - 1].iou_id);
                    }
                }
                assert forall|a: int| 0 <= a < next.len() implies (#[trigger] next[a]).iou_id < next_iou_id
                    && next[a].amount > 0 by {
                    if a < i {
                        assert(next[a] == head[a]);
                    }
                }
            }
            i += 1;
        }
        assert(receipts@.subrange(0, receipts@.len() as int) =~= receipts@);
        let token_metadata = TokenMetadata {
            spec: ft_metadata_spec(),
            name,
            symbol,
            icon: None,
            reference: None,
            reference_hash: None,
            decimals: POOL_TOKEN_DECIMALS,
        };
        let pool = PoolContract { token_metadata, iou_receipts: receipts, next_iou_id, authorized_account, creator };
        pool.check_well_formed();
        Some(pool)
    }

    /// How the pool's token presents itself: the standard's version tag,
    /// the name and symbol given at creation, the base asset's decimals
    /// and nothing else.
    pub fn token_metadata(&self) -> (metadata: &TokenMetadata)
        ensures
            metadata.spec@ == ft_metadata_spec_text(),
            metadata.name@ == self@.token_name,
            metadata.symbol@ == self@.token_symbol,
            metadata.icon is None,
            metadata.reference is None,
            metadata.reference_hash is None,
            metadata.decimals == POOL_TOKEN_DECIMALS,
    {
        proof {
            use_type_invariant(self);
        }
        &self.token_metadata
    }

    fn check_well_formed(&self)
        ensures
            self@.well_formed(),
    {
        proof {
            use_type_invariant(self);
            lemma_receipts_finite(self.iou_receipts@);
            assert forall|id: u64| #[trigger] self@.receipts.dom().contains(id) implies {
                &&& self@.receipts[id].iou_id == id
                &&& id < self@.next_iou_id
                &&& self@.receipts[id].amount > 0
            } by {
                let p = place_of(self.iou_receipts@, id);
                lemma_receipt_filed(self.iou_receipts@, p);
            }
        }
    }

    /// Who created the pool.
    pub fn get_creator(&self) -> (creator: AccountId)
        ensures
            creator@ == self@.creator,
    {
        self.creator.clone()
    }

    /// Who may fulfill receipts and call funds back.
    pub fn authorized_account(&self) -> (authority: &AccountId)
        ensures
            authority@ == self@.authority,
    {
        &self.authorized_account
    }

    /// The id that the next receipt will get.
    pub fn next_iou_id(&self) -> (next: u64)
        ensures
            next == self@.next_iou_id,
    {
        self.next_iou_id
    }

    /// Answers the authority's call for funds with the payout to make.
    pub fn transfer_to_owner(&self, caller: &AccountId, amount: u128) -> (answer: Result<LedgerAction, LedgerError>)
        ensures
            action_matches(answer, self@.transfer_to_owner_answer(caller@, amount)),
    {
        if !caller.same_as(&self.authorized_account) {
            return Err(LedgerError::Unauthorized);
        }
        Ok(LedgerAction::Payout { account: caller.clone(), amount })
    }

    fn issue(&mut self, kind: IOUType, account: AccountId, amount: u128) -> (iou_id: u64)
        requires
            old(self)@.next_iou_id < u64::MAX,
            amount > 0,
        ensures
            iou_id == old(self)@.next_iou_id,
            final(self)@ == old(self)@.issue(kind, account@, amount),
            final(self)@.well_formed(),
    {
        proof {
            use_type_invariant(&*self);
        }
        let iou_id = self.next_iou_id;
        let receipt = IOUReceipt { iou_id, amount, account_id: account, iou_type: kind };
        let mut receipts: Vec<IOUReceipt> = Vec::new();
        std::mem::swap(&mut receipts, &mut self.iou_receipts);
        proof {
            if holds_receipt(receipts@, iou_id) {
                let p = place_of(receipts@, iou_id);
                assert(receipts@[p].iou_id < iou_id);
            }
            lemma_receipts_push(receipts@, receipt);
            let pushed = receipts@.push(receipt);
            assert forall|a: int, b: int| 0 <= a < b < pushed.len() implies (#[trigger] pushed[a]).iou_id < (
            #[trigger] pushed[b]).iou_id by {
                assert(pushed[a] == receipts@[a]);
                if b < receipts@.len() {
                    assert(pushed[b] == receipts@[b]);
                }
            }
        }
        receipts.push(receipt);
        self.next_iou_id = iou_id + 1;
        self.iou_receipts = receipts;
        self.check_well_formed();
        iou_id
    }

    /// Records that `caller` attached `amount` of the base asset: a
    /// deposit receipt is opened, and no balance changes yet.
    pub fn deposit(&mut self, caller: AccountId, amount: u128) -> (answer: Result<u64, LedgerError>)
        requires
            amount > 0 ==> old(self)@.next_iou_id < u64::MAX,
        ensures
            answer == old(self)@.deposit_answer(amount),
            final(self)@ == old(self)@.deposit(caller@, amount),
            final(self)@.well_formed(),
    {
        self.check_well_formed();
        if amount == 0 {
            return Err(LedgerError::InvalidAmount);
        }
        Ok(self.issue(IOUType::Deposit, caller, amount))
    }

    /// Opens a withdraw receipt for `caller`, whose balance the host read
    /// as `balance`, and answers with the debit that is due at once.
    pub fn withdraw(&mut self, caller: AccountId, amount: u128, balance: u128) -> (answer: Result<
        LedgerAction,
        LedgerError,
    >)
        requires
            amount > 0 && balance >= amount ==> old(self)@.next_iou_id < u64::MAX,
        ensures
            action_matches(answer, old(self)@.withdraw_answer(caller@, amount, balance)),
            final(self)@ == old(self)@.withdraw(caller@, amount, balance),
            final(self)@.well_formed(),
    {
        self.check_well_formed();
        if amount == 0 {
            return Err(LedgerError::InvalidAmount);
        }
        if balance < amount {
            return Err(LedgerError::InsufficientBalance);
        }
        let action = LedgerAction::Debit { account: caller.clone(), amount };
        self.issue(IOUType::Withdraw, caller, amount);
        Ok(action)
    }

    /// The open receipts, oldest first.
    pub fn list_ious(&self) -> (ious: Vec<IOUReceipt>)
        ensures
            ious@.len() == self@.receipts.dom().len(),
            forall|i: int|
                0 <= i < ious@.len() ==> self@.receipts.dom().contains((#[trigger] ious@[i]).iou_id)
                    && self@.receipts[ious@[i].iou_id] == ious@[i]@,
            forall|i: int, j: int| 0 <= i < j < ious@.len() ==> (#[trigger] ious@[i]).iou_id < (#[trigger] ious@[j]).iou_id,
    {
        proof {
            use_type_invariant(self);
            lemma_receipts_finite(self.iou_receipts@);
        }
        let mut ious: Vec<IOUReceipt> = Vec::new();
        let mut i: usize = 0;
        while i < self.iou_receipts.len()
            invariant
                i <= self.iou_receipts@.len(),
                ious@.len() == i,
                forall|j: int| 0 <= j < i ==> (#[trigger] ious@[j])@ == self.iou_receipts@[j]@,
            decreases self.iou_receipts@.len() - i,
        {
            ious.push(self.iou_receipts[i].clone());
            i += 1;
        }
        assert forall|i: int| 0 <= i < ious@.len() implies self@.receipts.dom().contains(
            (#[trigger] ious@[i]).iou_id,
        ) && self@.receipts[ious@[i].iou_id] == ious@[i]@ by {
            lemma_receipt_filed(self.iou_receipts@, i);
            assert(ious@[i]@ == self.iou_receipts@[i]@);
        }
        assert forall|i: int, j: int| 0 <= i < j < ious@.len() implies (#[trigger] ious@[i]).iou_id < (
        #[trigger] ious@[j]).iou_id by {
            assert(ious@[i]@ == self.iou_receipts@[i]@);
            assert(ious@[j]@ == self.iou_receipts@[j]@);
        }
        ious
    }

    fn find(&self, iou_id: u64) -> (found: Option<usize>)
        ensures
            found is Some <==> self@.receipts.dom().contains(iou_id),
            found matches Some(i) ==> i < self.iou_receipts@.len() && self.iou_receipts@[i as int].iou_id == iou_id,
    {
        let mut i: usize = 0;
        while i < self.iou_receipts.len()
            invariant
                i <= self.iou_receipts@.len(),
                forall|j: int| 0 <= j < i ==> (#[trigger] self.iou_receipts@[j]).iou_id != iou_id,
            decreases self.iou_receipts@.len() - i,
        {
            if self.iou_receipts[i].iou_id == iou_id {
                assert(holds_receipt(self.iou_receipts@, iou_id));
                return Some(i);
            }
            i += 1;
        }
        None
    }

    fn take(&mut self, kind: IOUType, caller: &AccountId, iou_id: u64) -> (taken: Result<IOUReceipt, LedgerError>)
        ensures
            taken is Err <==> old(self)@.fulfill_refusal(kind, caller@, iou_id) is Some,
            taken matches Err(e) ==> old(self)@.fulfill_refusal(kind, caller@, iou_id) == Some(e),
            taken matches Ok(receipt) ==> receipt@ == old(self)@.receipts[iou_id],
            final(self)@ == old(self)@.fulfill(kind, caller@, iou_id),
            final(self)@.well_formed(),
    {
        proof {
            use_type_invariant(&*self);
        }
        self.check_well_formed();
        if !caller.same_as(&self.authorized_account) {
            return Err(LedgerError::Unauthorized);
        }
        let i = match self.find(iou_id) {
            Some(i) => i,
            None => {
                return Err(LedgerError::NotFound);
            },
        };
        proof {
            lemma_receipt_filed(self.iou_receipts@, i as int);
        }
        if self.iou_receipts[i].iou_type != kind {
            return Err(LedgerError::KindMismatch);
        }
        let mut receipts: Vec<IOUReceipt> = Vec::new();
        std::mem::swap(&mut receipts, &mut self.iou_receipts);
        proof {
            lemma_receipts_remove(receipts@, i as int);
            let rest = receipts@.remove(i as int);
            assert forall|a: int, b: int| 0 <= a < b < rest.len() implies (#[trigger] rest[a]).iou_id < (
            #[trigger] rest[b]).iou_id by {
                let from_a = if a < i { a } else { a + 1 };
                let from_b = if b < i { b } else { b + 1 };
                assert(rest[a] == receipts@[from_a] && rest[b] == receipts@[from_b]);
                assert(receipts@[from_a].iou_id < receipts@[from_b].iou_id);
            }
        }
        let receipt = receipts.remove(i);
        self.iou_receipts = receipts;
        self.check_well_formed();
        Ok(receipt)
    }

    /// Closes a deposit receipt for the authority and answers with the
    /// credit of `amount` that is due to the receipt's account.
    pub fn fulfill_deposit_iou(&mut self, caller: &AccountId, iou_id: u64, amount: u128) -> (answer: Result<
        LedgerAction,
        LedgerError,
    >)
        ensures
            action_matches(answer, old(self)@.fulfill_deposit_answer(caller@, iou_id, amount)),
            final(self)@ == old(self)@.fulfill(IOUType::Deposit, caller@, iou_id),
            final(self)@.well_formed(),
    {
        match self.take(IOUType::Deposit, caller, iou_id) {
            Ok(receipt) => Ok(LedgerAction::Credit { account: receipt.account_id, amount }),
            Err(e) => Err(e),
        }
    }

    /// Closes a withdraw receipt for the authority and answers with the
    /// payout of `amount` that is due to the receipt's account.
    pub fn fulfill_withdraw_iou(&mut self, caller: &AccountId, iou_id: u64, amount: u128) -> (answer: Result<
        LedgerAction,
        LedgerError,
    >)
        ensures
            action_matches(answer, old(self)@.fulfill_withdraw_answer(caller@, iou_id, amount)),
            final(self)@ == old(self)@.fulfill(IOUType::Withdraw, caller@, iou_id),
            final(self)@.well_formed(),
    {
        match self.take(IOUType::Withdraw, caller, iou_id) {
            Ok(receipt) => Ok(LedgerAction::Payout { account: receipt.account_id, amount }),
            Err(e) => Err(e),
        }
    }
}

} // verus!
