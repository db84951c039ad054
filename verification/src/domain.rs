//! The records of the ledger: accounts, transactions, balance snapshots,
//! configured integrations, and the envelope every operation answers with.

use vstd::prelude::*;
use vstd::string::*;
use crate::amount::Amount;
use crate::calendar::{Date, Timestamp};
use crate::fingerprint::{fingerprint, spec_fingerprint};
use crate::ident::fresh_id;
use crate::string_map::StringMap;
use crate::text::{clone_opt_text, clone_texts, opt_text, texts};

verus! {

/// A financial account owned by the user.
#[derive(Debug)]
pub struct Account {
    pub id: u128,
    pub name: String,
    pub nickname: Option<String>,
    pub account_type: Option<String>,
    pub currency: String,
    pub external_ids: StringMap,
    pub balance: Option<Amount>,
    pub institution_name: Option<String>,
    pub institution_url: Option<String>,
    pub institution_domain: Option<String>,
    pub created_at: Timestamp,
    pub updated_at: Timestamp,
}

/// What an [`Account`] says, as plain mathematical values.
pub struct AccountView {
    pub id: u128,
    pub name: Seq<char>,
    pub nickname: Option<Seq<char>>,
    pub account_type: Option<Seq<char>>,
    pub currency: Seq<char>,
    pub external_ids: Map<Seq<char>, Seq<char>>,
    pub balance: Option<Amount>,
    pub institution_name: Option<Seq<char>>,
    pub institution_url: Option<Seq<char>>,
    pub institution_domain: Option<Seq<char>>,
    pub created_at: Timestamp,
    pub updated_at: Timestamp,
}

impl View for Account {
    type V = AccountView;

    open spec fn view(&self) -> AccountView {
        AccountView {
            id: self.id,
            name: self.name@,
            nickname: opt_text(self.nickname),
            account_type: opt_text(self.account_type),
            currency: self.currency@,
            external_ids: self.external_ids@,
            balance: self.balance,
            institution_name: opt_text(self.institution_name),
            institution_url: opt_text(self.institution_url),
            institution_domain: opt_text(self.institution_domain),
            created_at: self.created_at,
            updated_at: self.updated_at,
        }
    }
}

impl Clone for Account {
    fn clone(&self) -> (r: Account)
        ensures
            r@ == self@,
    {
        Account {
            id: self.id,
            name: self.name.clone(),
            nickname: clone_opt_text(&self.nickname),
            account_type: clone_opt_text(&self.account_type),
            currency: self.currency.clone(),
            external_ids: self.external_ids.clone(),
            balance: self.balance,
            institution_name: clone_opt_text(&self.institution_name),
            institution_url: clone_opt_text(&self.institution_url),
            institution_domain: clone_opt_text(&self.institution_domain),
            created_at: self.created_at,
            updated_at: self.updated_at,
        }
    }
}

impl AccountView {
    /// Well-formedness: a balance, where there is one, is a valid amount.
    pub open spec fn wf(self) -> bool {
        self.balance matches Some(b) ==> b.wf()
    }
}

impl Account {
    /// Well-formedness: a balance, where there is one, is a valid amount.
    pub open spec fn wf(&self) -> bool {
        self@.wf()
    }

    /// Whether the account is well formed.
    pub fn is_valid(&self) -> (r: bool)
        ensures
            r == self.wf(),
    {
        match self.balance {
            Some(b) => Amount::new(b.mantissa, b.scale).is_some(),
            None => true,
        }
    }

    /// A new account of the given name, in US dollars, with a fresh
    /// identifier and nothing else known of it.
    pub fn new(name: String) -> (r: Account)
        ensures
            r.name == name,
            r.nickname is None,
            r.account_type is None,
            r.currency@ == "USD"@,
            r.external_ids@ == Map::<Seq<char>, Seq<char>>::empty(),
            r.balance is None,
            r.institution_name is None,
            r.institution_url is None,
            r.institution_domain is None,
            r.created_at == r.updated_at,
            r.id != crate::ident::NIL_ID,
            r.wf(),
    {
        let now = Timestamp::now();
        Account {
            id: fresh_id(),
            name,
            nickname: None,
            account_type: None,
            currency: "USD".to_owned(),
            external_ids: StringMap::new(),
            balance: None,
            institution_name: None,
            institution_url: None,
            institution_domain: None,
            created_at: now,
            updated_at: now,
        }
    }
}

/// A single transaction belonging to an account.
#[derive(Debug)]
pub struct Transaction {
    pub id: u128,
    pub account_id: u128,
    pub external_ids: StringMap,
    pub amount: Amount,
    pub description: Option<String>,
    pub transaction_date: Date,
    pub posted_date: Date,
    pub tags: Vec<String>,
    pub created_at: Timestamp,
    pub updated_at: Timestamp,
    pub deleted_at: Option<Timestamp>,
    pub parent_transaction_id: Option<u128>,
}

/// What a [`Transaction`] says, as plain mathematical values.
pub struct TransactionView {
    pub id: u128,
    pub account_id: u128,
    pub external_ids: Map<Seq<char>, Seq<char>>,
    pub amount: Amount,
    pub description: Option<Seq<char>>,
    pub transaction_date: Date,
    pub posted_date: Date,
    pub tags: Seq<Seq<char>>,
    pub created_at: Timestamp,
    pub updated_at: Timestamp,
    pub deleted_at: Option<Timestamp>,
    pub parent_transaction_id: Option<u128>,
}

impl View for Transaction {
    type V = TransactionView;

    open spec fn view(&self) -> TransactionView {
        TransactionView {
            id: self.id,
            account_id: self.account_id,
            external_ids: self.external_ids@,
            amount: self.amount,
            description: opt_text(self.description),
            transaction_date: self.transaction_date,
            posted_date: self.posted_date,
            tags: texts(self.tags@),
            created_at: self.created_at,
            updated_at: self.updated_at,
            deleted_at: self.deleted_at,
            parent_transaction_id: self.parent_transaction_id,
        }
    }
}

impl Clone for Transaction {
    fn clone(&self) -> (r: Transaction)
        ensures
            r@ == self@,
    {
        Transaction {
            id: self.id,
            account_id: self.account_id,
            external_ids: self.external_ids.clone(),
            amount: self.amount,
            description: clone_opt_text(&self.description),
            transaction_date: self.transaction_date,
            posted_date: self.posted_date,
            tags: clone_texts(&self.tags),
            created_at: self.created_at,
            updated_at: self.updated_at,
            deleted_at: self.deleted_at,
            parent_transaction_id: self.parent_transaction_id,
        }
    }
}

impl TransactionView {
    /// Well-formedness: the amount and the date are valid.
    pub open spec fn wf(self) -> bool {
        &&& self.amount.wf()
        &&& self.transaction_date.wf()
    }

    /// The fingerprint of what the transaction says: of its account, date,
    /// amount and description.
    pub open spec fn content_fingerprint(self) -> Seq<char> {
        spec_fingerprint(self.account_id, self.transaction_date, self.amount, self.description)
    }

    /// The transaction with a fingerprint, if it had none: the stored one
    /// stays, a missing one is computed from the content.
    pub open spec fn with_fingerprint(self) -> TransactionView {
        if self.external_ids.contains_key("fingerprint"@) {
            self
        } else {
            TransactionView {
                external_ids: self.external_ids.insert("fingerprint"@, self.content_fingerprint()),
                ..self
            }
        }
    }
}

/// A stored fingerprint is never computed again: giving a transaction its
/// fingerprint a second time changes nothing, whatever was changed about
/// the transaction's content in between.
pub proof fn lemma_fingerprint_is_kept(tx: TransactionView, changed: TransactionView)
    requires
        changed.external_ids == tx.with_fingerprint().external_ids,
    ensures
        tx.with_fingerprint().with_fingerprint() == tx.with_fingerprint(),
        changed.with_fingerprint() == changed,
        tx.with_fingerprint().external_ids.contains_key("fingerprint"@),
        tx.external_ids.contains_key("fingerprint"@) ==> tx.with_fingerprint() == tx,
{
}

impl Transaction {
    /// Well-formedness: the amount and the date are valid.
    pub open spec fn wf(&self) -> bool {
        self@.wf()
    }

    /// Whether the transaction is well formed.
    pub fn is_valid(&self) -> (r: bool)
        ensures
            r == self.wf(),
    {
        Amount::new(self.amount.mantissa, self.amount.scale).is_some()
            && self.transaction_date.is_valid()
    }

    /// A new transaction of the given account, amount and date, posted on
    /// its own date, with a fresh identifier and its fingerprint.
    pub fn new(account_id: u128, amount: Amount, transaction_date: Date) -> (r: Transaction)
        requires
            amount.wf(),
            transaction_date.wf(),
        ensures
            r.account_id == account_id,
            r.amount == amount,
            r.transaction_date == transaction_date,
            r.posted_date == transaction_date,
            r.description is None,
            r.tags@.len() == 0,
            r.deleted_at is None,
            r.parent_transaction_id is None,
            r.created_at == r.updated_at,
            r.external_ids@ == Map::<Seq<char>, Seq<char>>::empty().insert(
                "fingerprint"@,
                spec_fingerprint(account_id, transaction_date, amount, None),
            ),
            r.wf(),
    {
        let now = Timestamp::now();
        let mut tx = Transaction {
            id: fresh_id(),
            account_id,
            external_ids: StringMap::new(),
            amount,
            description: None,
            transaction_date,
            posted_date: transaction_date,
            tags: Vec::new(),
            created_at: now,
            updated_at: now,
            deleted_at: None,
            parent_transaction_id: None,
        };
        tx.ensure_fingerprint();
        tx
    }

    /// The fingerprint of this transaction's content.
    pub fn calculate_fingerprint(&self) -> (r: String)
        requires
            self.wf(),
        ensures
            r@ == self@.content_fingerprint(),
            r@.len() == 16,
    {
        fingerprint(self.account_id, self.transaction_date, self.amount, &self.description)
    }

    /// Gives the transaction a fingerprint if it has none. One that is
    /// already stored is never computed again.
    pub fn ensure_fingerprint(&mut self)
        requires
            old(self).wf(),
        ensures
            final(self)@ == old(self)@.with_fingerprint(),
            final(self).description == old(self).description,
            final(self).tags == old(self).tags,
            final(self).wf(),
    {
        if !self.external_ids.contains_key("fingerprint") {
            let fp = self.calculate_fingerprint();
            self.external_ids.insert("fingerprint".to_owned(), fp);
        }
    }
}

/// An account balance captured at a point in time.
#[derive(Clone, Copy, Debug, PartialEq, Eq, Structural)]
pub struct BalanceSnapshot {
    pub id: u128,
    pub account_id: u128,
    pub balance: Amount,
    pub snapshot_time: Timestamp,
    pub created_at: Timestamp,
    pub updated_at: Timestamp,
}

impl BalanceSnapshot {
    /// Well-formedness: the balance and the instant are valid.
    pub open spec fn wf(&self) -> bool {
        &&& self.balance.wf()
        &&& self.snapshot_time.wf()
    }

    /// Whether the snapshot is well formed.
    pub fn is_valid(&self) -> (r: bool)
        ensures
            r == self.wf(),
    {
        Amount::new(self.balance.mantissa, self.balance.scale).is_some()
            && self.snapshot_time.is_valid()
    }

    /// A new snapshot of the given account, balance and instant, with a
    /// fresh identifier.
    pub fn new(account_id: u128, balance: Amount, snapshot_time: Timestamp) -> (r: BalanceSnapshot)
        ensures
            r.account_id == account_id,
            r.balance == balance,
            r.snapshot_time == snapshot_time,
            r.created_at == r.updated_at,
    {
        let now = Timestamp::now();
        BalanceSnapshot {
            id: fresh_id(),
            account_id,
            balance,
            snapshot_time,
            created_at: now,
            updated_at: now,
        }
    }
}

/// The answer of a service operation: either data, or the reason for
/// failure.
#[derive(Clone, Debug)]
pub struct ServiceResult<T> {
    pub success: bool,
    pub data: Option<T>,
    pub error: Option<String>,
}

impl<T> ServiceResult<T> {
    /// Whether the result is a failure for the given reason: no success,
    /// no data, and the reason as its error.
    pub open spec fn is_failure(self, reason: Seq<char>) -> bool {
        &&& !self.success
        &&& self.data is None
        &&& opt_text(self.error) == Some(reason)
    }

    /// A success carrying `data`.
    pub fn ok(data: T) -> (r: ServiceResult<T>)
        ensures
            r.success,
            r.data == Some(data),
            r.error is None,
    {
        ServiceResult { success: true, data: Some(data), error: None }
    }

    /// A failure carrying the reason.
    pub fn fail(error: String) -> (r: ServiceResult<T>)
        ensures
            !r.success,
            r.data is None,
            r.error == Some(error),
    {
        ServiceResult { success: false, data: None, error: Some(error) }
    }
}

impl ServiceResult<()> {
    /// A success that carries nothing.
    pub fn ok_empty() -> (r: ServiceResult<()>)
        ensures
            r.success,
            r.data == Some(()),
            r.error is None,
    {
        ServiceResult { success: true, data: Some(()), error: None }
    }
}

/// The settings of one configured source.
#[derive(Debug)]
pub struct Integration {
    pub integration_name: String,
    pub integration_options: StringMap,
}

impl Clone for Integration {
    fn clone(&self) -> (r: Integration)
        ensures
            r.integration_name@ == self.integration_name@,
            r.integration_options@ == self.integration_options@,
    {
        Integration {
            integration_name: self.integration_name.clone(),
            integration_options: self.integration_options.clone(),
        }
    }
}

} // verus!
