//! The value types that the records share: kinds, states, keys and codes.
use vstd::prelude::*;
use vstd::string::StringExecFns;
use crate::calendar::{timestamp_text, timestamp_to_string, Timestamp};
use crate::ids::{
    uuid_text, AccountId, ColumnTotalId, GeneralLedgerId, InterimPeriodId, JournalId, PeriodId,
    TemplateColumnId,
};
use crate::table::KeyEq;
use crate::text::{int_text, int_to_string};

verus! {

/// The side of a journal line: credit or debit.
#[derive(Clone, Copy, Debug, PartialEq, Eq, Structural, Hash)]
pub enum XactType {
    Cr,
    Dr,
}

/// The kind of a ledger account: an intermediate node of the chart, or a leaf.
#[derive(Clone, Copy, Debug, PartialEq, Eq, Structural, Hash)]
pub enum LedgerType {
    Intermediate,
    Leaf,
}

/// Whether a journal line is waiting to be posted or has been posted.
#[derive(Clone, Copy, Debug, PartialEq, Eq, Structural, Hash)]
pub enum TransactionState {
    Pending,
    Posted,
}

/// How an accounting period divides into interim periods.
#[derive(Clone, Copy, Debug, PartialEq, Eq, Structural, Hash)]
pub enum InterimType {
    CalendarMonth,
    FourWeek,
    FourFourFiveWeek,
}

/// The two-letter code of a kind of ledger transaction.
#[derive(Clone, Copy, Debug, PartialEq, Eq, Structural, Hash)]
pub struct LedgerXactTypeCode {
    pub first: u8,
    pub second: u8,
}

impl LedgerXactTypeCode {
    /// The code `AL` of a transaction between ledger accounts.
    pub open spec fn spec_account_ledger() -> Self {
        LedgerXactTypeCode { first: 65u8, second: 76u8 }
    }

    /// The code `AL` of a transaction between ledger accounts.
    pub fn account_ledger() -> (r: Self)
        ensures
            r == Self::spec_account_ledger(),
    {
        LedgerXactTypeCode { first: 65u8, second: 76u8 }
    }
}

/// A journal transaction is known by its journal and its time.
#[derive(Clone, Copy, Debug, PartialEq, Eq, Structural, Hash)]
pub struct JournalTransactionId {
    pub journal_id: JournalId,
    pub timestamp: Timestamp,
}

/// The text of a journal transaction's identifier: the journal's identifier,
/// a space, and the time.
pub open spec fn journal_transaction_id_text(id: JournalTransactionId) -> Seq<char> {
    uuid_text(id.journal_id.value) + " "@ + timestamp_text(id.timestamp.micros)
}

impl JournalTransactionId {
    pub fn new(journal_id: JournalId, timestamp: Timestamp) -> (r: Self)
        ensures
            r.journal_id == journal_id,
            r.timestamp == timestamp,
    {
        JournalTransactionId { journal_id, timestamp }
    }

    pub fn journal_id(&self) -> (r: JournalId)
        ensures
            r == self.journal_id,
    {
        self.journal_id
    }

    pub fn timestamp(&self) -> (r: Timestamp)
        ensures
            r == self.timestamp,
    {
        self.timestamp
    }

    /// The text of the identifier.
    pub fn to_string(&self) -> (r: String)
        requires
            self.timestamp.valid(),
        ensures
            r@ == journal_transaction_id_text(*self),
    {
        let head = self.journal_id.to_text();
        let with_space = head.concat(" ");
        let time = timestamp_to_string(self.timestamp);
        with_space.concat(time.as_str())
    }
}

impl JournalId {
    /// The hyphenated text of the identifier.
    pub fn to_text(&self) -> (r: String)
        ensures
            r@ == uuid_text(self.value),
    {
        crate::ids::uuid_to_string(self.value)
    }
}

/// A ledger entry is known by its ledger account and its time.
#[derive(Clone, Copy, Debug, PartialEq, Eq, Structural, Hash)]
pub struct LedgerKey {
    pub ledger_id: AccountId,
    pub timestamp: Timestamp,
}

/// Where a posted journal line went: the ledger entry's key and the account
/// on the line's side.
#[derive(Clone, Copy, Debug, PartialEq, Eq, Structural, Hash)]
pub struct PostingRef {
    pub key: LedgerKey,
    pub account_id: AccountId,
}

/// A column of a journal transaction: the transaction and the template column.
#[derive(Clone, Copy, Debug, PartialEq, Eq, Structural, Hash)]
pub struct JournalTransactionColumnId {
    pub journal_id: JournalId,
    pub timestamp: Timestamp,
    pub template_column_id: TemplateColumnId,
}

/// The text of a column's identifier: the journal's identifier, the time in
/// microseconds, and the template column's identifier, separated by spaces.
pub open spec fn column_id_text(id: JournalTransactionColumnId) -> Seq<char> {
    uuid_text(id.journal_id.value) + " "@ + int_text(id.timestamp.micros as int) + " "@ + uuid_text(
        id.template_column_id.value,
    )
}

impl JournalTransactionColumnId {
    /// The text of the identifier.
    pub fn to_string(&self) -> (r: String)
        ensures
            r@ == column_id_text(*self),
    {
        let a = crate::ids::uuid_to_string(self.journal_id.value).concat(" ");
        let b = a.concat(int_to_string(self.timestamp.micros).as_str()).concat(" ");
        b.concat(crate::ids::uuid_to_string(self.template_column_id.value).as_str())
    }
}

impl KeyEq for AccountId {
    fn key_eq(&self, other: &Self) -> (b: bool) {
        *self == *other
    }
}

impl KeyEq for GeneralLedgerId {
    fn key_eq(&self, other: &Self) -> (b: bool) {
        *self == *other
    }
}

impl KeyEq for PeriodId {
    fn key_eq(&self, other: &Self) -> (b: bool) {
        *self == *other
    }
}

impl KeyEq for InterimPeriodId {
    fn key_eq(&self, other: &Self) -> (b: bool) {
        *self == *other
    }
}

impl KeyEq for JournalId {
    fn key_eq(&self, other: &Self) -> (b: bool) {
        *self == *other
    }
}

impl KeyEq for ColumnTotalId {
    fn key_eq(&self, other: &Self) -> (b: bool) {
        *self == *other
    }
}

impl KeyEq for JournalTransactionId {
    fn key_eq(&self, other: &Self) -> (b: bool) {
        *self == *other
    }
}

impl KeyEq for LedgerKey {
    fn key_eq(&self, other: &Self) -> (b: bool) {
        *self == *other
    }
}

impl KeyEq for LedgerXactTypeCode {
    fn key_eq(&self, other: &Self) -> (b: bool) {
        *self == *other
    }
}

impl KeyEq for JournalTransactionColumnId {
    fn key_eq(&self, other: &Self) -> (b: bool) {
        *self == *other
    }
}

} // verus!
