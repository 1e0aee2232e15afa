//! The interfaces that storage back ends implement, and the table names of
//! the stored resources.
use vstd::prelude::*;
use vstd::string::StringExecFns;
use crate::calendar::{MAX_DAYS, MIN_DAYS};
use crate::domain::{InterimType, JournalTransactionId, PostingRef};
use crate::entity::{
    accounting_period, general_ledger, interim_accounting_period, journal, journal_entry,
    journal_transaction, journal_transaction_line_account, journal_transaction_line_ledger,
    journal_transaction_record, ledger, ledger_intermediate, ledger_leaf, ledger_line,
    ledger_transaction, ledger_xact_type,
};
use crate::ids::AccountId;
use crate::table::opt_ref_seq;

pub use crate::error::OrmError;
use crate::error::{error_matches, ErrorKind};

verus! {

/// A stored resource and the name of its table.
pub trait Resource {
    const NAME: &'static str;
}

impl Resource for general_ledger::ActiveModel {
    const NAME: &'static str = "general_ledger";
}

impl Resource for journal::ActiveModel {
    const NAME: &'static str = "journal";
}

/// A journal transaction with its lines is only handed to and from callers;
/// no table holds it as such.
impl Resource for journal_transaction::ActiveModel {
    const NAME: &'static str = "";
}

impl Resource for journal_transaction_record::ActiveModel {
    const NAME: &'static str = "journal_transaction_record";
}

impl Resource for journal_transaction_line_ledger::ActiveModel {
    const NAME: &'static str = "journal_transaction_line_ledger";
}

impl Resource for journal_transaction_line_account::ActiveModel {
    const NAME: &'static str = "journal_transaction_line_account";
}

impl Resource for ledger::ActiveModel {
    const NAME: &'static str = "ledger";
}

impl Resource for ledger_intermediate::ActiveModel {
    const NAME: &'static str = "ledger_intermediate";
}

impl Resource for ledger_leaf::ActiveModel {
    const NAME: &'static str = "ledger_leaf";
}

impl Resource for ledger_line::ActiveModel {
    const NAME: &'static str = "ledger_line";
}

impl Resource for ledger_transaction::ActiveModel {
    const NAME: &'static str = "ledger_transaction";
}

impl Resource for ledger_xact_type::ActiveModel {
    const NAME: &'static str = "ledger_transaction_type";
}

impl Resource for accounting_period::ActiveModel {
    const NAME: &'static str = "accounting_period";
}

impl Resource for interim_accounting_period::ActiveModel {
    const NAME: &'static str = "interim_accounting_period";
}

/// A storage back end that can lay out its own schema.
pub trait Repository {
    fn create_schema(&self) -> Result<(), OrmError>;
}

/// Laying out the interim periods of the fiscal years.
pub trait Period {
    fn create_interim_periods();
}

/// The operations of `ResourceOperations`, by name.
#[derive(Clone, Copy, Debug, PartialEq, Eq, Structural)]
pub enum Operation {
    Insert,
    Get,
    Search,
    Save,
    Delete,
    Archive,
    Unarchive,
}

/// Storing, reading, searching, saving, deleting and archiving one kind of
/// resource. A back end carries out the operations that `supports` names;
/// the others may not be called. The provided saving, deleting and
/// archiving answer with an internal error, for a back end that names such
/// an operation and leaves it to them.
pub trait ResourceOperations<M, AM, I> {
    /// The back end's invariant.
    spec fn valid(&self) -> bool;

    /// The operations that the back end carries out for this resource.
    spec fn supports(op: Operation) -> bool;

    /// What a read of the records with the given identifiers (all of them
    /// where none are given) answers.
    spec fn got(&self, ids: Option<Seq<I>>, r: Result<Vec<AM>, OrmError>) -> bool;

    /// What a search with the domain answers.
    spec fn searched(&self, domain: Seq<char>, r: Result<Vec<AM>, OrmError>) -> bool;

    fn insert(&mut self, model: &M) -> (r: Result<AM, OrmError>)
        requires
            <Self as ResourceOperations<M, AM, I>>::valid(&*old(self)),
            <Self as ResourceOperations<M, AM, I>>::supports(Operation::Insert),
        ensures
            <Self as ResourceOperations<M, AM, I>>::valid(&*final(self)),
    ;

    fn get(&self, ids: Option<&Vec<I>>) -> (r: Result<Vec<AM>, OrmError>)
        requires
            <Self as ResourceOperations<M, AM, I>>::valid(self),
            <Self as ResourceOperations<M, AM, I>>::supports(Operation::Get),
        ensures
            <Self as ResourceOperations<M, AM, I>>::got(self, opt_ref_seq(ids), r),
    ;

    fn search(&self, domain: &str) -> (r: Result<Vec<AM>, OrmError>)
        requires
            <Self as ResourceOperations<M, AM, I>>::valid(self),
            <Self as ResourceOperations<M, AM, I>>::supports(Operation::Search),
        ensures
            <Self as ResourceOperations<M, AM, I>>::searched(self, domain@, r),
    ;

    fn save(&mut self, model: &AM) -> (r: Result<u64, OrmError>)
        requires
            <Self as ResourceOperations<M, AM, I>>::valid(&*old(self)),
            <Self as ResourceOperations<M, AM, I>>::supports(Operation::Save),
        ensures
            <Self as ResourceOperations<M, AM, I>>::valid(&*final(self)),
        default_ensures
            <Self as ResourceOperations<M, AM, I>>::valid(&*final(self)),
            r matches Err(e) && error_matches(e, ErrorKind::Internal, "save is not carried out by this back end"@),
    {
        Err(OrmError::Internal(String::from_str("save is not carried out by this back end")))
    }

    fn delete(&mut self, id: I) -> (r: Result<u64, OrmError>)
        requires
            <Self as ResourceOperations<M, AM, I>>::valid(&*old(self)),
            <Self as ResourceOperations<M, AM, I>>::supports(Operation::Delete),
        ensures
            <Self as ResourceOperations<M, AM, I>>::valid(&*final(self)),
        default_ensures
            <Self as ResourceOperations<M, AM, I>>::valid(&*final(self)),
            r matches Err(e) && error_matches(e, ErrorKind::Internal, "delete is not carried out by this back end"@),
    {
        Err(OrmError::Internal(String::from_str("delete is not carried out by this back end")))
    }

    fn archive(&mut self, id: I) -> (r: Result<u64, OrmError>)
        requires
            <Self as ResourceOperations<M, AM, I>>::valid(&*old(self)),
            <Self as ResourceOperations<M, AM, I>>::supports(Operation::Archive),
        ensures
            <Self as ResourceOperations<M, AM, I>>::valid(&*final(self)),
        default_ensures
            <Self as ResourceOperations<M, AM, I>>::valid(&*final(self)),
            r matches Err(e) && error_matches(e, ErrorKind::Internal, "archive is not carried out by this back end"@),
    {
        Err(OrmError::Internal(String::from_str("archive is not carried out by this back end")))
    }

    fn unarchive(&mut self, id: I) -> (r: Result<u64, OrmError>)
        requires
            <Self as ResourceOperations<M, AM, I>>::valid(&*old(self)),
            <Self as ResourceOperations<M, AM, I>>::supports(Operation::Unarchive),
        ensures
            <Self as ResourceOperations<M, AM, I>>::valid(&*final(self)),
        default_ensures
            <Self as ResourceOperations<M, AM, I>>::valid(&*final(self)),
            r matches Err(e) && error_matches(e, ErrorKind::Internal, "unarchive is not carried out by this back end"@),
    {
        Err(OrmError::Internal(String::from_str("unarchive is not carried out by this back end")))
    }
}

/// Setting up a general ledger and adding journals, ledger accounts and
/// fiscal years to it.
pub trait GeneralLedgerService {
    spec fn valid(&self) -> bool;

    /// A ledger account with the identifier is stored.
    spec fn has_ledger(&self, id: AccountId) -> bool;

    fn init(&mut self, model: &general_ledger::Model) -> (r: Result<general_ledger::ActiveModel, OrmError>)
        requires
            old(self).valid(),
        ensures
            final(self).valid(),
    ;

    fn add_journal(&mut self, model: &journal::Model) -> (r: Result<journal::ActiveModel, OrmError>)
        requires
            old(self).valid(),
        ensures
            final(self).valid(),
    ;

    fn add_ledger(&mut self, model: &ledger::Model) -> (r: Result<ledger::ActiveModel, OrmError>)
        requires
            old(self).valid(),
            model.parent_id matches Some(pid) ==> old(self).has_ledger(pid),
        ensures
            final(self).valid(),
    ;

    fn add_period(&mut self, model: &accounting_period::Model) -> (r: Result<accounting_period::ActiveModel, OrmError>)
        requires
            old(self).valid(),
            model.period_type == InterimType::CalendarMonth,
            MIN_DAYS <= model.period_start.days <= MAX_DAYS - 365,
        ensures
            final(self).valid(),
    ;
}

/// Creating journals, adding transactions to them and posting those.
pub trait JournalService {
    spec fn valid(&self) -> bool;

    /// What creating a journal leaves (`after`) and answers.
    spec fn journal_made(&self, after: &Self, model: journal::Model, r: Result<journal::ActiveModel, OrmError>) -> bool;

    fn create(&mut self, model: &journal::Model) -> (r: Result<journal::ActiveModel, OrmError>)
        requires
            old(self).valid(),
        ensures
            final(self).valid(),
            <Self as JournalService>::journal_made(&*old(self), &*final(self), *model, r),
    ;

    fn add_transaction(&mut self, model: &journal_transaction::Model) -> (r: Result<journal_transaction::ActiveModel, OrmError>)
        requires
            old(self).valid(),
            model.timestamp.valid(),
        ensures
            final(self).valid(),
    ;

    fn post_transaction(&mut self, id: JournalTransactionId) -> (r: Result<bool, OrmError>)
        requires
            old(self).valid(),
        ensures
            final(self).valid(),
    ;
}

/// Creating journal transactions and reading them back.
pub trait JournalTransactionService {
    spec fn valid(&self) -> bool;

    /// What creating a journal transaction leaves (`after`) and answers.
    spec fn transaction_made(
        &self,
        after: &Self,
        model: journal_transaction::Model,
        r: Result<journal_transaction::ActiveModel, OrmError>,
    ) -> bool;

    fn create(&mut self, model: &journal_transaction::Model) -> (r: Result<journal_transaction::ActiveModel, OrmError>)
        requires
            old(self).valid(),
            model.timestamp.valid(),
        ensures
            final(self).valid(),
            <Self as JournalTransactionService>::transaction_made(&*old(self), &*final(self), *model, r),
    ;

    fn retrieve(&self, ids: Option<&Vec<JournalTransactionId>>) -> (r: Result<Vec<journal_transaction::ActiveModel>, OrmError>)
        requires
            self.valid(),
    ;
}

/// Creating ledger accounts and reading what was posted to them.
pub trait LedgerService {
    spec fn valid(&self) -> bool;

    /// A ledger account with the identifier is stored.
    spec fn has_ledger(&self, id: AccountId) -> bool;

    /// What creating a ledger account leaves (`after`) and answers.
    spec fn ledger_made(&self, after: &Self, model: ledger::Model, r: Result<ledger::ActiveModel, OrmError>) -> bool;

    fn create(&mut self, model: &ledger::Model) -> (r: Result<ledger::ActiveModel, OrmError>)
        requires
            old(self).valid(),
            model.parent_id matches Some(pid) ==> old(self).has_ledger(pid),
        ensures
            final(self).valid(),
            <Self as LedgerService>::ledger_made(&*old(self), &*final(self), *model, r),
    ;

    fn journal_entries(&self, id: AccountId) -> (r: Result<Vec<journal_entry::ActiveModel>, OrmError>)
        requires
            self.valid(),
    ;

    fn journal_entry_by_posting_ref(&self, posting_ref: PostingRef) -> (r: Result<Option<journal_entry::ActiveModel>, OrmError>)
        requires
            self.valid(),
    ;
}

/// Creating fiscal years.
pub trait AccountingPeriodService {
    spec fn valid(&self) -> bool;

    /// What creating a fiscal year leaves (`after`) and answers.
    spec fn period_made(
        &self,
        after: &Self,
        model: accounting_period::Model,
        r: Result<accounting_period::ActiveModel, OrmError>,
    ) -> bool;

    fn create(&mut self, model: &accounting_period::Model) -> (r: Result<accounting_period::ActiveModel, OrmError>)
        requires
            old(self).valid(),
            model.period_type == InterimType::CalendarMonth,
            MIN_DAYS <= model.period_start.days <= MAX_DAYS - 365,
        ensures
            final(self).valid(),
            <Self as AccountingPeriodService>::period_made(&*old(self), &*final(self), *model, r),
    ;
}

} // verus!
