//! The in-memory store: its tables, their invariant, and the operations on them.
use vstd::prelude::*;
use vstd::string::StringExecFns;
use crate::calendar::{fiscal_year_end, fiscal_year_end_of, Date, Timestamp, MAX_DAYS, MIN_DAYS, MIN_MICROS};
use crate::domain::{
    column_id_text, journal_transaction_id_text, InterimType, PostingRef, JournalTransactionColumnId, JournalTransactionId, TransactionState, LedgerKey, LedgerType, LedgerXactTypeCode, XactType,
};
use crate::entity::{
    accounting_period, general_ledger, interim_accounting_period, journal, journal_entry,
    journal_transaction, journal_transaction_column_account_cr, journal_transaction_column_ledger_drcr,
    journal_transaction_line, journal_transaction_special_column,
    journal_transaction_line_account, journal_transaction_line_ledger,
    journal_transaction_record, ledger, ledger_intermediate, ledger_leaf, ledger_line,
    ledger_transaction, ledger_xact_type,
};
use crate::error::{error_matches, ErrorKind, OrmError};
use crate::orm::{
    AccountingPeriodService, GeneralLedgerService, JournalService, JournalTransactionService,
    LedgerService, Operation, ResourceOperations,
};
use crate::search_domain::{parse_domain, parse_domain_text, ColumnDomain};
use crate::text::{digits, nat_to_string};
use crate::ids::{uuid_text, TemplateColumnId, AccountId, GeneralLedgerId, InterimPeriodId, JournalId, PeriodId};
use crate::posting::{
    copy_lines, line_pairs, mark_lines, pair_lines, posted_lines, posted_refs, posted_refs_of,
    posting_key, entry_of, xact_of, store_entries, store_xacts, Line, entry_under_own_key, lemma_store_keys,
};
use crate::table::{
    has_key, key_index, lemma_key_index, lemma_lookup_upsert_other, lemma_map_rows_keys,
    lemma_map_rows_upsert, lemma_upsert_forall, lemma_upsert_unique, lookup, map_rows,
    copy_vec, flatten_values, is_wanted, lemma_map_rows_set_at, opt_ref_seq, opt_seq, rows_with_keys,
    all_values, values_with_ids, select, select_rows, unique_keys, upsert, values, wanted, keyed_by_id, Record, Table,
    lemma_select_after_upsert,
};

verus! {

/// No two ledger accounts have the same number.
pub open spec fn ledger_numbers_unique(ls: Seq<(AccountId, ledger::ActiveModel)>) -> bool {
    forall|i: int, j: int|
        #![trigger ls[i], ls[j]]
        0 <= i < ls.len() && 0 <= j < ls.len() && i != j ==> ls[i].1.ledger_no@ != ls[j].1.ledger_no@
}

/// Storing under its identifier an account whose number no stored account
/// has keeps the accounts keyed by identifier, each once, and their numbers
/// distinct.
proof fn lemma_store_ledger(ls: Seq<(AccountId, ledger::ActiveModel)>, l: ledger::ActiveModel)
    requires
        unique_keys(ls),
        keyed_by_id(ls),
        ledger_numbers_unique(ls),
        !has_ledger_no(ls, l.ledger_no@),
    ensures
        unique_keys(upsert(ls, l.id, l)),
        keyed_by_id(upsert(ls, l.id, l)),
        ledger_numbers_unique(upsert(ls, l.id, l)),
{
    lemma_select_after_upsert(ls, l);
    let r = upsert(ls, l.id, l);
    let at = if has_key(ls, l.id) { key_index(ls, l.id) } else { ls.len() as int };
    assert forall|i: int, j: int|
        #![trigger r[i], r[j]]
        0 <= i < r.len() && 0 <= j < r.len() && i != j implies r[i].1.ledger_no@ != r[j].1.ledger_no@ by {
        if i == at {
            assert(r[j] == ls[j]);
            assert(ls[j].1.ledger_no@ != l.ledger_no@);
        } else if j == at {
            assert(r[i] == ls[i]);
            assert(ls[i].1.ledger_no@ != l.ledger_no@);
        } else {
            assert(r[i] == ls[i] && r[j] == ls[j]);
        }
    }
}

/// Ledger lines and account lines are stored only under the identifiers of
/// stored journal transactions.
#[verifier::opaque]
pub open spec fn lines_of_stored_xacts(
    lines: Seq<(JournalTransactionId, JournalTxLines)>,
    account_lines: Seq<(JournalTransactionId, JournalTxAccountLines)>,
    xacts: Seq<(JournalTransactionId, journal_transaction_record::ActiveModel)>,
) -> bool {
    &&& forall|k: JournalTransactionId| #[trigger] has_key(lines, k) ==> has_key(xacts, k)
    &&& forall|k: JournalTransactionId| #[trigger] has_key(account_lines, k) ==> has_key(xacts, k)
}

/// Every account-credit column is stored under its own identifier.
pub open spec fn account_cr_keyed(
    rows: Seq<(JournalTransactionColumnId, journal_transaction_column_account_cr::ActiveModel)>,
) -> bool {
    forall|i: int| 0 <= i < rows.len() ==> #[trigger] rows[i].0 == rows[i].1.spec_id()
}

/// No two journals have the same code.
pub open spec fn journal_codes_unique(js: Seq<(JournalId, journal::ActiveModel)>) -> bool {
    forall|i: int, j: int|
        #![trigger js[i], js[j]]
        0 <= i < js.len() && 0 <= j < js.len() && i != j ==> js[i].1.code@ != js[j].1.code@
}

/// No two fiscal years have the same year.
pub open spec fn fiscal_years_unique(ps: Seq<(PeriodId, accounting_period::ActiveModel)>) -> bool {
    forall|i: int, j: int|
        #![trigger ps[i], ps[j]]
        0 <= i < ps.len() && 0 <= j < ps.len() && i != j ==> ps[i].1.fiscal_year != ps[j].1.fiscal_year
}

/// The ledger lines of one journal transaction.
#[derive(Clone, Debug)]
pub struct JournalTxLines {
    pub list: Vec<journal_transaction_line_ledger::ActiveModel>,
}

impl JournalTxLines {
    pub fn new() -> (r: Self)
        ensures
            r.list@ == Seq::<journal_transaction_line_ledger::ActiveModel>::empty(),
    {
        Self { list: Vec::<journal_transaction_line_ledger::ActiveModel>::new() }
    }
}

/// The subsidiary-account lines of one journal transaction.
#[derive(Clone, Debug)]
pub struct JournalTxAccountLines {
    pub list: Vec<journal_transaction_line_account::ActiveModel>,
}

impl JournalTxAccountLines {
    pub fn new() -> (r: Self)
        ensures
            r.list@ == Seq::<journal_transaction_line_account::ActiveModel>::empty(),
    {
        Self { list: Vec::<journal_transaction_line_account::ActiveModel>::new() }
    }
}

/// The tables of the store.
pub struct Inner {
    general_ledger: Table<GeneralLedgerId, general_ledger::ActiveModel>,
    ledger: Table<AccountId, ledger::ActiveModel>,
    ledger_intermediate: Table<AccountId, ledger_intermediate::ActiveModel>,
    ledger_account: Table<AccountId, ledger_leaf::ActiveModel>,
    period: Table<PeriodId, accounting_period::ActiveModel>,
    interim_period: Table<InterimPeriodId, interim_accounting_period::ActiveModel>,
    journal: Table<JournalId, journal::ActiveModel>,
    journal_xact: Table<JournalTransactionId, journal_transaction_record::ActiveModel>,
    journal_xact_line: Table<JournalTransactionId, JournalTxLines>,
    journal_xact_line_account: Table<JournalTransactionId, JournalTxAccountLines>,
    journal_entry: Table<LedgerKey, ledger_line::ActiveModel>,
    ledger_xact: Table<LedgerKey, ledger_transaction::ActiveModel>,
    ledger_xact_type: Table<LedgerXactTypeCode, ledger_xact_type::ActiveModel>,
    journal_xact_column_account_cr: Table<JournalTransactionColumnId, journal_transaction_column_account_cr::ActiveModel>,
    journal_xact_column_ledger_drcr: Table<JournalTransactionColumnId, Vec<journal_transaction_column_ledger_drcr::ActiveModel>>,
    journal_xact_special_column: Table<JournalTransactionId, Vec<journal_transaction_special_column::ActiveModel>>,
}

/// The lines of a stored list of ledger lines.
pub open spec fn ledger_line_list(v: JournalTxLines) -> Seq<journal_transaction_line_ledger::ActiveModel> {
    v.list@
}

/// The lines of a stored list of subsidiary-account lines.
pub open spec fn account_line_list(v: JournalTxAccountLines) -> Seq<journal_transaction_line_account::ActiveModel> {
    v.list@
}

/// A ledger transaction is stored under the key that its own fields make.
pub open spec fn xact_under_own_key(r: (LedgerKey, ledger_transaction::ActiveModel)) -> bool {
    r.1.ledger_id == r.0.ledger_id && r.1.timestamp == r.0.timestamp
}

/// The stored kind of transaction between ledger accounts.
pub open spec fn account_ledger_type() -> ledger_xact_type::ActiveModel {
    ledger_xact_type::ActiveModel { code: LedgerXactTypeCode::spec_account_ledger() }
}

impl Inner {
    pub closed spec fn general_ledgers(&self) -> Seq<(GeneralLedgerId, general_ledger::ActiveModel)> {
        self.general_ledger.rows()
    }

    pub closed spec fn ledgers(&self) -> Seq<(AccountId, ledger::ActiveModel)> {
        self.ledger.rows()
    }

    pub closed spec fn intermediate_ledgers(&self) -> Seq<(AccountId, ledger_intermediate::ActiveModel)> {
        self.ledger_intermediate.rows()
    }

    pub closed spec fn leaf_ledgers(&self) -> Seq<(AccountId, ledger_leaf::ActiveModel)> {
        self.ledger_account.rows()
    }

    pub closed spec fn periods(&self) -> Seq<(PeriodId, accounting_period::ActiveModel)> {
        self.period.rows()
    }

    pub closed spec fn interim_periods(&self) -> Seq<(InterimPeriodId, interim_accounting_period::ActiveModel)> {
        self.interim_period.rows()
    }

    pub closed spec fn journals(&self) -> Seq<(JournalId, journal::ActiveModel)> {
        self.journal.rows()
    }

    pub closed spec fn journal_xacts(&self) -> Seq<(JournalTransactionId, journal_transaction_record::ActiveModel)> {
        self.journal_xact.rows()
    }

    pub closed spec fn journal_xact_lines(&self) -> Seq<(JournalTransactionId, Seq<journal_transaction_line_ledger::ActiveModel>)> {
        map_rows(self.journal_xact_line.rows(), |v: JournalTxLines| ledger_line_list(v))
    }

    pub closed spec fn journal_xact_line_accounts(&self) -> Seq<(JournalTransactionId, Seq<journal_transaction_line_account::ActiveModel>)> {
        map_rows(self.journal_xact_line_account.rows(), |v: JournalTxAccountLines| account_line_list(v))
    }

    pub closed spec fn journal_entries(&self) -> Seq<(LedgerKey, ledger_line::ActiveModel)> {
        self.journal_entry.rows()
    }

    pub closed spec fn ledger_xacts(&self) -> Seq<(LedgerKey, ledger_transaction::ActiveModel)> {
        self.ledger_xact.rows()
    }

    pub closed spec fn ledger_xact_types(&self) -> Seq<(LedgerXactTypeCode, ledger_xact_type::ActiveModel)> {
        self.ledger_xact_type.rows()
    }

    pub closed spec fn account_cr_columns(&self) -> Seq<(JournalTransactionColumnId, journal_transaction_column_account_cr::ActiveModel)> {
        self.journal_xact_column_account_cr.rows()
    }

    pub closed spec fn ledger_drcr_columns(&self) -> Seq<(JournalTransactionColumnId, Seq<journal_transaction_column_ledger_drcr::ActiveModel>)> {
        map_rows(self.journal_xact_column_ledger_drcr.rows(), |v: Vec<journal_transaction_column_ledger_drcr::ActiveModel>| v@)
    }

    pub closed spec fn special_columns(&self) -> Seq<(JournalTransactionId, Seq<journal_transaction_special_column::ActiveModel>)> {
        map_rows(self.journal_xact_special_column.rows(), |v: Vec<journal_transaction_special_column::ActiveModel>| v@)
    }

    /// In a well-formed store every table holds each key in one row, the
    /// ledger entries and ledger transactions have the same keys, ledger
    /// accounts, journals and fiscal years are stored under their own
    /// identifiers, and no two
    /// ledger accounts share a number, no two journals a code, no two fiscal
    /// years a year. Every operation of the store keeps it well-formed.
    pub proof fn lemma_tables(&self)
        requires
            self.wf(),
        ensures
            unique_keys(self.general_ledgers()),
            unique_keys(self.ledgers()),
            unique_keys(self.periods()),
            unique_keys(self.journals()),
            unique_keys(self.journal_xacts()),
            unique_keys(self.journal_xact_lines()),
            unique_keys(self.journal_entries()),
            unique_keys(self.ledger_xacts()),
            forall|k: LedgerKey| has_key(self.journal_entries(), k) <==> #[trigger] has_key(self.ledger_xacts(), k),
            keyed_by_id(self.ledgers()),
            keyed_by_id(self.journals()),
            keyed_by_id(self.periods()),
            unique_keys(self.account_cr_columns()),
            account_cr_keyed(self.account_cr_columns()),
            unique_keys(self.special_columns()),
            forall|i: int| 0 <= i < self.ledger_xacts().len() ==> #[trigger] xact_under_own_key(self.ledger_xacts()[i]),
            forall|i: int| 0 <= i < self.journal_entries().len() ==> #[trigger] entry_under_own_key(self.journal_entries()[i]),
            forall|k: JournalTransactionId| #[trigger] has_key(self.journal_xact_lines(), k) ==> has_key(self.journal_xacts(), k),
            forall|k: JournalTransactionId| #[trigger] has_key(self.journal_xact_line_accounts(), k) ==> has_key(self.journal_xacts(), k),
            ledger_numbers_unique(self.ledgers()),
            journal_codes_unique(self.journals()),
            fiscal_years_unique(self.periods()),
    {
        assert forall|k: LedgerKey| has_key(self.journal_entries(), k) <==> #[trigger] has_key(self.ledger_xacts(), k) by {
            if has_key(self.journal_entries(), k) {
                assert(has_key(self.journal_entry.rows(), k));
            }
            if has_key(self.ledger_xacts(), k) {
                assert(has_key(self.ledger_xact.rows(), k));
            }
        }
        lemma_map_rows_keys(
            self.journal_xact_special_column.rows(),
            |v: Vec<journal_transaction_special_column::ActiveModel>| v@,
            JournalTransactionId { journal_id: JournalId { value: 0 }, timestamp: Timestamp { micros: 0 } },
        );
        reveal(lines_of_stored_xacts);
        assert forall|k: JournalTransactionId| #[trigger] has_key(self.journal_xact_lines(), k) implies has_key(self.journal_xacts(), k) by {
            lemma_map_rows_keys(self.journal_xact_line.rows(), |v: JournalTxLines| ledger_line_list(v), k);
        }
        assert forall|k: JournalTransactionId| #[trigger] has_key(self.journal_xact_line_accounts(), k) implies has_key(self.journal_xacts(), k) by {
            lemma_map_rows_keys(self.journal_xact_line_account.rows(), |v: JournalTxAccountLines| account_line_list(v), k);
        }
    }

    /// The invariant of the store: no key twice in a table; the one kind of
    /// ledger transaction is stored; every ledger entry and every ledger
    /// transaction is stored under its own key; ledger entries and ledger transactions come in pairs
    /// under the same keys; lines are stored only for stored journal
    /// transactions; account-credit columns are stored under their own
    /// identifiers; ledger accounts, journals and fiscal years are
    /// stored under their own identifiers; and no two ledger accounts share a
    /// number, no two journals a code, no two fiscal years a year.
    pub closed spec fn wf(&self) -> bool {
        &&& self.general_ledger.wf()
        &&& self.ledger.wf()
        &&& self.ledger_intermediate.wf()
        &&& self.ledger_account.wf()
        &&& self.period.wf()
        &&& self.interim_period.wf()
        &&& self.journal.wf()
        &&& self.journal_xact.wf()
        &&& self.journal_xact_line.wf()
        &&& self.journal_xact_line_account.wf()
        &&& self.journal_entry.wf()
        &&& self.ledger_xact.wf()
        &&& self.ledger_xact_type.wf()
        &&& self.journal_xact_column_account_cr.wf()
        &&& self.journal_xact_column_ledger_drcr.wf()
        &&& self.journal_xact_special_column.wf()
        &&& self.ledger_xact_type.rows() == seq![(LedgerXactTypeCode::spec_account_ledger(), account_ledger_type())]
        &&& forall|i: int| 0 <= i < self.ledger_xact.rows().len() ==> #[trigger] xact_under_own_key(self.ledger_xact.rows()[i])
        &&& forall|k: LedgerKey| #[trigger] has_key(self.ledger_xact.rows(), k) ==> has_key(self.journal_entry.rows(), k)
        &&& forall|k: LedgerKey| #[trigger] has_key(self.journal_entry.rows(), k) ==> has_key(self.ledger_xact.rows(), k)
        &&& keyed_by_id(self.ledger.rows())
        &&& keyed_by_id(self.journal.rows())
        &&& keyed_by_id(self.period.rows())
        &&& account_cr_keyed(self.journal_xact_column_account_cr.rows())
        &&& forall|i: int| 0 <= i < self.journal_entry.rows().len() ==> #[trigger] entry_under_own_key(self.journal_entry.rows()[i])
        &&& lines_of_stored_xacts(self.journal_xact_line.rows(), self.journal_xact_line_account.rows(), self.journal_xact.rows())
        &&& ledger_numbers_unique(self.ledger.rows())
        &&& journal_codes_unique(self.journal.rows())
        &&& fiscal_years_unique(self.period.rows())
    }
}

/// The store.
pub struct MemoryStore {
    inner: Inner,
}

impl MemoryStore {
    /// The tables of the store.
    pub closed spec fn state(&self) -> Inner {
        self.inner
    }

    /// The invariant of the store.
    pub open spec fn wf(&self) -> bool {
        self.state().wf()
    }
}

/// Stores the entries and transactions of the pairs, in pair order.
fn store_postings(
    entries: &mut Table<LedgerKey, ledger_line::ActiveModel>,
    xacts: &mut Table<LedgerKey, ledger_transaction::ActiveModel>,
    pairs: &Vec<(Line, Line)>,
    code: LedgerXactTypeCode,
    jid: JournalTransactionId,
)
    requires
        old(entries).wf(),
        old(xacts).wf(),
        forall|i: int| 0 <= i < old(xacts).rows().len() ==> #[trigger] xact_under_own_key(old(xacts).rows()[i]),
        forall|k: LedgerKey| #[trigger] has_key(old(xacts).rows(), k) ==> has_key(old(entries).rows(), k),
        forall|k: LedgerKey| #[trigger] has_key(old(entries).rows(), k) ==> has_key(old(xacts).rows(), k),
    ensures
        final(entries).wf(),
        final(xacts).wf(),
        final(entries).rows() == store_entries(old(entries).rows(), pairs@, code, jid),
        final(xacts).rows() == store_xacts(old(xacts).rows(), pairs@),
        forall|i: int| 0 <= i < final(xacts).rows().len() ==> #[trigger] xact_under_own_key(final(xacts).rows()[i]),
        forall|k: LedgerKey| #[trigger] has_key(final(xacts).rows(), k) ==> has_key(final(entries).rows(), k),
        forall|k: LedgerKey| #[trigger] has_key(final(entries).rows(), k) ==> has_key(final(xacts).rows(), k),
{
    let ghost e0 = entries.rows();
    let ghost x0 = xacts.rows();
    let mut i: usize = 0;
    while i < pairs.len()
        invariant
            i <= pairs@.len(),
            entries.wf(),
            xacts.wf(),
            entries.rows() == store_entries(e0, pairs@.take(i as int), code, jid),
            xacts.rows() == store_xacts(x0, pairs@.take(i as int)),
            forall|j: int| 0 <= j < xacts.rows().len() ==> #[trigger] xact_under_own_key(xacts.rows()[j]),
            forall|k: LedgerKey| #[trigger] has_key(xacts.rows(), k) ==> has_key(entries.rows(), k),
            forall|k: LedgerKey| #[trigger] has_key(entries.rows(), k) ==> has_key(xacts.rows(), k),
        decreases pairs@.len() - i,
    {
        let (cr, dr) = pairs[i];
        let key = LedgerKey { ledger_id: cr.ledger_id, timestamp: cr.timestamp };
        let entry = ledger_line::ActiveModel {
            ledger_id: key.ledger_id,
            timestamp: key.timestamp,
            ledger_xact_type_code: code,
            amount: cr.amount,
            journal_ref: jid,
        };
        let tx_dr = ledger_transaction::ActiveModel {
            ledger_id: key.ledger_id,
            timestamp: key.timestamp,
            ledger_dr_id: dr.ledger_id,
        };
        let ghost e1 = entries.rows();
        let ghost x1 = xacts.rows();
        proof {
            assert(pairs@.take(i + 1).drop_last() =~= pairs@.take(i as int));
            assert(pairs@.take(i + 1).last() == pairs@[i as int]);
            lemma_upsert_unique(e1, key, entry);
            lemma_upsert_unique(x1, key, tx_dr);
            lemma_upsert_forall(x1, key, tx_dr, |r: (LedgerKey, ledger_transaction::ActiveModel)| xact_under_own_key(r));
            assert forall|k: LedgerKey| #[trigger] has_key(upsert(x1, key, tx_dr), k) implies has_key(upsert(e1, key, entry), k) by {
                if k != key {
                    lemma_lookup_upsert_other(x1, key, tx_dr, k);
                    lemma_lookup_upsert_other(e1, key, entry, k);
                }
            }
            assert forall|k: LedgerKey| #[trigger] has_key(upsert(e1, key, entry), k) implies has_key(upsert(x1, key, tx_dr), k) by {
                if k != key {
                    lemma_lookup_upsert_other(x1, key, tx_dr, k);
                    lemma_lookup_upsert_other(e1, key, entry, k);
                }
            }
        }
        entries.insert(key, entry);
        xacts.insert(key, tx_dr);
        i = i + 1;
    }
    assert(pairs@.take(pairs@.len() as int) =~= pairs@);
}

impl MemoryStore {
    /// Posts a journal transaction to the ledgers. Its credit lines and debit
    /// lines are paired in order; each pair stores a ledger entry for the
    /// credit line and a ledger transaction naming the debit account, both
    /// under the credit line's account and time; and the stored lines that were
    /// paired are marked as posted. Returns whether the transaction has lines
    /// in the store; where it has none, nothing changes.
    pub fn post_journal_transaction(&mut self, jxact_id: JournalTransactionId) -> (r: bool)
        requires
            old(self).wf(),
        ensures
            final(self).wf(),
            r == has_key(old(self).state().journal_xact_lines(), jxact_id),
            !r ==> final(self).state() == old(self).state(),
            r ==> posted_state(old(self).state(), final(self).state(), jxact_id),
    {
        let code = LedgerXactTypeCode::account_ledger();
        proof {
            assert(self.inner.ledger_xact_type.rows()[0].0 == code);
            lemma_key_index(self.inner.ledger_xact_type.rows(), 0);
        }
        let xact_type = *self.inner.ledger_xact_type.get(&code).unwrap();
        let idx = match self.inner.journal_xact_line.find(&jxact_id) {
            None => {
                proof {
                    lemma_map_rows_keys(self.inner.journal_xact_line.rows(), |v: JournalTxLines| ledger_line_list(v), jxact_id);
                }
                return false;
            },
            Some(i) => i,
        };
        let ghost old_inner = self.inner;
        proof {
            lemma_map_rows_keys(self.inner.journal_xact_line.rows(), |v: JournalTxLines| ledger_line_list(v), jxact_id);
            lemma_key_index(self.inner.journal_xact_line.rows(), idx as int);
        }
        let lines = copy_lines(&self.inner.journal_xact_line.value_at(idx).list);
        let pairs = pair_lines(&lines);
        let posted = posted_refs_of(&pairs);
        store_postings(&mut self.inner.journal_entry, &mut self.inner.ledger_xact, &pairs, xact_type.code, jxact_id);
        proof {
            lemma_store_keys(old_inner.journal_entry.rows(), old_inner.ledger_xact.rows(), pairs@, xact_type.code, jxact_id);
        }
        let new_lines = mark_lines(&lines, &posted);
        let ghost new_list = new_lines@;
        self.inner.journal_xact_line.set_value_at(idx, JournalTxLines { list: new_lines });
        proof {
            let f = |v: JournalTxLines| ledger_line_list(v);
            let rows0 = old_inner.journal_xact_line.rows();
            let rows1 = self.inner.journal_xact_line.rows();
            assert(unique_keys(rows1)) by {
                assert forall|a: int, b: int|
                    0 <= a < rows1.len() && 0 <= b < rows1.len() && a != b implies #[trigger] rows1[a].0 != #[trigger] rows1[b].0 by {
                    assert(rows1[a].0 == rows0[a].0);
                    assert(rows1[b].0 == rows0[b].0);
                }
            }
            assert(map_rows(rows1, f) =~= upsert(map_rows(rows0, f), jxact_id, new_list)) by {
                lemma_map_rows_keys(rows0, f, jxact_id);
                let m0 = map_rows(rows0, f);
                assert(m0[idx as int].0 == jxact_id);
                lemma_key_index(m0, idx as int);
            }
            reveal(lines_of_stored_xacts);
            assert forall|k: JournalTransactionId| #[trigger] has_key(rows1, k) implies has_key(self.inner.journal_xact.rows(), k) by {
                let i = choose|i: int| 0 <= i < rows1.len() && #[trigger] rows1[i].0 == k;
                assert(rows0[i].0 == k);
                assert(has_key(rows0, k));
            }
        }
        true
    }
}


/// A key is the one that a ledger transaction's own fields make.
pub open spec fn own_key(t: ledger_transaction::ActiveModel) -> LedgerKey {
    LedgerKey { ledger_id: t.ledger_id, timestamp: t.timestamp }
}

/// The credit side of a ledger entry, as its account sees it.
pub open spec fn credit_entry(e: ledger_line::ActiveModel) -> journal_entry::ActiveModel {
    journal_entry::ActiveModel {
        ledger_id: e.ledger_id,
        timestamp: e.timestamp,
        xact_type: XactType::Cr,
        amount: e.amount,
        journal_ref: e.journal_ref,
    }
}

/// The debit side of a ledger transaction, as its debit account sees it; the
/// amount and the journal come from the paired ledger entry.
pub open spec fn debit_entry(t: ledger_transaction::ActiveModel, counterpart: ledger_line::ActiveModel) -> journal_entry::ActiveModel {
    journal_entry::ActiveModel {
        ledger_id: t.ledger_dr_id,
        timestamp: t.timestamp,
        xact_type: XactType::Dr,
        amount: counterpart.amount,
        journal_ref: counterpart.journal_ref,
    }
}

/// The ledger entries stored under the keys of an account, in table order.
pub open spec fn entries_of_account(
    rows: Seq<(LedgerKey, ledger_line::ActiveModel)>,
    account_id: AccountId,
) -> Seq<ledger_line::ActiveModel> {
    rows.filter(|r: (LedgerKey, ledger_line::ActiveModel)| r.0.ledger_id == account_id).map_values(
        |r: (LedgerKey, ledger_line::ActiveModel)| r.1,
    )
}

/// The ledger transactions that debit an account, in table order.
pub open spec fn xacts_debiting(
    rows: Seq<(LedgerKey, ledger_transaction::ActiveModel)>,
    account_id: AccountId,
) -> Seq<ledger_transaction::ActiveModel> {
    rows.filter(|r: (LedgerKey, ledger_transaction::ActiveModel)| r.1.ledger_dr_id == account_id).map_values(
        |r: (LedgerKey, ledger_transaction::ActiveModel)| r.1,
    )
}

/// Every posting that touches an account, as the account sees it: first the
/// credits of its ledger entries, then the debits of the ledger transactions
/// that name it, each with the amount of its paired entry.
pub open spec fn account_journal_entries(s: Inner, account_id: AccountId) -> Seq<journal_entry::ActiveModel> {
    entries_of_account(s.journal_entries(), account_id).map_values(|e: ledger_line::ActiveModel| credit_entry(e))
        + xacts_debiting(s.ledger_xacts(), account_id).map_values(
        |t: ledger_transaction::ActiveModel| debit_entry(t, lookup(s.journal_entries(), own_key(t)).unwrap()),
    )
}

/// The two sides of the posting stored under a key: the credit of its ledger
/// entry, then the debit of its ledger transaction.
pub open spec fn key_journal_entries(s: Inner, key: LedgerKey) -> Seq<journal_entry::ActiveModel> {
    let le = lookup(s.journal_entries(), key).unwrap();
    let lt = lookup(s.ledger_xacts(), key).unwrap();
    seq![credit_entry(le), debit_entry(lt, le)]
}

/// The side of a posting that a posting reference names: the first of the two
/// sides stored under its key whose account is the reference's account.
pub open spec fn entry_by_ref(s: Inner, key: LedgerKey, account_id: AccountId) -> Option<journal_entry::ActiveModel> {
    let es = key_journal_entries(s, key);
    if es[0].ledger_id == account_id {
        Some(es[0])
    } else if es[1].ledger_id == account_id {
        Some(es[1])
    } else {
        None
    }
}

impl Inner {
    /// The store's tables with only the root ledger account under the given
    /// identifier and the one kind of ledger transaction.
    pub fn with_root(root_id: AccountId) -> (r: Inner)
        ensures
            r.wf(),
            r.general_ledgers().len() == 0,
            r.ledgers().len() == 1,
            r.ledgers()[0].0 == root_id,
            r.ledgers()[0].1.id == root_id,
            r.ledgers()[0].1.ledger_no@ == "0"@,
            r.ledgers()[0].1.ledger_type == LedgerType::Intermediate,
            r.ledgers()[0].1.parent_id == None::<AccountId>,
            r.ledgers()[0].1.name@ == "Root"@,
            r.ledgers()[0].1.currency_code == None::<String>,
            r.intermediate_ledgers().len() == 0,
            r.leaf_ledgers().len() == 0,
            r.periods().len() == 0,
            r.interim_periods().len() == 0,
            r.journals().len() == 0,
            r.journal_xacts().len() == 0,
            r.journal_xact_lines().len() == 0,
            r.journal_xact_line_accounts().len() == 0,
            r.journal_entries().len() == 0,
            r.ledger_xacts().len() == 0,
            r.account_cr_columns().len() == 0,
            r.ledger_drcr_columns().len() == 0,
            r.special_columns().len() == 0,
            r.ledger_xact_types() == seq![(LedgerXactTypeCode::spec_account_ledger(), account_ledger_type())],
    {
        let code = LedgerXactTypeCode::account_ledger();
        let mut res = Inner {
            general_ledger: Table::new(),
            ledger: Table::new(),
            ledger_intermediate: Table::new(),
            ledger_account: Table::new(),
            period: Table::new(),
            interim_period: Table::new(),
            journal: Table::new(),
            journal_xact: Table::new(),
            journal_xact_line: Table::new(),
            journal_xact_line_account: Table::new(),
            journal_entry: Table::new(),
            ledger_xact: Table::new(),
            ledger_xact_type: Table::new(),
            journal_xact_column_account_cr: Table::new(),
            journal_xact_column_ledger_drcr: Table::new(),
            journal_xact_special_column: Table::new(),
        };
        res.ledger_xact_type.insert(code, ledger_xact_type::ActiveModel { code });
        let root = ledger::ActiveModel {
            id: root_id,
            ledger_no: String::from_str("0"),
            ledger_type: LedgerType::Intermediate,
            parent_id: None,
            name: String::from_str("Root"),
            currency_code: None,
        };
        res.ledger.insert(root_id, root);
        proof {
            assert(!has_key(Seq::<(LedgerXactTypeCode, ledger_xact_type::ActiveModel)>::empty(), code));
            assert(!has_key(Seq::<(AccountId, ledger::ActiveModel)>::empty(), root_id));
            assert(res.ledger_xact_type.rows() =~= seq![(code, ledger_xact_type::ActiveModel { code })]);
            assert(res.journal_xact_line.rows().len() == 0);
            assert(res.journal_xact_line_account.rows().len() == 0);
            reveal(lines_of_stored_xacts);
        }
        res
    }

    /// The store's tables with only a root ledger account, under a fresh
    /// random identifier, and the one kind of ledger transaction.
    pub fn new() -> (r: Inner)
        ensures
            r.wf(),
            r.general_ledgers().len() == 0,
            r.ledgers().len() == 1,
            r.ledgers()[0].1.id == r.ledgers()[0].0,
            r.ledgers()[0].1.ledger_no@ == "0"@,
            r.ledgers()[0].1.ledger_type == LedgerType::Intermediate,
            r.ledgers()[0].1.parent_id == None::<AccountId>,
            r.ledgers()[0].1.name@ == "Root"@,
            r.ledgers()[0].1.currency_code == None::<String>,
            r.intermediate_ledgers().len() == 0,
            r.leaf_ledgers().len() == 0,
            r.periods().len() == 0,
            r.interim_periods().len() == 0,
            r.journals().len() == 0,
            r.journal_xacts().len() == 0,
            r.journal_xact_lines().len() == 0,
            r.journal_xact_line_accounts().len() == 0,
            r.journal_entries().len() == 0,
            r.ledger_xacts().len() == 0,
            r.account_cr_columns().len() == 0,
            r.ledger_drcr_columns().len() == 0,
            r.special_columns().len() == 0,
            r.ledger_xact_types() == seq![(LedgerXactTypeCode::spec_account_ledger(), account_ledger_type())],
    {
        Inner::with_root(AccountId::new())
    }
}

impl MemoryStore {
    /// A store that holds only the root ledger account and the one kind of
    /// ledger transaction.
    pub fn new() -> (r: MemoryStore)
        ensures
            r.wf(),
            r.state().general_ledgers().len() == 0,
            r.state().ledgers().len() == 1,
            r.state().ledgers()[0].1.id == r.state().ledgers()[0].0,
            r.state().ledgers()[0].1.ledger_no@ == "0"@,
            r.state().ledgers()[0].1.ledger_type == LedgerType::Intermediate,
            r.state().ledgers()[0].1.parent_id == None::<AccountId>,
            r.state().ledgers()[0].1.name@ == "Root"@,
            r.state().ledgers()[0].1.currency_code == None::<String>,
            r.state().intermediate_ledgers().len() == 0,
            r.state().leaf_ledgers().len() == 0,
            r.state().periods().len() == 0,
            r.state().interim_periods().len() == 0,
            r.state().journals().len() == 0,
            r.state().journal_xacts().len() == 0,
            r.state().journal_xact_lines().len() == 0,
            r.state().journal_xact_line_accounts().len() == 0,
            r.state().journal_entries().len() == 0,
            r.state().ledger_xacts().len() == 0,
            r.state().account_cr_columns().len() == 0,
            r.state().ledger_drcr_columns().len() == 0,
            r.state().special_columns().len() == 0,
            r.state().ledger_xact_types() == seq![(LedgerXactTypeCode::spec_account_ledger(), account_ledger_type())],
    {
        MemoryStore { inner: Inner::new() }
    }

    /// The ledger entries stored under the keys of an account.
    pub fn ledger_entries_by_account_id(&self, account_id: AccountId) -> (r: Vec<ledger_line::ActiveModel>)
        ensures
            r@ == entries_of_account(self.state().journal_entries(), account_id),
    {
        let ghost pred = |r: (LedgerKey, ledger_line::ActiveModel)| r.0.ledger_id == account_id;
        let ghost val = |r: (LedgerKey, ledger_line::ActiveModel)| r.1;
        let ghost rows = self.inner.journal_entry.rows();
        let mut res: Vec<ledger_line::ActiveModel> = Vec::new();
        let mut i: usize = 0;
        while i < self.inner.journal_entry.len()
            invariant
                rows == self.inner.journal_entry.rows(),
                i <= rows.len(),
                pred == (|r: (LedgerKey, ledger_line::ActiveModel)| r.0.ledger_id == account_id),
                val == (|r: (LedgerKey, ledger_line::ActiveModel)| r.1),
                res@ == rows.take(i as int).filter(pred).map_values(val),
            decreases rows.len() - i,
        {
            proof {
                assert(rows.take(i + 1) =~= rows.take(i as int).push(rows[i as int]));
                rows.take(i as int).lemma_filter_push(rows[i as int], pred);
            }
            let key = self.inner.journal_entry.key_at(i);
            if key.ledger_id == account_id {
                res.push(*self.inner.journal_entry.value_at(i));
                proof {
                    assert(rows.take(i as int).filter(pred).push(rows[i as int]).map_values(val) =~=
                        rows.take(i as int).filter(pred).map_values(val).push(rows[i as int].1));
                }
            }
            i = i + 1;
        }
        assert(rows.take(rows.len() as int) =~= rows);
        res
    }

    /// The ledger transactions that debit an account.
    pub fn ledger_transactions_by_account_id(&self, account_id: AccountId) -> (r: Vec<ledger_transaction::ActiveModel>)
        ensures
            r@ == xacts_debiting(self.state().ledger_xacts(), account_id),
    {
        let ghost pred = |r: (LedgerKey, ledger_transaction::ActiveModel)| r.1.ledger_dr_id == account_id;
        let ghost val = |r: (LedgerKey, ledger_transaction::ActiveModel)| r.1;
        let ghost rows = self.inner.ledger_xact.rows();
        let mut res: Vec<ledger_transaction::ActiveModel> = Vec::new();
        let mut i: usize = 0;
        while i < self.inner.ledger_xact.len()
            invariant
                rows == self.inner.ledger_xact.rows(),
                i <= rows.len(),
                pred == (|r: (LedgerKey, ledger_transaction::ActiveModel)| r.1.ledger_dr_id == account_id),
                val == (|r: (LedgerKey, ledger_transaction::ActiveModel)| r.1),
                res@ == rows.take(i as int).filter(pred).map_values(val),
            decreases rows.len() - i,
        {
            proof {
                assert(rows.take(i + 1) =~= rows.take(i as int).push(rows[i as int]));
                rows.take(i as int).lemma_filter_push(rows[i as int], pred);
            }
            let tx = *self.inner.ledger_xact.value_at(i);
            if tx.ledger_dr_id == account_id {
                res.push(tx);
                proof {
                    assert(rows.take(i as int).filter(pred).push(rows[i as int]).map_values(val) =~=
                        rows.take(i as int).filter(pred).map_values(val).push(rows[i as int].1));
                }
            }
            i = i + 1;
        }
        assert(rows.take(rows.len() as int) =~= rows);
        res
    }

    /// The ledger entry stored under a key.
    pub fn ledger_entry_by_key(&self, key: LedgerKey) -> (r: Option<ledger_line::ActiveModel>)
        requires
            self.wf(),
        ensures
            r == lookup(self.state().journal_entries(), key),
    {
        match self.inner.journal_entry.get(&key) {
            Some(e) => Some(*e),
            None => None,
        }
    }

    /// The first ledger transaction whose own account and time are the key's.
    fn ledger_transaction_by_key(&self, key: LedgerKey) -> (r: Option<ledger_transaction::ActiveModel>)
        requires
            self.wf(),
        ensures
            r == lookup(self.state().ledger_xacts(), key),
    {
        let ghost rows = self.inner.ledger_xact.rows();
        let mut i: usize = 0;
        while i < self.inner.ledger_xact.len()
            invariant
                rows == self.inner.ledger_xact.rows(),
                unique_keys(rows),
                forall|j: int| 0 <= j < rows.len() ==> #[trigger] xact_under_own_key(rows[j]),
                i <= rows.len(),
                forall|j: int| 0 <= j < i ==> #[trigger] rows[j].0 != key,
            decreases rows.len() - i,
        {
            let tx = *self.inner.ledger_xact.value_at(i);
            proof {
                assert(xact_under_own_key(rows[i as int]));
            }
            if tx.ledger_id == key.ledger_id && tx.timestamp == key.timestamp {
                proof {
                    lemma_key_index(rows, i as int);
                }
                return Some(tx);
            }
            i = i + 1;
        }
        None
    }

    /// The two sides of the posting stored under a key.
    fn journal_entries_by_key(&self, key: LedgerKey) -> (r: Vec<journal_entry::ActiveModel>)
        requires
            self.wf(),
            has_key(self.state().journal_entries(), key),
        ensures
            r@ == key_journal_entries(self.state(), key),
    {
        let mut res = Vec::<journal_entry::ActiveModel>::new();
        let le = self.ledger_entry_by_key(key).unwrap();
        let lt = self.ledger_transaction_by_key(key).unwrap();
        res.push(journal_entry::ActiveModel {
            ledger_id: le.ledger_id,
            timestamp: le.timestamp,
            xact_type: XactType::Cr,
            amount: le.amount,
            journal_ref: le.journal_ref,
        });
        res.push(journal_entry::ActiveModel {
            ledger_id: lt.ledger_dr_id,
            timestamp: lt.timestamp,
            xact_type: XactType::Dr,
            amount: le.amount,
            journal_ref: le.journal_ref,
        });
        assert(res@ =~= key_journal_entries(self.state(), key));
        res
    }

    /// The side of the posting under the reference's key whose account is the
    /// reference's account. The key must hold a ledger entry.
    pub fn journal_entry_by_ref(&self, posting_ref: crate::domain::PostingRef) -> (r: Option<journal_entry::ActiveModel>)
        requires
            self.wf(),
            has_key(self.state().journal_entries(), posting_ref.key),
        ensures
            r == entry_by_ref(self.state(), posting_ref.key, posting_ref.account_id),
    {
        let entries = self.journal_entries_by_key(posting_ref.key);
        let mut i: usize = 0;
        while i < entries.len()
            invariant
                entries@ == key_journal_entries(self.state(), posting_ref.key),
                i <= entries@.len(),
                forall|j: int| 0 <= j < i ==> #[trigger] entries@[j].ledger_id != posting_ref.account_id,
            decreases entries@.len() - i,
        {
            if entries[i].ledger_id == posting_ref.account_id {
                return Some(entries[i]);
            }
            i = i + 1;
        }
        None
    }

    /// Every posting that touches an account, as the account sees it.
    pub fn journal_entries_by_account_id(&self, account_id: AccountId) -> (r: Vec<journal_entry::ActiveModel>)
        requires
            self.wf(),
        ensures
            r@ == account_journal_entries(self.state(), account_id),
    {
        let mut res = Vec::<journal_entry::ActiveModel>::new();
        let entries = self.ledger_entries_by_account_id(account_id);
        let xacts = self.ledger_transactions_by_account_id(account_id);
        let ghost je = self.state().journal_entries();
        let ghost cr = |e: ledger_line::ActiveModel| credit_entry(e);
        let ghost dr = |t: ledger_transaction::ActiveModel| debit_entry(t, lookup(je, own_key(t)).unwrap());
        let mut i: usize = 0;
        while i < entries.len()
            invariant
                i <= entries@.len(),
                cr == (|e: ledger_line::ActiveModel| credit_entry(e)),
                res@ == entries@.take(i as int).map_values(cr),
            decreases entries@.len() - i,
        {
            let e = entries[i];
            res.push(journal_entry::ActiveModel {
                ledger_id: e.ledger_id,
                timestamp: e.timestamp,
                xact_type: XactType::Cr,
                amount: e.amount,
                journal_ref: e.journal_ref,
            });
            i = i + 1;
            assert(res@ =~= entries@.take(i as int).map_values(cr));
        }
        assert(entries@.take(entries@.len() as int) =~= entries@);
        let ghost head = res@;
        proof {
            let lx = self.inner.ledger_xact.rows();
            let p = |r: (LedgerKey, ledger_transaction::ActiveModel)| r.1.ledger_dr_id == account_id;
            assert forall|j: int| 0 <= j < xacts@.len() implies #[trigger] has_key(je, own_key(xacts@[j])) by {
                let f = lx.filter(p);
                assert(xacts@[j] == f[j].1);
                lx.lemma_filter_contains_rev(p, f[j]);
                let k = choose|k: int| 0 <= k < lx.len() && lx[k] == f[j];
                assert(xact_under_own_key(lx[k]));
                assert(lx[k].0 == own_key(xacts@[j]));
                assert(has_key(lx, lx[k].0));
            }
        }
        let mut t: usize = 0;
        while t < xacts.len()
            invariant
                self.wf(),
                je == self.state().journal_entries(),
                t <= xacts@.len(),
                dr == (|x: ledger_transaction::ActiveModel| debit_entry(x, lookup(je, own_key(x)).unwrap())),
                forall|j: int| 0 <= j < xacts@.len() ==> #[trigger] has_key(je, own_key(xacts@[j])),
                res@ == head + xacts@.take(t as int).map_values(dr),
            decreases xacts@.len() - t,
        {
            let x = xacts[t];
            proof {
                assert(has_key(je, own_key(xacts@[t as int])));
            }
            let counterpart = self.ledger_entry_by_key(LedgerKey { ledger_id: x.ledger_id, timestamp: x.timestamp }).unwrap();
            res.push(journal_entry::ActiveModel {
                ledger_id: x.ledger_dr_id,
                timestamp: x.timestamp,
                xact_type: XactType::Dr,
                amount: counterpart.amount,
                journal_ref: counterpart.journal_ref,
            });
            t = t + 1;
            assert(res@ =~= head + xacts@.take(t as int).map_values(dr));
        }
        assert(xacts@.take(xacts@.len() as int) =~= xacts@);
        res
    }
}


/// The tables of the store, by name.
pub enum Tab {
    GeneralLedger,
    Ledger,
    LedgerIntermediate,
    LedgerLeaf,
    Period,
    InterimPeriod,
    Journal,
    JournalXact,
    JournalXactLine,
    JournalXactLineAccount,
    JournalEntry,
    LedgerXact,
    LedgerXactType,
    AccountCrColumn,
    LedgerDrCrColumn,
    SpecialColumn,
}

/// Every table outside the named ones is the same in both states.
pub open spec fn frame(a: Inner, b: Inner, changed: Set<Tab>) -> bool {
    &&& changed.contains(Tab::GeneralLedger) || b.general_ledgers() == a.general_ledgers()
    &&& changed.contains(Tab::Ledger) || b.ledgers() == a.ledgers()
    &&& changed.contains(Tab::LedgerIntermediate) || b.intermediate_ledgers() == a.intermediate_ledgers()
    &&& changed.contains(Tab::LedgerLeaf) || b.leaf_ledgers() == a.leaf_ledgers()
    &&& changed.contains(Tab::Period) || b.periods() == a.periods()
    &&& changed.contains(Tab::InterimPeriod) || b.interim_periods() == a.interim_periods()
    &&& changed.contains(Tab::Journal) || b.journals() == a.journals()
    &&& changed.contains(Tab::JournalXact) || b.journal_xacts() == a.journal_xacts()
    &&& changed.contains(Tab::JournalXactLine) || b.journal_xact_lines() == a.journal_xact_lines()
    &&& changed.contains(Tab::JournalXactLineAccount) || b.journal_xact_line_accounts() == a.journal_xact_line_accounts()
    &&& changed.contains(Tab::JournalEntry) || b.journal_entries() == a.journal_entries()
    &&& changed.contains(Tab::LedgerXact) || b.ledger_xacts() == a.ledger_xacts()
    &&& changed.contains(Tab::LedgerXactType) || b.ledger_xact_types() == a.ledger_xact_types()
    &&& changed.contains(Tab::AccountCrColumn) || b.account_cr_columns() == a.account_cr_columns()
    &&& changed.contains(Tab::LedgerDrCrColumn) || b.ledger_drcr_columns() == a.ledger_drcr_columns()
    &&& changed.contains(Tab::SpecialColumn) || b.special_columns() == a.special_columns()
}

/// Some stored fiscal year has the given year.
pub open spec fn has_fiscal_year(rows: Seq<(PeriodId, accounting_period::ActiveModel)>, year: i32) -> bool {
    exists|i: int| 0 <= i < rows.len() && #[trigger] rows[i].1.fiscal_year == year
}

/// The fiscal year that a model becomes under an identifier and with its last day.
pub open spec fn period_from(model: accounting_period::Model, id: PeriodId, end: Date) -> accounting_period::ActiveModel {
    accounting_period::ActiveModel {
        id,
        fiscal_year: model.fiscal_year,
        period_start: model.period_start,
        period_end: end,
        period_type: model.period_type,
    }
}

/// The fiscal year that a model becomes under an identifier: it ends on the
/// day before the first anniversary of its start.
pub fn period_record(model: &accounting_period::Model, id: PeriodId) -> (r: accounting_period::ActiveModel)
    requires
        MIN_DAYS <= model.period_start.days <= MAX_DAYS - 365,
    ensures
        r == period_from(*model, id, r.period_end),
        r.period_end.days == fiscal_year_end(model.period_start.days),
{
    let period_end = fiscal_year_end_of(model.period_start);
    accounting_period::ActiveModel {
        id,
        fiscal_year: model.fiscal_year,
        period_start: model.period_start,
        period_end,
        period_type: model.period_type,
    }
}

/// The interim period that a model becomes under an identifier.
pub open spec fn interim_from(model: interim_accounting_period::Model, id: InterimPeriodId) -> interim_accounting_period::ActiveModel {
    interim_accounting_period::ActiveModel { id, parent_id: model.parent_id, start: model.start, end: model.end }
}

/// An interim period placed into periods ordered by start: after every one
/// that starts no later than it.
pub open spec fn insert_by_start(
    sorted: Seq<interim_accounting_period::ActiveModel>,
    x: interim_accounting_period::ActiveModel,
) -> Seq<interim_accounting_period::ActiveModel>
    decreases sorted.len(),
{
    if sorted.len() == 0 {
        seq![x]
    } else if sorted.last().start.days <= x.start.days {
        sorted.push(x)
    } else {
        insert_by_start(sorted.drop_last(), x).push(sorted.last())
    }
}

/// Interim periods ordered by start; those that start on the same day keep
/// their order.
pub open spec fn sort_by_start(s: Seq<interim_accounting_period::ActiveModel>) -> Seq<interim_accounting_period::ActiveModel>
    decreases s.len(),
{
    if s.len() == 0 {
        s
    } else {
        insert_by_start(sort_by_start(s.drop_last()), s.last())
    }
}

/// Placing at a position before which every period starts no later, and from
/// which every period starts later, is the ordered placement.
proof fn lemma_insert_by_start_at(
    s: Seq<interim_accounting_period::ActiveModel>,
    x: interim_accounting_period::ActiveModel,
    j: int,
)
    requires
        0 <= j <= s.len(),
        j > 0 ==> s[j - 1].start.days <= x.start.days,
        forall|k: int| j <= k < s.len() ==> #[trigger] s[k].start.days > x.start.days,
    ensures
        insert_by_start(s, x) == s.insert(j, x),
    decreases s.len(),
{
    if s.len() == 0 {
        assert(s.insert(j, x) =~= seq![x]);
    } else if j == s.len() {
        assert(s.last().start.days <= x.start.days);
        assert(s.insert(j, x) =~= s.push(x));
    } else {
        assert(s.last().start.days > x.start.days);
        let d = s.drop_last();
        lemma_insert_by_start_at(d, x, j);
        assert(s.insert(j, x) =~= d.insert(j, x).push(s.last()));
    }
}

/// Each interim period starts no later than every one after it.
pub open spec fn starts_ordered(s: Seq<interim_accounting_period::ActiveModel>) -> bool {
    forall|i: int, j: int|
        #![trigger s[i], s[j]]
        0 <= i <= j < s.len() ==> s[i].start.days <= s[j].start.days
}

/// Placing a period into ordered periods keeps them ordered and adds just it.
pub proof fn lemma_insert_by_start_ordered(
    s: Seq<interim_accounting_period::ActiveModel>,
    x: interim_accounting_period::ActiveModel,
)
    requires
        starts_ordered(s),
    ensures
        starts_ordered(insert_by_start(s, x)),
        insert_by_start(s, x).to_multiset() =~= s.to_multiset().insert(x),
    decreases s.len(),
{
    broadcast use vstd::seq_lib::group_to_multiset_ensures;
    if s.len() == 0 {
        assert(seq![x] =~= s.push(x));
    } else if s.last().start.days <= x.start.days {
        let r = s.push(x);
        assert forall|i: int, j: int|
            #![trigger r[i], r[j]]
            0 <= i <= j < r.len() implies r[i].start.days <= r[j].start.days by {
            if j == s.len() && i < s.len() {
                assert(s[i].start.days <= s[s.len() - 1].start.days);
            }
        }
    } else {
        let d = s.drop_last();
        let last = s.last();
        assert(starts_ordered(d)) by {
            assert forall|i: int, j: int|
                #![trigger d[i], d[j]]
                0 <= i <= j < d.len() implies d[i].start.days <= d[j].start.days by {
                assert(d[i] == s[i] && d[j] == s[j]);
            }
        }
        lemma_insert_by_start_ordered(d, x);
        let ri = insert_by_start(d, x);
        let r = ri.push(last);
        assert forall|i: int| 0 <= i < ri.len() implies #[trigger] ri[i].start.days <= last.start.days by {
            assert(ri.contains(ri[i]));
            assert(ri.to_multiset().count(ri[i]) > 0);
            if ri[i] != x {
                assert(d.to_multiset().count(ri[i]) > 0);
                assert(d.contains(ri[i]));
                let k = choose|k: int| 0 <= k < d.len() && d[k] == ri[i];
                assert(s[k] == d[k]);
                assert(s[k].start.days <= s[s.len() - 1].start.days);
            }
        }
        assert forall|i: int, j: int|
            #![trigger r[i], r[j]]
            0 <= i <= j < r.len() implies r[i].start.days <= r[j].start.days by {
            if j == ri.len() {
                if i < ri.len() {
                    assert(ri[i].start.days <= last.start.days);
                }
            } else {
                assert(r[i] == ri[i] && r[j] == ri[j]);
            }
        }
        assert(s =~= d.push(last));
        assert(r.to_multiset() =~= ri.to_multiset().insert(last));
        assert(s.to_multiset() =~= d.to_multiset().insert(last));
    }
}

/// Ordering periods by start gives back the same periods, ordered.
pub proof fn lemma_sort_by_start(s: Seq<interim_accounting_period::ActiveModel>)
    ensures
        starts_ordered(sort_by_start(s)),
        sort_by_start(s).to_multiset() =~= s.to_multiset(),
    decreases s.len(),
{
    broadcast use vstd::seq_lib::group_to_multiset_ensures;
    if s.len() > 0 {
        let d = s.drop_last();
        lemma_sort_by_start(d);
        lemma_insert_by_start_ordered(sort_by_start(d), s.last());
        assert(s =~= d.push(s.last()));
    }
}

/// Places an interim period into periods ordered by start.
fn insert_sorted(v: &mut Vec<interim_accounting_period::ActiveModel>, x: interim_accounting_period::ActiveModel)
    ensures
        final(v)@ == insert_by_start(old(v)@, x),
{
    let mut j: usize = v.len();
    while j > 0 && v[j - 1].start.days > x.start.days
        invariant
            j <= v@.len(),
            forall|k: int| j <= k < v@.len() ==> #[trigger] v@[k].start.days > x.start.days,
        decreases j,
    {
        j = j - 1;
    }
    proof {
        lemma_insert_by_start_at(v@, x, j as int);
    }
    v.insert(j, x);
}

/// Orders interim periods by start, keeping the order of those that start
/// on the same day.
pub fn sort_interim_by_start(v: Vec<interim_accounting_period::ActiveModel>) -> (r: Vec<interim_accounting_period::ActiveModel>)
    ensures
        r@ == sort_by_start(v@),
{
    let mut r: Vec<interim_accounting_period::ActiveModel> = Vec::new();
    let mut i: usize = 0;
    while i < v.len()
        invariant
            i <= v@.len(),
            r@ == sort_by_start(v@.take(i as int)),
        decreases v@.len() - i,
    {
        proof {
            assert(v@.take(i + 1).drop_last() =~= v@.take(i as int));
        }
        insert_sorted(&mut r, v[i]);
        i = i + 1;
    }
    assert(v@.take(v@.len() as int) =~= v@);
    r
}

impl MemoryStore {
    /// Stores a fiscal year under the given identifier and last day, unless a
    /// fiscal year with that identifier or that year is stored already.
    #[verifier::spinoff_prover]
    pub fn create_period_with(
        &mut self,
        model: &accounting_period::Model,
        id: PeriodId,
        period_end: Date,
    ) -> (r: Result<accounting_period::ActiveModel, OrmError>)
        requires
            old(self).wf(),
        ensures
            final(self).wf(),
            frame(old(self).state(), final(self).state(), set![Tab::Period]),
            !has_key(old(self).state().periods(), id) && !has_fiscal_year(old(self).state().periods(), model.fiscal_year)
                ==> r == Ok::<accounting_period::ActiveModel, OrmError>(period_from(*model, id, period_end))
                && final(self).state().periods() == old(self).state().periods().push((id, period_from(*model, id, period_end))),
            has_key(old(self).state().periods(), id) || has_fiscal_year(old(self).state().periods(), model.fiscal_year)
                ==> (r matches Err(OrmError::DuplicateRecord(s)) && s@ == "duplicate accounting period"@)
                && final(self).state() == old(self).state(),
    {
        let period = accounting_period::ActiveModel {
            fiscal_year: model.fiscal_year,
            period_start: model.period_start,
            period_type: model.period_type,
            id,
            period_end,
        };
        let search_ids = self.inner.period.contains_key(&period.id);
        let mut search_year = false;
        let mut i: usize = 0;
        let ghost rows = self.inner.period.rows();
        while i < self.inner.period.len()
            invariant
                rows == self.inner.period.rows(),
                i <= rows.len(),
                search_year == exists|j: int| 0 <= j < i && #[trigger] rows[j].1.fiscal_year == period.fiscal_year,
            decreases rows.len() - i,
        {
            if self.inner.period.value_at(i).fiscal_year == period.fiscal_year {
                search_year = true;
            }
            i = i + 1;
        }
        if !search_ids && !search_year {
            self.inner.period.insert(period.id, period);
            return Ok(period);
        }
        Err(OrmError::DuplicateRecord(String::from_str("duplicate accounting period")))
    }

    /// Stores a fiscal year that a model describes, under a fresh random
    /// identifier, with its last day one year less a day after its start.
    /// Only fiscal years divided into calendar months are supported. Fails
    /// where a fiscal year with the same year is stored already. No interim
    /// calendar is made here: the interim periods of the year (its calendar
    /// months) are stored one by one with `create_interim_period`.
    pub fn create_period(&mut self, model: &accounting_period::Model) -> (r: Result<accounting_period::ActiveModel, OrmError>)
        requires
            old(self).wf(),
            model.period_type == InterimType::CalendarMonth,
            MIN_DAYS <= model.period_start.days <= MAX_DAYS - 365,
        ensures
            final(self).wf(),
            period_created(old(self).state(), final(self).state(), *model, r),
    {
        let id = PeriodId::new();
        let period_end = fiscal_year_end_of(model.period_start);
        self.create_period_with(model, id, period_end)
    }

    /// The stored fiscal years whose identifier is among the given ones, in
    /// table order; all of them where no identifiers are given.
    pub fn search_periods(&self, ids: Option<Vec<PeriodId>>) -> (r: Result<Vec<accounting_period::ActiveModel>, OrmError>)
        ensures
            r matches Ok(v) && v@ == select_rows(self.state().periods(), opt_seq(ids)),
    {
        Ok(select(&self.inner.period, &ids))
    }

    /// Stores an interim period under the given identifier, in place of any
    /// stored under it before.
    pub fn create_interim_period_with(
        &mut self,
        model: &interim_accounting_period::Model,
        id: InterimPeriodId,
    ) -> (r: Result<interim_accounting_period::ActiveModel, OrmError>)
        requires
            old(self).wf(),
        ensures
            final(self).wf(),
            frame(old(self).state(), final(self).state(), set![Tab::InterimPeriod]),
            r == Ok::<interim_accounting_period::ActiveModel, OrmError>(interim_from(*model, id)),
            final(self).state().interim_periods() == upsert(old(self).state().interim_periods(), id, interim_from(*model, id)),
    {
        let interim = interim_accounting_period::ActiveModel {
            id,
            parent_id: model.parent_id,
            start: model.start,
            end: model.end,
        };
        self.inner.interim_period.insert(id, interim);
        Ok(interim)
    }

    /// Stores an interim period under a fresh random identifier.
    pub fn create_interim_period(&mut self, model: &interim_accounting_period::Model) -> (r: Result<interim_accounting_period::ActiveModel, OrmError>)
        requires
            old(self).wf(),
        ensures
            final(self).wf(),
            frame(old(self).state(), final(self).state(), set![Tab::InterimPeriod]),
            r matches Ok(p) && p == interim_from(*model, p.id)
                && final(self).state().interim_periods() == upsert(old(self).state().interim_periods(), p.id, p),
    {
        self.create_interim_period_with(model, InterimPeriodId::new())
    }

    /// The stored interim periods whose identifier is among the given ones
    /// (all of them where none are given), ordered by start; those that start
    /// on the same day keep their table order.
    pub fn search_interim_periods(&self, ids: Option<Vec<InterimPeriodId>>) -> (r: Result<Vec<interim_accounting_period::ActiveModel>, OrmError>)
        ensures
            r matches Ok(v) && v@ == sort_by_start(select_rows(self.state().interim_periods(), opt_seq(ids))),
    {
        let res = select(&self.inner.interim_period, &ids);
        Ok(sort_interim_by_start(res))
    }
}


/// The identifier of the first stored ledger account numbered `0`, the root.
pub open spec fn first_root(ls: Seq<(AccountId, ledger::ActiveModel)>) -> Option<AccountId>
    decreases ls.len(),
{
    if ls.len() == 0 {
        None
    } else if ls[0].1.ledger_no@ == "0"@ {
        Some(ls[0].1.id)
    } else {
        first_root(ls.drop_first())
    }
}

/// The general ledger that a model becomes under an identifier and root.
pub open spec fn general_ledger_from(model: general_ledger::Model, id: GeneralLedgerId, root: AccountId) -> general_ledger::ActiveModel {
    general_ledger::ActiveModel { id, name: model.name, root, currency_code: model.currency_code }
}

/// Some stored ledger account has the given number.
pub open spec fn has_ledger_no(ls: Seq<(AccountId, ledger::ActiveModel)>, no: Seq<char>) -> bool {
    exists|i: int| 0 <= i < ls.len() && #[trigger] ls[i].1.ledger_no@ == no
}

/// Some stored ledger account has the given identifier.
pub open spec fn has_ledger_id(ls: Seq<(AccountId, ledger::ActiveModel)>, id: AccountId) -> bool {
    exists|i: int| 0 <= i < ls.len() && #[trigger] ls[i].1.id == id
}

/// What creating a ledger account under an identifier gives: the stored
/// account, or the kind and detail of the error.
pub open spec fn ledger_outcome(s: Inner, model: ledger::Model, id: AccountId) -> Result<ledger::ActiveModel, (ErrorKind, Seq<char>)> {
    match model.parent_id {
        None => Err((ErrorKind::Constraint, "ledger must have parent"@)),
        Some(pid) => {
            let parent = select_rows(s.ledgers(), Some(seq![pid]))[0];
            if parent.ledger_type != LedgerType::Intermediate {
                Err((ErrorKind::Validation, "parent ledger is not an Intermediate Ledger"@))
            } else if has_ledger_no(s.ledgers(), model.ledger_no@) {
                Err((ErrorKind::DuplicateRecord, "account "@ + model.ledger_no@))
            } else if model.ledger_type == LedgerType::Intermediate && has_key(s.intermediate_ledgers(), id) {
                Err((ErrorKind::DuplicateRecord, uuid_text(id.value)))
            } else if model.ledger_type != LedgerType::Intermediate && has_key(s.leaf_ledgers(), id) {
                Err((ErrorKind::DuplicateRecord, uuid_text(id.value)))
            } else {
                Ok(ledger::from_model(model, id))
            }
        },
    }
}

/// Why a back end that reads the parent account and looks the number up
/// refuses to store a ledger account: it has no parent, its parent is not an
/// intermediate account, or a stored account has its number (the root's
/// number `0` excepted); `None` where the account may be stored.
pub fn ledger_refusal(model: &ledger::Model, parent_type: Option<LedgerType>, number_taken: bool) -> (r: Option<OrmError>)
    requires
        model.parent_id is Some ==> parent_type is Some,
    ensures
        model.parent_id is None ==> (r matches Some(e) && error_matches(e, ErrorKind::Constraint, "ledger must have parent"@)),
        model.parent_id is Some && parent_type != Some(LedgerType::Intermediate)
            ==> (r matches Some(e) && error_matches(e, ErrorKind::Validation, "parent ledger is not an Intermediate Ledger"@)),
        model.parent_id is Some && parent_type == Some(LedgerType::Intermediate) && number_taken && model.ledger_no@ != "0"@
            ==> (r matches Some(e) && error_matches(e, ErrorKind::DuplicateRecord, "duplicate ledger number: "@ + model.ledger_no@)),
        model.parent_id is Some && parent_type == Some(LedgerType::Intermediate) && !(number_taken && model.ledger_no@ != "0"@)
            ==> r is None,
{
    if model.parent_id.is_none() {
        return Some(OrmError::Constraint(String::from_str("ledger must have parent")));
    }
    match parent_type {
        Some(LedgerType::Intermediate) => {},
        _ => return Some(OrmError::Validation(String::from_str("parent ledger is not an Intermediate Ledger"))),
    }
    let root_no = String::from_str("0");
    if number_taken && !model.ledger_no.eq(&root_no) {
        let head = String::from_str("duplicate ledger number: ");
        return Some(OrmError::DuplicateRecord(head.concat(model.ledger_no.as_str())));
    }
    None
}

/// A stored journal has the identifier or the code.
pub open spec fn journal_row_clashes(r: (JournalId, journal::ActiveModel), id: JournalId, code: Seq<char>) -> bool {
    r.0 == id || r.1.code@ == code
}

/// Some stored journal has the identifier or the code.
pub open spec fn journal_clash(js: Seq<(JournalId, journal::ActiveModel)>, id: JournalId, code: Seq<char>) -> bool {
    exists|i: int| 0 <= i < js.len() && #[trigger] journal_row_clashes(js[i], id, code)
}

/// The journal that a model becomes under an identifier.
pub open spec fn journal_from(model: journal::Model, id: JournalId) -> journal::ActiveModel {
    journal::ActiveModel { id, name: model.name, code: model.code }
}

impl MemoryStore {
    /// The identifier of the first stored ledger account numbered `0`.
    fn root_ledger_id(&self) -> (r: Option<AccountId>)
        ensures
            r == first_root(self.state().ledgers()),
    {
        let ghost rows = self.inner.ledger.rows();
        let zero = String::from_str("0");
        let mut i: usize = 0;
        assert(rows.skip(0) =~= rows);
        while i < self.inner.ledger.len()
            invariant
                rows == self.inner.ledger.rows(),
                zero@ == "0"@,
                i <= rows.len(),
                first_root(rows) == first_root(rows.skip(i as int)),
            decreases rows.len() - i,
        {
            let l = self.inner.ledger.value_at(i);
            proof {
                assert(rows.skip(i as int).drop_first() =~= rows.skip(i + 1));
                assert(rows.skip(i as int)[0] == rows[i as int]);
            }
            if l.ledger_no.eq(&zero) {
                return Some(l.id);
            }
            i = i + 1;
        }
        proof {
            assert(rows.skip(i as int).len() == 0);
        }
        None
    }

    /// Stores a general ledger under the given identifier, rooted at the
    /// first stored ledger account numbered `0`; fails where there is none.
    pub fn create_general_ledger_with(&mut self, model: &general_ledger::Model, gl_id: GeneralLedgerId) -> (r: Result<general_ledger::ActiveModel, OrmError>)
        requires
            old(self).wf(),
        ensures
            final(self).wf(),
            frame(old(self).state(), final(self).state(), set![Tab::GeneralLedger]),
            match first_root(old(self).state().ledgers()) {
                Some(root) => {
                    &&& r == Ok::<general_ledger::ActiveModel, OrmError>(general_ledger_from(*model, gl_id, root))
                    &&& final(self).state().general_ledgers() == upsert(old(self).state().general_ledgers(), gl_id, general_ledger_from(*model, gl_id, root))
                },
                None => {
                    &&& r matches Err(e) && error_matches(e, ErrorKind::RecordNotFound, "unable to find root ledger"@)
                    &&& final(self).state() == old(self).state()
                },
            },
    {
        let root_id = self.root_ledger_id();
        if let Some(id) = root_id {
            let gl = general_ledger::ActiveModel {
                id: gl_id,
                name: model.name.clone(),
                currency_code: crate::entity::clone_opt_string(&model.currency_code),
                root: id,
            };
            self.inner.general_ledger.insert(gl_id, gl.duplicate());
            Ok(gl)
        } else {
            Err(OrmError::RecordNotFound(String::from_str("unable to find root ledger")))
        }
    }

    /// Stores a general ledger under a fresh random identifier, rooted at the
    /// first stored ledger account numbered `0`; fails where there is none.
    pub fn create_general_ledger(&mut self, model: &general_ledger::Model) -> (r: Result<general_ledger::ActiveModel, OrmError>)
        requires
            old(self).wf(),
        ensures
            final(self).wf(),
            frame(old(self).state(), final(self).state(), set![Tab::GeneralLedger]),
            match first_root(old(self).state().ledgers()) {
                Some(root) => {
                    &&& r matches Ok(gl) && gl == general_ledger_from(*model, gl.id, root)
                        && final(self).state().general_ledgers() == upsert(old(self).state().general_ledgers(), gl.id, gl)
                },
                None => {
                    &&& r matches Err(e) && error_matches(e, ErrorKind::RecordNotFound, "unable to find root ledger"@)
                    &&& final(self).state() == old(self).state()
                },
            },
    {
        self.create_general_ledger_with(model, GeneralLedgerId::new())
    }

    /// The stored general ledgers whose identifier is among the given ones,
    /// in table order; all of them where no identifiers are given.
    pub fn search_general_ledgers(&self, ids: Option<Vec<GeneralLedgerId>>) -> (r: Result<Vec<general_ledger::ActiveModel>, OrmError>)
        ensures
            r matches Ok(v) && v@ == select_rows(self.state().general_ledgers(), opt_seq(ids)),
    {
        Ok(select(&self.inner.general_ledger, &ids))
    }

    /// The stored ledger accounts whose identifier is among the given ones,
    /// in table order; all of them where no identifiers are given.
    pub fn search_ledgers(&self, ids: Option<Vec<AccountId>>) -> (r: Result<Vec<ledger::ActiveModel>, OrmError>)
        ensures
            r matches Ok(v) && v@ == select_rows(self.state().ledgers(), opt_seq(ids)),
    {
        Ok(select(&self.inner.ledger, &ids))
    }

    /// Whether a stored ledger account has the given number.
    fn ledger_no_taken(&self, no: &String) -> (b: bool)
        ensures
            b == has_ledger_no(self.state().ledgers(), no@),
    {
        let ghost rows = self.inner.ledger.rows();
        let mut i: usize = 0;
        while i < self.inner.ledger.len()
            invariant
                rows == self.inner.ledger.rows(),
                i <= rows.len(),
                forall|j: int| 0 <= j < i ==> #[trigger] rows[j].1.ledger_no@ != no@,
            decreases rows.len() - i,
        {
            if self.inner.ledger.value_at(i).ledger_no.eq(no) {
                return true;
            }
            i = i + 1;
        }
        false
    }

    /// Stores a ledger account under the given identifier. The account must
    /// have a parent, the parent must be an intermediate account, and no
    /// stored account may have its number; it is marked as intermediate or as
    /// a leaf according to its type. The parent, where given, must be stored.
    pub fn create_ledger_with(&mut self, model: &ledger::Model, id: AccountId) -> (r: Result<ledger::ActiveModel, OrmError>)
        requires
            old(self).wf(),
            model.parent_id matches Some(pid) ==> has_ledger_id(old(self).state().ledgers(), pid),
        ensures
            final(self).wf(),
            frame(old(self).state(), final(self).state(), set![Tab::Ledger, Tab::LedgerIntermediate, Tab::LedgerLeaf]),
            match ledger_outcome(old(self).state(), *model, id) {
                Ok(l) => {
                    &&& r == Ok::<ledger::ActiveModel, OrmError>(l)
                    &&& final(self).state().ledgers() == upsert(old(self).state().ledgers(), id, l)
                    &&& model.ledger_type == LedgerType::Intermediate ==> {
                        &&& final(self).state().intermediate_ledgers() == old(self).state().intermediate_ledgers().push((id, ledger_intermediate::ActiveModel { id }))
                        &&& final(self).state().leaf_ledgers() == old(self).state().leaf_ledgers()
                    }
                    &&& model.ledger_type != LedgerType::Intermediate ==> {
                        &&& final(self).state().leaf_ledgers() == old(self).state().leaf_ledgers().push((id, ledger_leaf::ActiveModel { id }))
                        &&& final(self).state().intermediate_ledgers() == old(self).state().intermediate_ledgers()
                    }
                },
                Err((kind, text)) => {
                    &&& r matches Err(e) && error_matches(e, kind, text)
                    &&& final(self).state() == old(self).state()
                },
            },
    {
        let pid = match model.parent_id {
            Some(pid) => pid,
            None => return Err(OrmError::Constraint(String::from_str("ledger must have parent"))),
        };
        let mut wanted: Vec<AccountId> = Vec::new();
        wanted.push(pid);
        let parent = select(&self.inner.ledger, &Some(wanted));
        proof {
            let ls = self.inner.ledger.rows();
            assert(opt_seq(Some(wanted)) == Some(seq![pid])) by {
                assert(wanted@ =~= seq![pid]);
            }
            let i = choose|i: int| 0 <= i < ls.len() && #[trigger] ls[i].1.id == pid;
            let vals = crate::table::values(ls);
            assert(vals[i] == ls[i].1);
            assert(seq![pid].contains(vals[i].spec_id())) by {
                assert(seq![pid][0] == pid);
            }
            vals.lemma_filter_contains(|v: ledger::ActiveModel| seq![pid].contains(v.spec_id()), i);
        }
        if parent[0].ledger_type != LedgerType::Intermediate {
            return Err(OrmError::Validation(String::from_str("parent ledger is not an Intermediate Ledger")));
        }
        let ledger = ledger::ActiveModel::from_model(model, id);
        if self.ledger_no_taken(&ledger.ledger_no) {
            let head = String::from_str("account ");
            return Err(OrmError::DuplicateRecord(head.concat(ledger.ledger_no.as_str())));
        }
        if model.ledger_type == LedgerType::Intermediate {
            let intermediate = ledger_intermediate::ActiveModel { id: ledger.id };
            if self.inner.ledger_intermediate.contains_key(&intermediate.id) {
                return Err(OrmError::DuplicateRecord(ledger.id.to_string()));
            }
            self.inner.ledger_intermediate.insert(intermediate.id, intermediate);
        } else {
            let account = ledger_leaf::ActiveModel { id: ledger.id };
            if self.inner.ledger_account.contains_key(&account.id) {
                return Err(OrmError::DuplicateRecord(ledger.id.to_string()));
            }
            self.inner.ledger_account.insert(account.id, account);
        }
        self.inner.ledger.insert(ledger.id, ledger.duplicate());
        Ok(ledger)
    }

    /// Stores a ledger account under a fresh random identifier; see
    /// `create_ledger_with` for when it fails.
    pub fn create_ledger(&mut self, model: &ledger::Model) -> (r: Result<ledger::ActiveModel, OrmError>)
        requires
            old(self).wf(),
            model.parent_id matches Some(pid) ==> has_ledger_id(old(self).state().ledgers(), pid),
        ensures
            final(self).wf(),
            ledger_created(old(self).state(), final(self).state(), *model, r),
    {
        let id = AccountId::new();
        self.create_ledger_with(model, id)
    }

    /// Stores a journal under the given identifier, unless a stored journal
    /// has that identifier or the journal's code.
    pub fn create_journal_with(&mut self, model: &journal::Model, id: JournalId) -> (r: Result<journal::ActiveModel, OrmError>)
        requires
            old(self).wf(),
        ensures
            final(self).wf(),
            frame(old(self).state(), final(self).state(), set![Tab::Journal]),
            !journal_clash(old(self).state().journals(), id, model.code@) ==> {
                &&& r == Ok::<journal::ActiveModel, OrmError>(journal_from(*model, id))
                &&& final(self).state().journals() == old(self).state().journals().push((id, journal_from(*model, id)))
            },
            journal_clash(old(self).state().journals(), id, model.code@) ==> {
                &&& r matches Err(e) && error_matches(e, ErrorKind::DuplicateRecord, "duplicate Journal Id or Code"@)
                &&& final(self).state() == old(self).state()
            },
    {
        let journal = journal::ActiveModel { id, name: model.name.clone(), code: model.code.clone() };
        let ghost rows = self.inner.journal.rows();
        let mut is_duplicate = false;
        let mut i: usize = 0;
        while i < self.inner.journal.len()
            invariant
                rows == self.inner.journal.rows(),
                i <= rows.len(),
                is_duplicate == exists|j: int| 0 <= j < i && #[trigger] journal_row_clashes(rows[j], id, model.code@),
            decreases rows.len() - i,
        {
            let k = self.inner.journal.key_at(i);
            let v = self.inner.journal.value_at(i);
            if k == id || v.code.eq(&model.code) {
                is_duplicate = true;
            }
            assert(journal_row_clashes(rows[i as int], id, model.code@) == (k == id || v.code@ == model.code@));
            i = i + 1;
        }
        if is_duplicate {
            return Err(OrmError::DuplicateRecord(String::from_str("duplicate Journal Id or Code")));
        }
        proof {
            if has_key(rows, id) {
                let j = key_index(rows, id);
                assert(journal_row_clashes(rows[j], id, model.code@));
            }
        }
        self.inner.journal.insert(id, journal.duplicate());
        proof {
            let nr = self.inner.journal.rows();
            assert(nr == rows.push((id, journal)));
            assert forall|a: int, b: int|
                #![trigger nr[a], nr[b]]
                0 <= a < nr.len() && 0 <= b < nr.len() && a != b implies nr[a].1.code@ != nr[b].1.code@ by {
                if a == rows.len() {
                    assert(!journal_row_clashes(rows[b], id, model.code@));
                } else if b == rows.len() {
                    assert(!journal_row_clashes(rows[a], id, model.code@));
                } else {
                    assert(nr[a] == rows[a] && nr[b] == rows[b]);
                }
            }
        }
        Ok(journal)
    }

    /// Stores a journal under a fresh random identifier, unless a stored
    /// journal has the journal's code.
    pub fn create_journal(&mut self, model: &journal::Model) -> (r: Result<journal::ActiveModel, OrmError>)
        requires
            old(self).wf(),
        ensures
            final(self).wf(),
            journal_created(old(self).state(), final(self).state(), *model, r),
    {
        let id = JournalId::new();
        let ghost js = self.state().journals();
        proof {
            if exists|i: int| 0 <= i < js.len() && #[trigger] js[i].1.code@ == model.code@ {
                let i = choose|i: int| 0 <= i < js.len() && #[trigger] js[i].1.code@ == model.code@;
                assert(journal_row_clashes(js[i], id, model.code@));
            }
        }
        let r = self.create_journal_with(model, id);
        proof {
            if journal_clash(js, id, model.code@) {
                let i = choose|i: int| 0 <= i < js.len() && #[trigger] journal_row_clashes(js[i], id, model.code@);
                if js[i].1.code@ != model.code@ {
                    assert(js[i].0 == id);
                    assert(has_key(js, id));
                } else {
                    assert(js[i].1.code@ == model.code@);
                }
            }
        }
        r
    }

    /// The stored journals whose identifier is among the given ones, in table
    /// order; all of them where no identifiers are given.
    pub fn search_journals(&self, ids: Option<Vec<JournalId>>) -> (r: Result<Vec<journal::ActiveModel>, OrmError>)
        ensures
            r matches Ok(v) && v@ == select_rows(self.state().journals(), opt_seq(ids)),
    {
        Ok(select(&self.inner.journal, &ids))
    }
}


/// What is wrong with a line of a journal transaction to be created: it
/// names neither a ledger account nor a subsidiary account, or both, or a
/// ledger account that is not stored.
pub open spec fn line_problem(s: Inner, jid: JournalTransactionId, line: journal_transaction_line::Model) -> Option<(ErrorKind, Seq<char>)> {
    if line.ledger_id is None && line.account_id is None {
        Some((ErrorKind::Internal, "both ledger and account fields empty: transaction: "@ + journal_transaction_id_text(jid)))
    } else if line.ledger_id is Some && line.account_id is Some {
        Some((ErrorKind::Internal, "both ledger and account fields NOT empty: transaction: "@ + journal_transaction_id_text(jid)))
    } else if line.ledger_id matches Some(lid) && !has_ledger_id(s.ledgers(), lid) {
        Some((ErrorKind::RecordNotFound, "account id: "@ + uuid_text(line.ledger_id.unwrap().value)))
    } else {
        None
    }
}

/// The problem of the first line that has one.
pub open spec fn first_line_problem(s: Inner, jid: JournalTransactionId, lines: Seq<journal_transaction_line::Model>) -> Option<(ErrorKind, Seq<char>)>
    decreases lines.len(),
{
    if lines.len() == 0 {
        None
    } else {
        match line_problem(s, jid, lines[0]) {
            Some(p) => Some(p),
            None => first_line_problem(s, jid, lines.drop_first()),
        }
    }
}

/// Where no line has a problem, none of them has one.
proof fn lemma_no_line_problem(s: Inner, jid: JournalTransactionId, lines: Seq<journal_transaction_line::Model>)
    requires
        first_line_problem(s, jid, lines) is None,
    ensures
        forall|i: int| 0 <= i < lines.len() ==> #[trigger] line_problem(s, jid, lines[i]) is None,
    decreases lines.len(),
{
    if lines.len() > 0 {
        lemma_no_line_problem(s, jid, lines.drop_first());
        assert forall|i: int| 0 <= i < lines.len() implies #[trigger] line_problem(s, jid, lines[i]) is None by {
            if i > 0 {
                assert(lines[i] == lines.drop_first()[i - 1]);
            }
        }
    }
}

/// The line names a ledger account.
pub open spec fn names_ledger(l: journal_transaction_line::Model) -> bool {
    l.ledger_id is Some
}

/// The stored ledger line that a line naming a ledger account becomes.
pub open spec fn ledger_line_of(jid: JournalTransactionId, l: journal_transaction_line::Model) -> journal_transaction_line_ledger::ActiveModel {
    journal_transaction_line_ledger::ActiveModel {
        journal_id: jid.journal_id,
        timestamp: jid.timestamp,
        ledger_id: l.ledger_id.unwrap(),
        xact_type: l.xact_type,
        amount: l.amount,
        state: TransactionState::Pending,
        posting_ref: None,
    }
}

/// The stored subsidiary-account line that a line naming an account becomes.
pub open spec fn account_line_of(jid: JournalTransactionId, l: journal_transaction_line::Model) -> journal_transaction_line_account::ActiveModel {
    journal_transaction_line_account::ActiveModel {
        journal_id: jid.journal_id,
        timestamp: jid.timestamp,
        account_id: l.account_id.unwrap(),
        xact_type: l.xact_type,
        amount: l.amount,
        state: TransactionState::Pending,
        posting_ref: None,
    }
}

/// The stored ledger lines of a new journal transaction, in order.
pub open spec fn new_ledger_lines(jid: JournalTransactionId, lines: Seq<journal_transaction_line::Model>) -> Seq<journal_transaction_line_ledger::ActiveModel> {
    lines.filter(|l: journal_transaction_line::Model| names_ledger(l)).map_values(
        |l: journal_transaction_line::Model| ledger_line_of(jid, l),
    )
}

/// The stored subsidiary-account lines of a new journal transaction, in order.
pub open spec fn new_account_lines(jid: JournalTransactionId, lines: Seq<journal_transaction_line::Model>) -> Seq<journal_transaction_line_account::ActiveModel> {
    lines.filter(|l: journal_transaction_line::Model| !names_ledger(l)).map_values(
        |l: journal_transaction_line::Model| account_line_of(jid, l),
    )
}

/// A stored ledger line as handed back to a caller.
pub open spec fn line_view(l: journal_transaction_line_ledger::ActiveModel) -> journal_transaction_line::ActiveModel {
    journal_transaction_line::ActiveModel {
        journal_id: l.journal_id,
        timestamp: l.timestamp,
        ledger_id: Some(l.ledger_id),
        account_id: None,
        xact_type: l.xact_type,
        amount: l.amount,
        state: l.state,
        posting_ref: l.posting_ref,
    }
}

/// The head of a new journal transaction.
pub open spec fn record_of(model: journal_transaction::Model) -> journal_transaction_record::ActiveModel {
    journal_transaction_record::ActiveModel {
        journal_id: model.journal_id,
        timestamp: model.timestamp,
        explanation: model.explanation,
    }
}

/// The identifier that a new journal transaction gets: its journal and time.
pub open spec fn jid_of(model: journal_transaction::Model) -> JournalTransactionId {
    JournalTransactionId { journal_id: model.journal_id, timestamp: model.timestamp }
}

/// `v` lists the journal transactions of `s` that `ids` selects, in the
/// order in which they are stored, each carrying every stored line.
pub open spec fn xacts_listed(s: Inner, ids: Option<Seq<JournalTransactionId>>, v: Seq<journal_transaction::ActiveModel>) -> bool {
    let sel = select_rows(s.journal_xacts(), ids);
    &&& v.len() == sel.len()
    &&& forall|i: int| 0 <= i < sel.len() ==> {
        &&& #[trigger] v[i].journal_id == sel[i].journal_id
        &&& v[i].timestamp == sel[i].timestamp
        &&& v[i].explanation == sel[i].explanation
        &&& v[i].lines@ == all_lines(s.journal_xact_lines())
    }
}

/// Every stored ledger line of every journal transaction, as handed back to
/// a caller: the transactions in table order, each with its lines in order.
pub open spec fn all_lines(rows: Seq<(JournalTransactionId, Seq<journal_transaction_line_ledger::ActiveModel>)>) -> Seq<journal_transaction_line::ActiveModel>
    decreases rows.len(),
{
    if rows.len() == 0 {
        Seq::empty()
    } else {
        all_lines(rows.drop_last()) + rows.last().1.map_values(|l: journal_transaction_line_ledger::ActiveModel| line_view(l))
    }
}

/// The error of a line that names neither a ledger account nor a subsidiary
/// account, or both; `None` for a line that names just one.
pub fn line_shape_error(jtx_id: JournalTransactionId, line: &journal_transaction_line::Model) -> (r: Option<OrmError>)
    requires
        jtx_id.timestamp.valid(),
    ensures
        (line.ledger_id is Some) != (line.account_id is Some) ==> r is None,
        line.ledger_id is None && line.account_id is None ==> (r matches Some(e) && error_matches(e, ErrorKind::Internal,
            "both ledger and account fields empty: transaction: "@ + journal_transaction_id_text(jtx_id))),
        line.ledger_id is Some && line.account_id is Some ==> (r matches Some(e) && error_matches(e, ErrorKind::Internal,
            "both ledger and account fields NOT empty: transaction: "@ + journal_transaction_id_text(jtx_id))),
{
    if line.ledger_id.is_none() && line.account_id.is_none() {
        let head = String::from_str("both ledger and account fields empty: transaction: ");
        Some(OrmError::Internal(head.concat(jtx_id.to_string().as_str())))
    } else if line.ledger_id.is_some() && line.account_id.is_some() {
        let head = String::from_str("both ledger and account fields NOT empty: transaction: ");
        Some(OrmError::Internal(head.concat(jtx_id.to_string().as_str())))
    } else {
        None
    }
}

/// The error of a transaction line that names a ledger account no back end holds.
pub fn unknown_ledger_error(lid: AccountId) -> (r: OrmError)
    ensures
        error_matches(r, ErrorKind::RecordNotFound, "account id: "@ + uuid_text(lid.value)),
{
    let head = String::from_str("account id: ");
    OrmError::RecordNotFound(head.concat(lid.to_string().as_str()))
}

/// The pending ledger line that a transaction line naming a ledger account becomes.
pub fn ledger_line_for(jid: JournalTransactionId, line: &journal_transaction_line::Model) -> (r: journal_transaction_line_ledger::ActiveModel)
    requires
        line.ledger_id is Some,
    ensures
        r == ledger_line_of(jid, *line),
{
    journal_transaction_line_ledger::ActiveModel {
        journal_id: jid.journal_id,
        timestamp: jid.timestamp,
        ledger_id: line.ledger_id.unwrap(),
        xact_type: line.xact_type,
        amount: line.amount,
        state: TransactionState::Pending,
        posting_ref: None,
    }
}

/// The pending account line that a transaction line naming a subsidiary account becomes.
pub fn account_line_for(jid: JournalTransactionId, line: &journal_transaction_line::Model) -> (r: journal_transaction_line_account::ActiveModel)
    requires
        line.account_id is Some,
    ensures
        r == account_line_of(jid, *line),
{
    journal_transaction_line_account::ActiveModel {
        journal_id: jid.journal_id,
        timestamp: jid.timestamp,
        account_id: line.account_id.unwrap(),
        xact_type: line.xact_type,
        amount: line.amount,
        state: TransactionState::Pending,
        posting_ref: None,
    }
}

/// A ledger line as handed back to a caller.
pub fn view_line(l: &journal_transaction_line_ledger::ActiveModel) -> (r: journal_transaction_line::ActiveModel)
    ensures
        r == line_view(*l),
{
    journal_transaction_line::ActiveModel {
        journal_id: l.journal_id,
        timestamp: l.timestamp,
        ledger_id: Some(l.ledger_id),
        account_id: None,
        xact_type: l.xact_type,
        amount: l.amount,
        state: l.state,
        posting_ref: l.posting_ref,
    }
}

/// A copy of lines as handed back to a caller.
fn copy_line_views(v: &Vec<journal_transaction_line::ActiveModel>) -> (r: Vec<journal_transaction_line::ActiveModel>)
    ensures
        r@ == v@,
{
    let mut r: Vec<journal_transaction_line::ActiveModel> = Vec::new();
    let mut i: usize = 0;
    while i < v.len()
        invariant
            i <= v@.len(),
            r@ == v@.take(i as int),
        decreases v@.len() - i,
    {
        r.push(v[i]);
        i = i + 1;
        assert(r@ =~= v@.take(i as int));
    }
    assert(v@.take(v@.len() as int) =~= v@);
    r
}

impl MemoryStore {
    /// Whether a stored ledger account has the given identifier.
    fn ledger_exists(&self, id: AccountId) -> (b: bool)
        ensures
            b == has_ledger_id(self.state().ledgers(), id),
    {
        let ghost rows = self.inner.ledger.rows();
        let mut i: usize = 0;
        while i < self.inner.ledger.len()
            invariant
                rows == self.inner.ledger.rows(),
                i <= rows.len(),
                forall|j: int| 0 <= j < i ==> #[trigger] rows[j].1.id != id,
            decreases rows.len() - i,
        {
            if self.inner.ledger.value_at(i).id == id {
                return true;
            }
            i = i + 1;
        }
        false
    }

    /// The problem of the first line of a new journal transaction that has one.
    fn check_lines(&self, jtx_id: JournalTransactionId, lines: &Vec<journal_transaction_line::Model>) -> (r: Result<(), OrmError>)
        requires
            jtx_id.timestamp.valid(),
        ensures
            match first_line_problem(self.state(), jtx_id, lines@) {
                None => r is Ok,
                Some((kind, text)) => r matches Err(e) && error_matches(e, kind, text),
            },
    {
        let mut i: usize = 0;
        assert(lines@.skip(0) =~= lines@);
        while i < lines.len()
            invariant
                jtx_id.timestamp.valid(),
                i <= lines@.len(),
                first_line_problem(self.state(), jtx_id, lines@) == first_line_problem(self.state(), jtx_id, lines@.skip(i as int)),
            decreases lines@.len() - i,
        {
            let line = lines[i];
            proof {
                assert(lines@.skip(i as int).drop_first() =~= lines@.skip(i + 1));
                assert(lines@.skip(i as int)[0] == line);
            }
            if let Some(e) = line_shape_error(jtx_id, &line) {
                return Err(e);
            } else if line.ledger_id.is_some() {
                let lid = line.ledger_id.unwrap();
                if !self.ledger_exists(lid) {
                    return Err(unknown_ledger_error(lid));
                }
            }
            i = i + 1;
        }
        proof {
            assert(lines@.skip(i as int).len() == 0);
        }
        Ok(())
    }

    /// Creates a journal transaction with its lines, all pending. Every line
    /// must name a stored ledger account or a subsidiary account, not both,
    /// and no transaction of the same journal and time may be stored. The
    /// transaction handed back carries the ledger lines only.
    pub fn create_journal_transaction(&mut self, model: &journal_transaction::Model) -> (r: Result<journal_transaction::ActiveModel, OrmError>)
        requires
            old(self).wf(),
            model.timestamp.valid(),
        ensures
            final(self).wf(),
            transaction_created(old(self).state(), final(self).state(), *model, r),
    {
        let jtx_id = JournalTransactionId::new(model.journal_id, model.timestamp);
        match self.check_lines(jtx_id, &model.lines) {
            Ok(()) => {},
            Err(e) => return Err(e),
        }
        if self.inner.journal_xact.contains_key(&jtx_id) {
            let head = String::from_str("journal transaction exists: ");
            return Err(OrmError::DuplicateRecord(head.concat(jtx_id.to_string().as_str())));
        }
        let ghost x0 = self.inner.journal_xact.rows();
        let ghost l0 = self.inner.journal_xact_line.rows();
        let ghost a0 = self.inner.journal_xact_line_account.rows();
        proof {
            reveal(lines_of_stored_xacts);
            lemma_map_rows_keys(l0, |v: JournalTxLines| ledger_line_list(v), jtx_id);
            lemma_map_rows_keys(a0, |v: JournalTxAccountLines| account_line_list(v), jtx_id);
            assert(!has_key(l0, jtx_id));
            assert(!has_key(a0, jtx_id));
        }
        let ghost lines = model.lines@;
        proof {
            lemma_no_line_problem(self.state(), jtx_id, lines);
            assert forall|k: int| 0 <= k < lines.len() implies #[trigger] lines[k].ledger_id is Some || lines[k].account_id is Some by {
                assert(line_problem(self.state(), jtx_id, lines[k]) is None);
            }
        }
        let ghost is_l = |l: journal_transaction_line::Model| names_ledger(l);
        let ghost is_a = |l: journal_transaction_line::Model| !names_ledger(l);
        let ghost to_l = |l: journal_transaction_line::Model| ledger_line_of(jtx_id, l);
        let ghost to_a = |l: journal_transaction_line::Model| account_line_of(jtx_id, l);
        let ghost view = |l: journal_transaction_line_ledger::ActiveModel| line_view(l);
        let mut res_tx_ledger_lines = Vec::<journal_transaction_line_ledger::ActiveModel>::new();
        let mut res_tx_account_lines = Vec::<journal_transaction_line_account::ActiveModel>::new();
        let mut ledger_lines = Vec::<journal_transaction_line::ActiveModel>::new();
        let mut i: usize = 0;
        while i < model.lines.len()
            invariant
                lines == model.lines@,
                i <= lines.len(),
                jtx_id == jid_of(*model),
                is_l == (|l: journal_transaction_line::Model| names_ledger(l)),
                is_a == (|l: journal_transaction_line::Model| !names_ledger(l)),
                to_l == (|l: journal_transaction_line::Model| ledger_line_of(jtx_id, l)),
                to_a == (|l: journal_transaction_line::Model| account_line_of(jtx_id, l)),
                view == (|l: journal_transaction_line_ledger::ActiveModel| line_view(l)),
                res_tx_ledger_lines@ == lines.take(i as int).filter(is_l).map_values(to_l),
                res_tx_account_lines@ == lines.take(i as int).filter(is_a).map_values(to_a),
                ledger_lines@ == res_tx_ledger_lines@.map_values(view),
                forall|k: int| 0 <= k < lines.len() ==> #[trigger] lines[k].ledger_id is Some || lines[k].account_id is Some,
            decreases lines.len() - i,
        {
            let line = model.lines[i];
            proof {
                assert(lines.take(i + 1) =~= lines.take(i as int).push(line));
                lines.take(i as int).lemma_filter_push(line, is_l);
                lines.take(i as int).lemma_filter_push(line, is_a);
            }
            if line.ledger_id.is_some() {
                let jtx_line = journal_transaction_line_ledger::ActiveModel {
                    journal_id: model.journal_id,
                    timestamp: model.timestamp,
                    state: TransactionState::Pending,
                    ledger_id: line.ledger_id.unwrap(),
                    xact_type: line.xact_type,
                    amount: line.amount,
                    posting_ref: None,
                };
                let ghost before = res_tx_ledger_lines@;
                res_tx_ledger_lines.push(jtx_line);
                ledger_lines.push(view_line(&jtx_line));
                proof {
                    assert(lines.take(i as int).filter(is_l).push(line).map_values(to_l) =~= before.push(jtx_line));
                    assert(res_tx_ledger_lines@.map_values(view) =~= before.map_values(view).push(line_view(jtx_line)));
                }
            } else {
                let jtx_line = journal_transaction_line_account::ActiveModel {
                    journal_id: model.journal_id,
                    timestamp: model.timestamp,
                    state: TransactionState::Pending,
                    account_id: line.account_id.unwrap(),
                    xact_type: line.xact_type,
                    amount: line.amount,
                    posting_ref: None,
                };
                let ghost before = res_tx_account_lines@;
                res_tx_account_lines.push(jtx_line);
                proof {
                    assert(lines.take(i as int).filter(is_a).push(line).map_values(to_a) =~= before.push(jtx_line));
                }
            }
            i = i + 1;
        }
        proof {
            assert(lines.take(lines.len() as int) =~= lines);
        }
        let jtx = journal_transaction_record::ActiveModel {
            journal_id: model.journal_id,
            timestamp: model.timestamp,
            explanation: model.explanation.clone(),
        };
        let explanation = model.explanation.clone();
        proof {
            lemma_upsert_unique(x0, jtx_id, jtx);
            assert forall|k: JournalTransactionId| k != jtx_id implies has_key(upsert(x0, jtx_id, jtx), k) == has_key(x0, k) by {
                lemma_lookup_upsert_other(x0, jtx_id, jtx, k);
            }
        }
        self.inner.journal_xact.insert(jtx_id, jtx);
        let ghost ll = res_tx_ledger_lines@;
        let ghost al = res_tx_account_lines@;
        if res_tx_ledger_lines.len() > 0 {
            proof {
                lemma_map_rows_upsert(self.inner.journal_xact_line.rows(), |v: JournalTxLines| ledger_line_list(v), jtx_id, JournalTxLines { list: res_tx_ledger_lines });
                let v = JournalTxLines { list: res_tx_ledger_lines };
                assert forall|k: JournalTransactionId| k != jtx_id implies has_key(upsert(l0, jtx_id, v), k) == has_key(l0, k) by {
                    lemma_lookup_upsert_other(l0, jtx_id, v, k);
                }
            }
            self.inner.journal_xact_line.insert(jtx_id, JournalTxLines { list: res_tx_ledger_lines });
        }
        if res_tx_account_lines.len() > 0 {
            proof {
                lemma_map_rows_upsert(self.inner.journal_xact_line_account.rows(), |v: JournalTxAccountLines| account_line_list(v), jtx_id, JournalTxAccountLines { list: res_tx_account_lines });
                let v = JournalTxAccountLines { list: res_tx_account_lines };
                assert forall|k: JournalTransactionId| k != jtx_id implies has_key(upsert(a0, jtx_id, v), k) == has_key(a0, k) by {
                    lemma_lookup_upsert_other(a0, jtx_id, v, k);
                }
            }
            self.inner.journal_xact_line_account.insert(jtx_id, JournalTxAccountLines { list: res_tx_account_lines });
        }
        proof {
            reveal(lines_of_stored_xacts);
            let x1 = self.inner.journal_xact.rows();
            let l1 = self.inner.journal_xact_line.rows();
            let a1 = self.inner.journal_xact_line_account.rows();
            assert forall|k: JournalTransactionId| #[trigger] has_key(l1, k) implies has_key(x1, k) by {
                if k != jtx_id {
                    assert(has_key(l0, k));
                    assert(has_key(x0, k));
                }
            }
            assert forall|k: JournalTransactionId| #[trigger] has_key(a1, k) implies has_key(x1, k) by {
                if k != jtx_id {
                    assert(has_key(a0, k));
                    assert(has_key(x0, k));
                }
            }
        }
        Ok(journal_transaction::ActiveModel {
            journal_id: model.journal_id,
            timestamp: model.timestamp,
            explanation,
            lines: ledger_lines,
        })
    }

    /// Every stored ledger line of every journal transaction, as handed back.
    fn all_line_views(&self) -> (r: Vec<journal_transaction_line::ActiveModel>)
        ensures
            r@ == all_lines(self.state().journal_xact_lines()),
    {
        let ghost f = |v: JournalTxLines| ledger_line_list(v);
        let ghost rows = self.inner.journal_xact_line.rows();
        let ghost view = |l: journal_transaction_line_ledger::ActiveModel| line_view(l);
        let mut res: Vec<journal_transaction_line::ActiveModel> = Vec::new();
        let mut i: usize = 0;
        while i < self.inner.journal_xact_line.len()
            invariant
                rows == self.inner.journal_xact_line.rows(),
                f == (|v: JournalTxLines| ledger_line_list(v)),
                view == (|l: journal_transaction_line_ledger::ActiveModel| line_view(l)),
                i <= rows.len(),
                res@ == all_lines(map_rows(rows, f).take(i as int)),
            decreases rows.len() - i,
        {
            let list = &self.inner.journal_xact_line.value_at(i).list;
            let ghost head = res@;
            let mut j: usize = 0;
            while j < list.len()
                invariant
                    view == (|l: journal_transaction_line_ledger::ActiveModel| line_view(l)),
                    j <= list@.len(),
                    res@ == head + list@.take(j as int).map_values(view),
                decreases list@.len() - j,
            {
                res.push(view_line(&list[j]));
                j = j + 1;
                assert(res@ =~= head + list@.take(j as int).map_values(view));
            }
            proof {
                assert(list@.take(list@.len() as int) =~= list@);
                let m = map_rows(rows, f);
                assert(m.take(i + 1).drop_last() =~= m.take(i as int));
                assert(m.take(i + 1).last() == m[i as int]);
                assert(m[i as int].1 == list@);
            }
            i = i + 1;
        }
        proof {
            let m = map_rows(rows, f);
            assert(m.take(rows.len() as int) =~= m);
        }
        res
    }

    /// The stored journal transactions whose identifier is among the given
    /// ones (all of them where none are given), in table order, each handed
    /// back with every stored ledger line of every transaction.
    #[verifier::spinoff_prover]
    pub fn search_journal_transactions(&self, ids: Option<Vec<JournalTransactionId>>) -> (r: Result<Vec<journal_transaction::ActiveModel>, OrmError>)
        ensures
            r matches Ok(v) && xacts_listed(self.state(), opt_seq(ids), v@),
    {
        let records = select(&self.inner.journal_xact, &ids);
        let all = self.all_line_views();
        let mut res = Vec::<journal_transaction::ActiveModel>::new();
        let mut i: usize = 0;
        while i < records.len()
            invariant
                i <= records@.len(),
                all@ == all_lines(self.state().journal_xact_lines()),
                res@.len() == i,
                forall|k: int| 0 <= k < i ==> {
                    &&& #[trigger] res@[k].journal_id == records@[k].journal_id
                    &&& res@[k].timestamp == records@[k].timestamp
                    &&& res@[k].explanation == records@[k].explanation
                    &&& res@[k].lines@ == all@
                },
            decreases records@.len() - i,
        {
            let value = &records[i];
            let tx = journal_transaction::ActiveModel {
                journal_id: value.journal_id,
                timestamp: value.timestamp,
                explanation: value.explanation.clone(),
                lines: copy_line_views(&all),
            };
            res.push(tx);
            proof {
                assert(res@[i as int].lines@ == all@);
            }
            i = i + 1;
        }
        Ok(res)
    }
}


/// A stored general ledger has the identifier, as its key or its own.
pub open spec fn gl_row_has_id(r: (GeneralLedgerId, general_ledger::ActiveModel), id: GeneralLedgerId) -> bool {
    r.0 == id || r.1.id == id
}

/// Some stored general ledger has the identifier, as its key or its own.
pub open spec fn gl_known(rows: Seq<(GeneralLedgerId, general_ledger::ActiveModel)>, id: GeneralLedgerId) -> bool {
    exists|i: int| 0 <= i < rows.len() && #[trigger] gl_row_has_id(rows[i], id)
}

/// The journal that a search domain selects: the one it names, else the default.
pub open spec fn chosen_journal(c: ColumnDomain, default: JournalId) -> JournalId {
    match c.journal_id {
        Some(j) => j,
        None => default,
    }
}

/// The time that a search domain selects: the one it names, else the earliest.
pub open spec fn chosen_time(c: ColumnDomain) -> Timestamp {
    match c.timestamp {
        Some(t) => t,
        None => Timestamp { micros: MIN_MICROS },
    }
}

/// The template column that a search domain selects: the one it names, else the default.
pub open spec fn chosen_template(c: ColumnDomain, default: TemplateColumnId) -> TemplateColumnId {
    match c.template_column_id {
        Some(t) => t,
        None => default,
    }
}

/// The column identifier that a search domain selects.
pub open spec fn chosen_column(c: ColumnDomain, dj: JournalId, dt: TemplateColumnId) -> JournalTransactionColumnId {
    JournalTransactionColumnId {
        journal_id: chosen_journal(c, dj),
        timestamp: chosen_time(c),
        template_column_id: chosen_template(c, dt),
    }
}

/// A list after one more item is stored under a key: the key's list with the
/// item last, or a list of the item alone.
pub open spec fn appended<K, T>(rows: Seq<(K, Seq<T>)>, k: K, x: T) -> Seq<T> {
    match lookup(rows, k) {
        Some(l) => l.push(x),
        None => seq![x],
    }
}

/// A debit-and-credit column after a save: replaced where it has the saved
/// column's identifier.
pub open spec fn saved_drcr(
    v: journal_transaction_column_ledger_drcr::ActiveModel,
    model: journal_transaction_column_ledger_drcr::ActiveModel,
) -> journal_transaction_column_ledger_drcr::ActiveModel {
    if v.spec_id() == model.spec_id() {
        model
    } else {
        v
    }
}

/// A special column after a save: replaced where it has the saved column's place.
pub open spec fn saved_special(
    v: journal_transaction_special_column::ActiveModel,
    model: journal_transaction_special_column::ActiveModel,
) -> journal_transaction_special_column::ActiveModel {
    if v.sequence == model.sequence {
        model
    } else {
        v
    }
}

/// The entry that a posting reference names: the ledger entry under its key
/// where that entry's account is the reference's account; else the debit of
/// the ledger transaction under its key where that debits the reference's
/// account; else none.
pub open spec fn posting_ref_entry(s: Inner, posting_ref: PostingRef) -> Option<journal_entry::ActiveModel> {
    ref_entry(posting_ref, lookup(s.journal_entries(), posting_ref.key), lookup(s.ledger_xacts(), posting_ref.key))
}

/// The debits of ledger transactions, each with the amount and journal of its
/// paired ledger entry, in order; a transaction whose entry was not found
/// gives none.
pub open spec fn found_debits(
    xacts: Seq<(ledger_transaction::ActiveModel, Option<ledger_line::ActiveModel>)>,
) -> Seq<journal_entry::ActiveModel>
    decreases xacts.len(),
{
    if xacts.len() == 0 {
        Seq::empty()
    } else {
        let before = found_debits(xacts.drop_last());
        match xacts.last().1 {
            Some(c) => before.push(debit_entry(xacts.last().0, c)),
            None => before,
        }
    }
}

/// Every posting that touches an account, as the account sees it, given its
/// ledger entries and the ledger transactions that debit it, each with the
/// entry found under its key: first the credits of the entries, then the
/// debits of the transactions whose entry was found.
pub fn journal_entries_from(
    entries: &Vec<ledger_line::ActiveModel>,
    xacts: &Vec<(ledger_transaction::ActiveModel, Option<ledger_line::ActiveModel>)>,
) -> (r: Vec<journal_entry::ActiveModel>)
    ensures
        r@ == entries@.map_values(|e: ledger_line::ActiveModel| credit_entry(e)) + found_debits(xacts@),
{
    let mut res = Vec::<journal_entry::ActiveModel>::new();
    let ghost cr = |e: ledger_line::ActiveModel| credit_entry(e);
    let mut i: usize = 0;
    while i < entries.len()
        invariant
            i <= entries@.len(),
            cr == (|e: ledger_line::ActiveModel| credit_entry(e)),
            res@ == entries@.take(i as int).map_values(cr),
        decreases entries@.len() - i,
    {
        let e = entries[i];
        res.push(journal_entry::ActiveModel {
            ledger_id: e.ledger_id,
            timestamp: e.timestamp,
            xact_type: XactType::Cr,
            amount: e.amount,
            journal_ref: e.journal_ref,
        });
        i = i + 1;
        assert(res@ =~= entries@.take(i as int).map_values(cr));
    }
    assert(entries@.take(entries@.len() as int) =~= entries@);
    let ghost head = res@;
    let mut t: usize = 0;
    while t < xacts.len()
        invariant
            t <= xacts@.len(),
            res@ == head + found_debits(xacts@.take(t as int)),
        decreases xacts@.len() - t,
    {
        let (x, found) = xacts[t];
        proof {
            assert(xacts@.take(t + 1).drop_last() =~= xacts@.take(t as int));
        }
        if let Some(counterpart) = found {
            res.push(journal_entry::ActiveModel {
                ledger_id: x.ledger_dr_id,
                timestamp: x.timestamp,
                xact_type: XactType::Dr,
                amount: counterpart.amount,
                journal_ref: counterpart.journal_ref,
            });
        }
        t = t + 1;
        assert(res@ =~= head + found_debits(xacts@.take(t as int)));
    }
    assert(xacts@.take(xacts@.len() as int) =~= xacts@);
    res
}

/// The side of a posting that a posting reference names, given the ledger
/// entry and the ledger transaction stored under its key: the credit of the
/// entry where its account is the reference's, else the debit of the
/// transaction where its debit account is, with the entry's amount and journal.
pub open spec fn ref_entry(
    posting_ref: PostingRef,
    entry: Option<ledger_line::ActiveModel>,
    xact: Option<ledger_transaction::ActiveModel>,
) -> Option<journal_entry::ActiveModel> {
    match entry {
        Some(e) if e.ledger_id == posting_ref.account_id => Some(credit_entry(e)),
        _ => match xact {
            Some(t) if t.ledger_dr_id == posting_ref.account_id => Some(debit_entry(t, entry.unwrap())),
            _ => None,
        },
    }
}

/// The side of a posting that a posting reference names, given what is
/// stored under its key. A debit needs the entry stored with it.
pub fn journal_entry_for_ref(
    posting_ref: PostingRef,
    entry: Option<ledger_line::ActiveModel>,
    xact: Option<ledger_transaction::ActiveModel>,
) -> (r: Option<journal_entry::ActiveModel>)
    requires
        xact matches Some(t) && t.ledger_dr_id == posting_ref.account_id
            && !(entry matches Some(e) && e.ledger_id == posting_ref.account_id) ==> entry is Some,
    ensures
        r == ref_entry(posting_ref, entry, xact),
{
    if let Some(e) = entry {
        if e.ledger_id == posting_ref.account_id {
            return Some(journal_entry::ActiveModel {
                ledger_id: e.ledger_id,
                timestamp: e.timestamp,
                xact_type: XactType::Cr,
                amount: e.amount,
                journal_ref: e.journal_ref,
            });
        }
    }
    if let Some(t) = xact {
        if t.ledger_dr_id == posting_ref.account_id {
            let counterpart = entry.unwrap();
            return Some(journal_entry::ActiveModel {
                ledger_id: t.ledger_dr_id,
                timestamp: t.timestamp,
                xact_type: XactType::Dr,
                amount: counterpart.amount,
                journal_ref: counterpart.journal_ref,
            });
        }
    }
    None
}

impl MemoryStore {
    /// Stores a ledger account under the given identifier unless a stored
    /// account has its number; no parent is checked and no mark is stored.
    pub fn insert_ledger_with(&mut self, model: &ledger::Model, id: AccountId) -> (r: Result<ledger::ActiveModel, OrmError>)
        requires
            old(self).wf(),
        ensures
            final(self).wf(),
            frame(old(self).state(), final(self).state(), set![Tab::Ledger]),
            has_ledger_no(old(self).state().ledgers(), model.ledger_no@) ==> {
                &&& r matches Err(e) && error_matches(e, ErrorKind::DuplicateRecord, "account "@ + model.ledger_no@)
                &&& final(self).state() == old(self).state()
            },
            !has_ledger_no(old(self).state().ledgers(), model.ledger_no@) ==> {
                &&& r == Ok::<ledger::ActiveModel, OrmError>(ledger::from_model(*model, id))
                &&& final(self).state().ledgers() == upsert(old(self).state().ledgers(), id, ledger::from_model(*model, id))
            },
    {
        let ledger = ledger::ActiveModel::from_model(model, id);
        if self.ledger_no_taken(&ledger.ledger_no) {
            let head = String::from_str("account ");
            return Err(OrmError::DuplicateRecord(head.concat(ledger.ledger_no.as_str())));
        }
        let ghost ls = self.inner.ledger.rows();
        self.inner.ledger.insert(ledger.id, ledger.duplicate());
        proof {
            lemma_store_ledger(ls, ledger);
        }
        Ok(ledger)
    }

    /// Replaces a stored general ledger, known by its identifier.
    pub fn save_general_ledger(&mut self, model: &general_ledger::ActiveModel) -> (r: Result<u64, OrmError>)
        requires
            old(self).wf(),
        ensures
            final(self).wf(),
            frame(old(self).state(), final(self).state(), set![Tab::GeneralLedger]),
            gl_known(old(self).state().general_ledgers(), model.id) ==> {
                &&& r == Ok::<u64, OrmError>(1)
                &&& final(self).state().general_ledgers() == upsert(old(self).state().general_ledgers(), model.id, *model)
            },
            !gl_known(old(self).state().general_ledgers(), model.id) ==> {
                &&& r matches Err(e) && error_matches(e, ErrorKind::RecordNotFound,
                    "general ledger: ("@ + model.name@ + "): "@ + uuid_text(model.id.value))
                &&& final(self).state() == old(self).state()
            },
    {
        let ghost rows = self.inner.general_ledger.rows();
        let mut exists = false;
        let mut i: usize = 0;
        while i < self.inner.general_ledger.len()
            invariant
                rows == self.inner.general_ledger.rows(),
                i <= rows.len(),
                exists == exists|j: int| 0 <= j < i && #[trigger] gl_row_has_id(rows[j], model.id),
            decreases rows.len() - i,
        {
            let k = self.inner.general_ledger.key_at(i);
            let v_id = self.inner.general_ledger.value_at(i).id;
            if k == model.id || v_id == model.id {
                exists = true;
            }
            assert(gl_row_has_id(rows[i as int], model.id) == (k == model.id || v_id == model.id));
            i = i + 1;
        }
        if exists {
            self.inner.general_ledger.insert(model.id, model.duplicate());
            return Ok(1);
        }
        let a = String::from_str("general ledger: (").concat(model.name.as_str());
        let b = a.concat("): ");
        Err(OrmError::RecordNotFound(b.concat(crate::ids::uuid_to_string(model.id.value).as_str())))
    }

    /// Stores a subsidiary-account credit column unless one with its
    /// identifier is stored.
    pub fn insert_account_cr(&mut self, model: &journal_transaction_column_account_cr::Model) -> (r: Result<journal_transaction_column_account_cr::ActiveModel, OrmError>)
        requires
            old(self).wf(),
        ensures
            final(self).wf(),
            frame(old(self).state(), final(self).state(), set![Tab::AccountCrColumn]),
            has_key(old(self).state().account_cr_columns(), model.spec_id()) ==> {
                &&& r matches Err(e) && error_matches(e, ErrorKind::DuplicateRecord, "id "@ + column_id_text(model.spec_id()))
                &&& final(self).state() == old(self).state()
            },
            !has_key(old(self).state().account_cr_columns(), model.spec_id()) ==> {
                &&& r == Ok::<journal_transaction_column_account_cr::ActiveModel, OrmError>(*model)
                &&& final(self).state().account_cr_columns() == old(self).state().account_cr_columns().push((model.spec_id(), *model))
            },
    {
        let jtx_col = *model;
        let id = jtx_col.id();
        if self.inner.journal_xact_column_account_cr.contains_key(&id) {
            let head = String::from_str("id ");
            return Err(OrmError::DuplicateRecord(head.concat(id.to_string().as_str())));
        }
        self.inner.journal_xact_column_account_cr.insert(id, jtx_col);
        Ok(jtx_col)
    }

    /// The stored subsidiary-account credit columns whose identifier is wanted.
    pub fn get_account_cr(&self, ids: Option<&Vec<JournalTransactionColumnId>>) -> (r: Result<Vec<journal_transaction_column_account_cr::ActiveModel>, OrmError>)
        ensures
            r matches Ok(v) && v@ == values(rows_with_keys(self.state().account_cr_columns(), opt_ref_seq(ids))),
    {
        let ghost rows = self.inner.journal_xact_column_account_cr.rows();
        let ghost want = opt_ref_seq(ids);
        let ghost pred = |r: (JournalTransactionColumnId, journal_transaction_column_account_cr::ActiveModel)| wanted(want, r.0);
        let mut res = Vec::<journal_transaction_column_account_cr::ActiveModel>::new();
        let mut i: usize = 0;
        while i < self.inner.journal_xact_column_account_cr.len()
            invariant
                rows == self.inner.journal_xact_column_account_cr.rows(),
                want == opt_ref_seq(ids),
                pred == (|r: (JournalTransactionColumnId, journal_transaction_column_account_cr::ActiveModel)| wanted(want, r.0)),
                i <= rows.len(),
                res@ == values(rows.take(i as int).filter(pred)),
            decreases rows.len() - i,
        {
            proof {
                assert(rows.take(i + 1) =~= rows.take(i as int).push(rows[i as int]));
                rows.take(i as int).lemma_filter_push(rows[i as int], pred);
            }
            let k = self.inner.journal_xact_column_account_cr.key_at(i);
            if is_wanted(ids, &k) {
                res.push(*self.inner.journal_xact_column_account_cr.value_at(i));
                assert(values(rows.take(i as int).filter(pred).push(rows[i as int])) =~= values(rows.take(i as int).filter(pred)).push(rows[i as int].1));
            }
            i = i + 1;
        }
        assert(rows.take(rows.len() as int) =~= rows);
        Ok(res)
    }

    /// The stored subsidiary-account credit columns that a search domain
    /// selects, with the given defaults for the identifiers it does not name.
    pub fn search_account_cr_with(
        &self,
        domain: &str,
        default_journal: JournalId,
        default_template: TemplateColumnId,
    ) -> (r: Result<Vec<journal_transaction_column_account_cr::ActiveModel>, OrmError>)
        ensures
            match parse_domain_text(domain@) {
                Err(t) => r matches Err(e) && error_matches(e, ErrorKind::Validation, t),
                Ok(c) => r matches Ok(v) && v@ == values(self.state().account_cr_columns()).filter(
                    |x: journal_transaction_column_account_cr::ActiveModel|
                        x.spec_id() == chosen_column(c, default_journal, default_template),
                ),
            },
    {
        let c = match parse_domain(domain) {
            Ok(c) => c,
            Err(e) => return Err(e),
        };
        let journal_id = match c.journal_id { Some(j) => j, None => default_journal };
        let timestamp = match c.timestamp { Some(t) => t, None => Timestamp::min() };
        let tpl_col_id = match c.template_column_id { Some(t) => t, None => default_template };
        let ghost want = chosen_column(c, default_journal, default_template);
        let ghost vals = values(self.inner.journal_xact_column_account_cr.rows());
        let ghost pred = |x: journal_transaction_column_account_cr::ActiveModel| x.spec_id() == want;
        let mut result = Vec::new();
        let mut i: usize = 0;
        while i < self.inner.journal_xact_column_account_cr.len()
            invariant
                vals == values(self.inner.journal_xact_column_account_cr.rows()),
                want == (JournalTransactionColumnId { journal_id, timestamp, template_column_id: tpl_col_id }),
                pred == (|x: journal_transaction_column_account_cr::ActiveModel| x.spec_id() == want),
                i <= vals.len(),
                result@ == vals.take(i as int).filter(pred),
            decreases vals.len() - i,
        {
            let value = *self.inner.journal_xact_column_account_cr.value_at(i);
            proof {
                assert(vals.take(i + 1) =~= vals.take(i as int).push(value));
                vals.take(i as int).lemma_filter_push(value, pred);
            }
            if value.journal_id == journal_id && value.timestamp == timestamp && value.template_column_id == tpl_col_id {
                result.push(value);
            }
            i = i + 1;
        }
        assert(vals.take(vals.len() as int) =~= vals);
        Ok(result)
    }

    /// Replaces the stored subsidiary-account credit column under the saved
    /// column's identifier.
    pub fn save_account_cr(&mut self, model: &journal_transaction_column_account_cr::ActiveModel) -> (r: Result<u64, OrmError>)
        requires
            old(self).wf(),
        ensures
            final(self).wf(),
            frame(old(self).state(), final(self).state(), set![Tab::AccountCrColumn]),
            has_key(old(self).state().account_cr_columns(), model.spec_id()) ==> {
                &&& r == Ok::<u64, OrmError>(1)
                &&& final(self).state().account_cr_columns()
                    == upsert(old(self).state().account_cr_columns(), model.spec_id(), *model)
            },
            !has_key(old(self).state().account_cr_columns(), model.spec_id()) ==> {
                &&& r matches Err(e) && error_matches(e, ErrorKind::RecordNotFound,
                    "journal transaction column account_cr: "@ + column_id_text(model.spec_id()))
                &&& final(self).state() == old(self).state()
            },
    {
        let id = model.id();
        match self.inner.journal_xact_column_account_cr.find(&id) {
            Some(i) => {
                proof {
                    lemma_key_index(self.inner.journal_xact_column_account_cr.rows(), i as int);
                }
                let val = *self.inner.journal_xact_column_account_cr.value_at(i);
                if val.id() == id {
                    self.inner.journal_xact_column_account_cr.set_value_at(i, *model);
                }
                Ok(1)
            },
            None => {
                let head = String::from_str("journal transaction column account_cr: ");
                Err(OrmError::RecordNotFound(head.concat(id.to_string().as_str())))
            },
        }
    }

    /// Stores a debit-and-credit column after the others under its identifier.
    pub fn insert_ledger_drcr(&mut self, model: &journal_transaction_column_ledger_drcr::Model) -> (r: Result<journal_transaction_column_ledger_drcr::ActiveModel, OrmError>)
        requires
            old(self).wf(),
        ensures
            final(self).wf(),
            frame(old(self).state(), final(self).state(), set![Tab::LedgerDrCrColumn]),
            r == Ok::<journal_transaction_column_ledger_drcr::ActiveModel, OrmError>(*model),
            final(self).state().ledger_drcr_columns() == upsert(old(self).state().ledger_drcr_columns(), model.spec_id(),
                appended(old(self).state().ledger_drcr_columns(), model.spec_id(), *model)),
    {
        let jtx_col = *model;
        let id = jtx_col.id();
        let ghost f = |v: Vec<journal_transaction_column_ledger_drcr::ActiveModel>| v@;
        let ghost rows = self.inner.journal_xact_column_ledger_drcr.rows();
        proof {
            lemma_map_rows_keys(rows, f, id);
        }
        match self.inner.journal_xact_column_ledger_drcr.find(&id) {
            Some(i) => {
                proof {
                    lemma_key_index(rows, i as int);
                    let m = map_rows(rows, f);
                    assert(m[i as int].0 == id);
                    lemma_key_index(m, i as int);
                }
                let mut list = copy_vec(self.inner.journal_xact_column_ledger_drcr.value_at(i));
                list.push(jtx_col);
                proof {
                    lemma_map_rows_set_at(rows, f, i as int, list);
                }
                self.inner.journal_xact_column_ledger_drcr.set_value_at(i, list);
            },
            None => {
                let mut list = Vec::new();
                list.push(jtx_col);
                proof {
                    lemma_map_rows_upsert(rows, f, id, list);
                    assert(list@ =~= seq![jtx_col]);
                }
                self.inner.journal_xact_column_ledger_drcr.insert(id, list);
            },
        }
        Ok(jtx_col)
    }

    /// The stored debit-and-credit columns under the wanted identifiers, in
    /// table order.
    pub fn get_ledger_drcr(&self, ids: Option<&Vec<JournalTransactionColumnId>>) -> (r: Result<Vec<journal_transaction_column_ledger_drcr::ActiveModel>, OrmError>)
        ensures
            r matches Ok(v) && v@ == flatten_values(rows_with_keys(self.state().ledger_drcr_columns(), opt_ref_seq(ids))),
    {
        let ghost f = |v: Vec<journal_transaction_column_ledger_drcr::ActiveModel>| v@;
        let ghost rows = map_rows(self.inner.journal_xact_column_ledger_drcr.rows(), f);
        let ghost want = opt_ref_seq(ids);
        let ghost pred = |r: (JournalTransactionColumnId, Seq<journal_transaction_column_ledger_drcr::ActiveModel>)| wanted(want, r.0);
        let mut res = Vec::<journal_transaction_column_ledger_drcr::ActiveModel>::new();
        let mut i: usize = 0;
        while i < self.inner.journal_xact_column_ledger_drcr.len()
            invariant
                rows == map_rows(self.inner.journal_xact_column_ledger_drcr.rows(), f),
                f == (|v: Vec<journal_transaction_column_ledger_drcr::ActiveModel>| v@),
                want == opt_ref_seq(ids),
                pred == (|r: (JournalTransactionColumnId, Seq<journal_transaction_column_ledger_drcr::ActiveModel>)| wanted(want, r.0)),
                i <= rows.len(),
                res@ == flatten_values(rows.take(i as int).filter(pred)),
            decreases rows.len() - i,
        {
            proof {
                assert(rows.take(i + 1) =~= rows.take(i as int).push(rows[i as int]));
                rows.take(i as int).lemma_filter_push(rows[i as int], pred);
            }
            let k = self.inner.journal_xact_column_ledger_drcr.key_at(i);
            if is_wanted(ids, &k) {
                let list = self.inner.journal_xact_column_ledger_drcr.value_at(i);
                let ghost head = res@;
                let mut j: usize = 0;
                while j < list.len()
                    invariant
                        j <= list@.len(),
                        res@ == head + list@.take(j as int),
                    decreases list@.len() - j,
                {
                    res.push(list[j]);
                    j = j + 1;
                    assert(res@ =~= head + list@.take(j as int));
                }
                proof {
                    assert(list@.take(list@.len() as int) =~= list@);
                    let p = rows.take(i as int).filter(pred).push(rows[i as int]);
                    assert(p.drop_last() =~= rows.take(i as int).filter(pred));
                    assert(rows[i as int].1 == list@);
                }
            }
            i = i + 1;
        }
        assert(rows.take(rows.len() as int) =~= rows);
        Ok(res)
    }

    /// The stored debit-and-credit columns that a search domain selects, with
    /// the given defaults for the identifiers it does not name, in table order.
    pub fn search_ledger_drcr_with(
        &self,
        domain: &str,
        default_journal: JournalId,
        default_template: TemplateColumnId,
    ) -> (r: Result<Vec<journal_transaction_column_ledger_drcr::ActiveModel>, OrmError>)
        ensures
            match parse_domain_text(domain@) {
                Err(t) => r matches Err(e) && error_matches(e, ErrorKind::Validation, t),
                Ok(c) => r matches Ok(v) && v@ == flatten_values(self.state().ledger_drcr_columns()).filter(
                    |x: journal_transaction_column_ledger_drcr::ActiveModel|
                        x.spec_id() == chosen_column(c, default_journal, default_template),
                ),
            },
    {
        let c = match parse_domain(domain) {
            Ok(c) => c,
            Err(e) => return Err(e),
        };
        let journal_id = match c.journal_id { Some(j) => j, None => default_journal };
        let timestamp = match c.timestamp { Some(t) => t, None => Timestamp::min() };
        let tpl_col_id = match c.template_column_id { Some(t) => t, None => default_template };
        let ghost want = chosen_column(c, default_journal, default_template);
        let all = match self.get_ledger_drcr(None) {
            Ok(v) => v,
            Err(e) => return Err(e),
        };
        proof {
            let rows = self.state().ledger_drcr_columns();
            let p = |r: (JournalTransactionColumnId, Seq<journal_transaction_column_ledger_drcr::ActiveModel>)| wanted(None, r.0);
            rows.lemma_filter_len(p);
            assert forall|k: int| 0 <= k < rows.len() implies #[trigger] p(rows[k]) by {}
            lemma_filter_all(rows, p);
        }
        let ghost pred = |x: journal_transaction_column_ledger_drcr::ActiveModel| x.spec_id() == want;
        let mut result = Vec::new();
        let mut i: usize = 0;
        while i < all.len()
            invariant
                want == (JournalTransactionColumnId { journal_id, timestamp, template_column_id: tpl_col_id }),
                pred == (|x: journal_transaction_column_ledger_drcr::ActiveModel| x.spec_id() == want),
                i <= all@.len(),
                result@ == all@.take(i as int).filter(pred),
            decreases all@.len() - i,
        {
            let v = all[i];
            proof {
                assert(all@.take(i + 1) =~= all@.take(i as int).push(v));
                all@.take(i as int).lemma_filter_push(v, pred);
            }
            if v.journal_id == journal_id && v.timestamp == timestamp && v.template_column_id == tpl_col_id {
                result.push(v);
            }
            i = i + 1;
        }
        assert(all@.take(all@.len() as int) =~= all@);
        Ok(result)
    }

    /// Replaces, in the list under the saved column's identifier, every
    /// column that has that identifier.
    pub fn save_ledger_drcr(&mut self, model: &journal_transaction_column_ledger_drcr::ActiveModel) -> (r: Result<u64, OrmError>)
        requires
            old(self).wf(),
        ensures
            final(self).wf(),
            frame(old(self).state(), final(self).state(), set![Tab::LedgerDrCrColumn]),
            has_key(old(self).state().ledger_drcr_columns(), model.spec_id()) ==> {
                let rows = old(self).state().ledger_drcr_columns();
                &&& r == Ok::<u64, OrmError>(1)
                &&& final(self).state().ledger_drcr_columns() == upsert(rows, model.spec_id(),
                    lookup(rows, model.spec_id()).unwrap().map_values(
                        |v: journal_transaction_column_ledger_drcr::ActiveModel| saved_drcr(v, *model)))
            },
            !has_key(old(self).state().ledger_drcr_columns(), model.spec_id()) ==> {
                &&& r matches Err(e) && error_matches(e, ErrorKind::RecordNotFound,
                    "journal transaction column ledger_drcr: "@ + column_id_text(model.spec_id()))
                &&& final(self).state() == old(self).state()
            },
    {
        let id = model.id();
        let ghost f = |v: Vec<journal_transaction_column_ledger_drcr::ActiveModel>| v@;
        let ghost rows = self.inner.journal_xact_column_ledger_drcr.rows();
        proof {
            lemma_map_rows_keys(rows, f, id);
        }
        match self.inner.journal_xact_column_ledger_drcr.find(&id) {
            Some(i) => {
                let list = self.inner.journal_xact_column_ledger_drcr.value_at(i);
                let ghost sv = |v: journal_transaction_column_ledger_drcr::ActiveModel| saved_drcr(v, *model);
                let mut new_list = Vec::new();
                let mut j: usize = 0;
                while j < list.len()
                    invariant
                        sv == (|v: journal_transaction_column_ledger_drcr::ActiveModel| saved_drcr(v, *model)),
                        id == model.spec_id(),
                        j <= list@.len(),
                        new_list@ == list@.take(j as int).map_values(sv),
                    decreases list@.len() - j,
                {
                    let v = list[j];
                    if v.id() == id {
                        new_list.push(*model);
                    } else {
                        new_list.push(v);
                    }
                    j = j + 1;
                    assert(new_list@ =~= list@.take(j as int).map_values(sv));
                }
                proof {
                    assert(list@.take(list@.len() as int) =~= list@);
                    let m = map_rows(rows, f);
                    assert(m[i as int].0 == id);
                    lemma_key_index(m, i as int);
                    lemma_map_rows_set_at(rows, f, i as int, new_list);
                }
                self.inner.journal_xact_column_ledger_drcr.set_value_at(i, new_list);
                Ok(1)
            },
            None => {
                let head = String::from_str("journal transaction column ledger_drcr: ");
                Err(OrmError::RecordNotFound(head.concat(id.to_string().as_str())))
            },
        }
    }

    /// Stores a special column after the others of its transaction.
    pub fn insert_special_column(&mut self, model: &journal_transaction_special_column::Model) -> (r: Result<journal_transaction_special_column::ActiveModel, OrmError>)
        requires
            old(self).wf(),
        ensures
            final(self).wf(),
            frame(old(self).state(), final(self).state(), set![Tab::SpecialColumn]),
            r == Ok::<journal_transaction_special_column::ActiveModel, OrmError>(*model),
            final(self).state().special_columns() == upsert(old(self).state().special_columns(), model.spec_id(),
                appended(old(self).state().special_columns(), model.spec_id(), *model)),
    {
        let column = *model;
        let id = column.id();
        let ghost f = |v: Vec<journal_transaction_special_column::ActiveModel>| v@;
        let ghost rows = self.inner.journal_xact_special_column.rows();
        proof {
            lemma_map_rows_keys(rows, f, id);
        }
        match self.inner.journal_xact_special_column.find(&id) {
            Some(i) => {
                proof {
                    lemma_key_index(rows, i as int);
                    let m = map_rows(rows, f);
                    assert(m[i as int].0 == id);
                    lemma_key_index(m, i as int);
                }
                let mut list = copy_vec(self.inner.journal_xact_special_column.value_at(i));
                list.push(column);
                proof {
                    lemma_map_rows_set_at(rows, f, i as int, list);
                }
                self.inner.journal_xact_special_column.set_value_at(i, list);
            },
            None => {
                let mut list = Vec::new();
                list.push(column);
                proof {
                    lemma_map_rows_upsert(rows, f, id, list);
                    assert(list@ =~= seq![column]);
                }
                self.inner.journal_xact_special_column.insert(id, list);
            },
        }
        Ok(column)
    }

    /// The stored special columns of the wanted transactions, in table order.
    pub fn get_special_columns(&self, ids: Option<&Vec<JournalTransactionId>>) -> (r: Result<Vec<journal_transaction_special_column::ActiveModel>, OrmError>)
        ensures
            r matches Ok(v) && v@ == flatten_values(rows_with_keys(self.state().special_columns(), opt_ref_seq(ids))),
    {
        let ghost f = |v: Vec<journal_transaction_special_column::ActiveModel>| v@;
        let ghost rows = map_rows(self.inner.journal_xact_special_column.rows(), f);
        let ghost want = opt_ref_seq(ids);
        let ghost pred = |r: (JournalTransactionId, Seq<journal_transaction_special_column::ActiveModel>)| wanted(want, r.0);
        let mut res = Vec::<journal_transaction_special_column::ActiveModel>::new();
        let mut i: usize = 0;
        while i < self.inner.journal_xact_special_column.len()
            invariant
                rows == map_rows(self.inner.journal_xact_special_column.rows(), f),
                f == (|v: Vec<journal_transaction_special_column::ActiveModel>| v@),
                want == opt_ref_seq(ids),
                pred == (|r: (JournalTransactionId, Seq<journal_transaction_special_column::ActiveModel>)| wanted(want, r.0)),
                i <= rows.len(),
                res@ == flatten_values(rows.take(i as int).filter(pred)),
            decreases rows.len() - i,
        {
            proof {
                assert(rows.take(i + 1) =~= rows.take(i as int).push(rows[i as int]));
                rows.take(i as int).lemma_filter_push(rows[i as int], pred);
            }
            let k = self.inner.journal_xact_special_column.key_at(i);
            if is_wanted(ids, &k) {
                let list = self.inner.journal_xact_special_column.value_at(i);
                let ghost head = res@;
                let mut j: usize = 0;
                while j < list.len()
                    invariant
                        j <= list@.len(),
                        res@ == head + list@.take(j as int),
                    decreases list@.len() - j,
                {
                    res.push(list[j]);
                    j = j + 1;
                    assert(res@ =~= head + list@.take(j as int));
                }
                proof {
                    assert(list@.take(list@.len() as int) =~= list@);
                    let p = rows.take(i as int).filter(pred).push(rows[i as int]);
                    assert(p.drop_last() =~= rows.take(i as int).filter(pred));
                    assert(rows[i as int].1 == list@);
                }
            }
            i = i + 1;
        }
        assert(rows.take(rows.len() as int) =~= rows);
        Ok(res)
    }

    /// Replaces, in the list of the saved column's transaction, every column
    /// at the saved column's place.
    pub fn save_special_column(&mut self, model: &journal_transaction_special_column::ActiveModel) -> (r: Result<u64, OrmError>)
        requires
            old(self).wf(),
        ensures
            final(self).wf(),
            frame(old(self).state(), final(self).state(), set![Tab::SpecialColumn]),
            has_key(old(self).state().special_columns(), model.spec_id()) ==> {
                let rows = old(self).state().special_columns();
                &&& r == Ok::<u64, OrmError>(1)
                &&& final(self).state().special_columns() == upsert(rows, model.spec_id(),
                    lookup(rows, model.spec_id()).unwrap().map_values(
                        |v: journal_transaction_special_column::ActiveModel| saved_special(v, *model)))
            },
            !has_key(old(self).state().special_columns(), model.spec_id()) ==> {
                &&& r matches Err(e) && error_matches(e, ErrorKind::RecordNotFound,
                    "journal transaction subsidiary colum sequence: "@ + digits(model.sequence as nat))
                &&& final(self).state() == old(self).state()
            },
    {
        let id = model.id();
        let ghost f = |v: Vec<journal_transaction_special_column::ActiveModel>| v@;
        let ghost rows = self.inner.journal_xact_special_column.rows();
        proof {
            lemma_map_rows_keys(rows, f, id);
        }
        match self.inner.journal_xact_special_column.find(&id) {
            Some(i) => {
                let list = self.inner.journal_xact_special_column.value_at(i);
                let ghost sv = |v: journal_transaction_special_column::ActiveModel| saved_special(v, *model);
                let mut new_list = Vec::new();
                let mut j: usize = 0;
                while j < list.len()
                    invariant
                        sv == (|v: journal_transaction_special_column::ActiveModel| saved_special(v, *model)),
                        j <= list@.len(),
                        new_list@ == list@.take(j as int).map_values(sv),
                    decreases list@.len() - j,
                {
                    let v = list[j];
                    if v.sequence == model.sequence {
                        new_list.push(*model);
                    } else {
                        new_list.push(v);
                    }
                    j = j + 1;
                    assert(new_list@ =~= list@.take(j as int).map_values(sv));
                }
                proof {
                    assert(list@.take(list@.len() as int) =~= list@);
                    let m = map_rows(rows, f);
                    assert(m[i as int].0 == id);
                    lemma_key_index(m, i as int);
                    lemma_map_rows_set_at(rows, f, i as int, new_list);
                }
                self.inner.journal_xact_special_column.set_value_at(i, new_list);
                Ok(1)
            },
            None => {
                let head = String::from_str("journal transaction subsidiary colum sequence: ");
                Err(OrmError::RecordNotFound(head.concat(nat_to_string(model.sequence as u64).as_str())))
            },
        }
    }

    /// The entry that a posting reference names, read from the ledger entry
    /// and the ledger transaction under its key.
    pub fn entry_by_posting_ref(&self, posting_ref: PostingRef) -> (r: Option<journal_entry::ActiveModel>)
        requires
            self.wf(),
        ensures
            r == posting_ref_entry(self.state(), posting_ref),
    {
        let key = posting_ref.key;
        let entry = match self.inner.journal_entry.get(&key) {
            Some(e) => Some(*e),
            None => None,
        };
        let xact = match self.inner.ledger_xact.get(&key) {
            Some(t) => Some(*t),
            None => None,
        };
        proof {
            self.inner.lemma_tables();
        }
        journal_entry_for_ref(posting_ref, entry, xact)
    }
}

/// A filter whose condition every element meets keeps the sequence.
proof fn lemma_filter_all<A>(s: Seq<A>, p: spec_fn(A) -> bool)
    requires
        forall|k: int| 0 <= k < s.len() ==> #[trigger] p(s[k]),
    ensures
        s.filter(p) == s,
    decreases s.len(),
{
    reveal(Seq::filter);
    if s.len() > 0 {
        lemma_filter_all(s.drop_last(), p);
        assert(p(s[s.len() - 1]));
        assert(s.drop_last().push(s.last()) =~= s);
    } else {
        assert(s.filter(p) =~= s);
    }
}


impl ResourceOperations<ledger::Model, ledger::ActiveModel, AccountId> for MemoryStore {
    open spec fn valid(&self) -> bool {
        self.wf()
    }

    open spec fn supports(op: Operation) -> bool {
        op == Operation::Insert || op == Operation::Get
    }

    open spec fn got(&self, ids: Option<Seq<AccountId>>, r: Result<Vec<ledger::ActiveModel>, OrmError>) -> bool {
        r matches Ok(v) && v@ == select_rows(self.state().ledgers(), ids)
    }

    /// Ledger accounts are not searched, so nothing is said of an answer.
    open spec fn searched(&self, domain: Seq<char>, r: Result<Vec<ledger::ActiveModel>, OrmError>) -> bool {
        true
    }

    /// Stores a ledger account under a fresh random identifier unless a
    /// stored account has its number.
    fn insert(&mut self, model: &ledger::Model) -> (r: Result<ledger::ActiveModel, OrmError>)
        ensures
            frame(old(self).state(), final(self).state(), set![Tab::Ledger]),
            has_ledger_no(old(self).state().ledgers(), model.ledger_no@) ==> {
                &&& r matches Err(e) && error_matches(e, ErrorKind::DuplicateRecord, "account "@ + model.ledger_no@)
                &&& final(self).state() == old(self).state()
            },
            !has_ledger_no(old(self).state().ledgers(), model.ledger_no@) ==> (r matches Ok(l)
                && l == ledger::from_model(*model, l.id)
                && final(self).state().ledgers() == upsert(old(self).state().ledgers(), l.id, l)),
    {
        self.insert_ledger_with(model, AccountId::new())
    }

    fn get(&self, ids: Option<&Vec<AccountId>>) -> (r: Result<Vec<ledger::ActiveModel>, OrmError>) {
        match ids {
            Some(list) => Ok(values_with_ids(&self.inner.ledger, list)),
            None => Ok(all_values(&self.inner.ledger)),
        }
    }

    fn search(&self, domain: &str) -> (r: Result<Vec<ledger::ActiveModel>, OrmError>) {
        Ok(Vec::new())
    }
}

impl ResourceOperations<general_ledger::Model, general_ledger::ActiveModel, GeneralLedgerId> for MemoryStore {
    open spec fn valid(&self) -> bool {
        self.wf()
    }

    open spec fn supports(op: Operation) -> bool {
        op == Operation::Insert || op == Operation::Get || op == Operation::Save
    }

    open spec fn got(&self, ids: Option<Seq<GeneralLedgerId>>, r: Result<Vec<general_ledger::ActiveModel>, OrmError>) -> bool {
        r matches Ok(v) && v@ == select_rows(self.state().general_ledgers(), ids)
    }

    /// General ledgers are not searched, so nothing is said of an answer.
    open spec fn searched(&self, domain: Seq<char>, r: Result<Vec<general_ledger::ActiveModel>, OrmError>) -> bool {
        true
    }

    /// A general ledger is not stored this way: the call always fails.
    fn insert(&mut self, model: &general_ledger::Model) -> (r: Result<general_ledger::ActiveModel, OrmError>)
        ensures
            r matches Err(e) && error_matches(e, ErrorKind::NotImplemented, "insert() for General Ledger resource"@),
            final(self).state() == old(self).state(),
    {
        Err(OrmError::NotImplemented(String::from_str("insert() for General Ledger resource")))
    }

    fn get(&self, ids: Option<&Vec<GeneralLedgerId>>) -> (r: Result<Vec<general_ledger::ActiveModel>, OrmError>) {
        match ids {
            Some(list) => Ok(values_with_ids(&self.inner.general_ledger, list)),
            None => Ok(all_values(&self.inner.general_ledger)),
        }
    }

    fn search(&self, domain: &str) -> (r: Result<Vec<general_ledger::ActiveModel>, OrmError>) {
        Ok(Vec::new())
    }

    fn save(&mut self, model: &general_ledger::ActiveModel) -> (r: Result<u64, OrmError>)
        ensures
            frame(old(self).state(), final(self).state(), set![Tab::GeneralLedger]),
            gl_known(old(self).state().general_ledgers(), model.id) ==> {
                &&& r == Ok::<u64, OrmError>(1)
                &&& final(self).state().general_ledgers() == upsert(old(self).state().general_ledgers(), model.id, *model)
            },
            !gl_known(old(self).state().general_ledgers(), model.id) ==> {
                &&& r matches Err(e) && error_matches(e, ErrorKind::RecordNotFound,
                    "general ledger: ("@ + model.name@ + "): "@ + uuid_text(model.id.value))
                &&& final(self).state() == old(self).state()
            },
    {
        self.save_general_ledger(model)
    }



}

impl ResourceOperations<journal_transaction_column_account_cr::Model, journal_transaction_column_account_cr::ActiveModel, JournalTransactionColumnId> for MemoryStore {
    open spec fn valid(&self) -> bool {
        self.wf()
    }

    open spec fn supports(op: Operation) -> bool {
        op == Operation::Insert || op == Operation::Get || op == Operation::Search || op == Operation::Save
    }

    open spec fn got(&self, ids: Option<Seq<JournalTransactionColumnId>>, r: Result<Vec<journal_transaction_column_account_cr::ActiveModel>, OrmError>) -> bool {
        r matches Ok(v) && v@ == values(rows_with_keys(self.state().account_cr_columns(), ids))
    }

    open spec fn searched(&self, domain: Seq<char>, r: Result<Vec<journal_transaction_column_account_cr::ActiveModel>, OrmError>) -> bool {
        match parse_domain_text(domain) {
            Err(t) => r matches Err(e) && error_matches(e, ErrorKind::Validation, t),
            Ok(c) => r matches Ok(v) && exists|dj: JournalId, dt: TemplateColumnId|
                #![trigger chosen_column(c, dj, dt)]
                v@ == values(self.state().account_cr_columns()).filter(
                    |x: journal_transaction_column_account_cr::ActiveModel| x.spec_id() == chosen_column(c, dj, dt)),
        }
    }

    fn insert(&mut self, model: &journal_transaction_column_account_cr::Model) -> (r: Result<journal_transaction_column_account_cr::ActiveModel, OrmError>)
        ensures
            frame(old(self).state(), final(self).state(), set![Tab::AccountCrColumn]),
            has_key(old(self).state().account_cr_columns(), model.spec_id()) ==> {
                &&& r matches Err(e) && error_matches(e, ErrorKind::DuplicateRecord, "id "@ + column_id_text(model.spec_id()))
                &&& final(self).state() == old(self).state()
            },
            !has_key(old(self).state().account_cr_columns(), model.spec_id()) ==> {
                &&& r == Ok::<journal_transaction_column_account_cr::ActiveModel, OrmError>(*model)
                &&& final(self).state().account_cr_columns() == old(self).state().account_cr_columns().push((model.spec_id(), *model))
            },
    {
        self.insert_account_cr(model)
    }

    fn get(&self, ids: Option<&Vec<JournalTransactionColumnId>>) -> (r: Result<Vec<journal_transaction_column_account_cr::ActiveModel>, OrmError>) {
        self.get_account_cr(ids)
    }

    /// A term that the domain does not name selects a fresh random identifier
    /// (so nothing), or the earliest time.
    fn search(&self, domain: &str) -> (r: Result<Vec<journal_transaction_column_account_cr::ActiveModel>, OrmError>) {
        self.search_account_cr_with(domain, JournalId::new(), TemplateColumnId::new())
    }

    fn save(&mut self, model: &journal_transaction_column_account_cr::ActiveModel) -> (r: Result<u64, OrmError>)
        ensures
            frame(old(self).state(), final(self).state(), set![Tab::AccountCrColumn]),
            has_key(old(self).state().account_cr_columns(), model.spec_id()) ==> {
                &&& r == Ok::<u64, OrmError>(1)
                &&& final(self).state().account_cr_columns()
                    == upsert(old(self).state().account_cr_columns(), model.spec_id(), *model)
            },
            !has_key(old(self).state().account_cr_columns(), model.spec_id()) ==> {
                &&& r matches Err(e) && error_matches(e, ErrorKind::RecordNotFound,
                    "journal transaction column account_cr: "@ + column_id_text(model.spec_id()))
                &&& final(self).state() == old(self).state()
            },
    {
        self.save_account_cr(model)
    }



}

impl ResourceOperations<journal_transaction_column_ledger_drcr::Model, journal_transaction_column_ledger_drcr::ActiveModel, JournalTransactionColumnId> for MemoryStore {
    open spec fn valid(&self) -> bool {
        self.wf()
    }

    open spec fn supports(op: Operation) -> bool {
        op == Operation::Insert || op == Operation::Get || op == Operation::Search || op == Operation::Save
    }

    open spec fn got(&self, ids: Option<Seq<JournalTransactionColumnId>>, r: Result<Vec<journal_transaction_column_ledger_drcr::ActiveModel>, OrmError>) -> bool {
        r matches Ok(v) && v@ == flatten_values(rows_with_keys(self.state().ledger_drcr_columns(), ids))
    }

    open spec fn searched(&self, domain: Seq<char>, r: Result<Vec<journal_transaction_column_ledger_drcr::ActiveModel>, OrmError>) -> bool {
        match parse_domain_text(domain) {
            Err(t) => r matches Err(e) && error_matches(e, ErrorKind::Validation, t),
            Ok(c) => r matches Ok(v) && exists|dj: JournalId, dt: TemplateColumnId|
                #![trigger chosen_column(c, dj, dt)]
                v@ == flatten_values(self.state().ledger_drcr_columns()).filter(
                    |x: journal_transaction_column_ledger_drcr::ActiveModel| x.spec_id() == chosen_column(c, dj, dt)),
        }
    }

    fn insert(&mut self, model: &journal_transaction_column_ledger_drcr::Model) -> (r: Result<journal_transaction_column_ledger_drcr::ActiveModel, OrmError>)
        ensures
            frame(old(self).state(), final(self).state(), set![Tab::LedgerDrCrColumn]),
            r == Ok::<journal_transaction_column_ledger_drcr::ActiveModel, OrmError>(*model),
            final(self).state().ledger_drcr_columns() == upsert(old(self).state().ledger_drcr_columns(), model.spec_id(),
                appended(old(self).state().ledger_drcr_columns(), model.spec_id(), *model)),
    {
        self.insert_ledger_drcr(model)
    }

    fn get(&self, ids: Option<&Vec<JournalTransactionColumnId>>) -> (r: Result<Vec<journal_transaction_column_ledger_drcr::ActiveModel>, OrmError>) {
        self.get_ledger_drcr(ids)
    }

    /// A term that the domain does not name selects a fresh random identifier
    /// (so nothing), or the earliest time.
    fn search(&self, domain: &str) -> (r: Result<Vec<journal_transaction_column_ledger_drcr::ActiveModel>, OrmError>) {
        self.search_ledger_drcr_with(domain, JournalId::new(), TemplateColumnId::new())
    }

    fn save(&mut self, model: &journal_transaction_column_ledger_drcr::ActiveModel) -> (r: Result<u64, OrmError>)
        ensures
            frame(old(self).state(), final(self).state(), set![Tab::LedgerDrCrColumn]),
            has_key(old(self).state().ledger_drcr_columns(), model.spec_id()) ==> {
                let rows = old(self).state().ledger_drcr_columns();
                &&& r == Ok::<u64, OrmError>(1)
                &&& final(self).state().ledger_drcr_columns() == upsert(rows, model.spec_id(),
                    lookup(rows, model.spec_id()).unwrap().map_values(
                        |v: journal_transaction_column_ledger_drcr::ActiveModel| saved_drcr(v, *model)))
            },
            !has_key(old(self).state().ledger_drcr_columns(), model.spec_id()) ==> {
                &&& r matches Err(e) && error_matches(e, ErrorKind::RecordNotFound,
                    "journal transaction column ledger_drcr: "@ + column_id_text(model.spec_id()))
                &&& final(self).state() == old(self).state()
            },
    {
        self.save_ledger_drcr(model)
    }



}

impl ResourceOperations<journal_transaction_special_column::Model, journal_transaction_special_column::ActiveModel, JournalTransactionId> for MemoryStore {
    open spec fn valid(&self) -> bool {
        self.wf()
    }

    open spec fn supports(op: Operation) -> bool {
        op == Operation::Insert || op == Operation::Get || op == Operation::Save
    }

    open spec fn got(&self, ids: Option<Seq<JournalTransactionId>>, r: Result<Vec<journal_transaction_special_column::ActiveModel>, OrmError>) -> bool {
        r matches Ok(v) && v@ == flatten_values(rows_with_keys(self.state().special_columns(), ids))
    }

    /// Special columns are not searched, so nothing is said of an answer.
    open spec fn searched(&self, domain: Seq<char>, r: Result<Vec<journal_transaction_special_column::ActiveModel>, OrmError>) -> bool {
        true
    }

    fn insert(&mut self, model: &journal_transaction_special_column::Model) -> (r: Result<journal_transaction_special_column::ActiveModel, OrmError>)
        ensures
            frame(old(self).state(), final(self).state(), set![Tab::SpecialColumn]),
            r == Ok::<journal_transaction_special_column::ActiveModel, OrmError>(*model),
            final(self).state().special_columns() == upsert(old(self).state().special_columns(), model.spec_id(),
                appended(old(self).state().special_columns(), model.spec_id(), *model)),
    {
        self.insert_special_column(model)
    }

    fn get(&self, ids: Option<&Vec<JournalTransactionId>>) -> (r: Result<Vec<journal_transaction_special_column::ActiveModel>, OrmError>) {
        self.get_special_columns(ids)
    }

    fn search(&self, domain: &str) -> (r: Result<Vec<journal_transaction_special_column::ActiveModel>, OrmError>) {
        Ok(Vec::new())
    }

    fn save(&mut self, model: &journal_transaction_special_column::ActiveModel) -> (r: Result<u64, OrmError>)
        ensures
            frame(old(self).state(), final(self).state(), set![Tab::SpecialColumn]),
            has_key(old(self).state().special_columns(), model.spec_id()) ==> {
                let rows = old(self).state().special_columns();
                &&& r == Ok::<u64, OrmError>(1)
                &&& final(self).state().special_columns() == upsert(rows, model.spec_id(),
                    lookup(rows, model.spec_id()).unwrap().map_values(
                        |v: journal_transaction_special_column::ActiveModel| saved_special(v, *model)))
            },
            !has_key(old(self).state().special_columns(), model.spec_id()) ==> {
                &&& r matches Err(e) && error_matches(e, ErrorKind::RecordNotFound,
                    "journal transaction subsidiary colum sequence: "@ + digits(model.sequence as nat))
                &&& final(self).state() == old(self).state()
            },
    {
        self.save_special_column(model)
    }



}

impl GeneralLedgerService for MemoryStore {
    open spec fn valid(&self) -> bool {
        self.wf()
    }

    open spec fn has_ledger(&self, id: AccountId) -> bool {
        has_ledger_id(self.state().ledgers(), id)
    }

    /// Creates the general ledger, rooted at the root ledger account.
    fn init(&mut self, model: &general_ledger::Model) -> (r: Result<general_ledger::ActiveModel, OrmError>)
        ensures
            frame(old(self).state(), final(self).state(), set![Tab::GeneralLedger]),
            match first_root(old(self).state().ledgers()) {
                Some(root) => r matches Ok(gl) && gl == general_ledger_from(*model, gl.id, root)
                    && final(self).state().general_ledgers() == upsert(old(self).state().general_ledgers(), gl.id, gl),
                None => (r matches Err(e) && error_matches(e, ErrorKind::RecordNotFound, "unable to find root ledger"@))
                    && final(self).state() == old(self).state(),
            },
    {
        self.create_general_ledger(model)
    }

    fn add_journal(&mut self, model: &journal::Model) -> (r: Result<journal::ActiveModel, OrmError>)
        ensures
            journal_created(old(self).state(), final(self).state(), *model, r),
    {
        self.create_journal(model)
    }

    fn add_ledger(&mut self, model: &ledger::Model) -> (r: Result<ledger::ActiveModel, OrmError>)
        ensures
            ledger_created(old(self).state(), final(self).state(), *model, r),
    {
        self.create_ledger(model)
    }

    fn add_period(&mut self, model: &accounting_period::Model) -> (r: Result<accounting_period::ActiveModel, OrmError>)
        ensures
            period_created(old(self).state(), final(self).state(), *model, r),
    {
        self.create_period(model)
    }
}

impl JournalService for MemoryStore {
    open spec fn valid(&self) -> bool {
        self.wf()
    }

    open spec fn journal_made(&self, after: &Self, model: journal::Model, r: Result<journal::ActiveModel, OrmError>) -> bool {
        journal_created(self.state(), after.state(), model, r)
    }

    fn create(&mut self, model: &journal::Model) -> (r: Result<journal::ActiveModel, OrmError>) {
        self.create_journal(model)
    }

    fn add_transaction(&mut self, model: &journal_transaction::Model) -> (r: Result<journal_transaction::ActiveModel, OrmError>)
        ensures
            transaction_created(old(self).state(), final(self).state(), *model, r),
    {
        self.create_journal_transaction(model)
    }

    /// Posts the transaction; `Ok(false)` where it has no lines in the store.
    fn post_transaction(&mut self, id: JournalTransactionId) -> (r: Result<bool, OrmError>)
        ensures
            r == Ok::<bool, OrmError>(has_key(old(self).state().journal_xact_lines(), id)),
            !has_key(old(self).state().journal_xact_lines(), id) ==> final(self).state() == old(self).state(),
            has_key(old(self).state().journal_xact_lines(), id) ==> posted_state(old(self).state(), final(self).state(), id),
    {
        Ok(self.post_journal_transaction(id))
    }
}

impl JournalTransactionService for MemoryStore {
    open spec fn valid(&self) -> bool {
        self.wf()
    }

    open spec fn transaction_made(
        &self,
        after: &Self,
        model: journal_transaction::Model,
        r: Result<journal_transaction::ActiveModel, OrmError>,
    ) -> bool {
        transaction_created(self.state(), after.state(), model, r)
    }

    fn create(&mut self, model: &journal_transaction::Model) -> (r: Result<journal_transaction::ActiveModel, OrmError>) {
        self.create_journal_transaction(model)
    }

    fn retrieve(&self, ids: Option<&Vec<JournalTransactionId>>) -> (r: Result<Vec<journal_transaction::ActiveModel>, OrmError>)
        ensures
            r matches Ok(v) && xacts_listed(self.state(), opt_ref_seq(ids), v@),
    {
        let owned = match ids {
            Some(list) => Some(copy_vec(list)),
            None => None,
        };
        proof {
            assert(opt_seq(owned) == opt_ref_seq(ids));
        }
        self.search_journal_transactions(owned)
    }
}

impl LedgerService for MemoryStore {
    open spec fn valid(&self) -> bool {
        self.wf()
    }

    open spec fn ledger_made(&self, after: &Self, model: ledger::Model, r: Result<ledger::ActiveModel, OrmError>) -> bool {
        ledger_created(self.state(), after.state(), model, r)
    }

    open spec fn has_ledger(&self, id: AccountId) -> bool {
        has_ledger_id(self.state().ledgers(), id)
    }

    fn create(&mut self, model: &ledger::Model) -> (r: Result<ledger::ActiveModel, OrmError>) {
        self.create_ledger(model)
    }

    fn journal_entries(&self, id: AccountId) -> (r: Result<Vec<journal_entry::ActiveModel>, OrmError>)
        ensures
            r matches Ok(v) && v@ == account_journal_entries(self.state(), id),
    {
        Ok(self.journal_entries_by_account_id(id))
    }

    fn journal_entry_by_posting_ref(&self, posting_ref: PostingRef) -> (r: Result<Option<journal_entry::ActiveModel>, OrmError>)
        ensures
            r == Ok::<Option<journal_entry::ActiveModel>, OrmError>(posting_ref_entry(self.state(), posting_ref)),
    {
        Ok(self.entry_by_posting_ref(posting_ref))
    }
}

impl AccountingPeriodService for MemoryStore {
    open spec fn valid(&self) -> bool {
        self.wf()
    }

    open spec fn period_made(
        &self,
        after: &Self,
        model: accounting_period::Model,
        r: Result<accounting_period::ActiveModel, OrmError>,
    ) -> bool {
        period_created(self.state(), after.state(), model, r)
    }

    fn create(&mut self, model: &accounting_period::Model) -> (r: Result<accounting_period::ActiveModel, OrmError>) {
        self.create_period(model)
    }
}

/// What creating a journal leaves and answers, from the store `a` to `b`. It
/// fails just where a stored journal has the code, or has the identifier
/// drawn at random for the new one (which only a store holding journals can).
pub open spec fn journal_created(a: Inner, b: Inner, model: journal::Model, r: Result<journal::ActiveModel, OrmError>) -> bool {
    &&& frame(a, b, set![Tab::Journal])
    &&& match r {
        Ok(j) => {
            &&& j == journal_from(model, j.id)
            &&& !journal_clash(a.journals(), j.id, model.code@)
            &&& b.journals() == a.journals().push((j.id, j))
        },
        Err(e) => {
            &&& error_matches(e, ErrorKind::DuplicateRecord, "duplicate Journal Id or Code"@)
            &&& b == a
        },
    }
    &&& ((exists|i: int| 0 <= i < a.journals().len() && #[trigger] a.journals()[i].1.code@ == model.code@) ==> r is Err)
    &&& (r is Err && !(exists|i: int| 0 <= i < a.journals().len() && #[trigger] a.journals()[i].1.code@ == model.code@)
        ==> exists|id: JournalId| has_key(a.journals(), id))
    &&& (a.journals().len() == 0 ==> r is Ok)
}

/// What creating a journal transaction leaves and answers, from the store `a` to `b`.
pub open spec fn transaction_created(
    a: Inner,
    b: Inner,
    model: journal_transaction::Model,
    r: Result<journal_transaction::ActiveModel, OrmError>,
) -> bool {
    &&& frame(a, b, set![Tab::JournalXact, Tab::JournalXactLine, Tab::JournalXactLineAccount])
    &&& match first_line_problem(a, jid_of(model), model.lines@) {
        Some((kind, text)) => {
            &&& r matches Err(e) && error_matches(e, kind, text)
            &&& b == a
        },
        None => if has_key(a.journal_xacts(), jid_of(model)) {
            &&& r matches Err(e) && error_matches(e, ErrorKind::DuplicateRecord,
                "journal transaction exists: "@ + journal_transaction_id_text(jid_of(model)))
            &&& b == a
        } else {
            let jid = jid_of(model);
            let ll = new_ledger_lines(jid, model.lines@);
            let al = new_account_lines(jid, model.lines@);
            &&& !has_key(a.journal_xact_lines(), jid)
            &&& !has_key(a.journal_xact_line_accounts(), jid)
            &&& r matches Ok(tx) && tx.journal_id == model.journal_id && tx.timestamp == model.timestamp
                && tx.explanation == model.explanation
                && tx.lines@ == ll.map_values(|l: journal_transaction_line_ledger::ActiveModel| line_view(l))
            &&& b.journal_xacts() == a.journal_xacts().push((jid, record_of(model)))
            &&& b.journal_xact_lines() == if ll.len() > 0 {
                upsert(a.journal_xact_lines(), jid, ll)
            } else {
                a.journal_xact_lines()
            }
            &&& b.journal_xact_line_accounts() == if al.len() > 0 {
                upsert(a.journal_xact_line_accounts(), jid, al)
            } else {
                a.journal_xact_line_accounts()
            }
        },
    }
}

/// What creating a ledger account leaves and answers, from the store `a` to
/// `b`. Under a stored intermediate parent and with a free number it fails
/// only where an account of its kind is stored under the identifier drawn at
/// random for the new one.
pub open spec fn ledger_created(a: Inner, b: Inner, model: ledger::Model, r: Result<ledger::ActiveModel, OrmError>) -> bool {
    &&& frame(a, b, set![Tab::Ledger, Tab::LedgerIntermediate, Tab::LedgerLeaf])
    &&& match r {
        Ok(l) => {
            &&& ledger_outcome(a, model, l.id) == Ok::<ledger::ActiveModel, (ErrorKind, Seq<char>)>(l)
            &&& b.ledgers() == upsert(a.ledgers(), l.id, l)
            &&& model.ledger_type == LedgerType::Intermediate ==> {
                &&& b.intermediate_ledgers() == a.intermediate_ledgers().push((l.id, ledger_intermediate::ActiveModel { id: l.id }))
                &&& b.leaf_ledgers() == a.leaf_ledgers()
            }
            &&& model.ledger_type != LedgerType::Intermediate ==> {
                &&& b.leaf_ledgers() == a.leaf_ledgers().push((l.id, ledger_leaf::ActiveModel { id: l.id }))
                &&& b.intermediate_ledgers() == a.intermediate_ledgers()
            }
        },
        Err(e) => b == a,
    }
    &&& (model.parent_id is None ==> (r matches Err(e) && error_matches(e, ErrorKind::Constraint, "ledger must have parent"@)))
    &&& (model.parent_id matches Some(pid) && select_rows(a.ledgers(), Some(seq![pid]))[0].ledger_type != LedgerType::Intermediate
        ==> (r matches Err(e) && error_matches(e, ErrorKind::Validation, "parent ledger is not an Intermediate Ledger"@)))
    &&& (model.parent_id matches Some(pid) && select_rows(a.ledgers(), Some(seq![pid]))[0].ledger_type == LedgerType::Intermediate
        && has_ledger_no(a.ledgers(), model.ledger_no@)
        ==> (r matches Err(e) && error_matches(e, ErrorKind::DuplicateRecord, "account "@ + model.ledger_no@)))
    &&& (model.parent_id matches Some(pid) && select_rows(a.ledgers(), Some(seq![pid]))[0].ledger_type == LedgerType::Intermediate
        && !has_ledger_no(a.ledgers(), model.ledger_no@)
        ==> (r is Ok || (model.ledger_type == LedgerType::Intermediate && exists|id: AccountId| has_key(a.intermediate_ledgers(), id))
            || (model.ledger_type != LedgerType::Intermediate && exists|id: AccountId| has_key(a.leaf_ledgers(), id))))
}

/// What creating a fiscal year leaves and answers, from the store `a` to `b`.
/// It fails just where a stored fiscal year has the year, or has the
/// identifier drawn at random for the new one.
pub open spec fn period_created(
    a: Inner,
    b: Inner,
    model: accounting_period::Model,
    r: Result<accounting_period::ActiveModel, OrmError>,
) -> bool {
    &&& frame(a, b, set![Tab::Period])
    &&& match r {
        Ok(p) => {
            &&& p.fiscal_year == model.fiscal_year
            &&& p.period_start == model.period_start
            &&& p.period_type == model.period_type
            &&& p.period_end.days == fiscal_year_end(model.period_start.days)
            &&& !has_key(a.periods(), p.id)
            &&& !has_fiscal_year(a.periods(), model.fiscal_year)
            &&& b.periods() == a.periods().push((p.id, p))
        },
        Err(e) => {
            &&& e matches OrmError::DuplicateRecord(s) && s@ == "duplicate accounting period"@
            &&& b == a
        },
    }
    &&& (has_fiscal_year(a.periods(), model.fiscal_year) ==> r is Err)
    &&& (r is Err && !has_fiscal_year(a.periods(), model.fiscal_year) ==> exists|id: PeriodId| has_key(a.periods(), id))
    &&& (a.periods().len() == 0 ==> r is Ok)
}

/// The store after a journal transaction's lines are posted: the entries and
/// transactions of the pairs are stored, the transaction's lines are marked,
/// and every other table is as it was.
pub open spec fn posted_state(a: Inner, b: Inner, jid: JournalTransactionId) -> bool {
    let lines = lookup(a.journal_xact_lines(), jid).unwrap();
    let pairs = line_pairs(lines);
    &&& b.journal_entries() == store_entries(a.journal_entries(), pairs, LedgerXactTypeCode::spec_account_ledger(), jid)
    &&& b.ledger_xacts() == store_xacts(a.ledger_xacts(), pairs)
    &&& b.journal_xact_lines() == upsert(a.journal_xact_lines(), jid, posted_lines(lines, posted_refs(pairs)))
    &&& frame(a, b, set![Tab::JournalEntry, Tab::LedgerXact, Tab::JournalXactLine])
}

} // verus!
