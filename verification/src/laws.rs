//! The laws of the store: what posting a journal transaction leaves behind,
//! and what a read gives back after a write.
use vstd::prelude::*;
use crate::domain::{JournalTransactionId, LedgerKey, LedgerXactTypeCode, TransactionState};
use crate::error::{ErrorKind, kind_of};
use crate::memory_store::{
    account_journal_entries, entries_of_account, first_line_problem, first_root, frame, general_ledger_from,
    jid_of, ledger_created, ledger_outcome, line_problem, posted_state, saved_special, transaction_created,
    xact_under_own_key, Inner, Tab,
};
use crate::domain::XactType;
use crate::error::OrmError;
use crate::ids::{AccountId, GeneralLedgerId};
use crate::entity::{general_ledger, journal_transaction, journal_transaction_line, journal_transaction_special_column, ledger_line};
use crate::posting::{
    entry_of, entry_under_own_key, lemma_mark_posted_keeps, lemma_mark_posted_shape, lemma_pairs_of_posted,
    lemma_mark_twice, lemma_store_same_pairs, lemma_store_twice, distinct_lines, lemma_store_keys, xact_row_under_own_key, lemma_posted_refs_at, lemma_posted_refs_len, lemma_store_elsewhere,
    lemma_store_entries_at, lemma_store_xacts_at, line_pairs, marked, posted_lines, posted_refs, posting_key,
    xact_of, Line,
};
use crate::entity::{accounting_period, journal, journal_transaction_column_account_cr, ledger};
use crate::table::{
    has_key, lemma_lookup_upsert_same, lemma_upsert_same_value, lemma_rows_with_key_after_upsert, lemma_select_after_upsert, lemma_upsert_unique,
    lookup, rows_with_keys, select_rows, upsert, values,
};

verus! {

/// The ledger lines stored for a journal transaction.
pub open spec fn stored_lines(s: Inner, jid: JournalTransactionId) -> Seq<Line> {
    lookup(s.journal_xact_lines(), jid).unwrap()
}

/// The pairs of credit and debit lines that posting a stored journal
/// transaction makes.
pub open spec fn stored_pairs(s: Inner, jid: JournalTransactionId) -> Seq<(Line, Line)> {
    line_pairs(stored_lines(s, jid))
}

/// Posting a journal transaction stores, under the key of each pair of its
/// lines (the credit line's account and time), a ledger entry for that
/// account and time that refers to the transaction, and a ledger transaction
/// for the same account and time.
pub proof fn law_posting_stores_every_pair(a: Inner, b: Inner, jid: JournalTransactionId, k: int)
    requires
        a.wf(),
        has_key(a.journal_xact_lines(), jid),
        posted_state(a, b, jid),
        0 <= k < stored_pairs(a, jid).len(),
    ensures
        ({
            let cr = stored_pairs(a, jid)[k].0;
            &&& lookup(b.journal_entries(), posting_key(cr)) matches Some(e) && {
                &&& e.ledger_id == cr.ledger_id
                &&& e.timestamp == cr.timestamp
                &&& e.journal_ref == jid
                &&& e.ledger_xact_type_code == LedgerXactTypeCode::spec_account_ledger()
            }
            &&& lookup(b.ledger_xacts(), posting_key(cr)) matches Some(x) && {
                &&& x.ledger_id == cr.ledger_id
                &&& x.timestamp == cr.timestamp
            }
        }),
{
    a.lemma_tables();
    let pairs = stored_pairs(a, jid);
    lemma_store_entries_at(a.journal_entries(), pairs, LedgerXactTypeCode::spec_account_ledger(), jid, k);
    lemma_store_xacts_at(a.ledger_xacts(), pairs, k);
}

/// Where no later pair of the transaction has the same key, the entry and
/// the transaction stored under a pair's key are exactly that pair's: the
/// credit line's amount, and the debit line's account.
pub proof fn law_posting_last_pair_wins(a: Inner, b: Inner, jid: JournalTransactionId, k: int)
    requires
        a.wf(),
        has_key(a.journal_xact_lines(), jid),
        posted_state(a, b, jid),
        0 <= k < stored_pairs(a, jid).len(),
        forall|j: int|
            k < j < stored_pairs(a, jid).len() ==> posting_key(#[trigger] stored_pairs(a, jid)[j].0)
                != posting_key(stored_pairs(a, jid)[k].0),
    ensures
        ({
            let p = stored_pairs(a, jid)[k];
            &&& lookup(b.journal_entries(), posting_key(p.0))
                == Some(entry_of(p.0, LedgerXactTypeCode::spec_account_ledger(), jid))
            &&& lookup(b.ledger_xacts(), posting_key(p.0)) == Some(xact_of(p.0, p.1))
        }),
{
    a.lemma_tables();
    let pairs = stored_pairs(a, jid);
    lemma_store_entries_at(a.journal_entries(), pairs, LedgerXactTypeCode::spec_account_ledger(), jid, k);
    lemma_store_xacts_at(a.ledger_xacts(), pairs, k);
}

/// Posting leaves the ledger entry and the ledger transaction under every
/// key that none of the transaction's pairs has as they were.
pub proof fn law_posting_leaves_other_keys(a: Inner, b: Inner, jid: JournalTransactionId, key: LedgerKey)
    requires
        a.wf(),
        has_key(a.journal_xact_lines(), jid),
        posted_state(a, b, jid),
        forall|j: int| 0 <= j < stored_pairs(a, jid).len() ==> posting_key(#[trigger] stored_pairs(a, jid)[j].0) != key,
    ensures
        lookup(b.journal_entries(), key) == lookup(a.journal_entries(), key),
        lookup(b.ledger_xacts(), key) == lookup(a.ledger_xacts(), key),
{
    a.lemma_tables();
    lemma_store_elsewhere(
        a.journal_entries(),
        a.ledger_xacts(),
        stored_pairs(a, jid),
        LedgerXactTypeCode::spec_account_ledger(),
        jid,
        key,
    );
}

/// After posting, each line of the transaction is as it was or is marked
/// posted, with a posting reference for its own account under a key where a
/// ledger entry is stored.
pub proof fn law_posted_lines_refer_to_entries(a: Inner, b: Inner, jid: JournalTransactionId, i: int)
    requires
        a.wf(),
        has_key(a.journal_xact_lines(), jid),
        posted_state(a, b, jid),
        0 <= i < stored_lines(a, jid).len(),
    ensures
        has_key(b.journal_xact_lines(), jid),
        stored_lines(b, jid).len() == stored_lines(a, jid).len(),
        ({
            let before = stored_lines(a, jid)[i];
            let after = stored_lines(b, jid)[i];
            ||| after == before
            ||| {
                &&& after.state == TransactionState::Posted
                &&& after.posting_ref matches Some(r) && r.account_id == before.ledger_id
                    && has_key(b.journal_entries(), r.key)
            }
        }),
{
    a.lemma_tables();
    let lines = stored_lines(a, jid);
    let pairs = line_pairs(lines);
    let refs = posted_refs(pairs);
    let new_lines = posted_lines(lines, refs);
    lemma_upsert_unique(a.journal_xact_lines(), jid, new_lines);
    lemma_lookup_upsert_same(a.journal_xact_lines(), jid, new_lines);
    let before = lines[i];
    lemma_mark_posted_shape(before, refs);
    if new_lines[i] != before {
        let j = choose|j: int| 0 <= j < refs.len() && new_lines[i] == #[trigger] marked(before, refs[j].0);
        lemma_posted_refs_len(pairs);
        lemma_posted_refs_at(pairs, j);
        let k = j / 2;
        lemma_store_entries_at(a.journal_entries(), pairs, LedgerXactTypeCode::spec_account_ledger(), jid, k);
        assert(refs[j].0 == posting_key(pairs[k].0));
    }
}


/// A ledger account that was stored under its identifier (as creating or
/// inserting one does) is what a read by that identifier gives back, alone.
pub proof fn law_ledger_read_after_write(a: Inner, b: Inner, l: ledger::ActiveModel)
    requires
        a.wf(),
        b.ledgers() == upsert(a.ledgers(), l.id, l),
    ensures
        select_rows(b.ledgers(), Some(seq![l.id])) == seq![l],
{
    a.lemma_tables();
    lemma_select_after_upsert(a.ledgers(), l);
}

/// A journal that creating one stored, after every stored one, under an
/// identifier that no stored journal has, is what a read by that identifier
/// gives back, alone.
pub proof fn law_journal_read_after_create(a: Inner, b: Inner, j: journal::ActiveModel)
    requires
        a.wf(),
        !has_key(a.journals(), j.id),
        b.journals() == a.journals().push((j.id, j)),
    ensures
        select_rows(b.journals(), Some(seq![j.id])) == seq![j],
{
    a.lemma_tables();
    lemma_select_after_upsert(a.journals(), j);
}

/// A fiscal year that creating one stored, after every stored one, under an
/// identifier that no stored fiscal year has, is what a read by that
/// identifier gives back, alone.
pub proof fn law_period_read_after_create(a: Inner, b: Inner, p: accounting_period::ActiveModel)
    requires
        a.wf(),
        !has_key(a.periods(), p.id),
        b.periods() == a.periods().push((p.id, p)),
    ensures
        select_rows(b.periods(), Some(seq![p.id])) == seq![p],
{
    a.lemma_tables();
    lemma_select_after_upsert(a.periods(), p);
}


/// An account-credit column that was saved under its identifier (as saving
/// a stored one does) is what a read of that identifier gives back, alone.
pub proof fn law_account_cr_read_after_save(a: Inner, b: Inner, c: journal_transaction_column_account_cr::ActiveModel)
    requires
        a.wf(),
        b.account_cr_columns() == upsert(a.account_cr_columns(), c.spec_id(), c),
    ensures
        values(rows_with_keys(b.account_cr_columns(), Some(seq![c.spec_id()]))) == seq![c],
{
    a.lemma_tables();
    lemma_rows_with_key_after_upsert(a.account_cr_columns(), c.spec_id(), c);
    assert(values(seq![(c.spec_id(), c)]) =~= seq![c]);
}


/// Posting keeps ledger entries and ledger transactions in pairs: afterwards
/// a key holds a ledger entry just where it holds a ledger transaction, and
/// every ledger entry and every ledger transaction has the account and time
/// of its key.
pub proof fn law_posting_keeps_pairs(a: Inner, b: Inner, jid: JournalTransactionId)
    requires
        a.wf(),
        posted_state(a, b, jid),
    ensures
        forall|k: LedgerKey| has_key(b.journal_entries(), k) <==> #[trigger] has_key(b.ledger_xacts(), k),
        forall|i: int| 0 <= i < b.ledger_xacts().len() ==> #[trigger] xact_under_own_key(b.ledger_xacts()[i]),
        forall|i: int| 0 <= i < b.journal_entries().len() ==> #[trigger] entry_under_own_key(b.journal_entries()[i]),
{
    a.lemma_tables();
    let pairs = stored_pairs(a, jid);
    lemma_store_keys(a.journal_entries(), a.ledger_xacts(), pairs, LedgerXactTypeCode::spec_account_ledger(), jid);
    assert forall|k: LedgerKey| has_key(b.journal_entries(), k) <==> #[trigger] has_key(b.ledger_xacts(), k) by {
        assert(has_key(b.journal_entries(), k) == (has_key(a.journal_entries(), k) || crate::posting::pairs_have_key(pairs, k)));
        assert(has_key(a.journal_entries(), k) == has_key(a.ledger_xacts(), k));
    }
    assert forall|i: int| 0 <= i < a.ledger_xacts().len() implies #[trigger] xact_row_under_own_key(a.ledger_xacts()[i]) by {
        assert(xact_under_own_key(a.ledger_xacts()[i]));
    }
    assert forall|i: int| 0 <= i < b.ledger_xacts().len() implies #[trigger] xact_under_own_key(b.ledger_xacts()[i]) by {
        assert(xact_row_under_own_key(b.ledger_xacts()[i]));
    }
}


/// Posting a journal transaction a second time leaves the ledger entries and
/// the ledger transactions as the first posting left them.
pub proof fn law_posting_twice_same_ledgers(a: Inner, b: Inner, c: Inner, jid: JournalTransactionId)
    requires
        a.wf(),
        has_key(a.journal_xact_lines(), jid),
        posted_state(a, b, jid),
        posted_state(b, c, jid),
    ensures
        c.journal_entries() == b.journal_entries(),
        c.ledger_xacts() == b.ledger_xacts(),
{
    a.lemma_tables();
    let code = LedgerXactTypeCode::spec_account_ledger();
    let lines = stored_lines(a, jid);
    let pairs = line_pairs(lines);
    let refs = posted_refs(pairs);
    let new_lines = posted_lines(lines, refs);
    lemma_lookup_upsert_same(a.journal_xact_lines(), jid, new_lines);
    assert(stored_lines(b, jid) == new_lines);
    lemma_pairs_of_posted(lines, refs);
    let again = line_pairs(new_lines);
    assert forall|k: int| 0 <= k < again.len() implies {
        &&& posting_key(#[trigger] again[k].0) == posting_key(pairs[k].0)
        &&& entry_of(again[k].0, code, jid) == entry_of(pairs[k].0, code, jid)
        &&& xact_of(again[k].0, again[k].1) == xact_of(pairs[k].0, pairs[k].1)
    } by {
        lemma_mark_posted_keeps(pairs[k].0, refs);
        lemma_mark_posted_keeps(pairs[k].1, refs);
    }
    lemma_store_same_pairs(b.journal_entries(), b.ledger_xacts(), again, pairs, code, jid);
    lemma_store_twice(a.journal_entries(), a.ledger_xacts(), pairs, code, jid);
}


/// Posting a journal transaction a second time leaves the store as the first
/// posting left it, where no two of its lines agree in everything but their
/// posting state and reference.
pub proof fn law_posting_twice_same_store(a: Inner, b: Inner, c: Inner, jid: JournalTransactionId)
    requires
        a.wf(),
        has_key(a.journal_xact_lines(), jid),
        distinct_lines(stored_lines(a, jid)),
        posted_state(a, b, jid),
        posted_state(b, c, jid),
    ensures
        frame(b, c, Set::<Tab>::empty()),
{
    law_posting_twice_same_ledgers(a, b, c, jid);
    a.lemma_tables();
    let lines = stored_lines(a, jid);
    let new_lines = posted_lines(lines, posted_refs(line_pairs(lines)));
    lemma_lookup_upsert_same(a.journal_xact_lines(), jid, new_lines);
    lemma_upsert_unique(a.journal_xact_lines(), jid, new_lines);
    lemma_mark_twice(lines);
    lemma_upsert_same_value(b.journal_xact_lines(), jid, new_lines);
}

/// Where one of the lines has a problem, the first line with a problem has one.
proof fn lemma_some_line_problem(s: Inner, jid: JournalTransactionId, lines: Seq<journal_transaction_line::Model>, i: int)
    requires
        0 <= i < lines.len(),
        line_problem(s, jid, lines[i]) is Some,
    ensures
        first_line_problem(s, jid, lines) is Some,
        (forall|j: int| 0 <= j < lines.len() ==> (#[trigger] lines[j].ledger_id is Some) != (lines[j].account_id is Some))
            ==> (first_line_problem(s, jid, lines) matches Some((kind, _)) && kind == ErrorKind::RecordNotFound),
    decreases lines.len(),
{
    if line_problem(s, jid, lines[0]) is None {
        assert(i > 0);
        let rest = lines.drop_first();
        assert(rest[i - 1] == lines[i]);
        assert forall|j: int| 0 <= j < rest.len() && (forall|k: int| 0 <= k < lines.len() ==> (#[trigger] lines[k].ledger_id is Some) != (lines[k].account_id is Some))
            implies (#[trigger] rest[j].ledger_id is Some) != (rest[j].account_id is Some) by {
            assert(rest[j] == lines[j + 1]);
        }
        lemma_some_line_problem(s, jid, rest, i - 1);
    } else {
        assert((lines[0].ledger_id is Some) != (lines[0].account_id is Some) ==> (line_problem(s, jid, lines[0]) matches Some((kind, _)) && kind == ErrorKind::RecordNotFound));
    }
}

/// Creating a journal transaction in which some line, debit or credit, names
/// a ledger account that is not stored fails and leaves the store as it was;
/// where every line names exactly one of a ledger account and a subsidiary
/// account, the failure is that a record was not found.
pub proof fn law_transaction_with_unknown_ledger_refused(
    a: Inner,
    b: Inner,
    model: journal_transaction::Model,
    r: Result<journal_transaction::ActiveModel, OrmError>,
    i: int,
    lid: AccountId,
)
    requires
        transaction_created(a, b, model, r),
        0 <= i < model.lines@.len(),
        model.lines@[i].ledger_id == Some(lid),
        forall|k: int| 0 <= k < a.ledgers().len() ==> #[trigger] a.ledgers()[k].1.id != lid,
    ensures
        r is Err,
        b == a,
        (forall|j: int| 0 <= j < model.lines@.len() ==> (#[trigger] model.lines@[j].ledger_id is Some) != (model.lines@[j].account_id is Some))
            ==> r matches Err(OrmError::RecordNotFound(_)),
{
    let lines = model.lines@;
    let jid = jid_of(model);
    assert(line_problem(a, jid, lines[i]) is Some);
    lemma_some_line_problem(a, jid, lines, i);
    match r {
        Err(e) => {
            assert(kind_of(e) == first_line_problem(a, jid, lines).unwrap().0);
        },
        Ok(_) => {},
    }
}

/// The number of rows whose key names an account.
pub open spec fn rows_of_account(rows: Seq<(LedgerKey, ledger_line::ActiveModel)>, account_id: AccountId) -> nat
    decreases rows.len(),
{
    if rows.len() == 0 {
        0
    } else {
        rows_of_account(rows.drop_last(), account_id) + if rows.last().0.ledger_id == account_id { 1nat } else { 0nat }
    }
}

/// The ledger entries read for an account are the stored entries whose key
/// names the account: each of them is among them, each of them is one, and
/// there are as many as there are such rows.
pub proof fn law_account_entries_are_its_rows(rows: Seq<(LedgerKey, ledger_line::ActiveModel)>, account_id: AccountId)
    ensures
        entries_of_account(rows, account_id).len() == rows_of_account(rows, account_id),
        forall|i: int| 0 <= i < rows.len() && #[trigger] rows[i].0.ledger_id == account_id
            ==> entries_of_account(rows, account_id).contains(rows[i].1),
        forall|x: ledger_line::ActiveModel| #[trigger] entries_of_account(rows, account_id).contains(x)
            ==> exists|i: int| 0 <= i < rows.len() && rows[i].0.ledger_id == account_id && #[trigger] rows[i].1 == x,
    decreases rows.len(),
{
    let pred = |r: (LedgerKey, ledger_line::ActiveModel)| r.0.ledger_id == account_id;
    let val = |r: (LedgerKey, ledger_line::ActiveModel)| r.1;
    if rows.len() == 0 {
        assert(rows.filter(pred) =~= Seq::<(LedgerKey, ledger_line::ActiveModel)>::empty()) by {
            reveal(Seq::filter);
        }
    } else {
        let d = rows.drop_last();
        let last = rows.last();
        law_account_entries_are_its_rows(d, account_id);
        assert(rows =~= d.push(last));
        d.lemma_filter_push(last, pred);
        let before = entries_of_account(d, account_id);
        let now = entries_of_account(rows, account_id);
        if pred(last) {
            assert(now =~= before.push(last.1));
        } else {
            assert(now =~= before);
        }
        assert forall|i: int| 0 <= i < rows.len() && #[trigger] rows[i].0.ledger_id == account_id implies now.contains(rows[i].1) by {
            if i < rows.len() - 1 {
                assert(rows[i] == d[i]);
                assert(d[i].0.ledger_id == account_id);
                assert(before.contains(d[i].1));
                let k = choose|k: int| 0 <= k < before.len() && before[k] == d[i].1;
                assert(now[k] == before[k]);
            } else {
                assert(now[now.len() - 1] == last.1);
            }
        }
        assert forall|x: ledger_line::ActiveModel| #[trigger] now.contains(x)
            implies exists|i: int| 0 <= i < rows.len() && rows[i].0.ledger_id == account_id && #[trigger] rows[i].1 == x by {
            let k = choose|k: int| 0 <= k < now.len() && now[k] == x;
            if k < before.len() {
                assert(before[k] == x);
                assert(before.contains(x));
                let i = choose|i: int| 0 <= i < d.len() && d[i].0.ledger_id == account_id && #[trigger] d[i].1 == x;
                assert(rows[i] == d[i]);
            } else {
                assert(rows[rows.len() - 1] == last);
            }
        }
    }
}

/// Every stored ledger entry whose key names an account is credited to that
/// account, with its time, amount and journal, among the account's journal
/// entries; and the account's credits come first, as many as such entries.
pub proof fn law_account_journal_entries_credit_its_rows(s: Inner, account_id: AccountId, i: int)
    requires
        0 <= i < s.journal_entries().len(),
        s.journal_entries()[i].0.ledger_id == account_id,
    ensures
        exists|k: int| 0 <= k < rows_of_account(s.journal_entries(), account_id) && {
            let e = #[trigger] account_journal_entries(s, account_id)[k];
            let l = s.journal_entries()[i].1;
            &&& e.xact_type == XactType::Cr
            &&& e.ledger_id == l.ledger_id
            &&& e.timestamp == l.timestamp
            &&& e.amount == l.amount
            &&& e.journal_ref == l.journal_ref
        },
{
    let rows = s.journal_entries();
    law_account_entries_are_its_rows(rows, account_id);
    let ents = entries_of_account(rows, account_id);
    assert(ents.contains(rows[i].1));
    let k = choose|k: int| 0 <= k < ents.len() && ents[k] == rows[i].1;
    let all = account_journal_entries(s, account_id);
    assert(all[k] == ents.map_values(|e: ledger_line::ActiveModel| crate::memory_store::credit_entry(e))[k]);
}

/// Saving a special column of a stored transaction answers one, replaces
/// with it just the columns of that transaction at its sequence, keeps every
/// column at another sequence as it was, and leaves the columns of every other
/// transaction alone.
pub proof fn law_save_special_column_only_at_its_sequence(
    a: Inner,
    b: Inner,
    model: journal_transaction_special_column::ActiveModel,
    other: JournalTransactionId,
)
    requires
        a.wf(),
        has_key(a.special_columns(), model.spec_id()),
        b.special_columns() == upsert(a.special_columns(), model.spec_id(),
            lookup(a.special_columns(), model.spec_id()).unwrap().map_values(
                |v: journal_transaction_special_column::ActiveModel| saved_special(v, model))),
        other != model.spec_id(),
    ensures
        ({
            let before = lookup(a.special_columns(), model.spec_id()).unwrap();
            let after = lookup(b.special_columns(), model.spec_id()).unwrap();
            &&& after.len() == before.len()
            &&& forall|k: int| 0 <= k < before.len() && #[trigger] before[k].sequence != model.sequence ==> after[k] == before[k]
            &&& forall|k: int| 0 <= k < before.len() && #[trigger] before[k].sequence == model.sequence ==> after[k] == model
        }),
        lookup(b.special_columns(), other) == lookup(a.special_columns(), other),
{
    a.lemma_tables();
    let before = lookup(a.special_columns(), model.spec_id()).unwrap();
    let after = before.map_values(|v: journal_transaction_special_column::ActiveModel| saved_special(v, model));
    lemma_lookup_upsert_same(a.special_columns(), model.spec_id(), after);
    crate::table::lemma_lookup_upsert_other(a.special_columns(), model.spec_id(), after, other);
}

/// The general ledger that creation answers and stores carries the model's
/// name and currency code, the root account and the identifier it was given.
pub proof fn law_general_ledger_keeps_model(
    a: Inner,
    b: Inner,
    model: general_ledger::Model,
    gl_id: GeneralLedgerId,
    root: AccountId,
    r: Result<general_ledger::ActiveModel, OrmError>,
)
    requires
        a.wf(),
        first_root(a.ledgers()) == Some(root),
        r == Ok::<general_ledger::ActiveModel, OrmError>(general_ledger_from(model, gl_id, root)),
        b.general_ledgers() == upsert(a.general_ledgers(), gl_id, general_ledger_from(model, gl_id, root)),
    ensures
        r matches Ok(g) && {
            &&& g.id == gl_id
            &&& g.name == model.name
            &&& g.currency_code == model.currency_code
            &&& g.root == root
            &&& lookup(b.general_ledgers(), gl_id) == Some(g)
        },
{
    a.lemma_tables();
    lemma_lookup_upsert_same(a.general_ledgers(), gl_id, general_ledger_from(model, gl_id, root));
}

/// The ledger account that creation answers and stores has every field of the
/// model: number, kind, parent, name and currency code.
pub proof fn law_created_ledger_keeps_model(
    a: Inner,
    b: Inner,
    model: ledger::Model,
    r: Result<ledger::ActiveModel, OrmError>,
)
    requires
        a.wf(),
        ledger_created(a, b, model, r),
        r is Ok,
    ensures
        r matches Ok(l) && {
            &&& l.ledger_no == model.ledger_no
            &&& l.ledger_type == model.ledger_type
            &&& l.parent_id == model.parent_id
            &&& l.name == model.name
            &&& l.currency_code == model.currency_code
            &&& lookup(b.ledgers(), l.id) == Some(l)
        },
{
    a.lemma_tables();
    let l = r->Ok_0;
    assert(ledger_outcome(a, model, l.id) == Ok::<ledger::ActiveModel, (ErrorKind, Seq<char>)>(l));
    lemma_lookup_upsert_same(a.ledgers(), l.id, l);
}

} // verus!
