//! Posting a journal transaction: its credit lines and debit lines are paired
//! in order, each pair becomes a ledger entry (the credit side) and a ledger
//! transaction (the debit account), and the lines that were paired are marked
//! as posted with a reference to the entry's key.
use vstd::prelude::*;
use crate::domain::{
    JournalTransactionId, LedgerKey, LedgerXactTypeCode, PostingRef, TransactionState, XactType,
};
use crate::entity::{journal_transaction_line_ledger, ledger_line, ledger_transaction};
use crate::table::{
    has_key, key_index, lemma_key_index, lemma_lookup_upsert_other, lemma_lookup_upsert_same, lemma_upsert_forall,
    lemma_upsert_unique, lookup, unique_keys, upsert,
};

verus! {

pub type Line = journal_transaction_line_ledger::ActiveModel;

/// The credit lines, in order.
pub open spec fn credit_lines(lines: Seq<Line>) -> Seq<Line> {
    lines.filter(|l: Line| l.xact_type == XactType::Cr)
}

/// The debit lines, in order.
pub open spec fn debit_lines(lines: Seq<Line>) -> Seq<Line> {
    lines.filter(|l: Line| l.xact_type == XactType::Dr)
}

/// The i-th credit line with the i-th debit line, as far as both go.
pub open spec fn line_pairs(lines: Seq<Line>) -> Seq<(Line, Line)> {
    let c = credit_lines(lines);
    let d = debit_lines(lines);
    Seq::new(
        if c.len() <= d.len() { c.len() } else { d.len() },
        |i: int| (c[i], d[i]),
    )
}

/// The key of the ledger entry that a credit line makes.
pub open spec fn posting_key(cr: Line) -> LedgerKey {
    LedgerKey { ledger_id: cr.ledger_id, timestamp: cr.timestamp }
}

/// The ledger entry that a credit line makes.
pub open spec fn entry_of(cr: Line, code: LedgerXactTypeCode, jid: JournalTransactionId) -> ledger_line::ActiveModel {
    ledger_line::ActiveModel {
        ledger_id: cr.ledger_id,
        timestamp: cr.timestamp,
        ledger_xact_type_code: code,
        amount: cr.amount,
        journal_ref: jid,
    }
}

/// The ledger transaction that a pair makes: the debit account of the entry.
pub open spec fn xact_of(cr: Line, dr: Line) -> ledger_transaction::ActiveModel {
    ledger_transaction::ActiveModel {
        ledger_id: cr.ledger_id,
        timestamp: cr.timestamp,
        ledger_dr_id: dr.ledger_id,
    }
}

/// The lines that the pairs post, each with the key of its pair's entry: the
/// debit line first, then the credit line.
pub open spec fn posted_refs(pairs: Seq<(Line, Line)>) -> Seq<(LedgerKey, Line)>
    decreases pairs.len(),
{
    if pairs.len() == 0 {
        Seq::empty()
    } else {
        let p = pairs.last();
        posted_refs(pairs.drop_last()) + seq![(posting_key(p.0), p.1), (posting_key(p.0), p.0)]
    }
}

/// A line marked as posted under a key.
pub open spec fn marked(line: Line, key: LedgerKey) -> Line {
    Line {
        state: TransactionState::Posted,
        posting_ref: Some(PostingRef { key, account_id: line.ledger_id }),
        ..line
    }
}

/// A line after it has been held, in order, against each posted line: where
/// it equals one, it is marked with that one's key.
pub open spec fn mark_posted(line: Line, posted: Seq<(LedgerKey, Line)>) -> Line
    decreases posted.len(),
{
    if posted.len() == 0 {
        line
    } else {
        let prev = mark_posted(line, posted.drop_last());
        let (k, p) = posted.last();
        if prev == p {
            marked(prev, k)
        } else {
            prev
        }
    }
}

/// Every line held against the posted lines.
pub open spec fn posted_lines(lines: Seq<Line>, posted: Seq<(LedgerKey, Line)>) -> Seq<Line> {
    Seq::new(lines.len(), |i: int| mark_posted(lines[i], posted))
}

/// The ledger entries after the pairs' entries are stored, in pair order.
pub open spec fn store_entries(
    rows: Seq<(LedgerKey, ledger_line::ActiveModel)>,
    pairs: Seq<(Line, Line)>,
    code: LedgerXactTypeCode,
    jid: JournalTransactionId,
) -> Seq<(LedgerKey, ledger_line::ActiveModel)>
    decreases pairs.len(),
{
    if pairs.len() == 0 {
        rows
    } else {
        let p = pairs.last();
        upsert(store_entries(rows, pairs.drop_last(), code, jid), posting_key(p.0), entry_of(p.0, code, jid))
    }
}

/// The ledger transactions after the pairs' transactions are stored, in pair order.
pub open spec fn store_xacts(
    rows: Seq<(LedgerKey, ledger_transaction::ActiveModel)>,
    pairs: Seq<(Line, Line)>,
) -> Seq<(LedgerKey, ledger_transaction::ActiveModel)>
    decreases pairs.len(),
{
    if pairs.len() == 0 {
        rows
    } else {
        let p = pairs.last();
        upsert(store_xacts(rows, pairs.drop_last()), posting_key(p.0), xact_of(p.0, p.1))
    }
}

/// What posting one pair writes: the ledger entry and the ledger transaction
/// under the pair's key, and the debit and the credit line marked as posted.
#[derive(Clone, Copy, Debug, PartialEq, Eq, Structural)]
pub struct PairPosting {
    pub key: LedgerKey,
    pub entry: ledger_line::ActiveModel,
    pub xact: ledger_transaction::ActiveModel,
    pub dr: Line,
    pub cr: Line,
}

/// The posting of one pair, as `plan_posting` makes it.
pub open spec fn pair_posting(p: (Line, Line), code: LedgerXactTypeCode, jid: JournalTransactionId) -> PairPosting {
    PairPosting {
        key: posting_key(p.0),
        entry: entry_of(p.0, code, jid),
        xact: xact_of(p.0, p.1),
        dr: marked(p.1, posting_key(p.0)),
        cr: marked(p.0, posting_key(p.0)),
    }
}

/// A copy of the lines.
pub fn copy_lines(lines: &Vec<Line>) -> (r: Vec<Line>)
    ensures
        r@ == lines@,
{
    let mut r: Vec<Line> = Vec::new();
    let mut i: usize = 0;
    while i < lines.len()
        invariant
            i <= lines@.len(),
            r@ == lines@.take(i as int),
        decreases lines@.len() - i,
    {
        r.push(lines[i]);
        i = i + 1;
        assert(r@ =~= lines@.take(i as int));
    }
    assert(lines@.take(lines@.len() as int) =~= lines@);
    r
}

/// The lines of one side, in order.
pub fn lines_of_side(lines: &Vec<Line>, side: XactType) -> (r: Vec<Line>)
    ensures
        r@ == lines@.filter(|l: Line| l.xact_type == side),
{
    let ghost pred = |l: Line| l.xact_type == side;
    let mut r: Vec<Line> = Vec::new();
    let mut i: usize = 0;
    while i < lines.len()
        invariant
            i <= lines@.len(),
            r@ == lines@.take(i as int).filter(pred),
            pred == (|l: Line| l.xact_type == side),
        decreases lines@.len() - i,
    {
        proof {
            assert(lines@.take(i + 1) =~= lines@.take(i as int).push(lines@[i as int]));
            lines@.take(i as int).lemma_filter_push(lines@[i as int], pred);
        }
        if lines[i].xact_type == side {
            r.push(lines[i]);
            assert(pred(lines@[i as int]));
        } else {
            assert(!pred(lines@[i as int]));
        }
        assert(r@ == lines@.take(i + 1).filter(pred));
        i = i + 1;
    }
    assert(lines@.take(lines@.len() as int) =~= lines@);
    r
}

/// The credit lines paired, in order, with the debit lines.
pub fn pair_lines(lines: &Vec<Line>) -> (pairs: Vec<(Line, Line)>)
    ensures
        pairs@ == line_pairs(lines@),
{
    let cr = lines_of_side(lines, XactType::Cr);
    let dr = lines_of_side(lines, XactType::Dr);
    assert(cr@ == credit_lines(lines@));
    assert(dr@ == debit_lines(lines@));
    let n = if cr.len() <= dr.len() { cr.len() } else { dr.len() };
    let mut pairs: Vec<(Line, Line)> = Vec::new();
    let mut i: usize = 0;
    while i < n
        invariant
            n <= cr@.len(),
            n <= dr@.len(),
            i <= n,
            pairs@.len() == i,
            forall|j: int| 0 <= j < i ==> #[trigger] pairs@[j] == (cr@[j], dr@[j]),
        decreases n - i,
    {
        pairs.push((cr[i], dr[i]));
        i = i + 1;
    }
    assert(pairs@ =~= line_pairs(lines@));
    pairs
}

/// The posted lines of the pairs, each with its entry's key.
pub fn posted_refs_of(pairs: &Vec<(Line, Line)>) -> (r: Vec<(LedgerKey, Line)>)
    ensures
        r@ == posted_refs(pairs@),
{
    let mut r: Vec<(LedgerKey, Line)> = Vec::new();
    let mut i: usize = 0;
    while i < pairs.len()
        invariant
            i <= pairs@.len(),
            r@ == posted_refs(pairs@.take(i as int)),
        decreases pairs@.len() - i,
    {
        let (cr, dr) = pairs[i];
        let key = LedgerKey { ledger_id: cr.ledger_id, timestamp: cr.timestamp };
        proof {
            assert(pairs@.take(i + 1).drop_last() =~= pairs@.take(i as int));
        }
        r.push((key, dr));
        r.push((key, cr));
        i = i + 1;
        assert(r@ =~= posted_refs(pairs@.take(i as int)));
    }
    assert(pairs@.take(pairs@.len() as int) =~= pairs@);
    r
}

/// A line held against the posted lines.
pub fn mark_line(line: Line, posted: &Vec<(LedgerKey, Line)>) -> (r: Line)
    ensures
        r == mark_posted(line, posted@),
{
    let mut cur = line;
    let mut j: usize = 0;
    while j < posted.len()
        invariant
            j <= posted@.len(),
            cur == mark_posted(line, posted@.take(j as int)),
        decreases posted@.len() - j,
    {
        let (k, p) = posted[j];
        proof {
            assert(posted@.take(j + 1).drop_last() =~= posted@.take(j as int));
        }
        if cur == p {
            cur = Line {
                state: TransactionState::Posted,
                posting_ref: Some(PostingRef { key: k, account_id: cur.ledger_id }),
                ..cur
            };
        }
        j = j + 1;
    }
    assert(posted@.take(posted@.len() as int) =~= posted@);
    cur
}

/// Every line held against the posted lines.
pub fn mark_lines(lines: &Vec<Line>, posted: &Vec<(LedgerKey, Line)>) -> (r: Vec<Line>)
    ensures
        r@ == posted_lines(lines@, posted@),
{
    let mut r: Vec<Line> = Vec::new();
    let mut i: usize = 0;
    while i < lines.len()
        invariant
            i <= lines@.len(),
            r@.len() == i,
            forall|k: int| 0 <= k < i ==> #[trigger] r@[k] == mark_posted(lines@[k], posted@),
        decreases lines@.len() - i,
    {
        r.push(mark_line(lines[i], posted));
        i = i + 1;
    }
    assert(r@ =~= posted_lines(lines@, posted@));
    r
}


/// What posting the lines of a journal transaction writes, pair by pair.
pub fn plan_posting(lines: &Vec<Line>, code: LedgerXactTypeCode, jid: JournalTransactionId) -> (r: Vec<PairPosting>)
    ensures
        r@ == line_pairs(lines@).map_values(|p: (Line, Line)| pair_posting(p, code, jid)),
{
    let pairs = pair_lines(lines);
    let mut r: Vec<PairPosting> = Vec::new();
    let mut i: usize = 0;
    while i < pairs.len()
        invariant
            pairs@ == line_pairs(lines@),
            i <= pairs@.len(),
            r@ == pairs@.take(i as int).map_values(|p: (Line, Line)| pair_posting(p, code, jid)),
        decreases pairs@.len() - i,
    {
        let (cr, dr) = pairs[i];
        let key = LedgerKey { ledger_id: cr.ledger_id, timestamp: cr.timestamp };
        let posting = PairPosting {
            key,
            entry: ledger_line::ActiveModel {
                ledger_id: cr.ledger_id,
                timestamp: cr.timestamp,
                ledger_xact_type_code: code,
                amount: cr.amount,
                journal_ref: jid,
            },
            xact: ledger_transaction::ActiveModel { ledger_id: cr.ledger_id, timestamp: cr.timestamp, ledger_dr_id: dr.ledger_id },
            dr: Line {
                state: TransactionState::Posted,
                posting_ref: Some(PostingRef { key, account_id: dr.ledger_id }),
                ..dr
            },
            cr: Line {
                state: TransactionState::Posted,
                posting_ref: Some(PostingRef { key, account_id: cr.ledger_id }),
                ..cr
            },
        };
        r.push(posting);
        proof {
            assert(pairs@.take(i + 1) =~= pairs@.take(i as int).push(pairs@[i as int]));
        }
        i = i + 1;
    }
    proof {
        assert(pairs@.take(pairs@.len() as int) =~= pairs@);
    }
    r
}

/// Storing the pairs' entries keeps every key in one row.
pub proof fn lemma_store_entries_unique(
    rows: Seq<(LedgerKey, ledger_line::ActiveModel)>,
    pairs: Seq<(Line, Line)>,
    code: LedgerXactTypeCode,
    jid: JournalTransactionId,
)
    requires
        unique_keys(rows),
    ensures
        unique_keys(store_entries(rows, pairs, code, jid)),
    decreases pairs.len(),
{
    if pairs.len() > 0 {
        let p = pairs.last();
        lemma_store_entries_unique(rows, pairs.drop_last(), code, jid);
        lemma_upsert_unique(store_entries(rows, pairs.drop_last(), code, jid), posting_key(p.0), entry_of(p.0, code, jid));
    }
}

/// Storing the pairs' transactions keeps every key in one row.
pub proof fn lemma_store_xacts_unique(
    rows: Seq<(LedgerKey, ledger_transaction::ActiveModel)>,
    pairs: Seq<(Line, Line)>,
)
    requires
        unique_keys(rows),
    ensures
        unique_keys(store_xacts(rows, pairs)),
    decreases pairs.len(),
{
    if pairs.len() > 0 {
        let p = pairs.last();
        lemma_store_xacts_unique(rows, pairs.drop_last());
        lemma_upsert_unique(store_xacts(rows, pairs.drop_last()), posting_key(p.0), xact_of(p.0, p.1));
    }
}

/// Under the key of a pair, the stored entry is made from a credit line with
/// that account and time, for this transaction; it is that pair's own entry
/// where no later pair has the same key.
pub proof fn lemma_store_entries_at(
    rows: Seq<(LedgerKey, ledger_line::ActiveModel)>,
    pairs: Seq<(Line, Line)>,
    code: LedgerXactTypeCode,
    jid: JournalTransactionId,
    k: int,
)
    requires
        unique_keys(rows),
        0 <= k < pairs.len(),
    ensures
        lookup(store_entries(rows, pairs, code, jid), posting_key(pairs[k].0)) matches Some(e) && {
            &&& e.ledger_id == pairs[k].0.ledger_id
            &&& e.timestamp == pairs[k].0.timestamp
            &&& e.ledger_xact_type_code == code
            &&& e.journal_ref == jid
        },
        (forall|j: int| k < j < pairs.len() ==> posting_key(#[trigger] pairs[j].0) != posting_key(pairs[k].0))
            ==> lookup(store_entries(rows, pairs, code, jid), posting_key(pairs[k].0)) == Some(entry_of(pairs[k].0, code, jid)),
    decreases pairs.len(),
{
    let n = pairs.len();
    let last = pairs[n - 1];
    let prev = store_entries(rows, pairs.drop_last(), code, jid);
    let key = posting_key(pairs[k].0);
    lemma_store_entries_unique(rows, pairs.drop_last(), code, jid);
    if posting_key(last.0) == key {
        lemma_lookup_upsert_same(prev, key, entry_of(last.0, code, jid));
        if k < n - 1 {
            assert(k < n - 1 < pairs.len() && posting_key(pairs[n - 1].0) == key);
        }
    } else {
        assert(k < n - 1);
        lemma_store_entries_at(rows, pairs.drop_last(), code, jid, k);
        lemma_lookup_upsert_other(prev, posting_key(last.0), entry_of(last.0, code, jid), key);
        assert(pairs.drop_last()[k] == pairs[k]);
        if forall|j2: int| k < j2 < pairs.len() ==> posting_key(#[trigger] pairs[j2].0) != key {
            assert forall|j: int| k < j < pairs.drop_last().len() implies posting_key(#[trigger] pairs.drop_last()[j].0) != key by {
                assert(pairs.drop_last()[j] == pairs[j]);
            }
        }
    }
}

/// Under the key of a pair, the stored transaction is the debit account of a
/// pair with that key; it is that pair's own where no later pair has the same key.
pub proof fn lemma_store_xacts_at(
    rows: Seq<(LedgerKey, ledger_transaction::ActiveModel)>,
    pairs: Seq<(Line, Line)>,
    k: int,
)
    requires
        unique_keys(rows),
        0 <= k < pairs.len(),
    ensures
        lookup(store_xacts(rows, pairs), posting_key(pairs[k].0)) matches Some(x) && {
            &&& x.ledger_id == pairs[k].0.ledger_id
            &&& x.timestamp == pairs[k].0.timestamp
        },
        (forall|j: int| k < j < pairs.len() ==> posting_key(#[trigger] pairs[j].0) != posting_key(pairs[k].0))
            ==> lookup(store_xacts(rows, pairs), posting_key(pairs[k].0)) == Some(xact_of(pairs[k].0, pairs[k].1)),
    decreases pairs.len(),
{
    let n = pairs.len();
    let last = pairs[n - 1];
    let prev = store_xacts(rows, pairs.drop_last());
    let key = posting_key(pairs[k].0);
    lemma_store_xacts_unique(rows, pairs.drop_last());
    if posting_key(last.0) == key {
        lemma_lookup_upsert_same(prev, key, xact_of(last.0, last.1));
        if k < n - 1 {
            assert(k < n - 1 < pairs.len() && posting_key(pairs[n - 1].0) == key);
        }
    } else {
        assert(k < n - 1);
        lemma_store_xacts_at(rows, pairs.drop_last(), k);
        lemma_lookup_upsert_other(prev, posting_key(last.0), xact_of(last.0, last.1), key);
        assert(pairs.drop_last()[k] == pairs[k]);
        if forall|j2: int| k < j2 < pairs.len() ==> posting_key(#[trigger] pairs[j2].0) != key {
            assert forall|j: int| k < j < pairs.drop_last().len() implies posting_key(#[trigger] pairs.drop_last()[j].0) != key by {
                assert(pairs.drop_last()[j] == pairs[j]);
            }
        }
    }
}

/// Under a key that no pair has, storing the pairs leaves the entries and
/// the transactions as they were.
pub proof fn lemma_store_elsewhere(
    entries: Seq<(LedgerKey, ledger_line::ActiveModel)>,
    xacts: Seq<(LedgerKey, ledger_transaction::ActiveModel)>,
    pairs: Seq<(Line, Line)>,
    code: LedgerXactTypeCode,
    jid: JournalTransactionId,
    key: LedgerKey,
)
    requires
        unique_keys(entries),
        unique_keys(xacts),
        forall|j: int| 0 <= j < pairs.len() ==> posting_key(#[trigger] pairs[j].0) != key,
    ensures
        lookup(store_entries(entries, pairs, code, jid), key) == lookup(entries, key),
        lookup(store_xacts(xacts, pairs), key) == lookup(xacts, key),
    decreases pairs.len(),
{
    if pairs.len() > 0 {
        let n = pairs.len();
        let last = pairs[n - 1];
        assert forall|j: int| 0 <= j < pairs.drop_last().len() implies posting_key(#[trigger] pairs.drop_last()[j].0) != key by {
            assert(pairs.drop_last()[j] == pairs[j]);
        }
        lemma_store_elsewhere(entries, xacts, pairs.drop_last(), code, jid, key);
        lemma_store_entries_unique(entries, pairs.drop_last(), code, jid);
        lemma_store_xacts_unique(xacts, pairs.drop_last());
        assert(posting_key(pairs[n - 1].0) != key);
        lemma_lookup_upsert_other(store_entries(entries, pairs.drop_last(), code, jid), posting_key(last.0), entry_of(last.0, code, jid), key);
        lemma_lookup_upsert_other(store_xacts(xacts, pairs.drop_last()), posting_key(last.0), xact_of(last.0, last.1), key);
    }
}

/// The lines that the pairs post come two to a pair, each under its pair's key.
pub proof fn lemma_posted_refs_at(pairs: Seq<(Line, Line)>, j: int)
    requires
        0 <= j < 2 * pairs.len(),
    ensures
        posted_refs(pairs).len() == 2 * pairs.len(),
        posted_refs(pairs)[j].0 == posting_key(pairs[j / 2].0),
        posted_refs(pairs)[j].1 == if j % 2 == 0 { pairs[j / 2].1 } else { pairs[j / 2].0 },
    decreases pairs.len(),
{
    let n = pairs.len();
    let front = posted_refs(pairs.drop_last());
    let p = pairs.last();
    if n > 1 {
        lemma_posted_refs_len(pairs.drop_last());
    }
    assert(front.len() == 2 * (n - 1)) by {
        lemma_posted_refs_len(pairs.drop_last());
    }
    if j < 2 * (n - 1) {
        lemma_posted_refs_at(pairs.drop_last(), j);
        assert(posted_refs(pairs)[j] == front[j]);
        assert(pairs.drop_last()[j / 2] == pairs[j / 2]);
    } else {
        assert(j / 2 == n - 1);
        assert(posted_refs(pairs)[j] == seq![(posting_key(p.0), p.1), (posting_key(p.0), p.0)][j - 2 * (n - 1)]);
    }
}

/// Two posted lines to a pair.
pub proof fn lemma_posted_refs_len(pairs: Seq<(Line, Line)>)
    ensures
        posted_refs(pairs).len() == 2 * pairs.len(),
    decreases pairs.len(),
{
    if pairs.len() > 0 {
        lemma_posted_refs_len(pairs.drop_last());
    }
}

/// A line held against posted lines is as it was, or marked with the key of one of them.
pub proof fn lemma_mark_posted_shape(line: Line, posted: Seq<(LedgerKey, Line)>)
    ensures
        mark_posted(line, posted) == line
            || exists|j: int| 0 <= j < posted.len() && mark_posted(line, posted) == #[trigger] marked(line, posted[j].0),
    decreases posted.len(),
{
    if posted.len() > 0 {
        let front = posted.drop_last();
        let n = posted.len();
        lemma_mark_posted_shape(line, front);
        let prev = mark_posted(line, front);
        let (k, p) = posted.last();
        if prev == p {
            if prev == line {
                assert(mark_posted(line, posted) == marked(line, posted[n - 1].0));
            } else {
                let j = choose|j: int| 0 <= j < front.len() && prev == #[trigger] marked(line, front[j].0);
                assert(marked(marked(line, front[j].0), k) == marked(line, k));
                assert(mark_posted(line, posted) == marked(line, posted[n - 1].0));
            }
        } else if prev != line {
            let j = choose|j: int| 0 <= j < front.len() && prev == #[trigger] marked(line, front[j].0);
            assert(front[j] == posted[j]);
            assert(mark_posted(line, posted) == marked(line, posted[j].0));
        }
    }
}


/// Some pair's credit line has the key.
pub open spec fn pairs_have_key(pairs: Seq<(Line, Line)>, k: LedgerKey) -> bool {
    exists|j: int| 0 <= j < pairs.len() && #[trigger] posting_key(pairs[j].0) == k
}

/// A row of ledger entries whose entry has the account and time of its key.
pub open spec fn entry_under_own_key(r: (LedgerKey, ledger_line::ActiveModel)) -> bool {
    r.1.ledger_id == r.0.ledger_id && r.1.timestamp == r.0.timestamp
}

/// A row of ledger transactions whose transaction has the account and time of its key.
pub open spec fn xact_row_under_own_key(r: (LedgerKey, ledger_transaction::ActiveModel)) -> bool {
    r.1.ledger_id == r.0.ledger_id && r.1.timestamp == r.0.timestamp
}

/// After the pairs are stored, a key is held by the entries and by the
/// transactions just where it was held before or some pair has it; and every
/// row stays under the account and time of its own entry or transaction.
pub proof fn lemma_store_keys(
    entries: Seq<(LedgerKey, ledger_line::ActiveModel)>,
    xacts: Seq<(LedgerKey, ledger_transaction::ActiveModel)>,
    pairs: Seq<(Line, Line)>,
    code: LedgerXactTypeCode,
    jid: JournalTransactionId,
)
    requires
        unique_keys(entries),
        unique_keys(xacts),
    ensures
        forall|k: LedgerKey| #[trigger] has_key(store_entries(entries, pairs, code, jid), k)
            == (has_key(entries, k) || pairs_have_key(pairs, k)),
        forall|k: LedgerKey| #[trigger] has_key(store_xacts(xacts, pairs), k)
            == (has_key(xacts, k) || pairs_have_key(pairs, k)),
        (forall|i: int| 0 <= i < entries.len() ==> #[trigger] entry_under_own_key(entries[i])) ==>
            forall|i: int| 0 <= i < store_entries(entries, pairs, code, jid).len()
                ==> #[trigger] entry_under_own_key(store_entries(entries, pairs, code, jid)[i]),
        (forall|i: int| 0 <= i < xacts.len() ==> #[trigger] xact_row_under_own_key(xacts[i])) ==>
            forall|i: int| 0 <= i < store_xacts(xacts, pairs).len()
                ==> #[trigger] xact_row_under_own_key(store_xacts(xacts, pairs)[i]),
    decreases pairs.len(),
{
    if pairs.len() > 0 {
        let d = pairs.drop_last();
        let p = pairs.last();
        let pk = posting_key(p.0);
        lemma_store_keys(entries, xacts, d, code, jid);
        lemma_store_entries_unique(entries, d, code, jid);
        lemma_store_xacts_unique(xacts, d);
        let e0 = store_entries(entries, d, code, jid);
        let x0 = store_xacts(xacts, d);
        lemma_upsert_unique(e0, pk, entry_of(p.0, code, jid));
        lemma_upsert_unique(x0, pk, xact_of(p.0, p.1));
        assert forall|k: LedgerKey| #[trigger] pairs_have_key(pairs, k) == (pairs_have_key(d, k) || k == pk) by {
            if pairs_have_key(d, k) {
                let j = choose|j: int| 0 <= j < d.len() && #[trigger] posting_key(d[j].0) == k;
                assert(d[j] == pairs[j]);
            }
            if k == pk {
                assert(posting_key(pairs[pairs.len() - 1].0) == k);
            }
            if pairs_have_key(pairs, k) && k != pk {
                let j = choose|j: int| 0 <= j < pairs.len() && #[trigger] posting_key(pairs[j].0) == k;
                assert(j < d.len());
                assert(d[j] == pairs[j]);
                assert(posting_key(d[j].0) == k);
            }
        }
        assert forall|k: LedgerKey| #[trigger] has_key(store_entries(entries, pairs, code, jid), k)
            == (has_key(entries, k) || pairs_have_key(pairs, k)) by {
            if k != pk {
                lemma_lookup_upsert_other(e0, pk, entry_of(p.0, code, jid), k);
            }
        }
        assert forall|k: LedgerKey| #[trigger] has_key(store_xacts(xacts, pairs), k)
            == (has_key(xacts, k) || pairs_have_key(pairs, k)) by {
            if k != pk {
                lemma_lookup_upsert_other(x0, pk, xact_of(p.0, p.1), k);
            }
        }
        if forall|i: int| 0 <= i < entries.len() ==> #[trigger] entry_under_own_key(entries[i]) {
            lemma_upsert_forall(e0, pk, entry_of(p.0, code, jid), |r: (LedgerKey, ledger_line::ActiveModel)| entry_under_own_key(r));
        }
        if forall|i: int| 0 <= i < xacts.len() ==> #[trigger] xact_row_under_own_key(xacts[i]) {
            lemma_upsert_forall(x0, pk, xact_of(p.0, p.1), |r: (LedgerKey, ledger_transaction::ActiveModel)| xact_row_under_own_key(r));
        }
    }
}


/// Marking keeps a line's side, account, time and amount.
pub proof fn lemma_mark_posted_keeps(line: Line, posted: Seq<(LedgerKey, Line)>)
    ensures
        mark_posted(line, posted).xact_type == line.xact_type,
        mark_posted(line, posted).ledger_id == line.ledger_id,
        mark_posted(line, posted).timestamp == line.timestamp,
        mark_posted(line, posted).amount == line.amount,
    decreases posted.len(),
{
    if posted.len() > 0 {
        lemma_mark_posted_keeps(line, posted.drop_last());
    }
}

/// Filtering by a property that a function keeps commutes with applying it.
proof fn lemma_filter_map_commute(s: Seq<Line>, f: spec_fn(Line) -> Line, p: spec_fn(Line) -> bool)
    requires
        forall|x: Line| #[trigger] p(f(x)) == p(x),
    ensures
        s.map_values(f).filter(p) == s.filter(p).map_values(f),
    decreases s.len(),
{
    reveal(Seq::filter);
    if s.len() > 0 {
        let d = s.drop_last();
        lemma_filter_map_commute(d, f, p);
        assert(s.map_values(f).drop_last() =~= d.map_values(f));
        assert(s.map_values(f).last() == f(s.last()));
        if p(s.last()) {
            assert(d.filter(p).push(s.last()).map_values(f) =~= d.filter(p).map_values(f).push(f(s.last())));
        }
    }
}

/// The pairs of lines that were held against posted lines are the pairs of
/// the lines, each held against them.
pub proof fn lemma_pairs_of_posted(lines: Seq<Line>, posted: Seq<(LedgerKey, Line)>)
    ensures
        line_pairs(posted_lines(lines, posted)).len() == line_pairs(lines).len(),
        forall|k: int| 0 <= k < line_pairs(lines).len() ==> {
            &&& #[trigger] line_pairs(posted_lines(lines, posted))[k].0 == mark_posted(line_pairs(lines)[k].0, posted)
            &&& line_pairs(posted_lines(lines, posted))[k].1 == mark_posted(line_pairs(lines)[k].1, posted)
        },
{
    let f = |l: Line| mark_posted(l, posted);
    let is_cr = |l: Line| l.xact_type == XactType::Cr;
    let is_dr = |l: Line| l.xact_type == XactType::Dr;
    assert(posted_lines(lines, posted) =~= lines.map_values(f));
    assert forall|x: Line| #[trigger] is_cr(f(x)) == is_cr(x) by {
        lemma_mark_posted_keeps(x, posted);
    }
    assert forall|x: Line| #[trigger] is_dr(f(x)) == is_dr(x) by {
        lemma_mark_posted_keeps(x, posted);
    }
    lemma_filter_map_commute(lines, f, is_cr);
    lemma_filter_map_commute(lines, f, is_dr);
    assert(credit_lines(posted_lines(lines, posted)) == credit_lines(lines).map_values(f));
    assert(debit_lines(posted_lines(lines, posted)) == debit_lines(lines).map_values(f));
}

/// Pairs that make the same keys, entries and transactions store the same.
pub proof fn lemma_store_same_pairs(
    entries: Seq<(LedgerKey, ledger_line::ActiveModel)>,
    xacts: Seq<(LedgerKey, ledger_transaction::ActiveModel)>,
    p: Seq<(Line, Line)>,
    q: Seq<(Line, Line)>,
    code: LedgerXactTypeCode,
    jid: JournalTransactionId,
)
    requires
        p.len() == q.len(),
        forall|k: int| 0 <= k < p.len() ==> {
            &&& posting_key(#[trigger] p[k].0) == posting_key(q[k].0)
            &&& entry_of(p[k].0, code, jid) == entry_of(q[k].0, code, jid)
            &&& xact_of(p[k].0, p[k].1) == xact_of(q[k].0, q[k].1)
        },
    ensures
        store_entries(entries, p, code, jid) == store_entries(entries, q, code, jid),
        store_xacts(xacts, p) == store_xacts(xacts, q),
    decreases p.len(),
{
    if p.len() > 0 {
        assert forall|k: int| 0 <= k < p.drop_last().len() implies {
            &&& posting_key(#[trigger] p.drop_last()[k].0) == posting_key(q.drop_last()[k].0)
            &&& entry_of(p.drop_last()[k].0, code, jid) == entry_of(q.drop_last()[k].0, code, jid)
            &&& xact_of(p.drop_last()[k].0, p.drop_last()[k].1) == xact_of(q.drop_last()[k].0, q.drop_last()[k].1)
        } by {
            assert(p.drop_last()[k] == p[k] && q.drop_last()[k] == q[k]);
        }
        lemma_store_same_pairs(entries, xacts, p.drop_last(), q.drop_last(), code, jid);
        assert(posting_key(p[p.len() - 1].0) == posting_key(q[q.len() - 1].0));
    }
}

/// Under a key that some pair has, what storing the pairs leaves does not
/// depend on what was stored before.
proof fn lemma_store_pair_key_lookup(
    e1: Seq<(LedgerKey, ledger_line::ActiveModel)>,
    e2: Seq<(LedgerKey, ledger_line::ActiveModel)>,
    x1: Seq<(LedgerKey, ledger_transaction::ActiveModel)>,
    x2: Seq<(LedgerKey, ledger_transaction::ActiveModel)>,
    pairs: Seq<(Line, Line)>,
    code: LedgerXactTypeCode,
    jid: JournalTransactionId,
    k: LedgerKey,
)
    requires
        unique_keys(e1),
        unique_keys(e2),
        unique_keys(x1),
        unique_keys(x2),
        pairs_have_key(pairs, k),
    ensures
        lookup(store_entries(e1, pairs, code, jid), k) == lookup(store_entries(e2, pairs, code, jid), k),
        lookup(store_xacts(x1, pairs), k) == lookup(store_xacts(x2, pairs), k),
    decreases pairs.len(),
{
    let n = pairs.len();
    let d = pairs.drop_last();
    let last = pairs[n - 1];
    lemma_store_entries_unique(e1, d, code, jid);
    lemma_store_entries_unique(e2, d, code, jid);
    lemma_store_xacts_unique(x1, d);
    lemma_store_xacts_unique(x2, d);
    if posting_key(last.0) == k {
        lemma_lookup_upsert_same(store_entries(e1, d, code, jid), k, entry_of(last.0, code, jid));
        lemma_lookup_upsert_same(store_entries(e2, d, code, jid), k, entry_of(last.0, code, jid));
        lemma_lookup_upsert_same(store_xacts(x1, d), k, xact_of(last.0, last.1));
        lemma_lookup_upsert_same(store_xacts(x2, d), k, xact_of(last.0, last.1));
    } else {
        let j = choose|j: int| 0 <= j < pairs.len() && #[trigger] posting_key(pairs[j].0) == k;
        assert(j < n - 1);
        assert(d[j] == pairs[j]);
        assert(posting_key(d[j].0) == k);
        lemma_store_pair_key_lookup(e1, e2, x1, x2, d, code, jid, k);
        lemma_lookup_upsert_other(store_entries(e1, d, code, jid), posting_key(last.0), entry_of(last.0, code, jid), k);
        lemma_lookup_upsert_other(store_entries(e2, d, code, jid), posting_key(last.0), entry_of(last.0, code, jid), k);
        lemma_lookup_upsert_other(store_xacts(x1, d), posting_key(last.0), xact_of(last.0, last.1), k);
        lemma_lookup_upsert_other(store_xacts(x2, d), posting_key(last.0), xact_of(last.0, last.1), k);
    }
}

/// Storing pairs whose keys are all held already keeps every key in its row.
proof fn lemma_store_held_keys(
    entries: Seq<(LedgerKey, ledger_line::ActiveModel)>,
    xacts: Seq<(LedgerKey, ledger_transaction::ActiveModel)>,
    pairs: Seq<(Line, Line)>,
    code: LedgerXactTypeCode,
    jid: JournalTransactionId,
)
    requires
        unique_keys(entries),
        unique_keys(xacts),
        forall|j: int| 0 <= j < pairs.len() ==> has_key(entries, posting_key(#[trigger] pairs[j].0)),
        forall|j: int| 0 <= j < pairs.len() ==> has_key(xacts, posting_key(#[trigger] pairs[j].0)),
    ensures
        store_entries(entries, pairs, code, jid).len() == entries.len(),
        forall|i: int| 0 <= i < entries.len() ==> #[trigger] store_entries(entries, pairs, code, jid)[i].0 == entries[i].0,
        store_xacts(xacts, pairs).len() == xacts.len(),
        forall|i: int| 0 <= i < xacts.len() ==> #[trigger] store_xacts(xacts, pairs)[i].0 == xacts[i].0,
    decreases pairs.len(),
{
    if pairs.len() > 0 {
        let d = pairs.drop_last();
        let last = pairs[pairs.len() - 1];
        let pk = posting_key(last.0);
        assert forall|j: int| 0 <= j < d.len() implies has_key(entries, posting_key(#[trigger] d[j].0)) by {
            assert(d[j] == pairs[j]);
        }
        assert forall|j: int| 0 <= j < d.len() implies has_key(xacts, posting_key(#[trigger] d[j].0)) by {
            assert(d[j] == pairs[j]);
        }
        lemma_store_held_keys(entries, xacts, d, code, jid);
        lemma_store_keys(entries, xacts, d, code, jid);
        let e0 = store_entries(entries, d, code, jid);
        let x0 = store_xacts(xacts, d);
        assert(has_key(entries, pk));
        assert(has_key(e0, pk));
        assert(has_key(xacts, pk));
        assert(has_key(x0, pk));
    }
}

/// Storing the pairs a second time leaves the entries and the transactions
/// as storing them once did.
pub proof fn lemma_store_twice(
    entries: Seq<(LedgerKey, ledger_line::ActiveModel)>,
    xacts: Seq<(LedgerKey, ledger_transaction::ActiveModel)>,
    pairs: Seq<(Line, Line)>,
    code: LedgerXactTypeCode,
    jid: JournalTransactionId,
)
    requires
        unique_keys(entries),
        unique_keys(xacts),
    ensures
        store_entries(store_entries(entries, pairs, code, jid), pairs, code, jid) == store_entries(entries, pairs, code, jid),
        store_xacts(store_xacts(xacts, pairs), pairs) == store_xacts(xacts, pairs),
{
    let e1 = store_entries(entries, pairs, code, jid);
    let x1 = store_xacts(xacts, pairs);
    let e2 = store_entries(e1, pairs, code, jid);
    let x2 = store_xacts(x1, pairs);
    lemma_store_entries_unique(entries, pairs, code, jid);
    lemma_store_xacts_unique(xacts, pairs);
    lemma_store_entries_unique(e1, pairs, code, jid);
    lemma_store_xacts_unique(x1, pairs);
    lemma_store_keys(entries, xacts, pairs, code, jid);
    assert forall|j: int| 0 <= j < pairs.len() implies has_key(e1, posting_key(#[trigger] pairs[j].0)) by {
        assert(pairs_have_key(pairs, posting_key(pairs[j].0)));
    }
    assert forall|j: int| 0 <= j < pairs.len() implies has_key(x1, posting_key(#[trigger] pairs[j].0)) by {
        assert(pairs_have_key(pairs, posting_key(pairs[j].0)));
    }
    lemma_store_held_keys(e1, x1, pairs, code, jid);
    assert forall|i: int| 0 <= i < e1.len() implies #[trigger] e2[i] == e1[i] by {
        let k = e1[i].0;
        lemma_key_index(e1, i);
        lemma_key_index(e2, i);
        if pairs_have_key(pairs, k) {
            lemma_store_pair_key_lookup(e1, entries, x1, xacts, pairs, code, jid, k);
        } else {
            assert forall|j: int| 0 <= j < pairs.len() implies posting_key(#[trigger] pairs[j].0) != k by {
                if posting_key(pairs[j].0) == k {
                    assert(pairs_have_key(pairs, k));
                }
            }
            lemma_store_elsewhere(e1, x1, pairs, code, jid, k);
        }
    }
    assert forall|i: int| 0 <= i < x1.len() implies #[trigger] x2[i] == x1[i] by {
        let k = x1[i].0;
        lemma_key_index(x1, i);
        lemma_key_index(x2, i);
        if pairs_have_key(pairs, k) {
            lemma_store_pair_key_lookup(e1, entries, x1, xacts, pairs, code, jid, k);
        } else {
            assert forall|j: int| 0 <= j < pairs.len() implies posting_key(#[trigger] pairs[j].0) != k by {
                if posting_key(pairs[j].0) == k {
                    assert(pairs_have_key(pairs, k));
                }
            }
            lemma_store_elsewhere(e1, x1, pairs, code, jid, k);
        }
    }
    assert(e2 =~= e1);
    assert(x2 =~= x1);
}


/// A line as it stands before any posting: pending, with no reference.
pub open spec fn bare(l: Line) -> Line {
    Line { state: TransactionState::Pending, posting_ref: None, ..l }
}

/// No two of the lines agree in everything but their posting state and
/// reference.
pub open spec fn distinct_lines(lines: Seq<Line>) -> bool {
    forall|i: int, j: int|
        #![trigger lines[i], lines[j]]
        0 <= i < lines.len() && 0 <= j < lines.len() && i != j ==> bare(lines[i]) != bare(lines[j])
}

/// Filtering keeps a sequence free of repeats.
proof fn lemma_filter_no_dup(s: Seq<Line>, p: spec_fn(Line) -> bool)
    requires
        s.no_duplicates(),
    ensures
        s.filter(p).no_duplicates(),
    decreases s.len(),
{
    reveal(Seq::filter);
    if s.len() > 0 {
        let d = s.drop_last();
        assert(d.no_duplicates()) by {
            assert forall|i: int, j: int| 0 <= i < d.len() && 0 <= j < d.len() && i != j implies d[i] != d[j] by {
                assert(d[i] == s[i] && d[j] == s[j]);
            }
        }
        lemma_filter_no_dup(d, p);
        if p(s.last()) {
            let f = d.filter(p);
            if f.contains(s.last()) {
                d.lemma_filter_contains_rev(p, s.last());
                let i = choose|i: int| 0 <= i < d.len() && d[i] == s.last();
                assert(s[i] == s[s.len() - 1]);
            }
            let g = f.push(s.last());
            assert forall|i: int, j: int| 0 <= i < g.len() && 0 <= j < g.len() && i != j implies g[i] != g[j] by {
                if i == f.len() {
                    assert(f.contains(f[j]));
                } else if j == f.len() {
                    assert(f.contains(f[i]));
                }
            }
        }
    }
}

/// A line held against posted lines no two of which agree but in their
/// posting: where some of them equals it, it is marked with the key of one
/// that does, else it is as it was.
proof fn lemma_mark_distinct(l: Line, posted: Seq<(LedgerKey, Line)>)
    requires
        forall|j1: int, j2: int|
            #![trigger posted[j1], posted[j2]]
            0 <= j1 < posted.len() && 0 <= j2 < posted.len() && bare(posted[j1].1) == bare(posted[j2].1) ==> j1 == j2,
    ensures
        (forall|j: int| 0 <= j < posted.len() ==> #[trigger] posted[j].1 != l) ==> mark_posted(l, posted) == l,
        (exists|j: int| 0 <= j < posted.len() && #[trigger] posted[j].1 == l) ==> exists|j: int|
            0 <= j < posted.len() && #[trigger] posted[j].1 == l && mark_posted(l, posted) == marked(l, posted[j].0),
    decreases posted.len(),
{
    if posted.len() > 0 {
        let d = posted.drop_last();
        let n = posted.len();
        assert forall|j1: int, j2: int|
            #![trigger d[j1], d[j2]]
            0 <= j1 < d.len() && 0 <= j2 < d.len() && bare(d[j1].1) == bare(d[j2].1) implies j1 == j2 by {
            assert(d[j1] == posted[j1] && d[j2] == posted[j2]);
        }
        lemma_mark_distinct(l, d);
        if exists|j: int| 0 <= j < d.len() && #[trigger] d[j].1 == l {
            let j = choose|j: int| 0 <= j < d.len() && #[trigger] d[j].1 == l && mark_posted(l, d) == marked(l, d[j].0);
            assert(posted[j] == d[j]);
            if mark_posted(l, d) == posted[n - 1].1 {
                assert(bare(marked(l, d[j].0)) == bare(l));
                assert(bare(posted[n - 1].1) == bare(posted[j].1));
            }
        } else {
            assert forall|j: int| 0 <= j < d.len() implies #[trigger] d[j].1 != l by {}
            if posted[n - 1].1 == l {
                assert(mark_posted(l, posted) == marked(l, posted[n - 1].0));
            } else {
                assert forall|j: int| 0 <= j < posted.len() implies #[trigger] posted[j].1 != l by {
                    if j < n - 1 {
                        assert(posted[j] == d[j]);
                    }
                }
            }
        }
    }
}

/// A line that every posted line equal to it would mark as it already is
/// stays as it is.
proof fn lemma_mark_settled(m: Line, posted: Seq<(LedgerKey, Line)>)
    requires
        forall|j: int| 0 <= j < posted.len() && #[trigger] posted[j].1 == m ==> marked(m, posted[j].0) == m,
    ensures
        mark_posted(m, posted) == m,
    decreases posted.len(),
{
    if posted.len() > 0 {
        let d = posted.drop_last();
        assert forall|j: int| 0 <= j < d.len() && #[trigger] d[j].1 == m implies marked(m, d[j].0) == m by {
            assert(d[j] == posted[j]);
        }
        lemma_mark_settled(m, d);
        assert(posted[posted.len() - 1].1 == m ==> marked(m, posted[posted.len() - 1].0) == m);
    }
}

/// Marking keeps what a line is but for its posting.
proof fn lemma_mark_posted_bare(line: Line, posted: Seq<(LedgerKey, Line)>)
    ensures
        bare(mark_posted(line, posted)) == bare(line),
    decreases posted.len(),
{
    if posted.len() > 0 {
        lemma_mark_posted_bare(line, posted.drop_last());
    }
}

/// Where no two of a transaction's lines agree but in their posting, holding
/// its lines, once posted, against what posting them again pairs leaves them
/// as they are.
pub proof fn lemma_mark_twice(lines: Seq<Line>)
    requires
        distinct_lines(lines),
    ensures
        ({
            let once = posted_lines(lines, posted_refs(line_pairs(lines)));
            posted_lines(once, posted_refs(line_pairs(once))) == once
        }),
{
    let pairs = line_pairs(lines);
    let refs = posted_refs(pairs);
    let once = posted_lines(lines, refs);
    let again = line_pairs(once);
    let refs2 = posted_refs(again);
    let c = credit_lines(lines);
    let d = debit_lines(lines);
    let is_cr = |l: Line| l.xact_type == XactType::Cr;
    let is_dr = |l: Line| l.xact_type == XactType::Dr;
    broadcast use vstd::seq_lib::group_filter_ensures;
    assert(lines.no_duplicates()) by {
        assert forall|i: int, j: int| 0 <= i < lines.len() && 0 <= j < lines.len() && i != j implies lines[i] != lines[j] by {
            assert(bare(lines[i]) != bare(lines[j]));
        }
    }
    lemma_filter_no_dup(lines, is_cr);
    lemma_filter_no_dup(lines, is_dr);
    lemma_pairs_of_posted(lines, refs);
    lemma_posted_refs_len(pairs);
    lemma_posted_refs_len(again);
    // every posted line is one of the lines
    assert forall|k: int| 0 <= k < c.len() implies lines.contains(#[trigger] c[k]) && c[k].xact_type == XactType::Cr by {
        assert(lines.filter(is_cr).contains(c[k]));
        lines.lemma_filter_contains_rev(is_cr, c[k]);
    }
    assert forall|k: int| 0 <= k < d.len() implies lines.contains(#[trigger] d[k]) && d[k].xact_type == XactType::Dr by {
        assert(lines.filter(is_dr).contains(d[k]));
        lines.lemma_filter_contains_rev(is_dr, d[k]);
    }
    assert forall|j: int| 0 <= j < refs.len() implies lines.contains(#[trigger] refs[j].1) by {
        lemma_posted_refs_at(pairs, j);
    }
    // a line stands in at most one place among the posted lines
    assert forall|j1: int, j2: int| 0 <= j1 < refs.len() && 0 <= j2 < refs.len() && #[trigger] refs[j1].1 == #[trigger] refs[j2].1
        implies j1 == j2 by {
        lemma_posted_refs_at(pairs, j1);
        lemma_posted_refs_at(pairs, j2);
        if j1 % 2 == 0 && j2 % 2 == 0 {
            assert(d[j1 / 2] == d[j2 / 2]);
        } else if j1 % 2 != 0 && j2 % 2 != 0 {
            assert(c[j1 / 2] == c[j2 / 2]);
        } else if j1 % 2 == 0 {
            assert(d[j1 / 2].xact_type != c[j2 / 2].xact_type);
        } else {
            assert(c[j1 / 2].xact_type != d[j2 / 2].xact_type);
        }
    }
    // lines of the transaction that agree but in their posting are the same line
    assert forall|x: Line, y: Line| lines.contains(x) && lines.contains(y) && bare(x) == bare(y) implies x == y by {
        let i = choose|i: int| 0 <= i < lines.len() && lines[i] == x;
        let j = choose|j: int| 0 <= j < lines.len() && lines[j] == y;
        if i != j {
            assert(bare(lines[i]) != bare(lines[j]));
        }
    }
    assert forall|j1: int, j2: int|
        #![trigger refs[j1], refs[j2]]
        0 <= j1 < refs.len() && 0 <= j2 < refs.len() && bare(refs[j1].1) == bare(refs[j2].1) implies j1 == j2 by {
        assert(lines.contains(refs[j1].1) && lines.contains(refs[j2].1));
        assert(refs[j1].1 == refs[j2].1);
    }
    // the second posting pairs the marked lines under the same keys
    assert forall|j: int| 0 <= j < refs2.len() implies #[trigger] refs2[j] == (refs[j].0, mark_posted(refs[j].1, refs)) by {
        lemma_posted_refs_at(pairs, j);
        lemma_posted_refs_at(again, j);
        lemma_mark_posted_keeps(pairs[j / 2].0, refs);
    }
    assert forall|i: int| 0 <= i < once.len() implies #[trigger] mark_posted(once[i], refs2) == once[i] by {
        let l = lines[i];
        let m = once[i];
        assert(lines.contains(l));
        lemma_mark_distinct(l, refs);
        lemma_mark_posted_bare(l, refs);
        assert forall|j: int| 0 <= j < refs2.len() && #[trigger] refs2[j].1 == m implies marked(m, refs2[j].0) == m by {
            let q = refs[j].1;
            assert(lines.contains(q));
            lemma_mark_distinct(q, refs);
            lemma_mark_posted_bare(q, refs);
            assert(bare(q) == bare(l));
            assert(q == l);
            let j0 = choose|j0: int| 0 <= j0 < refs.len() && #[trigger] refs[j0].1 == l && mark_posted(l, refs) == marked(l, refs[j0].0);
            assert(j0 == j);
        }
        lemma_mark_settled(m, refs2);
    }
    assert(posted_lines(once, refs2) =~= once);
}

} // verus!
