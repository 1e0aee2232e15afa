use chrono::{Datelike, NaiveDate};
use ledger_store::calendar::{Date, Timestamp};
use ledger_store::domain::{
    InterimType, JournalTransactionId, LedgerKey, LedgerType, PostingRef, TransactionState, XactType,
};
use ledger_store::entity::{
    accounting_period, general_ledger, interim_accounting_period, journal, journal_transaction,
    journal_transaction_line, ledger,
};
use ledger_store::ids::{AccountId, GeneralLedgerId, JournalId, PeriodId};
use ledger_store::memory_store::{sort_interim_by_start, MemoryStore};
use ledger_store::OrmError;
use ledger_store::calendar::{MAX_DAYS, MIN_DAYS};
use ledger_store::domain::LedgerXactTypeCode;
use ledger_store::entity::journal_transaction_line_ledger;
use ledger_store::entity::{ledger_line, ledger_transaction};
use ledger_store::memory_store::{journal_entries_from, journal_entry_for_ref};
use ledger_store::memory_store::ledger_refusal;
use ledger_store::memory_store::{account_line_for, ledger_line_for, line_shape_error};
use ledger_store::posting::plan_posting;

fn days(y: i32, m: u32, d: u32) -> i32 {
    NaiveDate::from_ymd_opt(y, m, d).unwrap().num_days_from_ce()
}

fn micros(y: i32, m: u32, d: u32, h: u32) -> i64 {
    NaiveDate::from_ymd_opt(y, m, d)
        .unwrap()
        .and_hms_opt(h, 0, 0)
        .unwrap()
        .and_utc()
        .timestamp_micros()
}

fn root_id(store: &MemoryStore) -> AccountId {
    let ledgers = store.search_ledgers(None).unwrap();
    ledgers.iter().find(|l| l.ledger_no == "0").unwrap().id
}

fn ledger_model(no: &str, kind: LedgerType, parent: Option<AccountId>) -> ledger::Model {
    ledger::Model {
        ledger_no: no.to_string(),
        ledger_type: kind,
        parent_id: parent,
        name: format!("Account {}", no),
        currency_code: Some("USD".to_string()),
    }
}

fn line(ledger_id: AccountId, side: XactType, amount: i64) -> journal_transaction_line::Model {
    journal_transaction_line::Model { ledger_id: Some(ledger_id), account_id: None, xact_type: side, amount }
}

/// A store with a cash and a revenue account under the root, and a journal.
fn setup() -> (MemoryStore, AccountId, AccountId, JournalId) {
    let mut store = MemoryStore::new();
    let root = root_id(&store);
    let cash = store.create_ledger(&ledger_model("1000", LedgerType::Leaf, Some(root))).unwrap();
    let revenue = store.create_ledger(&ledger_model("4000", LedgerType::Leaf, Some(root))).unwrap();
    let jnl = store
        .create_journal(&journal::Model { name: "General".to_string(), code: "GJ".to_string() })
        .unwrap();
    (store, cash.id, revenue.id, jnl.id)
}

#[test]
fn new_store_holds_only_the_root_account() {
    let store = MemoryStore::new();
    let ledgers = store.search_ledgers(None).unwrap();
    assert_eq!(ledgers.len(), 1);
    assert_eq!(ledgers[0].ledger_no, "0");
    assert_eq!(ledgers[0].name, "Root");
    assert_eq!(ledgers[0].ledger_type, LedgerType::Intermediate);
    assert_eq!(ledgers[0].parent_id, None);
    assert!(store.search_journals(None).unwrap().is_empty());
    assert!(store.search_periods(None).unwrap().is_empty());
}

#[test]
fn created_ledger_is_read_back_by_its_id() {
    let mut store = MemoryStore::new();
    let root = root_id(&store);
    let created = store.create_ledger(&ledger_model("1000", LedgerType::Leaf, Some(root))).unwrap();
    assert_eq!(created.ledger_no, "1000");
    assert_eq!(created.parent_id, Some(root));
    let found = store.search_ledgers(Some(vec![created.id])).unwrap();
    assert_eq!(found, vec![created]);
}

#[test]
fn ledger_without_parent_is_refused() {
    let mut store = MemoryStore::new();
    let err = store.create_ledger(&ledger_model("1000", LedgerType::Leaf, None)).unwrap_err();
    assert_eq!(err, OrmError::Constraint("ledger must have parent".to_string()));
    assert_eq!(store.search_ledgers(None).unwrap().len(), 1);
}

#[test]
fn ledger_under_a_leaf_is_refused() {
    let mut store = MemoryStore::new();
    let root = root_id(&store);
    let leaf = store.create_ledger(&ledger_model("1000", LedgerType::Leaf, Some(root))).unwrap();
    let err = store.create_ledger(&ledger_model("1001", LedgerType::Leaf, Some(leaf.id))).unwrap_err();
    assert_eq!(err, OrmError::Validation("parent ledger is not an Intermediate Ledger".to_string()));
}

#[test]
fn duplicate_ledger_number_is_refused() {
    let mut store = MemoryStore::new();
    let root = root_id(&store);
    store.create_ledger(&ledger_model("1000", LedgerType::Leaf, Some(root))).unwrap();
    let err = store.create_ledger(&ledger_model("1000", LedgerType::Intermediate, Some(root))).unwrap_err();
    assert_eq!(err, OrmError::DuplicateRecord("account 1000".to_string()));
    assert_eq!(store.search_ledgers(None).unwrap().len(), 2);
}

#[test]
fn journal_is_created_and_found_by_id() {
    let mut store = MemoryStore::new();
    let j = store
        .create_journal(&journal::Model { name: "Sales".to_string(), code: "SJ".to_string() })
        .unwrap();
    assert_eq!(j.name, "Sales");
    assert_eq!(j.code, "SJ");
    assert_eq!(store.search_journals(Some(vec![j.id])).unwrap(), vec![j.clone()]);
    assert_eq!(store.search_journals(Some(vec![JournalId { value: j.id.value ^ 1 }])).unwrap(), vec![]);
}

#[test]
fn journal_with_a_used_code_is_refused() {
    let mut store = MemoryStore::new();
    store.create_journal(&journal::Model { name: "Sales".to_string(), code: "SJ".to_string() }).unwrap();
    let err = store
        .create_journal(&journal::Model { name: "Other".to_string(), code: "SJ".to_string() })
        .unwrap_err();
    assert_eq!(err, OrmError::DuplicateRecord("duplicate Journal Id or Code".to_string()));
    assert_eq!(store.search_journals(None).unwrap().len(), 1);
}

#[test]
fn journal_with_a_used_id_is_refused() {
    let mut store = MemoryStore::new();
    let id = JournalId { value: 7 };
    store.create_journal_with(&journal::Model { name: "A".to_string(), code: "A".to_string() }, id).unwrap();
    let err = store
        .create_journal_with(&journal::Model { name: "B".to_string(), code: "B".to_string() }, id)
        .unwrap_err();
    assert_eq!(err, OrmError::DuplicateRecord("duplicate Journal Id or Code".to_string()));
}

#[test]
fn fiscal_year_ends_the_day_before_its_anniversary() {
    let mut store = MemoryStore::new();
    let start = Date { days: days(2023, 3, 1) };
    let p = store
        .create_period(&accounting_period::Model {
            fiscal_year: 2023,
            period_start: start,
            period_type: InterimType::CalendarMonth,
        })
        .unwrap();
    assert_eq!(p.fiscal_year, 2023);
    assert_eq!(p.period_start, start);
    assert_eq!(p.period_end.days, days(2024, 2, 29));
    assert_eq!(store.search_periods(Some(vec![p.id])).unwrap(), vec![p]);
}

#[test]
fn fiscal_year_starting_on_leap_day() {
    let mut store = MemoryStore::new();
    let p = store
        .create_period(&accounting_period::Model {
            fiscal_year: 2024,
            period_start: Date { days: days(2024, 2, 29) },
            period_type: InterimType::CalendarMonth,
        })
        .unwrap();
    assert_eq!(p.period_end.days, days(2025, 2, 27));
}

#[test]
fn second_period_of_a_fiscal_year_is_refused() {
    let mut store = MemoryStore::new();
    let model = accounting_period::Model {
        fiscal_year: 2024,
        period_start: Date { days: days(2024, 1, 1) },
        period_type: InterimType::CalendarMonth,
    };
    let p = store.create_period(&model).unwrap();
    assert_eq!(p.period_end.days, days(2024, 12, 31));
    let err = store.create_period(&model).unwrap_err();
    assert_eq!(err, OrmError::DuplicateRecord("duplicate accounting period".to_string()));
    assert_eq!(store.search_periods(None).unwrap().len(), 1);
}

#[test]
fn interim_periods_come_back_ordered_by_start() {
    let mut store = MemoryStore::new();
    let parent = PeriodId { value: 1 };
    let make = |d: i32| interim_accounting_period::Model {
        parent_id: parent,
        start: Date { days: d },
        end: Date { days: d + 27 },
    };
    let c = store.create_interim_period(&make(300)).unwrap();
    let a = store.create_interim_period(&make(100)).unwrap();
    let b = store.create_interim_period(&make(200)).unwrap();
    let all = store.search_interim_periods(None).unwrap();
    assert_eq!(all, vec![a, b, c]);
}

#[test]
fn sorting_interim_periods_keeps_ties_in_order() {
    let p = |id: u128, d: i32| interim_accounting_period::ActiveModel {
        id: ledger_store::ids::InterimPeriodId { value: id },
        parent_id: PeriodId { value: 0 },
        start: Date { days: d },
        end: Date { days: d + 1 },
    };
    let sorted = sort_interim_by_start(vec![p(1, 5), p(2, 3), p(3, 5), p(4, 1), p(5, 3)]);
    let ids: Vec<u128> = sorted.iter().map(|x| x.id.value).collect();
    assert_eq!(ids, vec![4, 2, 5, 1, 3]);
}

#[test]
fn general_ledger_takes_the_root_account() {
    let mut store = MemoryStore::new();
    let root = root_id(&store);
    let gl = store
        .create_general_ledger(&general_ledger::Model { name: "Company A".to_string(), currency_code: Some("EUR".to_string()) })
        .unwrap();
    assert_eq!(gl.root, root);
    assert_eq!(gl.name, "Company A");
    assert_eq!(store.search_general_ledgers(Some(vec![gl.id])).unwrap().len(), 1);
}

#[test]
fn saving_an_unknown_general_ledger_fails() {
    let mut store = MemoryStore::new();
    let gl = general_ledger::ActiveModel {
        id: GeneralLedgerId { value: 0x1234 },
        name: "Nobody".to_string(),
        root: AccountId { value: 1 },
        currency_code: None,
    };
    let err = store.save_general_ledger(&gl).unwrap_err();
    assert_eq!(
        err,
        OrmError::RecordNotFound(
            "general ledger: (Nobody): 00000000-0000-0000-0000-000000001234".to_string()
        )
    );
}

#[test]
fn saving_a_known_general_ledger_replaces_it() {
    let mut store = MemoryStore::new();
    let mut gl = store
        .create_general_ledger(&general_ledger::Model { name: "Company A".to_string(), currency_code: None })
        .unwrap();
    gl.name = "Company B".to_string();
    assert_eq!(store.save_general_ledger(&gl).unwrap(), 1);
    assert_eq!(store.search_general_ledgers(None).unwrap()[0].name, "Company B");
}

fn sale(jid: JournalId, at: i64, cash: AccountId, revenue: AccountId, amount: i64) -> journal_transaction::Model {
    journal_transaction::Model {
        journal_id: jid,
        timestamp: Timestamp { micros: at },
        explanation: "cash sale".to_string(),
        lines: vec![line(cash, XactType::Dr, amount), line(revenue, XactType::Cr, amount)],
    }
}

#[test]
fn journal_transaction_is_created_pending() {
    let (mut store, cash, revenue, jid) = setup();
    let at = micros(2024, 1, 31, 10);
    let tx = store.create_journal_transaction(&sale(jid, at, cash, revenue, 500)).unwrap();
    assert_eq!(tx.journal_id, jid);
    assert_eq!(tx.explanation, "cash sale");
    assert_eq!(tx.lines.len(), 2);
    assert!(tx.lines.iter().all(|l| l.state == TransactionState::Pending && l.posting_ref.is_none()));
    let id = JournalTransactionId::new(jid, Timestamp { micros: at });
    let found = store.search_journal_transactions(Some(vec![id])).unwrap();
    assert_eq!(found.len(), 1);
    assert_eq!(found[0].lines.len(), 2);
}

#[test]
fn journal_transaction_at_a_taken_time_is_refused() {
    let (mut store, cash, revenue, jid) = setup();
    let at = micros(2024, 1, 31, 10);
    store.create_journal_transaction(&sale(jid, at, cash, revenue, 500)).unwrap();
    let err = store.create_journal_transaction(&sale(jid, at, cash, revenue, 700)).unwrap_err();
    match err {
        OrmError::DuplicateRecord(s) => {
            assert_eq!(s, format!("journal transaction exists: {} 2024-01-31 10:00:00", jid.to_text()))
        },
        other => panic!("unexpected error {:?}", other),
    }
}

#[test]
fn journal_transaction_line_needs_one_account() {
    let (mut store, _cash, _revenue, jid) = setup();
    let at = micros(2024, 2, 1, 9);
    let model = journal_transaction::Model {
        journal_id: jid,
        timestamp: Timestamp { micros: at },
        explanation: "broken".to_string(),
        lines: vec![journal_transaction_line::Model { ledger_id: None, account_id: None, xact_type: XactType::Dr, amount: 1 }],
    };
    let err = store.create_journal_transaction(&model).unwrap_err();
    assert_eq!(
        err,
        OrmError::Internal(format!(
            "both ledger and account fields empty: transaction: {} 2024-02-01 09:00:00",
            jid.to_text()
        ))
    );
}

#[test]
fn journal_transaction_line_with_unknown_ledger_is_refused() {
    let (mut store, cash, _revenue, jid) = setup();
    let ghost = AccountId { value: 0xabc };
    let err = store
        .create_journal_transaction(&sale(jid, micros(2024, 2, 2, 9), cash, ghost, 5))
        .unwrap_err();
    assert_eq!(err, OrmError::RecordNotFound("account id: 00000000-0000-0000-0000-000000000abc".to_string()));
}

#[test]
fn posting_an_unknown_transaction_changes_nothing() {
    let (mut store, _cash, _revenue, jid) = setup();
    let id = JournalTransactionId::new(jid, Timestamp { micros: 0 });
    assert!(!store.post_journal_transaction(id));
    assert!(store.ledger_entries_by_account_id(root_id(&store)).is_empty());
}

#[test]
fn posting_stores_the_entry_and_marks_the_lines() {
    let (mut store, cash, revenue, jid) = setup();
    let at = Timestamp { micros: micros(2024, 3, 15, 12) };
    store.create_journal_transaction(&sale(jid, at.micros, cash, revenue, 500)).unwrap();
    let id = JournalTransactionId::new(jid, at);
    assert!(store.post_journal_transaction(id));

    let key = LedgerKey { ledger_id: revenue, timestamp: at };
    let entry = store.ledger_entry_by_key(key).unwrap();
    assert_eq!(entry.ledger_id, revenue);
    assert_eq!(entry.amount, 500);
    assert_eq!(entry.journal_ref, id);
    assert_eq!(entry.ledger_xact_type_code.first, b'A');
    assert_eq!(entry.ledger_xact_type_code.second, b'L');

    let debits = store.ledger_transactions_by_account_id(cash);
    assert_eq!(debits.len(), 1);
    assert_eq!(debits[0].ledger_id, revenue);
    assert_eq!(debits[0].ledger_dr_id, cash);

    let tx = &store.search_journal_transactions(Some(vec![id])).unwrap()[0];
    for l in tx.lines.iter() {
        assert_eq!(l.state, TransactionState::Posted);
        let r = l.posting_ref.unwrap();
        assert_eq!(r.key, key);
        assert_eq!(Some(r.account_id), l.ledger_id);
    }
}

#[test]
fn posted_entries_are_seen_from_both_accounts() {
    let (mut store, cash, revenue, jid) = setup();
    let at = Timestamp { micros: micros(2024, 3, 15, 12) };
    store.create_journal_transaction(&sale(jid, at.micros, cash, revenue, 250)).unwrap();
    let id = JournalTransactionId::new(jid, at);
    store.post_journal_transaction(id);

    let credit = store.journal_entries_by_account_id(revenue);
    assert_eq!(credit.len(), 1);
    assert_eq!(credit[0].xact_type, XactType::Cr);
    assert_eq!(credit[0].amount, 250);
    assert_eq!(credit[0].journal_ref, id);

    let debit = store.journal_entries_by_account_id(cash);
    assert_eq!(debit.len(), 1);
    assert_eq!(debit[0].xact_type, XactType::Dr);
    assert_eq!(debit[0].ledger_id, cash);
    assert_eq!(debit[0].amount, 250);

    let key = LedgerKey { ledger_id: revenue, timestamp: at };
    let by_ref = store.journal_entry_by_ref(PostingRef { key, account_id: cash }).unwrap();
    assert_eq!(by_ref, debit[0]);
    assert_eq!(store.entry_by_posting_ref(PostingRef { key, account_id: revenue }), Some(credit[0]));
    assert_eq!(store.entry_by_posting_ref(PostingRef { key, account_id: AccountId { value: 3 } }), None);
}

#[test]
fn posting_twice_gives_the_same_store() {
    let (mut store, cash, revenue, jid) = setup();
    let at = Timestamp { micros: micros(2024, 4, 1, 8) };
    store.create_journal_transaction(&sale(jid, at.micros, cash, revenue, 90)).unwrap();
    let id = JournalTransactionId::new(jid, at);
    store.post_journal_transaction(id);
    let first = store.journal_entries_by_account_id(revenue);
    assert!(store.post_journal_transaction(id));
    assert_eq!(store.journal_entries_by_account_id(revenue), first);
    assert_eq!(store.ledger_entries_by_account_id(revenue).len(), 1);
}

#[test]
fn unpaired_lines_stay_pending() {
    let (mut store, cash, revenue, jid) = setup();
    let at = Timestamp { micros: micros(2024, 5, 1, 8) };
    let model = journal_transaction::Model {
        journal_id: jid,
        timestamp: at,
        explanation: "split".to_string(),
        lines: vec![
            line(cash, XactType::Dr, 10),
            line(revenue, XactType::Cr, 10),
            line(cash, XactType::Dr, 5),
        ],
    };
    store.create_journal_transaction(&model).unwrap();
    let id = JournalTransactionId::new(jid, at);
    assert!(store.post_journal_transaction(id));
    let tx = &store.search_journal_transactions(Some(vec![id])).unwrap()[0];
    let states: Vec<TransactionState> = tx.lines.iter().map(|l| l.state).collect();
    assert_eq!(states, vec![TransactionState::Posted, TransactionState::Posted, TransactionState::Pending]);
}

#[test]
fn period_record_ends_a_year_later() {
    let model = accounting_period::Model {
        fiscal_year: 2021,
        period_start: Date { days: days(2021, 7, 1) },
        period_type: InterimType::CalendarMonth,
    };
    let p = ledger_store::memory_store::period_record(&model, PeriodId { value: 5 });
    assert_eq!(p.id, PeriodId { value: 5 });
    assert_eq!(p.fiscal_year, 2021);
    assert_eq!(p.period_end.days, days(2022, 6, 30));
}

#[test]
fn line_shape_is_checked() {
    let jid = JournalTransactionId::new(JournalId { value: 1 }, Timestamp { micros: 0 });
    let both = journal_transaction_line::Model {
        ledger_id: Some(AccountId { value: 2 }),
        account_id: Some(AccountId { value: 3 }),
        xact_type: XactType::Cr,
        amount: 4,
    };
    assert_eq!(
        line_shape_error(jid, &both),
        Some(OrmError::Internal(
            "both ledger and account fields NOT empty: transaction: 00000000-0000-0000-0000-000000000001 1970-01-01 00:00:00"
                .to_string()
        ))
    );
    let ledger_only = journal_transaction_line::Model { account_id: None, ..both };
    assert_eq!(line_shape_error(jid, &ledger_only), None);
    let l = ledger_line_for(jid, &ledger_only);
    assert_eq!(l.ledger_id, AccountId { value: 2 });
    assert_eq!(l.amount, 4);
    assert_eq!(l.state, TransactionState::Pending);
    assert_eq!(l.posting_ref, None);
    let account_only = journal_transaction_line::Model { ledger_id: None, ..both };
    let a = account_line_for(jid, &account_only);
    assert_eq!(a.account_id, AccountId { value: 3 });
    assert_eq!(a.journal_id, JournalId { value: 1 });
}

#[test]
fn plan_posting_pairs_credits_with_debits() {
    let jid = JournalTransactionId::new(JournalId { value: 1 }, Timestamp { micros: 10 });
    let mk = |ledger: u128, side: XactType, amount: i64| journal_transaction_line_ledger::ActiveModel {
        journal_id: JournalId { value: 1 },
        timestamp: Timestamp { micros: 10 },
        ledger_id: AccountId { value: ledger },
        xact_type: side,
        amount,
        state: TransactionState::Pending,
        posting_ref: None,
    };
    let lines = vec![mk(1, XactType::Dr, 30), mk(2, XactType::Cr, 30), mk(3, XactType::Cr, 7)];
    let code = LedgerXactTypeCode { first: b'A', second: b'L' };
    let plan = plan_posting(&lines, code, jid);
    assert_eq!(plan.len(), 1);
    let p = plan[0];
    assert_eq!(p.key, LedgerKey { ledger_id: AccountId { value: 2 }, timestamp: Timestamp { micros: 10 } });
    assert_eq!(p.entry.amount, 30);
    assert_eq!(p.entry.journal_ref, jid);
    assert_eq!(p.xact.ledger_dr_id, AccountId { value: 1 });
    assert_eq!(p.dr.state, TransactionState::Posted);
    assert_eq!(p.dr.posting_ref, Some(PostingRef { key: p.key, account_id: AccountId { value: 1 } }));
    assert_eq!(p.cr.posting_ref, Some(PostingRef { key: p.key, account_id: AccountId { value: 2 } }));
}

#[test]
fn posting_reference_picks_its_side() {
    let key = LedgerKey { ledger_id: AccountId { value: 2 }, timestamp: Timestamp { micros: 5 } };
    let jid = JournalTransactionId::new(JournalId { value: 9 }, Timestamp { micros: 5 });
    let entry = ledger_line::ActiveModel {
        ledger_id: AccountId { value: 2 },
        timestamp: Timestamp { micros: 5 },
        ledger_xact_type_code: LedgerXactTypeCode { first: b'A', second: b'L' },
        amount: 12,
        journal_ref: jid,
    };
    let xact = ledger_transaction::ActiveModel {
        ledger_id: AccountId { value: 2 },
        timestamp: Timestamp { micros: 5 },
        ledger_dr_id: AccountId { value: 1 },
    };
    let cr = journal_entry_for_ref(PostingRef { key, account_id: AccountId { value: 2 } }, Some(entry), Some(xact)).unwrap();
    assert_eq!((cr.xact_type, cr.ledger_id, cr.amount), (XactType::Cr, AccountId { value: 2 }, 12));
    let dr = journal_entry_for_ref(PostingRef { key, account_id: AccountId { value: 1 } }, Some(entry), Some(xact)).unwrap();
    assert_eq!((dr.xact_type, dr.ledger_id, dr.amount, dr.journal_ref), (XactType::Dr, AccountId { value: 1 }, 12, jid));
    assert_eq!(journal_entry_for_ref(PostingRef { key, account_id: AccountId { value: 7 } }, Some(entry), Some(xact)), None);
    assert_eq!(journal_entry_for_ref(PostingRef { key, account_id: AccountId { value: 2 } }, None, None), None);
}

#[test]
fn ledger_refusal_reasons() {
    let root = AccountId { value: 1 };
    let m = ledger_model("1000", LedgerType::Leaf, Some(root));
    assert_eq!(ledger_refusal(&m, Some(LedgerType::Intermediate), false), None);
    assert_eq!(
        ledger_refusal(&m, Some(LedgerType::Intermediate), true),
        Some(OrmError::DuplicateRecord("duplicate ledger number: 1000".to_string()))
    );
    assert_eq!(
        ledger_refusal(&m, Some(LedgerType::Leaf), false),
        Some(OrmError::Validation("parent ledger is not an Intermediate Ledger".to_string()))
    );
    let orphan = ledger_model("1000", LedgerType::Leaf, None);
    assert_eq!(
        ledger_refusal(&orphan, None, true),
        Some(OrmError::Constraint("ledger must have parent".to_string()))
    );
    let zero = ledger_model("0", LedgerType::Intermediate, Some(root));
    assert_eq!(ledger_refusal(&zero, Some(LedgerType::Intermediate), true), None);
}

#[test]
fn fiscal_year_may_start_on_the_first_representable_day() {
    let mut store = MemoryStore::new();
    let p = store
        .create_period(&accounting_period::Model {
            fiscal_year: -262143,
            period_start: Date { days: MIN_DAYS },
            period_type: InterimType::CalendarMonth,
        })
        .unwrap();
    assert_eq!(p.period_end.days, MIN_DAYS + 364);
}

#[test]
fn fiscal_year_may_start_a_year_before_the_last_representable_day() {
    let mut store = MemoryStore::new();
    let p = store
        .create_period(&accounting_period::Model {
            fiscal_year: 262142,
            period_start: Date { days: MAX_DAYS - 365 },
            period_type: InterimType::CalendarMonth,
        })
        .unwrap();
    assert_eq!(p.period_end.days, MAX_DAYS - 1);
    assert_eq!(p.period_end.days, days(262142, 12, 30));
}

#[test]
fn creation_in_an_empty_store_succeeds() {
    let mut store = MemoryStore::new();
    assert!(store.create_journal(&journal::Model { name: "A".to_string(), code: "A".to_string() }).is_ok());
    assert!(store
        .create_period(&accounting_period::Model {
            fiscal_year: 2020,
            period_start: Date { days: days(2020, 1, 1) },
            period_type: InterimType::CalendarMonth,
        })
        .is_ok());
    let root = root_id(&store);
    let leaf = store.create_ledger(&ledger_model("2000", LedgerType::Leaf, Some(root))).unwrap();
    let inter = store.create_ledger(&ledger_model("3000", LedgerType::Intermediate, Some(root))).unwrap();
    assert_eq!(leaf.ledger_type, LedgerType::Leaf);
    assert_eq!(inter.ledger_type, LedgerType::Intermediate);
    assert!(store.create_ledger(&ledger_model("3001", LedgerType::Leaf, Some(inter.id))).is_ok());
}

#[test]
fn posting_twice_keeps_the_lines() {
    let (mut store, cash, revenue, jid) = setup();
    let at = Timestamp { micros: micros(2024, 6, 1, 8) };
    store.create_journal_transaction(&sale(jid, at.micros, cash, revenue, 40)).unwrap();
    let id = JournalTransactionId::new(jid, at);
    store.post_journal_transaction(id);
    let once = store.search_journal_transactions(Some(vec![id])).unwrap();
    store.post_journal_transaction(id);
    let twice = store.search_journal_transactions(Some(vec![id])).unwrap();
    assert_eq!(once, twice);
    assert_eq!(store.ledger_transactions_by_account_id(cash).len(), 1);
}

#[test]
fn account_entries_are_credits_then_found_debits() {
    let jid = JournalTransactionId::new(JournalId { value: 9 }, Timestamp { micros: 5 });
    let code = LedgerXactTypeCode { first: b'A', second: b'L' };
    let own = ledger_line::ActiveModel {
        ledger_id: AccountId { value: 1 },
        timestamp: Timestamp { micros: 3 },
        ledger_xact_type_code: code,
        amount: 40,
        journal_ref: jid,
    };
    let other = ledger_line::ActiveModel {
        ledger_id: AccountId { value: 2 },
        timestamp: Timestamp { micros: 5 },
        ledger_xact_type_code: code,
        amount: 12,
        journal_ref: jid,
    };
    let found = ledger_transaction::ActiveModel {
        ledger_id: AccountId { value: 2 },
        timestamp: Timestamp { micros: 5 },
        ledger_dr_id: AccountId { value: 1 },
    };
    let lost = ledger_transaction::ActiveModel {
        ledger_id: AccountId { value: 3 },
        timestamp: Timestamp { micros: 6 },
        ledger_dr_id: AccountId { value: 1 },
    };
    let r = journal_entries_from(&vec![own], &vec![(lost, None), (found, Some(other))]);
    assert_eq!(r.len(), 2);
    assert_eq!((r[0].xact_type, r[0].ledger_id, r[0].amount, r[0].timestamp), (XactType::Cr, AccountId { value: 1 }, 40, Timestamp { micros: 3 }));
    assert_eq!((r[1].xact_type, r[1].ledger_id, r[1].amount, r[1].timestamp), (XactType::Dr, AccountId { value: 1 }, 12, Timestamp { micros: 5 }));
    assert_eq!(r[1].journal_ref, jid);
    assert!(journal_entries_from(&vec![], &vec![(lost, None)]).is_empty());
}
