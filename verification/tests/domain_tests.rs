use chrono::{Datelike, NaiveDate, NaiveTime};
use ledger_store::calendar::{MAX_DAYS, MAX_MICROS, MIN_DAYS, MIN_MICROS};
use ledger_store::calendar::Timestamp;
use ledger_store::domain::{JournalTransactionColumnId, JournalTransactionId, TransactionState};
use ledger_store::entity::journal_transaction_column_account_cr;
use ledger_store::ids::{AccountId, JournalId, TemplateColumnId};
use ledger_store::memory_store::MemoryStore;
use ledger_store::search_domain::parse_domain;
use ledger_store::text::{int_to_string, nat_to_string};
use ledger_store::orm::{JournalService, LedgerService, ResourceOperations};
use ledger_store::entity::journal;
use ledger_store::OrmError;
use ledger_store::entity::general_ledger;
use ledger_store::ids::GeneralLedgerId;

const SAMPLE: u128 = 0x67e5504410b1426f9247bb680e5fe0c8;
const SAMPLE_TEXT: &str = "67e55044-10b1-426f-9247-bb680e5fe0c8";
const OTHER_TEXT: &str = "a1a2a3a4-b1b2-c1c2-d1d2-d3d4d5d6d7d8";

fn micros(y: i32, m: u32, d: u32, h: u32, min: u32, s: u32) -> i64 {
    NaiveDate::from_ymd_opt(y, m, d)
        .unwrap()
        .and_hms_opt(h, min, s)
        .unwrap()
        .and_utc()
        .timestamp_micros()
}

#[test]
fn account_id_text_is_hyphenated_lower_case() {
    assert_eq!(AccountId { value: SAMPLE }.to_string(), SAMPLE_TEXT);
    assert_eq!(AccountId { value: 0 }.to_string(), "00000000-0000-0000-0000-000000000000");
}

#[test]
fn journal_id_reads_its_text() {
    assert_eq!(JournalId::parse_str(SAMPLE_TEXT), Ok(JournalId { value: SAMPLE }));
    assert_eq!(JournalId::parse_str("67E5504410B1426F9247BB680E5FE0C8"), Ok(JournalId { value: SAMPLE }));
    assert_eq!(JournalId { value: SAMPLE }.to_text(), SAMPLE_TEXT);
}

#[test]
fn journal_id_refuses_bad_text() {
    let err = JournalId::parse_str("67e55044-10b1-426f-9247-bb680e5fe0cz").unwrap_err();
    assert!(err.starts_with("invalid character"), "{}", err);
    assert!(TemplateColumnId::parse_str("xyz").is_err());
}

#[test]
fn journal_transaction_id_text_is_journal_and_time() {
    let id = JournalTransactionId::new(JournalId { value: SAMPLE }, Timestamp { micros: micros(2024, 1, 31, 10, 5, 7) });
    assert_eq!(id.to_string(), format!("{} 2024-01-31 10:05:07", SAMPLE_TEXT));
    let with_fraction = JournalTransactionId::new(JournalId { value: SAMPLE }, Timestamp { micros: 1_500_000 });
    assert_eq!(with_fraction.to_string(), format!("{} 1970-01-01 00:00:01.500", SAMPLE_TEXT));
}

#[test]
fn numbers_are_written_in_decimal() {
    assert_eq!(nat_to_string(0), "0");
    assert_eq!(nat_to_string(1200), "1200");
    assert_eq!(nat_to_string(u64::MAX), "18446744073709551615");
    assert_eq!(int_to_string(-42), "-42");
    assert_eq!(int_to_string(7), "7");
    assert_eq!(int_to_string(i64::MIN), "-9223372036854775808");
}

#[test]
fn domain_with_all_three_terms() {
    let text = format!(
        "journal_id = {}, timestamp = 2024-01-31 10:00:00.000000 ,template_column_id={}",
        SAMPLE_TEXT, OTHER_TEXT
    );
    let c = parse_domain(&text).unwrap();
    assert_eq!(c.journal_id, Some(JournalId { value: SAMPLE }));
    assert_eq!(c.timestamp, Some(Timestamp { micros: micros(2024, 1, 31, 10, 0, 0) }));
    assert_eq!(c.template_column_id, Some(TemplateColumnId { value: 0xa1a2a3a4b1b2c1c2d1d2d3d4d5d6d7d8 }));
}

#[test]
fn domain_leap_second_runs_on_into_the_next_second() {
    let text = format!(
        "journal_id = {}, timestamp = 2024-01-31 10:00:60.500000, template_column_id = {}",
        SAMPLE_TEXT, OTHER_TEXT
    );
    let c = parse_domain(&text).unwrap();
    assert_eq!(c.timestamp, Some(Timestamp { micros: micros(2024, 1, 31, 10, 1, 0) + 500_000 }));
}

#[test]
fn domain_may_repeat_a_term() {
    let text = format!("journal_id = {}, journal_id = {}, journal_id = {}", OTHER_TEXT, OTHER_TEXT, SAMPLE_TEXT);
    let c = parse_domain(&text).unwrap();
    assert_eq!(c.journal_id, Some(JournalId { value: SAMPLE }));
    assert_eq!(c.timestamp, None);
    assert_eq!(c.template_column_id, None);
}

#[test]
fn domain_needs_three_lines() {
    assert_eq!(parse_domain("journal_id = x"), Err(OrmError::Validation("invalid domain".to_string())));
    assert_eq!(parse_domain("a=1,b=2,c=3,d=4"), Err(OrmError::Validation("invalid domain".to_string())));
}

#[test]
fn domain_line_needs_one_equals_sign() {
    assert_eq!(
        parse_domain("journal_id, timestamp = 1, x = 2"),
        Err(OrmError::Validation("invalid domain line".to_string()))
    );
    assert_eq!(parse_domain("a=b=c,,"), Err(OrmError::Validation("invalid domain line".to_string())));
}

#[test]
fn domain_with_unknown_term() {
    assert_eq!(
        parse_domain(" colour = red ,a=1,b=2"),
        Err(OrmError::Validation("unknown term 'colour' in domain".to_string()))
    );
}

#[test]
fn domain_with_bad_values() {
    let bad_time = format!("journal_id = {}, timestamp = 2024-13-01 00:00:00.000000, x = 1", SAMPLE_TEXT);
    assert_eq!(parse_domain(&bad_time), Err(OrmError::Validation("input is out of range".to_string())));
    match parse_domain("journal_id = nope, a = 1, b = 2") {
        Err(OrmError::Validation(s)) => assert!(s.starts_with("invalid"), "{}", s),
        other => panic!("unexpected {:?}", other),
    }
}

fn column(journal: u128, at: i64, template: u128, amount: i64) -> journal_transaction_column_account_cr::ActiveModel {
    journal_transaction_column_account_cr::ActiveModel {
        journal_id: JournalId { value: journal },
        timestamp: Timestamp { micros: at },
        template_column_id: TemplateColumnId { value: template },
        account_id: AccountId { value: 9 },
        amount,
        state: TransactionState::Pending,
    }
}

#[test]
fn account_cr_column_insert_get_and_duplicate() {
    let mut store = MemoryStore::new();
    let c = column(SAMPLE, 0, 2, 100);
    assert_eq!(store.insert_account_cr(&c), Ok(c));
    let id = JournalTransactionColumnId {
        journal_id: JournalId { value: SAMPLE },
        timestamp: Timestamp { micros: 0 },
        template_column_id: TemplateColumnId { value: 2 },
    };
    assert_eq!(store.get_account_cr(Some(&vec![id])), Ok(vec![c]));
    assert_eq!(store.get_account_cr(None), Ok(vec![c]));
    match store.insert_account_cr(&column(SAMPLE, 0, 2, 7)) {
        Err(OrmError::DuplicateRecord(s)) => assert_eq!(
            s,
            format!("id {} 0 00000000-0000-0000-0000-000000000002", SAMPLE_TEXT)
        ),
        other => panic!("unexpected {:?}", other),
    }
    assert_eq!(store.get_account_cr(None).unwrap()[0].amount, 100);
}

#[test]
fn account_cr_column_save_replaces_or_fails() {
    let mut store = MemoryStore::new();
    let c = column(SAMPLE, 5, 2, 100);
    store.insert_account_cr(&c).unwrap();
    let mut changed = c;
    changed.amount = 250;
    assert_eq!(store.save_account_cr(&changed), Ok(1));
    assert_eq!(store.get_account_cr(None).unwrap()[0].amount, 250);
    let missing = column(SAMPLE, 6, 2, 1);
    assert!(matches!(store.save_account_cr(&missing), Err(OrmError::RecordNotFound(_))));
}

#[test]
fn account_cr_column_search_by_domain() {
    let mut store = MemoryStore::new();
    let at = micros(2024, 1, 31, 10, 0, 0);
    let wanted = column(SAMPLE, at, 0xa1a2a3a4b1b2c1c2d1d2d3d4d5d6d7d8, 100);
    store.insert_account_cr(&wanted).unwrap();
    store.insert_account_cr(&column(SAMPLE, at + 1, 0xa1a2a3a4b1b2c1c2d1d2d3d4d5d6d7d8, 5)).unwrap();
    let text = format!(
        "journal_id = {}, timestamp = 2024-01-31 10:00:00.000000, template_column_id = {}",
        SAMPLE_TEXT, OTHER_TEXT
    );
    let found = store.search_account_cr_with(&text, JournalId { value: 1 }, TemplateColumnId { value: 1 }).unwrap();
    assert_eq!(found, vec![wanted]);
    let err = store.search_account_cr_with("x", JournalId { value: 1 }, TemplateColumnId { value: 1 });
    assert_eq!(err, Err(OrmError::Validation("invalid domain".to_string())));
}

#[test]
fn account_cr_columns_through_the_resource_interface() {
    type Cr = journal_transaction_column_account_cr::ActiveModel;
    let mut store = MemoryStore::new();
    let c = column(SAMPLE, micros(2024, 1, 31, 10, 0, 0), 0xa1a2a3a4b1b2c1c2d1d2d3d4d5d6d7d8, 40);
    let stored = <MemoryStore as ResourceOperations<Cr, Cr, JournalTransactionColumnId>>::insert(&mut store, &c);
    assert_eq!(stored, Ok(c));
    let all = <MemoryStore as ResourceOperations<Cr, Cr, JournalTransactionColumnId>>::get(&store, None);
    assert_eq!(all, Ok(vec![c]));
    let text = format!(
        "journal_id = {}, timestamp = 2024-01-31 10:00:00.000000, template_column_id = {}",
        SAMPLE_TEXT, OTHER_TEXT
    );
    let found = <MemoryStore as ResourceOperations<Cr, Cr, JournalTransactionColumnId>>::search(&store, &text);
    assert_eq!(found, Ok(vec![c]));
    let partial = format!("journal_id = {}, timestamp = 2024-01-31 10:00:00.000000, a = b", SAMPLE_TEXT);
    let refused = <MemoryStore as ResourceOperations<Cr, Cr, JournalTransactionColumnId>>::search(&store, &partial);
    assert_eq!(refused, Err(OrmError::Validation("unknown term 'a' in domain".to_string())));
}

#[test]
fn services_create_through_their_interfaces() {
    let mut store = MemoryStore::new();
    let j = JournalService::create(&mut store, &journal::Model { name: "Cash".to_string(), code: "CJ".to_string() }).unwrap();
    assert_eq!(j.code, "CJ");
    let again = JournalService::create(&mut store, &journal::Model { name: "Other".to_string(), code: "CJ".to_string() });
    assert_eq!(again, Err(OrmError::DuplicateRecord("duplicate Journal Id or Code".to_string())));
    let entries = LedgerService::journal_entries(&store, AccountId { value: 1 }).unwrap();
    assert!(entries.is_empty());
}

#[test]
fn representable_range_is_chronos() {
    assert_eq!(NaiveDate::MIN.num_days_from_ce(), MIN_DAYS);
    assert_eq!(NaiveDate::MAX.num_days_from_ce(), MAX_DAYS);
    assert_eq!(NaiveDate::MIN.and_time(NaiveTime::MIN).and_utc().timestamp_micros(), MIN_MICROS);
    let last = NaiveDate::MAX.and_hms_micro_opt(23, 59, 59, 999_999).unwrap();
    assert_eq!(last.and_utc().timestamp_micros(), MAX_MICROS);
    let first = JournalTransactionId::new(JournalId { value: 0 }, Timestamp { micros: MIN_MICROS });
    assert!(first.to_string().ends_with(" -262143-01-01 00:00:00"), "{}", first.to_string());
    assert!(parse_domain("a = b, c = d, e = f").is_err());
    assert_eq!(Timestamp::min().micros, MIN_MICROS);
}

#[test]
fn general_ledger_is_not_inserted_through_the_resource_interface() {
    let mut store = MemoryStore::new();
    let model = general_ledger::Model { name: "Company A".to_string(), currency_code: None };
    let r = <MemoryStore as ResourceOperations<general_ledger::Model, general_ledger::ActiveModel, GeneralLedgerId>>::insert(
        &mut store, &model,
    );
    assert_eq!(r, Err(OrmError::NotImplemented("insert() for General Ledger resource".to_string())));
    assert_eq!(
        OrmError::NotImplemented("x".to_string()).to_string(),
        "Orm Error: not implemented: x"
    );
}

#[test]
fn saved_account_cr_column_is_read_back() {
    let mut store = MemoryStore::new();
    let c = column(SAMPLE, 9, 3, 10);
    store.insert_account_cr(&c).unwrap();
    store.insert_account_cr(&column(SAMPLE, 10, 3, 11)).unwrap();
    let mut changed = c;
    changed.amount = 99;
    changed.state = TransactionState::Posted;
    assert_eq!(store.save_account_cr(&changed), Ok(1));
    let id = JournalTransactionColumnId {
        journal_id: JournalId { value: SAMPLE },
        timestamp: Timestamp { micros: 9 },
        template_column_id: TemplateColumnId { value: 3 },
    };
    assert_eq!(store.get_account_cr(Some(&vec![id])), Ok(vec![changed]));
    assert_eq!(store.get_account_cr(None).unwrap().len(), 2);
}

#[test]
fn errors_with_the_same_text_are_the_same() {
    let texts = vec![
        OrmError::Constraint("a".to_string()),
        OrmError::DuplicateRecord("a".to_string()),
        OrmError::Internal("a".to_string()),
        OrmError::RecordNotFound("a".to_string()),
        OrmError::Validation("a".to_string()),
        OrmError::NotImplemented("a".to_string()),
        OrmError::Internal("b".to_string()),
    ];
    for (i, x) in texts.iter().enumerate() {
        for (j, y) in texts.iter().enumerate() {
            assert_eq!(x.to_string() == y.to_string(), i == j);
        }
    }
}
