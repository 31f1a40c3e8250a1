use voice_memos::ledger::{DbFailedAudioTranscription, LedgerError, RetryLedger};

fn entry(id: i32, audio_id: i32, retries: i32) -> DbFailedAudioTranscription {
    DbFailedAudioTranscription {
        id,
        audio_id,
        retries,
        language: "es".to_string(),
        created_at: 1_000,
        last_retry_at: None,
    }
}

#[test]
fn new_ledger_is_empty() {
    let ledger = RetryLedger::new();
    assert!(ledger.list_all().is_empty());
    assert!(ledger.get(7).is_none());
    assert_eq!(ledger.retries(1), None);
}

#[test]
fn insert_starts_at_zero_failures_under_the_next_id() {
    let mut ledger = RetryLedger::new();
    assert_eq!(ledger.insert(7, "es", 100), Ok(1));
    assert_eq!(ledger.insert(9, "en", 200), Ok(2));
    let found = ledger.get(7).unwrap();
    assert_eq!(found.id, 1);
    assert_eq!(found.audio_id, 7);
    assert_eq!(found.retries, 0);
    assert_eq!(found.language, "es");
    assert_eq!(found.created_at, 100);
    assert_eq!(found.last_retry_at, None);
    assert_eq!(ledger.retries(2), Some(0));
}

#[test]
fn insert_refuses_a_blob_that_has_an_entry() {
    let mut ledger = RetryLedger::new();
    assert_eq!(ledger.insert(7, "es", 100), Ok(1));
    assert_eq!(ledger.insert(7, "en", 200), Err(LedgerError::DuplicateBlob));
    assert_eq!(ledger.list_all().len(), 1);
    assert_eq!(ledger.get(7).unwrap().language, "es");
}

#[test]
fn increment_counts_and_stamps_the_entry() {
    let mut ledger = RetryLedger::new();
    let id = ledger.insert(7, "es", 100).unwrap();
    assert_eq!(ledger.increment(id, 160), Ok(1));
    assert_eq!(ledger.increment(id, 220), Ok(2));
    let found = ledger.get(7).unwrap();
    assert_eq!(found.retries, 2);
    assert_eq!(found.last_retry_at, Some(220));
    assert_eq!(found.created_at, 100);
}

#[test]
fn increment_of_a_missing_entry_changes_nothing() {
    let mut ledger = RetryLedger::new();
    ledger.insert(7, "es", 100).unwrap();
    assert_eq!(ledger.increment(5, 160), Err(LedgerError::NoSuchEntry));
    assert_eq!(ledger.retries(1), Some(0));
}

#[test]
fn increment_stops_at_the_end_of_the_range() {
    let mut ledger = RetryLedger::from_entries(vec![entry(1, 7, i32::MAX)]).unwrap();
    assert_eq!(ledger.increment(1, 10), Err(LedgerError::OutOfRange));
    assert_eq!(ledger.retries(1), Some(i32::MAX));
    assert_eq!(ledger.get(7).unwrap().last_retry_at, None);
}

#[test]
fn insert_stops_when_the_ids_are_used_up() {
    let mut ledger = RetryLedger::from_entries(vec![entry(i32::MAX - 1, 7, 0)]).unwrap();
    assert_eq!(ledger.insert(8, "es", 10), Err(LedgerError::OutOfRange));
    assert_eq!(ledger.insert(7, "es", 10), Err(LedgerError::DuplicateBlob));
    assert_eq!(ledger.list_all().len(), 1);
}

#[test]
fn delete_removes_only_the_entry_named() {
    let mut ledger = RetryLedger::new();
    let first = ledger.insert(7, "es", 100).unwrap();
    let second = ledger.insert(9, "es", 100).unwrap();
    assert!(ledger.delete(first));
    assert!(!ledger.delete(first));
    assert!(ledger.get(7).is_none());
    assert_eq!(ledger.get(9).unwrap().id, second);
}

#[test]
fn ids_are_not_used_again_after_a_delete() {
    let mut ledger = RetryLedger::new();
    let first = ledger.insert(7, "es", 100).unwrap();
    assert!(ledger.delete(first));
    assert_eq!(ledger.insert(7, "es", 100), Ok(2));
}

#[test]
fn list_all_is_in_the_order_of_the_ids() {
    let mut ledger = RetryLedger::new();
    ledger.insert(30, "es", 1).unwrap();
    ledger.insert(10, "en", 2).unwrap();
    ledger.insert(20, "fr", 3).unwrap();
    ledger.delete(2);
    let listed: Vec<(i32, i32)> = ledger.list_all().iter().map(|e| (e.id, e.audio_id)).collect();
    assert_eq!(listed, vec![(1, 30), (3, 20)]);
}

#[test]
fn from_entries_takes_what_a_ledger_can_hold() {
    let ledger = RetryLedger::from_entries(vec![entry(2, 7, 1), entry(5, 9, 3)]).unwrap();
    assert_eq!(ledger.retries(5), Some(3));
    let mut ledger = ledger;
    assert_eq!(ledger.insert(11, "es", 0), Ok(6));
    assert!(RetryLedger::from_entries(vec![]).is_some());
}

#[test]
fn from_entries_refuses_what_a_ledger_cannot_hold() {
    assert!(RetryLedger::from_entries(vec![entry(5, 7, 0), entry(2, 9, 0)]).is_none());
    assert!(RetryLedger::from_entries(vec![entry(2, 7, 0), entry(2, 9, 0)]).is_none());
    assert!(RetryLedger::from_entries(vec![entry(1, 7, 0), entry(2, 7, 0)]).is_none());
    assert!(RetryLedger::from_entries(vec![entry(0, 7, 0)]).is_none());
    assert!(RetryLedger::from_entries(vec![entry(1, 7, -1)]).is_none());
    assert!(RetryLedger::from_entries(vec![entry(i32::MAX, 7, 0)]).is_none());
}

#[test]
fn duplicate_copies_every_field() {
    let first = DbFailedAudioTranscription {
        id: 3,
        audio_id: 4,
        retries: 2,
        language: "de".to_string(),
        created_at: 50,
        last_retry_at: Some(60),
    };
    let copy = first.duplicate();
    assert_eq!(
        (copy.id, copy.audio_id, copy.retries, copy.language.as_str(), copy.created_at, copy.last_retry_at),
        (3, 4, 2, "de", 50, Some(60))
    );
}
