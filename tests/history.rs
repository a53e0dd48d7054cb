use sci_calc::history::{HistoryManager, ResultValue};

fn result(x: f64) -> ResultValue {
    ResultValue::new(x.to_bits(), x.to_string())
}

fn value(r: &ResultValue) -> f64 {
    f64::from_bits(r.bits)
}

#[test]
fn test_add_record() {
    let mut manager = HistoryManager::new();
    manager.add_record("1 + 1", result(2.0));
    manager.add_record("2 * 3", result(6.0));

    assert_eq!(manager.count(), 2);
}

#[test]
fn test_max_capacity() {
    let mut manager = HistoryManager::with_capacity(3);

    manager.add_record("1 + 1", result(2.0));
    manager.add_record("2 + 2", result(4.0));
    manager.add_record("3 + 3", result(6.0));
    manager.add_record("4 + 4", result(8.0));

    assert_eq!(manager.count(), 3);

    let records = manager.get_all_records();
    assert_eq!(value(&records[0].result), 4.0);
    assert_eq!(value(&records[2].result), 8.0);
}

#[test]
fn eviction_keeps_indices_growing() {
    let mut manager = HistoryManager::with_capacity(3);
    for i in 1..=4 {
        manager.add_record(&format!("{} + {}", i, i), result((2 * i) as f64));
    }
    let records = manager.get_all_records();
    assert_eq!(records.len(), 3);
    assert_eq!(records[0].expression, "2 + 2");
    assert_eq!(records[0].index, 2);
    assert_eq!(records[2].index, 4);
    assert_eq!(manager.next_index(), 5);
    assert!(manager.get_record_by_index(1).is_none());
    assert_eq!(manager.get_record_by_index(3).unwrap().expression, "3 + 3");
}

#[test]
fn test_search() {
    let mut manager = HistoryManager::new();
    manager.add_record("1 + 1", result(2.0));
    manager.add_record("2 * 3", result(6.0));
    manager.add_record("10 + 5", result(15.0));

    let results = manager.search_records("+");
    assert_eq!(results.len(), 2);
}

#[test]
fn search_returns_matching_records_in_order() {
    let mut manager = HistoryManager::new();
    manager.add_record("1 + 1", result(2.0));
    manager.add_record("2 * 3", result(6.0));
    manager.add_record("10 + 5", result(15.0));

    let plus = manager.search_records("+");
    assert_eq!(plus[0].expression, "1 + 1");
    assert_eq!(plus[1].expression, "10 + 5");
    assert!(plus.iter().all(|r| r.expression.contains('+')));

    let by_result = manager.search_records("15");
    assert_eq!(by_result.len(), 1);
    assert_eq!(by_result[0].expression, "10 + 5");

    assert_eq!(manager.search_records("").len(), 3);
    assert!(manager.search_records("xyz").is_empty());
}

#[test]
fn test_clear() {
    let mut manager = HistoryManager::new();
    manager.add_record("1 + 1", result(2.0));
    manager.add_record("2 + 2", result(4.0));

    assert_eq!(manager.count(), 2);

    manager.clear();
    assert_eq!(manager.count(), 0);
    assert!(manager.is_empty());
}

#[test]
fn clear_restarts_numbering() {
    let mut manager = HistoryManager::default();
    manager.add_record("1 + 1", result(2.0));
    manager.clear();
    manager.add_record("7", result(7.0));
    assert_eq!(manager.get_all_records()[0].index, 1);
    assert_eq!(manager.capacity(), 100);
}

#[test]
fn test_get_recent() {
    let mut manager = HistoryManager::new();
    for i in 1..=10 {
        manager.add_record(&format!("{} + {}", i, i), result((i * 2) as f64));
    }

    let recent = manager.get_recent_records(3);
    assert_eq!(recent.len(), 3);
    assert_eq!(value(&recent[0].result), 16.0);
    assert_eq!(value(&recent[2].result), 20.0);
}

#[test]
fn recent_beyond_count() {
    let mut manager = HistoryManager::new();
    manager.add_record("1", result(1.0));
    manager.add_record("2", result(2.0));
    assert_eq!(manager.get_recent_records(5).len(), 2);
    assert_eq!(manager.get_recent_records(0).len(), 0);
}

#[test]
fn zero_capacity_keeps_nothing() {
    let mut manager = HistoryManager::with_capacity(0);
    manager.add_record("1", result(1.0));
    assert!(manager.is_empty());
    assert_eq!(manager.next_index(), 2);
}
