use todo_bot::store::{StoreError, Todo, TodoStore};

fn note_of_len(n: usize) -> String {
    "x".repeat(n)
}

#[test]
fn list_keeps_order_of_adds() {
    let mut s = TodoStore::new();
    for note in ["first", "second", "third"] {
        assert!(s.add(7, note).is_ok());
    }
    assert_eq!(s.list_active(7), vec!["first", "second", "third"]);
}

#[test]
fn owners_are_partitioned() {
    let mut s = TodoStore::new();
    s.add(1, "mine").unwrap();
    s.add(2, "yours").unwrap();
    assert_eq!(s.list_active(1), vec!["mine"]);
    assert_eq!(s.list_active(2), vec!["yours"]);
    assert!(s.list_active(3).is_empty());
}

#[test]
fn complete_removes_kth_oldest_only() {
    let mut s = TodoStore::new();
    s.add(1, "a1").unwrap();
    s.add(2, "b1").unwrap();
    s.add(1, "a2").unwrap();
    s.add(1, "a3").unwrap();
    assert_eq!(s.complete(1, 2), Ok(()));
    assert_eq!(s.list_active(1), vec!["a1", "a3"]);
    assert_eq!(s.list_active(2), vec!["b1"]);
    assert_eq!(s.records.len(), 4);
    assert!(s.records[2].completed);
}

#[test]
fn complete_out_of_range_changes_nothing() {
    let mut s = TodoStore::new();
    s.add(1, "a1").unwrap();
    s.add(1, "a2").unwrap();
    for k in [0, -1, 3, i64::MAX, i64::MIN] {
        assert_eq!(s.complete(1, k), Err(StoreError::NotFound));
    }
    assert_eq!(s.list_active(1), vec!["a1", "a2"]);
    assert!(s.records.iter().all(|t| !t.completed));
}

#[test]
fn note_length_boundaries() {
    let mut s = TodoStore::new();
    assert_eq!(s.add(1, &note_of_len(1)), Err(StoreError::Validation));
    assert_eq!(s.add(1, &note_of_len(101)), Err(StoreError::Validation));
    assert_eq!(s.add(1, ""), Err(StoreError::Validation));
    assert!(s.add(1, &note_of_len(2)).is_ok());
    assert!(s.add(1, &note_of_len(100)).is_ok());
    assert_eq!(s.list_active(1).len(), 2);
}

#[test]
fn note_length_counts_characters() {
    let mut s = TodoStore::new();
    assert!(s.add(1, "éé").is_ok());
    assert_eq!(s.add(1, "é"), Err(StoreError::Validation));
}

#[test]
fn many_adds_give_distinct_ids() {
    let mut s = TodoStore::new();
    let mut ids = Vec::new();
    for i in 0..50 {
        ids.push(s.add(9, &format!("note {}", i)).unwrap());
    }
    let mut sorted = ids.clone();
    sorted.sort();
    sorted.dedup();
    assert_eq!(sorted.len(), 50);
    assert_eq!(s.list_active(9).len(), 50);
    assert_eq!(ids[0], 1);
    assert_eq!(ids[49], 50);
}

#[test]
fn ids_exhausted_is_unavailable() {
    let mut s = TodoStore::new();
    s.next_id = u64::MAX;
    assert_eq!(s.add(1, "late"), Err(StoreError::Unavailable));
    assert_eq!(s.add(1, "x"), Err(StoreError::Validation));
    assert!(s.records.is_empty());
}

#[test]
fn add_list_complete_scenario() {
    let mut s = TodoStore::new();
    s.add(1, "buy milk").unwrap();
    assert_eq!(s.list_active(1), vec!["buy milk"]);
    s.complete(1, 1).unwrap();
    assert!(s.list_active(1).is_empty());
}

#[test]
fn complete_on_empty_owner_not_found() {
    let mut s = TodoStore::new();
    assert_eq!(s.complete(1, 5), Err(StoreError::NotFound));
}

fn record(id: u64, owner_id: u64, note: &str, completed: bool) -> Todo {
    Todo { id, owner_id, note: note.to_string(), completed }
}

#[test]
fn from_records_checks_ids() {
    let s = TodoStore::from_records(vec![record(3, 1, "a1", false), record(8, 1, "a2", true)]).unwrap();
    assert_eq!(s.next_id, 9);
    assert_eq!(s.list_active(1), vec!["a1"]);
    assert_eq!(TodoStore::from_records(Vec::new()).unwrap().next_id, 1);
    assert!(TodoStore::from_records(vec![record(3, 1, "a1", false), record(3, 1, "a2", false)]).is_none());
    assert!(TodoStore::from_records(vec![record(5, 1, "a1", false), record(4, 1, "a2", false)]).is_none());
    assert!(TodoStore::from_records(vec![record(u64::MAX, 1, "a1", false)]).is_none());
}
