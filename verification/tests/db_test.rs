use incr::{Epoch, InputField, InputTable, Memo, MemoTable, QueryId};

struct TestMarker;

#[test]
fn test_epoch_operations() {
    let mut epoch = Epoch::zero();
    assert_eq!(epoch.0, 0);

    epoch = epoch.next();
    assert_eq!(epoch.0, 1);

    let next_epoch = epoch.next();
    assert!(next_epoch > epoch);
}

#[test]
fn test_input_table_cutoff() {
    let mut table = InputTable::<u32, String>::new();

    table.set(1, "hello".to_string(), Epoch(1));
    assert_eq!(table.get(&1), Some(&"hello".to_string()));
    assert_eq!(table.changed_at(&1), Some(Epoch(1)));

    // Cutoff: setting same value preserves changed_at
    table.set(1, "hello".to_string(), Epoch(2));
    assert_eq!(table.changed_at(&1), Some(Epoch(1)));

    // New value: changed_at updates to new epoch
    table.set(1, "world".to_string(), Epoch(3));
    assert_eq!(table.changed_at(&1), Some(Epoch(3)));
}

#[test]
fn test_input_field_cutoff() {
    let mut field = InputField::<String>::new();

    field.set("alpha".to_string(), Epoch(1));
    assert_eq!(field.get(), Some(&"alpha".to_string()));
    assert_eq!(field.changed_at(), Some(Epoch(1)));

    // Cutoff: setting same value preserves changed_at
    field.set("alpha".to_string(), Epoch(2));
    assert_eq!(field.changed_at(), Some(Epoch(1)));

    // New value: changed_at updates
    field.set("beta".to_string(), Epoch(3));
    assert_eq!(field.changed_at(), Some(Epoch(3)));
}

#[test]
fn test_memo_table_storage() {
    let mut memo_table = MemoTable::new();
    let query_id = QueryId::of::<TestMarker, u32>(&42, "test_query");

    assert_eq!(memo_table.epoch(), Epoch::zero());

    let memo = Memo {
        value: vec![1, 2, 3],
        verified_at: Epoch(1),
        changed_at: Epoch(1),
        deps: Vec::new(),
    };

    memo_table.insert_memo(query_id.clone(), memo);

    let retrieved: Option<Memo<Vec<i32>>> = memo_table.get_memo(&query_id);
    assert!(retrieved.is_some());
    let unwrapped = retrieved.unwrap();
    assert_eq!(unwrapped.value, vec![1, 2, 3]);
    assert_eq!(unwrapped.verified_at, Epoch(1));

    assert!(memo_table.update_verified_at(&query_id, Epoch(2)));
    let updated: Memo<Vec<i32>> = memo_table.get_memo(&query_id).unwrap();
    assert_eq!(updated.verified_at, Epoch(2));
    assert_eq!(updated.changed_at, Epoch(1));
}
