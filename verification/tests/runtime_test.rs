use incr::{cutoff, plan_for, Cutoff, DepId, Epoch, InputId, Memo, MemoTable, Plan, QueryId};

struct Marker;
struct Other;

fn query_id() -> QueryId {
    QueryId::of::<Marker, u32>(&1, "leaf")
}

fn input_id() -> InputId {
    InputId::of::<Other, ()>(&(), "cfg")
}

fn memo(value: u32, verified_at: Epoch, changed_at: Epoch) -> Memo<u32> {
    Memo {
        value,
        verified_at,
        changed_at,
        deps: vec![DepId::Input(input_id())],
    }
}

#[test]
fn cutoff_keeps_old_changed_at_on_equal_value() {
    let old = memo(7, Epoch(1), Epoch(1));
    assert_eq!(
        cutoff(Some(&old), &7),
        Cutoff::Unchanged {
            changed_at: Epoch(1)
        }
    );
}

#[test]
fn cutoff_advertises_epoch_on_changed_or_missing_value() {
    let old = memo(7, Epoch(1), Epoch(1));
    assert_eq!(cutoff(Some(&old), &8), Cutoff::Changed);
    let none: Option<Memo<u32>> = None;
    assert_eq!(cutoff(none.as_ref(), &8), Cutoff::Changed);
}

#[test]
fn plan_serves_fresh_memo_as_hit() {
    let mut table = MemoTable::new();
    table.insert_memo(query_id(), memo(7, Epoch::zero(), Epoch::zero()));
    assert!(matches!(
        plan_for::<u32>(&table, &query_id(), Epoch::zero()),
        Plan::Hit { value } if value == 7
    ));
}

#[test]
fn plan_recomputes_without_memo() {
    let table = MemoTable::new();
    assert!(matches!(
        plan_for::<u32>(&table, &query_id(), Epoch::zero()),
        Plan::Recompute { previous: None }
    ));
}

#[test]
fn plan_reuses_stale_memo_with_clean_tree() {
    let mut table = MemoTable::new();
    table.insert_memo(query_id(), memo(7, Epoch::zero(), Epoch::zero()));
    table.note_input(input_id(), Epoch::zero());
    let epoch = table.bump_epoch();
    assert!(matches!(
        plan_for::<u32>(&table, &query_id(), epoch),
        Plan::Reuse { value } if value == 7
    ));
}

#[test]
fn plan_recomputes_stale_memo_with_dirty_tree() {
    let mut table = MemoTable::new();
    table.insert_memo(query_id(), memo(7, Epoch::zero(), Epoch::zero()));
    table.note_input(input_id(), Epoch::zero());
    let epoch = table.bump_epoch();
    // Input moved after verification: the tree is dirty.
    table.note_input(input_id(), epoch);
    assert!(matches!(
        plan_for::<u32>(&table, &query_id(), epoch),
        Plan::Recompute { previous: Some(_) }
    ));
}
