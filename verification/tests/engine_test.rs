use incr::{
    begin_query, dep_tree_verdict, execute_query, finish_query, record_input_dep, AnyMemo,
    CycleError, Db, DepId, Epoch, InputField, InputId, InputTable, Memo, MemoTable, QueryId,
    Start, Verdict, WriteError,
};

struct CfgInput;
struct LenQuery;
struct SelfQuery;
struct PingQuery;
struct PongQuery;
struct NodeA;
struct NodeB;

#[derive(Default)]
struct EngineInputs {
    config: InputField<String>,
    seen: Vec<CycleError>,
}

type EngineDb = Db<EngineInputs, usize>;

/// The input accessors of `EngineDb`.
trait EngineAccess {
    fn config(&mut self) -> String;
    fn set_config(&mut self, value: String);
}

impl EngineAccess for EngineDb {
    fn config(&mut self) -> String {
        record_input_dep(&mut self.memo, InputId::of::<CfgInput, ()>(&(), "config"));
        self.inputs.config.get().cloned().expect("input not set")
    }

    fn set_config(&mut self, value: String) {
        let epoch = self.memo.begin_write().unwrap_or_else(|e| panic!("{}", e.message()));
        self.inputs.config.set(value, epoch);
        if let Some(at) = self.inputs.config.changed_at() {
            self.memo.note_input(InputId::of::<CfgInput, ()>(&(), "config"), at);
        }
    }
}

fn length(db: &mut EngineDb) -> usize {
    let id = QueryId::of::<LenQuery, ()>(&(), "length");
    execute_query(db, id, |db: &mut EngineDb| db.config().len()).unwrap()
}

fn selfish(db: &mut EngineDb) -> Result<usize, CycleError> {
    let id = QueryId::of::<SelfQuery, ()>(&(), "selfish");
    execute_query(db, id, |db: &mut EngineDb| match selfish(db) {
        Ok(n) => n,
        Err(e) => {
            db.inputs.seen.push(e);
            0
        }
    })
}

fn ping(db: &mut EngineDb) -> Result<usize, CycleError> {
    let id = QueryId::of::<PingQuery, ()>(&(), "ping");
    execute_query(db, id, |db: &mut EngineDb| pong(db).unwrap_or(0) + 1)
}

fn pong(db: &mut EngineDb) -> Result<usize, CycleError> {
    let id = QueryId::of::<PongQuery, ()>(&(), "pong");
    execute_query(db, id, |db: &mut EngineDb| match ping(db) {
        Ok(n) => n + 1,
        Err(e) => {
            db.inputs.seen.push(e);
            0
        }
    })
}

#[test]
fn direct_cycle_is_reported_with_its_stack() {
    let mut db = EngineDb::default();
    assert_eq!(selfish(&mut db).unwrap(), 0);
    assert_eq!(db.inputs.seen.len(), 1);
    let names: Vec<&str> = db.inputs.seen[0].stack.iter().map(|q| q.name()).collect();
    assert_eq!(names, vec!["selfish"]);
    assert_eq!(db.inputs.seen[0].message(), "cycle detected: selfish -> selfish");
}

#[test]
fn transitive_cycle_is_reported_with_its_stack() {
    let mut db = EngineDb::default();
    assert_eq!(ping(&mut db).unwrap(), 1);
    assert_eq!(db.inputs.seen.len(), 1);
    let names: Vec<&str> = db.inputs.seen[0].stack.iter().map(|q| q.name()).collect();
    assert_eq!(names, vec!["ping", "pong"]);
    assert_eq!(db.inputs.seen[0].message(), "cycle detected: ping -> pong -> ping");
}

#[test]
fn same_value_set_is_reused_and_equal_result_is_cut_off() {
    let mut db = EngineDb::default();
    db.set_config("abcd".to_string());
    assert_eq!(length(&mut db), 4);
    let s = db.memo.stats();
    assert_eq!((s.misses, s.recomputes, s.hits, s.reused, s.cutoffs), (1, 1, 0, 0, 0));

    // Same value: the input keeps its revision, the memo is reused.
    db.set_config("abcd".to_string());
    assert_eq!(length(&mut db), 4);
    let s = db.memo.stats();
    assert_eq!((s.recomputes, s.reused), (1, 1));

    // New value of the same length: recomputed, equal result keeps changed_at.
    let before = db.memo.get_memo(&QueryId::of::<LenQuery, ()>(&(), "length")).unwrap();
    db.set_config("wxyz".to_string());
    assert_eq!(length(&mut db), 4);
    let s = db.memo.stats();
    assert_eq!((s.recomputes, s.cutoffs), (2, 1));
    let after = db.memo.get_memo(&QueryId::of::<LenQuery, ()>(&(), "length")).unwrap();
    assert_eq!(after.changed_at, before.changed_at);
    assert_eq!(after.verified_at, Epoch(3));

    // Different result: changed_at moves to the current revision.
    db.set_config("abc".to_string());
    assert_eq!(length(&mut db), 3);
    let after = db.memo.get_memo(&QueryId::of::<LenQuery, ()>(&(), "length")).unwrap();
    assert_eq!(after.changed_at, Epoch(4));
    assert_eq!(db.memo.stats().cutoffs, 1);
}

#[test]
fn computed_memo_records_what_was_read() {
    let mut db = EngineDb::default();
    db.set_config("xy".to_string());
    assert_eq!(length(&mut db), 2);
    let memo = db.memo.get_memo_raw(&QueryId::of::<LenQuery, ()>(&(), "length")).unwrap();
    assert_eq!(memo.deps, vec![DepId::Input(InputId::of::<CfgInput, ()>(&(), "config"))]);
    assert_eq!(memo.verified_at, Epoch(1));
    assert_eq!(memo.changed_at, Epoch(1));
    assert_eq!(memo.value, 2);
}

#[test]
fn reading_outside_a_query_records_nothing() {
    let mut table: MemoTable<u32> = MemoTable::new();
    record_input_dep(&mut table, InputId::of::<CfgInput, ()>(&(), "config"));
    let id = QueryId::of::<NodeA, ()>(&(), "a");
    match begin_query(&mut table, &id) {
        Start::Compute(pending) => {
            assert!(pending.previous.is_none());
            assert_eq!(finish_query(&mut table, pending, 5), 5);
        }
        _ => panic!("expected a computation"),
    }
    assert!(table.get_memo_raw(&id).unwrap().deps.is_empty());
}

#[test]
fn begin_and_finish_then_hit() {
    let mut table: MemoTable<u32> = MemoTable::new();
    let id = QueryId::of::<NodeA, u32>(&7, "a");
    match begin_query(&mut table, &id) {
        Start::Compute(pending) => {
            assert_eq!(pending.epoch, Epoch(0));
            assert_eq!(finish_query(&mut table, pending, 41), 41);
        }
        _ => panic!("expected a computation"),
    }
    match begin_query(&mut table, &id) {
        Start::Served(v) => assert_eq!(v, 41),
        _ => panic!("expected a hit"),
    }
    let s = table.stats();
    assert_eq!((s.misses, s.recomputes, s.hits), (1, 1, 1));
}

#[test]
fn verdict_cases() {
    let mut table: MemoTable<u32> = MemoTable::new();
    let a = QueryId::of::<NodeA, ()>(&(), "a");
    let b = QueryId::of::<NodeB, ()>(&(), "b");
    let cfg = InputId::of::<CfgInput, ()>(&(), "config");
    table.note_input(cfg.clone(), Epoch(0));
    let memo = |deps: Vec<DepId>| Memo { value: 1u32, verified_at: Epoch(0), changed_at: Epoch(0), deps };

    // Missing dependency: dirty.
    table.insert_memo(a.clone(), memo(vec![DepId::Query(b.clone())]));
    table.bump_epoch();
    assert_eq!(dep_tree_verdict(&table, &a), Verdict::Dirty);

    // Dependency whose inputs are unchanged: clean.
    table.insert_memo(b.clone(), memo(vec![DepId::Input(cfg.clone())]));
    assert_eq!(dep_tree_verdict(&table, &a), Verdict::Clean);

    // Input recorded as changed after verification: dirty.
    table.note_input(cfg.clone(), Epoch(1));
    assert_eq!(dep_tree_verdict(&table, &a), Verdict::Dirty);

    // A memo confirmed at the current revision is clean without looking further.
    table.update_verified_at(&a, Epoch(1));
    assert_eq!(dep_tree_verdict(&table, &a), Verdict::Clean);

    // A cycle among stale memos is dirty.
    table.insert_memo(a.clone(), memo(vec![DepId::Query(b.clone())]));
    table.insert_memo(b.clone(), memo(vec![DepId::Query(a.clone())]));
    assert_eq!(dep_tree_verdict(&table, &a), Verdict::Dirty);

    // Unrecorded input: dirty.
    let other = InputId::of::<NodeB, u8>(&3, "other");
    table.insert_memo(a.clone(), memo(vec![DepId::Input(other)]));
    assert_eq!(dep_tree_verdict(&table, &a), Verdict::Dirty);
}

#[test]
fn table_bookkeeping() {
    let mut table: MemoTable<u32> = MemoTable::default();
    let a = QueryId::of::<NodeA, ()>(&(), "a");
    let cfg = InputId::of::<CfgInput, ()>(&(), "config");
    assert!(!table.update_verified_at(&a, Epoch(3)));
    assert!(table.get_memo(&a).is_none());
    assert_eq!(table.input_changed_at(&cfg), None);
    table.note_input(cfg.clone(), Epoch(2));
    table.note_input(cfg.clone(), Epoch(5));
    assert_eq!(table.input_changed_at(&cfg), Some(Epoch(5)));
    assert_eq!(table.bump_epoch(), Epoch(1));
    assert_eq!(table.epoch(), Epoch(1));

    table.insert_memo(a.clone(), Memo { value: 1, verified_at: Epoch(0), changed_at: Epoch(0), deps: vec![] });
    table.insert_memo(a.clone(), Memo { value: 2, verified_at: Epoch(1), changed_at: Epoch(1), deps: vec![] });
    let m = table.get_memo(&a).unwrap();
    assert_eq!((m.value, m.verified_at, m.changed_at), (2, Epoch(1), Epoch(1)));
}

#[test]
fn memo_accessors() {
    let mut m = Memo {
        value: "v".to_string(),
        verified_at: Epoch(2),
        changed_at: Epoch(1),
        deps: vec![DepId::Query(QueryId::of::<NodeA, ()>(&(), "a"))],
    };
    assert_eq!(AnyMemo::verified_at(&m), Epoch(2));
    assert_eq!(AnyMemo::changed_at(&m), Epoch(1));
    assert_eq!(AnyMemo::deps(&m).len(), 1);
    m.set_verified_at(Epoch(9));
    assert_eq!(m.verified_at, Epoch(9));
    let c = m.clone();
    assert_eq!((c.value.as_str(), c.verified_at, c.changed_at), ("v", Epoch(9), Epoch(1)));
    assert_eq!(c.deps, m.deps);
}

#[test]
fn ids_compare_by_marker_name_and_key() {
    let a1 = QueryId::of::<NodeA, u32>(&1, "a");
    let a1b = QueryId::of::<NodeA, u32>(&1, "a");
    let a2 = QueryId::of::<NodeA, u32>(&2, "a");
    let b1 = QueryId::of::<NodeB, u32>(&1, "a");
    let c1 = QueryId::of::<NodeA, u32>(&1, "c");
    assert_eq!(a1, a1b);
    assert_ne!(a1, a2);
    assert_ne!(a1, b1);
    assert_ne!(a1, c1);
    assert_eq!(a1.name(), "a");
    let i = InputId::of::<NodeA, u32>(&1, "a");
    assert_eq!(i.name(), "a");
    assert_ne!(DepId::Input(i.clone()), DepId::Query(a1.clone()));
    assert_eq!(DepId::Input(i.clone()), DepId::Input(i));
}

#[test]
fn input_storage_reads() {
    let mut table = InputTable::<String, u32>::new();
    assert_eq!(table.get(&"k".to_string()), None);
    assert_eq!(table.get_with_epoch(&"k".to_string()), None);
    table.set("k".to_string(), 3, Epoch(4));
    assert_eq!(table.get_with_epoch(&"k".to_string()), Some((&3, Epoch(4))));
    table.set("k".to_string(), 3, Epoch(5));
    assert_eq!(table.get_with_epoch(&"k".to_string()), Some((&3, Epoch(4))));

    let mut field = InputField::<u32>::new();
    assert_eq!(field.get(), None);
    assert_eq!(field.changed_at(), None);
    field.set(8, Epoch(1));
    assert_eq!(field.get_with_epoch(), Some((&8, Epoch(1))));
    field.set(9, Epoch(2));
    assert_eq!(field.get_with_epoch(), Some((&9, Epoch(2))));
}

#[test]
fn epoch_starts_at_zero_and_counts_up() {
    assert_eq!(Epoch::zero(), Epoch(0));
    assert_eq!(Epoch(41).next(), Epoch(42));
    assert_eq!(Epoch::default(), Epoch::zero());
}

#[test]
fn changed_child_makes_parent_dirty() {
    let mut table: MemoTable<u32> = MemoTable::new();
    let a = QueryId::of::<NodeA, ()>(&(), "a");
    let b = QueryId::of::<NodeB, ()>(&(), "b");
    table.bump_epoch();
    table.bump_epoch();
    // The parent was confirmed at revision 1; the child changed at revision 2.
    table.insert_memo(a.clone(), Memo { value: 1, verified_at: Epoch(1), changed_at: Epoch(1), deps: vec![DepId::Query(b.clone())] });
    table.insert_memo(b.clone(), Memo { value: 5, verified_at: Epoch(2), changed_at: Epoch(2), deps: vec![] });
    assert_eq!(dep_tree_verdict(&table, &a), Verdict::Dirty);
    // A child that last changed no later than the parent's confirmation is fine.
    table.insert_memo(b.clone(), Memo { value: 5, verified_at: Epoch(2), changed_at: Epoch(1), deps: vec![] });
    assert_eq!(dep_tree_verdict(&table, &a), Verdict::Clean);
}

#[test]
fn unwinding_drops_abandoned_frames() {
    let mut table: MemoTable<u32> = MemoTable::new();
    let a = QueryId::of::<NodeA, ()>(&(), "a");
    assert_eq!(table.running_depth(), 0);
    match begin_query(&mut table, &a) {
        Start::Compute(_) => {}
        _ => panic!("expected a computation"),
    }
    assert_eq!(table.running_depth(), 1);
    // The computation is abandoned: drop its frame.
    table.unwind_to(0);
    assert_eq!(table.running_depth(), 0);
    // The query is no longer running, so asking again is no cycle.
    match begin_query(&mut table, &a) {
        Start::Compute(pending) => {
            assert_eq!(finish_query(&mut table, pending, 3), 3);
        }
        _ => panic!("expected a computation"),
    }
    assert_eq!(table.running_depth(), 0);
}

struct DoubleQuery;

fn double(db: &mut EngineDb) -> usize {
    let id = QueryId::of::<DoubleQuery, ()>(&(), "double");
    execute_query(db, id, |db: &mut EngineDb| length(db) * 2).unwrap()
}

fn fresh_double(writes: &[&str]) -> usize {
    let mut fresh = EngineDb::default();
    for w in writes {
        fresh.set_config(w.to_string());
    }
    double(&mut fresh)
}

#[test]
fn results_match_a_fresh_database() {
    let writes = ["ab", "ab", "xy", "abc", "abc", "q"];
    let mut db = EngineDb::default();
    for k in 0..writes.len() {
        db.set_config(writes[k].to_string());
        let got = double(&mut db);
        assert_eq!(got, fresh_double(&writes[..=k]));
        // Asking again at the same revision serves the same value.
        assert_eq!(double(&mut db), got);
    }
    let s = db.memo.stats();
    // Equal writes were reused without running either query again.
    assert_eq!(s.reused, 2);
}

#[test]
fn writes_are_refused_inside_a_query() {
    let mut table: MemoTable<u32> = MemoTable::new();
    assert_eq!(table.begin_write(), Ok(Epoch(1)));
    let a = QueryId::of::<NodeA, ()>(&(), "a");
    let pending = match begin_query(&mut table, &a) {
        Start::Compute(pending) => pending,
        _ => panic!("expected a computation"),
    };
    assert_eq!(table.begin_write(), Err(WriteError::InQuery));
    assert_eq!(table.epoch(), Epoch(1));
    assert_eq!(
        WriteError::InQuery.message(),
        "inputs cannot be set while a query is being computed"
    );
    finish_query(&mut table, pending, 9);
    assert_eq!(table.begin_write(), Ok(Epoch(2)));
}

