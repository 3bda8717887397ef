use incr::{execute_query, record_input_dep, Db, InputField, InputId, InputTable, QueryId};

/// The results of the queries of `TestDb`: one memo table holds them all.
#[derive(Clone, PartialEq, Debug)]
enum Answer {
    Count(usize),
    Words(Vec<String>),
    Text(String),
}

#[derive(Default)]
struct TestInputs {
    src: InputTable<u32, String>,
    extra: InputTable<String, u32>,
    config: InputField<String>,
}

type TestDb = Db<TestInputs, Answer>;

struct SrcInput;
struct ExtraInput;
struct ConfigInput;

/// The input accessors and query methods of `TestDb`.
trait TestAccess {
    fn src(&mut self, key: u32) -> String;
    fn set_src(&mut self, key: u32, value: String);
    fn extra(&mut self, key: String) -> u32;
    fn set_extra(&mut self, key: String, value: u32);
    fn config(&mut self) -> String;
    fn set_config(&mut self, value: String);
    fn no_args(&mut self) -> usize;
    fn single_arg(&mut self, id: u32) -> Vec<String>;
    fn multi_args(&mut self, prefix: String, id: u32) -> String;
}

impl TestAccess for TestDb {
    fn src(&mut self, key: u32) -> String {
        let input_id = InputId::of::<SrcInput, u32>(&key, "src");
        record_input_dep(&mut self.memo, input_id);
        self.inputs.src.get(&key).cloned().expect("input key not found")
    }

    fn set_src(&mut self, key: u32, value: String) {
        let epoch = self.memo.begin_write().unwrap_or_else(|e| panic!("{}", e.message()));
        let input_id = InputId::of::<SrcInput, u32>(&key, "src");
        let lookup = key;
        self.inputs.src.set(key, value, epoch);
        if let Some(at) = self.inputs.src.changed_at(&lookup) {
            self.memo.note_input(input_id, at);
        }
    }

    fn extra(&mut self, key: String) -> u32 {
        let input_id = InputId::of::<ExtraInput, String>(&key, "extra");
        record_input_dep(&mut self.memo, input_id);
        self.inputs.extra.get(&key).cloned().expect("input key not found")
    }

    fn set_extra(&mut self, key: String, value: u32) {
        let epoch = self.memo.begin_write().unwrap_or_else(|e| panic!("{}", e.message()));
        let input_id = InputId::of::<ExtraInput, String>(&key, "extra");
        let lookup = key.clone();
        self.inputs.extra.set(key, value, epoch);
        if let Some(at) = self.inputs.extra.changed_at(&lookup) {
            self.memo.note_input(input_id, at);
        }
    }

    fn config(&mut self) -> String {
        let input_id = InputId::of::<ConfigInput, ()>(&(), "config");
        record_input_dep(&mut self.memo, input_id);
        self.inputs.config.get().cloned().expect("input not set")
    }

    fn set_config(&mut self, value: String) {
        let epoch = self.memo.begin_write().unwrap_or_else(|e| panic!("{}", e.message()));
        let input_id = InputId::of::<ConfigInput, ()>(&(), "config");
        self.inputs.config.set(value, epoch);
        if let Some(at) = self.inputs.config.changed_at() {
            self.memo.note_input(input_id, at);
        }
    }

    fn no_args(&mut self) -> usize {
        no_args(self)
    }

    fn single_arg(&mut self, id: u32) -> Vec<String> {
        single_arg(self, id)
    }

    fn multi_args(&mut self, prefix: String, id: u32) -> String {
        multi_args(self, prefix, id)
    }
}

struct NoArgsQuery;
struct SingleArgQuery;
struct MultiArgsQuery;

fn no_args(db: &mut TestDb) -> usize {
    let id = QueryId::of::<NoArgsQuery, ()>(&(), "no_args");
    match execute_query(db, id, |db: &mut TestDb| Answer::Count(db.config().len())).unwrap() {
        Answer::Count(n) => n,
        other => panic!("unexpected answer {:?}", other),
    }
}

fn single_arg(db: &mut TestDb, id: u32) -> Vec<String> {
    let query_id = QueryId::of::<SingleArgQuery, u32>(&id, "single_arg");
    let compute = move |db: &mut TestDb| {
        Answer::Words(db.src(id).split_whitespace().map(|s| s.to_string()).collect())
    };
    match execute_query(db, query_id, compute).unwrap() {
        Answer::Words(words) => words,
        other => panic!("unexpected answer {:?}", other),
    }
}

fn multi_args(db: &mut TestDb, prefix: String, id: u32) -> String {
    let key = (prefix.clone(), id);
    let query_id = QueryId::of::<MultiArgsQuery, (String, u32)>(&key, "multi_args");
    let compute = move |db: &mut TestDb| Answer::Text(format!("{prefix}:{}", db.src(id)));
    match execute_query(db, query_id, compute).unwrap() {
        Answer::Text(text) => text,
        other => panic!("unexpected answer {:?}", other),
    }
}

#[test]
fn test_macro_expansion_and_methods() {
    let mut db = TestDb::default();

    assert_eq!(db.memo.epoch().0, 0);

    db.set_src(1, "hello world from incr".to_string());
    assert_eq!(db.memo.epoch().0, 1);

    db.set_extra("count".to_string(), 42);
    assert_eq!(db.memo.epoch().0, 2);

    db.set_config("active".to_string());
    assert_eq!(db.memo.epoch().0, 3);

    assert_eq!(db.src(1), "hello world from incr");
    assert_eq!(db.extra("count".to_string()), 42);
    assert_eq!(db.config(), "active");

    // Test method syntax and free functions syntax
    assert_eq!(db.no_args(), 6);
    assert_eq!(no_args(&mut db), 6);

    assert_eq!(db.single_arg(1), vec!["hello", "world", "from", "incr"]);
    assert_eq!(single_arg(&mut db, 1), vec!["hello", "world", "from", "incr"]);

    assert_eq!(
        db.multi_args("MSG".to_string(), 1),
        "MSG:hello world from incr"
    );
    assert_eq!(
        multi_args(&mut db, "MSG".to_string(), 1),
        "MSG:hello world from incr"
    );
}

struct CountedQuery;

fn counted(db: &mut TestDb) -> usize {
    let id = QueryId::of::<CountedQuery, ()>(&(), "counted");
    match execute_query(db, id, |db: &mut TestDb| Answer::Count(db.config().len())).unwrap() {
        Answer::Count(n) => n,
        other => panic!("unexpected answer {:?}", other),
    }
}

/// The memo hit and the changed-input steps of the original scenario; an
/// equal write in between is reused, as the Eq cutoff on inputs promises.
#[test]
fn test_query_memo_hit_and_changed_input() {
    let mut db = TestDb::default();
    db.set_config("abc".to_string());

    // First call computes and stores the memo.
    assert_eq!(counted(&mut db), 3);
    assert_eq!(db.memo.stats().recomputes, 1);

    // Second call in the same epoch is a memo hit.
    assert_eq!(counted(&mut db), 3);
    assert_eq!(db.memo.stats().recomputes, 1);
    assert_eq!(db.memo.stats().hits, 1);

    // Setting the same value bumps the epoch but keeps the input's revision:
    // the memo is reused without computing.
    db.set_config("abc".to_string());
    assert_eq!(counted(&mut db), 3);
    assert_eq!(db.memo.stats().recomputes, 1);
    assert_eq!(db.memo.stats().reused, 1);

    // Changed input recomputes with the new value.
    db.set_config("abcd".to_string());
    assert_eq!(counted(&mut db), 4);
    assert_eq!(db.memo.stats().recomputes, 2);
}
