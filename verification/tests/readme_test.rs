use incr::{execute_query, record_input_dep, Db, InputId, InputTable, QueryId};

#[derive(Clone, PartialEq, Debug)]
enum Answer {
    Words(Vec<String>),
    Count(usize),
}

#[derive(Default)]
struct MyInputs {
    src: InputTable<u32, String>,
}

type MyDb = Db<MyInputs, Answer>;

struct SrcInput;
struct ParseQuery;
struct CountWordsQuery;

/// The input accessors of `MyDb`.
trait MyAccess {
    fn src(&mut self, key: u32) -> String;
    fn set_src(&mut self, key: u32, value: String);
}

impl MyAccess for MyDb {
    fn src(&mut self, key: u32) -> String {
        record_input_dep(&mut self.memo, InputId::of::<SrcInput, u32>(&key, "src"));
        self.inputs.src.get(&key).cloned().expect("input key not found")
    }

    fn set_src(&mut self, key: u32, value: String) {
        let epoch = self.memo.begin_write().unwrap_or_else(|e| panic!("{}", e.message()));
        let input_id = InputId::of::<SrcInput, u32>(&key, "src");
        self.inputs.src.set(key, value, epoch);
        if let Some(at) = self.inputs.src.changed_at(&key) {
            self.memo.note_input(input_id, at);
        }
    }
}

fn parse(db: &mut MyDb, id: u32) -> Vec<String> {
    let query_id = QueryId::of::<ParseQuery, u32>(&id, "parse");
    let compute = move |db: &mut MyDb| {
        Answer::Words(db.src(id).split_whitespace().map(|s| s.to_string()).collect())
    };
    match execute_query(db, query_id, compute).unwrap() {
        Answer::Words(words) => words,
        other => panic!("unexpected answer {:?}", other),
    }
}

fn count_words(db: &mut MyDb, id: u32) -> usize {
    let query_id = QueryId::of::<CountWordsQuery, u32>(&id, "count_words");
    let compute = move |db: &mut MyDb| Answer::Count(parse(db, id).len());
    match execute_query(db, query_id, compute).unwrap() {
        Answer::Count(n) => n,
        other => panic!("unexpected answer {:?}", other),
    }
}

#[test]
fn readme_quick_look() {
    let mut db = MyDb::default();
    db.set_src(1, "hello world".to_string());
    assert_eq!(count_words(&mut db, 1), 2); // computes and caches
    assert_eq!(db.memo.stats().recomputes, 2);

    db.set_src(1, "hello world".to_string());
    assert_eq!(count_words(&mut db, 1), 2); // cutoff: src changed_at stays, nothing recomputed
    let s = db.memo.stats();
    assert_eq!((s.recomputes, s.reused), (2, 1));

    db.set_src(1, "hello incr".to_string());
    assert_eq!(count_words(&mut db, 1), 2); // src changed, parse reruns, count_words reruns
    let s = db.memo.stats();
    assert_eq!((s.recomputes, s.cutoffs), (4, 1));
}
