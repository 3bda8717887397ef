//! Memo storage: the central table of cached query results, input revisions,
//! counters and the stack of queries being computed.
use crate::ids::{deps_view, query_ids_view, DepId, DepView, Epoch, IdView, InputId, QueryId};
use vstd::prelude::*;

verus! {

/// A memo as the specifications see it.
pub struct MemoView<V> {
    pub value: V,
    pub verified_at: u64,
    pub changed_at: u64,
    pub deps: Seq<DepView>,
}

/// Stored computation memo.
#[derive(Debug)]
pub struct Memo<V> {
    pub value: V,
    pub verified_at: Epoch,
    pub changed_at: Epoch,
    pub deps: Vec<DepId>,
}

impl<V> View for Memo<V> {
    type V = MemoView<V>;

    open spec fn view(&self) -> MemoView<V> {
        MemoView {
            value: self.value,
            verified_at: self.verified_at.0,
            changed_at: self.changed_at.0,
            deps: deps_view(self.deps@),
        }
    }
}

/// Copies a list of dependency edges.
fn copy_deps(deps: &Vec<DepId>) -> (r: Vec<DepId>)
    ensures
        deps_view(r@) == deps_view(deps@),
{
    let mut r: Vec<DepId> = Vec::new();
    let mut i: usize = 0;
    while i < deps.len()
        invariant
            i <= deps.len(),
            r@.len() == i,
            forall|j: int| 0 <= j < i ==> r@[j]@ == deps@[j]@,
        decreases deps.len() - i,
    {
        r.push(deps[i].clone());
        i = i + 1;
    }
    assert(deps_view(r@) =~= deps_view(deps@));
    r
}

impl<V: Clone> Clone for Memo<V> {
    fn clone(&self) -> (r: Self)
        ensures
            cloned(self.value, r.value),
            r.verified_at == self.verified_at,
            r.changed_at == self.changed_at,
            deps_view(r.deps@) == deps_view(self.deps@),
    {
        Memo {
            value: self.value.clone(),
            verified_at: self.verified_at,
            changed_at: self.changed_at,
            deps: copy_deps(&self.deps),
        }
    }
}

/// Access to the bookkeeping part of a memo.
pub trait AnyMemo {
    /// The revision at which the memo was last confirmed current.
    fn verified_at(&self) -> Epoch;

    /// The revision at which the memo's value last changed.
    fn changed_at(&self) -> Epoch;

    /// What the computation read.
    fn deps(&self) -> &[DepId];

    /// Marks the memo as confirmed current at `epoch`.
    fn set_verified_at(&mut self, epoch: Epoch);
}

impl<V> AnyMemo for Memo<V> {
    fn verified_at(&self) -> (e: Epoch)
        ensures
            e == self.verified_at,
    {
        self.verified_at
    }

    fn changed_at(&self) -> (e: Epoch)
        ensures
            e == self.changed_at,
    {
        self.changed_at
    }

    fn deps(&self) -> (d: &[DepId])
        ensures
            d@ == self.deps@,
    {
        self.deps.as_slice()
    }

    fn set_verified_at(&mut self, epoch: Epoch)
        ensures
            final(self).verified_at == epoch,
            final(self).value == old(self).value,
            final(self).changed_at == old(self).changed_at,
            final(self).deps == old(self).deps,
    {
        self.verified_at = epoch;
    }
}

/// A database: something that owns the memo table its queries use.
pub trait Database {
    /// What the database's queries return.
    type Value;

    /// What the database holds besides its memo table.
    type Outside;

    /// The database's memo table as the specifications see it.
    spec fn memo_view(&self) -> TableView<Self::Value>;

    /// What the database holds besides its memo table, as the
    /// specifications see it.
    spec fn outside_view(&self) -> Self::Outside;

    /// Shared access to the memo table.
    fn memo_table(&self) -> (t: &MemoTable<Self::Value>)
        ensures
            t@ == self.memo_view(),
    ;

    /// Exclusive access to the memo table; what is done through the
    /// reference is what the database's table becomes.
    fn memo_table_mut(&mut self) -> (t: &mut MemoTable<Self::Value>)
        ensures
            t@ == old(self).memo_view(),
            final(self).memo_view() == final(t)@,
            final(self).outside_view() == old(self).outside_view(),
    ;
}

/// A database made of the user's inputs, of type `I`, and the memo table of
/// its queries, whose results have type `V`.
#[derive(Debug)]
pub struct Db<I, V> {
    pub inputs: I,
    pub memo: MemoTable<V>,
}

impl<I, V> Db<I, V> {
    /// A database over `inputs` with an empty memo table at revision zero.
    pub fn new(inputs: I) -> (d: Self)
        ensures
            d.inputs == inputs,
            d.memo@.epoch == 0,
            d.memo@.memos == Map::<IdView, MemoView<V>>::empty(),
            d.memo@.inputs == Map::<IdView, u64>::empty(),
            d.memo@.stats == (Stats { hits: 0, misses: 0, reused: 0, recomputes: 0, cutoffs: 0 }),
            d.memo@.active == Seq::<FrameView>::empty(),
    {
        Db { inputs, memo: MemoTable::new() }
    }
}

impl<I: Default, V> Default for Db<I, V> {
    /// A database over default inputs with an empty memo table.
    fn default() -> (d: Self)
        ensures
            d.memo@.epoch == 0,
            d.memo@.memos == Map::<IdView, MemoView<V>>::empty(),
            d.memo@.inputs == Map::<IdView, u64>::empty(),
            d.memo@.stats == (Stats { hits: 0, misses: 0, reused: 0, recomputes: 0, cutoffs: 0 }),
            d.memo@.active == Seq::<FrameView>::empty(),
    {
        Db { inputs: I::default(), memo: MemoTable::new() }
    }
}

impl<I, V> Database for Db<I, V> {
    type Value = V;

    type Outside = I;

    open spec fn memo_view(&self) -> TableView<V> {
        self.memo@
    }

    open spec fn outside_view(&self) -> I {
        self.inputs
    }

    fn memo_table(&self) -> (t: &MemoTable<V>) {
        &self.memo
    }

    fn memo_table_mut(&mut self) -> (t: &mut MemoTable<V>) {
        &mut self.memo
    }
}

/// Why an input cannot be written.
#[derive(Clone, Copy, PartialEq, Eq, Debug, Structural)]
pub enum WriteError {
    /// A query is being computed.
    InQuery,
    /// The revision counter is at its maximum.
    RevisionsExhausted,
}

impl WriteError {
    /// The error's text.
    pub fn message(&self) -> (m: &'static str)
        ensures
            m@ == match *self {
                WriteError::InQuery => "inputs cannot be set while a query is being computed"@,
                WriteError::RevisionsExhausted => "no revision is left for another input write"@,
            },
    {
        match self {
            WriteError::InQuery => "inputs cannot be set while a query is being computed",
            WriteError::RevisionsExhausted => "no revision is left for another input write",
        }
    }
}

/// Cache counters.
#[derive(Clone, Copy, Debug, Default, PartialEq, Eq, Structural)]
pub struct Stats {
    /// Queries served from a memo verified at the current revision.
    pub hits: u64,
    /// Queries that found no memo at all.
    pub misses: u64,
    /// Stale memos whose dependencies were found unchanged and reused.
    pub reused: u64,
    /// Query computations run.
    pub recomputes: u64,
    /// Recomputations that produced a value equal to the old one.
    pub cutoffs: u64,
}

/// One more, stopping at the largest count.
pub open spec fn bumped(n: u64) -> u64 {
    if n < u64::MAX {
        (n + 1) as u64
    } else {
        n
    }
}

/// A query being computed and the edges it has read so far.
pub struct FrameView {
    pub query: IdView,
    pub deps: Seq<DepView>,
}

/// The innermost running query's frame with `d` added to what it read; no
/// change when no query is running.
pub open spec fn record_in_top(active: Seq<FrameView>, d: DepView) -> Seq<FrameView> {
    if active.len() == 0 {
        active
    } else {
        active.update(
            active.len() - 1,
            FrameView { query: active.last().query, deps: active.last().deps.push(d) },
        )
    }
}

/// The queries that are running, outermost first.
pub open spec fn active_queries(active: Seq<FrameView>) -> Seq<IdView> {
    active.map_values(|f: FrameView| f.query)
}

/// The table as the specifications see it.
pub struct TableView<V> {
    pub epoch: u64,
    pub memos: Map<IdView, MemoView<V>>,
    pub inputs: Map<IdView, u64>,
    pub stats: Stats,
    pub active: Seq<FrameView>,
}

/// The position of the last entry of `keys` equal to `id`, or -1.
pub open spec fn last_index(keys: Seq<IdView>, id: IdView) -> int
    decreases keys.len(),
{
    if keys.len() == 0 {
        -1
    } else if keys.last() == id {
        keys.len() - 1
    } else {
        last_index(keys.drop_last(), id)
    }
}

proof fn lemma_last_index(keys: Seq<IdView>, id: IdView)
    ensures
        -1 <= last_index(keys, id) < keys.len(),
        last_index(keys, id) >= 0 ==> keys[last_index(keys, id)] == id,
        forall|j: int| last_index(keys, id) < j < keys.len() ==> keys[j] != id,
    decreases keys.len(),
{
    if keys.len() > 0 && keys.last() != id {
        let rest = keys.drop_last();
        lemma_last_index(rest, id);
        assert forall|j: int| last_index(keys, id) < j < keys.len() implies keys[j] != id by {
            if j < keys.len() - 1 {
                assert(rest[j] == keys[j]);
            }
        }
    }
}

proof fn lemma_last_index_is(keys: Seq<IdView>, id: IdView, r: int)
    requires
        -1 <= r < keys.len(),
        r >= 0 ==> keys[r] == id,
        forall|j: int| r < j < keys.len() ==> keys[j] != id,
    ensures
        last_index(keys, id) == r,
    decreases keys.len(),
{
    if keys.len() > 0 && r < keys.len() - 1 {
        assert(keys.last() != id);
        lemma_last_index_is(keys.drop_last(), id, r);
    }
}

pub open spec fn memo_keys<V>(s: Seq<(QueryId, Memo<V>)>) -> Seq<IdView> {
    s.map_values(|e: (QueryId, Memo<V>)| e.0@)
}

pub open spec fn memo_map<V>(s: Seq<(QueryId, Memo<V>)>) -> Map<IdView, MemoView<V>> {
    Map::new(
        |id: IdView| last_index(memo_keys(s), id) >= 0,
        |id: IdView| s[last_index(memo_keys(s), id)].1@,
    )
}

pub open spec fn input_keys(s: Seq<(InputId, Epoch)>) -> Seq<IdView> {
    s.map_values(|e: (InputId, Epoch)| e.0@)
}

pub open spec fn input_map(s: Seq<(InputId, Epoch)>) -> Map<IdView, u64> {
    Map::new(
        |id: IdView| last_index(input_keys(s), id) >= 0,
        |id: IdView| s[last_index(input_keys(s), id)].1.0,
    )
}

pub open spec fn frames_view(s: Seq<(QueryId, Vec<DepId>)>) -> Seq<FrameView> {
    s.map_values(|f: (QueryId, Vec<DepId>)| FrameView { query: f.0@, deps: deps_view(f.1@) })
}

/// Storing a memo for `id` makes it the memo of `id` and leaves the memo of
/// every other query as it was.
pub proof fn law_memo_store<V>(memos: Map<IdView, MemoView<V>>, id: IdView, m: MemoView<V>, other: IdView)
    ensures
        memos.insert(id, m).contains_key(id),
        memos.insert(id, m)[id] == m,
        other != id ==> memos.insert(id, m).contains_key(other) == memos.contains_key(other),
        other != id && memos.contains_key(other) ==> memos.insert(id, m)[other] == memos[other],
{
}

/// Central memoization and revision table.
#[derive(Debug)]
pub struct MemoTable<V> {
    epoch: Epoch,
    memos: Vec<(QueryId, Memo<V>)>,
    inputs: Vec<(InputId, Epoch)>,
    stats: Stats,
    active: Vec<(QueryId, Vec<DepId>)>,
}

impl<V> View for MemoTable<V> {
    type V = TableView<V>;

    closed spec fn view(&self) -> TableView<V> {
        TableView {
            epoch: self.epoch.0,
            memos: memo_map(self.memos@),
            inputs: input_map(self.inputs@),
            stats: self.stats,
            active: frames_view(self.active@),
        }
    }
}

impl<V> Default for MemoTable<V> {
    /// An empty table at revision zero.
    fn default() -> (t: Self)
        ensures
            t@.epoch == 0,
            t@.memos == Map::<IdView, MemoView<V>>::empty(),
            t@.inputs == Map::<IdView, u64>::empty(),
            t@.stats == (Stats { hits: 0, misses: 0, reused: 0, recomputes: 0, cutoffs: 0 }),
            t@.active == Seq::<FrameView>::empty(),
    {
        MemoTable::new()
    }
}

impl<V> MemoTable<V> {
    /// An empty table at revision zero.
    pub fn new() -> (t: Self)
        ensures
            t@.epoch == 0,
            t@.memos == Map::<IdView, MemoView<V>>::empty(),
            t@.inputs == Map::<IdView, u64>::empty(),
            t@.stats == (Stats { hits: 0, misses: 0, reused: 0, recomputes: 0, cutoffs: 0 }),
            t@.active == Seq::<FrameView>::empty(),
    {
        let t = MemoTable {
            epoch: Epoch(0),
            memos: Vec::new(),
            inputs: Vec::new(),
            stats: Stats { hits: 0, misses: 0, reused: 0, recomputes: 0, cutoffs: 0 },
            active: Vec::new(),
        };
        assert(t@.memos =~= Map::<IdView, MemoView<V>>::empty());
        assert(t@.inputs =~= Map::<IdView, u64>::empty());
        assert(t@.active =~= Seq::<FrameView>::empty());
        t
    }

    /// The current revision.
    pub fn epoch(&self) -> (e: Epoch)
        ensures
            e.0 == self@.epoch,
    {
        self.epoch
    }

    /// Moves to the next revision and returns it.
    pub fn bump_epoch(&mut self) -> (e: Epoch)
        requires
            old(self)@.epoch < u64::MAX,
        ensures
            e.0 == old(self)@.epoch + 1,
            final(self)@ == (TableView { epoch: e.0, ..old(self)@ }),
    {
        self.epoch = self.epoch.next();
        self.epoch
    }

    /// Opens the next revision for writing an input. A write is refused while
    /// a query is being computed, since a computation only reads, and when no
    /// revision is left; the table is then unchanged.
    pub fn begin_write(&mut self) -> (r: Result<Epoch, WriteError>)
        ensures
            match r {
                Ok(e) => {
                    &&& old(self)@.active.len() == 0
                    &&& old(self)@.epoch < u64::MAX
                    &&& e.0 == old(self)@.epoch + 1
                    &&& final(self)@ == (TableView { epoch: e.0, ..old(self)@ })
                },
                Err(WriteError::InQuery) => old(self)@.active.len() > 0 && final(self)@ == old(self)@,
                Err(WriteError::RevisionsExhausted) => {
                    &&& old(self)@.active.len() == 0
                    &&& old(self)@.epoch == u64::MAX
                    &&& final(self)@ == old(self)@
                },
            },
    {
        if self.active.len() > 0 {
            return Err(WriteError::InQuery);
        }
        if self.epoch.0 == u64::MAX {
            return Err(WriteError::RevisionsExhausted);
        }
        Ok(self.bump_epoch())
    }

    /// The counters.
    pub fn stats(&self) -> (s: Stats)
        ensures
            s == self@.stats,
    {
        self.stats
    }

    /// The memo domain is finite.
    pub proof fn lemma_memos_finite(&self)
        ensures
            self@.memos.dom().finite(),
    {
        let keys = memo_keys(self.memos@);
        assert forall|id: IdView| self@.memos.dom().contains(id) implies keys.to_set().contains(id) by {
            lemma_last_index(keys, id);
        }
        assert forall|id: IdView| keys.to_set().contains(id) implies self@.memos.dom().contains(id) by {
            let j = choose|j: int| 0 <= j < keys.len() && keys[j] == id;
            lemma_last_index(keys, id);
        }
        assert(self@.memos.dom() =~= keys.to_set());
        keys.lemma_cardinality_of_set();
        vstd::seq_lib::seq_to_set_is_finite(keys);
    }

    fn find_memo(&self, id: &QueryId) -> (r: Option<usize>)
        ensures
            match r {
                Some(i) => i < self.memos@.len() && last_index(memo_keys(self.memos@), id@) == i,
                None => last_index(memo_keys(self.memos@), id@) == -1,
            },
    {
        let ghost keys = memo_keys(self.memos@);
        let mut i = self.memos.len();
        while i > 0
            invariant
                i <= self.memos@.len(),
                keys == memo_keys(self.memos@),
                forall|j: int| i <= j < keys.len() ==> keys[j] != id@,
            decreases i,
        {
            if self.memos[i - 1].0.same(id) {
                proof {
                    lemma_last_index_is(keys, id@, i - 1);
                }
                return Some(i - 1);
            }
            i = i - 1;
        }
        proof {
            lemma_last_index_is(keys, id@, -1);
        }
        None
    }

    fn find_input(&self, id: &InputId) -> (r: Option<usize>)
        ensures
            match r {
                Some(i) => i < self.inputs@.len() && last_index(input_keys(self.inputs@), id@) == i,
                None => last_index(input_keys(self.inputs@), id@) == -1,
            },
    {
        let ghost keys = input_keys(self.inputs@);
        let mut i = self.inputs.len();
        while i > 0
            invariant
                i <= self.inputs@.len(),
                keys == input_keys(self.inputs@),
                forall|j: int| i <= j < keys.len() ==> keys[j] != id@,
            decreases i,
        {
            if self.inputs[i - 1].0.same(id) {
                proof {
                    lemma_last_index_is(keys, id@, i - 1);
                }
                return Some(i - 1);
            }
            i = i - 1;
        }
        proof {
            lemma_last_index_is(keys, id@, -1);
        }
        None
    }

    /// The memo stored for `id`, by reference.
    pub fn get_memo_raw(&self, id: &QueryId) -> (r: Option<&Memo<V>>)
        ensures
            match r {
                Some(m) => self@.memos.contains_key(id@) && m@ == self@.memos[id@],
                None => !self@.memos.contains_key(id@),
            },
    {
        match self.find_memo(id) {
            Some(i) => Some(&self.memos[i].1),
            None => None,
        }
    }

    /// The revision at which the input `id` last changed, if it was recorded.
    pub fn input_changed_at(&self, id: &InputId) -> (r: Option<Epoch>)
        ensures
            match r {
                Some(e) => self@.inputs.contains_key(id@) && e.0 == self@.inputs[id@],
                None => !self@.inputs.contains_key(id@),
            },
    {
        match self.find_input(id) {
            Some(i) => Some(self.inputs[i].1),
            None => None,
        }
    }

    /// Records that the input `id` last changed at revision `at`.
    pub fn note_input(&mut self, id: InputId, at: Epoch)
        ensures
            final(self)@ == (TableView { inputs: old(self)@.inputs.insert(id@, at.0), ..old(self)@ }),
    {
        let ghost key = id@;
        let ghost old_keys = input_keys(self.inputs@);
        let ghost old_inputs = self.inputs@;
        let found = self.find_input(&id);
        match found {
            Some(i) => {
                self.inputs.set(i, (id, at));
            },
            None => {
                self.inputs.push((id, at));
            },
        }
        proof {
            let keys = input_keys(self.inputs@);
            let target = old(self)@.inputs.insert(key, at.0);
            lemma_last_index(old_keys, key);
            match found {
                Some(i) => {
                    assert(keys =~= old_keys);
                },
                None => {
                    assert(keys =~= old_keys.push(key));
                    lemma_last_index_is(keys, key, keys.len() - 1);
                },
            }
            assert forall|k: IdView|
                #![trigger self@.inputs.dom().contains(k)]
                #![trigger target.dom().contains(k)]
                self@.inputs.dom().contains(k) == target.dom().contains(k)
                && (self@.inputs.dom().contains(k) ==> self@.inputs[k] == target[k]) by {
                lemma_last_index(old_keys, k);
                lemma_last_index(keys, k);
                if k != key {
                    if found is None {
                        lemma_last_index_is(keys, k, last_index(old_keys, k));
                    }
                    let j = last_index(keys, k);
                    if j >= 0 {
                        assert(keys[j] == k);
                        assert(self.inputs@[j] == old_inputs[j]);
                    }
                }
            }
            assert(self@.inputs =~= target);
        }
    }

    /// Stores `memo` as the memo of `id`, replacing any earlier one.
    pub fn insert_memo(&mut self, id: QueryId, memo: Memo<V>)
        ensures
            final(self)@ == (TableView { memos: old(self)@.memos.insert(id@, memo@), ..old(self)@ }),
    {
        let ghost key = id@;
        let ghost mv = memo@;
        let ghost old_keys = memo_keys(self.memos@);
        let ghost old_memos = self.memos@;
        let found = self.find_memo(&id);
        match found {
            Some(i) => {
                self.memos.set(i, (id, memo));
            },
            None => {
                self.memos.push((id, memo));
            },
        }
        proof {
            let keys = memo_keys(self.memos@);
            let target = old(self)@.memos.insert(key, mv);
            lemma_last_index(old_keys, key);
            match found {
                Some(i) => {
                    assert(keys =~= old_keys);
                },
                None => {
                    assert(keys =~= old_keys.push(key));
                    lemma_last_index_is(keys, key, keys.len() - 1);
                },
            }
            assert forall|k: IdView|
                #![trigger self@.memos.dom().contains(k)]
                #![trigger target.dom().contains(k)]
                self@.memos.dom().contains(k) == target.dom().contains(k)
                && (self@.memos.dom().contains(k) ==> self@.memos[k] == target[k]) by {
                lemma_last_index(old_keys, k);
                lemma_last_index(keys, k);
                if k != key {
                    if found is None {
                        lemma_last_index_is(keys, k, last_index(old_keys, k));
                    }
                    let j = last_index(keys, k);
                    if j >= 0 {
                        assert(keys[j] == k);
                        assert(self.memos@[j] == old_memos[j]);
                    }
                }
            }
            assert(self@.memos =~= target);
        }
    }

    /// Marks the memo of `id` as confirmed current at `epoch`; false when
    /// there is no such memo.
    pub fn update_verified_at(&mut self, id: &QueryId, epoch: Epoch) -> (r: bool)
        ensures
            r == old(self)@.memos.contains_key(id@),
            r ==> final(self)@ == (TableView {
                memos: old(self)@.memos.insert(
                    id@,
                    MemoView { verified_at: epoch.0, ..old(self)@.memos[id@] },
                ),
                ..old(self)@
            }),
            !r ==> final(self)@ == old(self)@,
    {
        let ghost key = id@;
        let ghost old_keys = memo_keys(self.memos@);
        match self.find_memo(id) {
            Some(i) => {
                let mut slot = self.memos.remove(i);
                slot.1.verified_at = epoch;
                self.memos.insert(i, slot);
                proof {
                    let keys = memo_keys(self.memos@);
                    lemma_last_index(old_keys, key);
                    assert(keys =~= old_keys);
                    assert forall|k: IdView| #![auto] k != key implies last_index(keys, k) == last_index(old_keys, k)
                        && (last_index(keys, k) >= 0 ==> self.memos@[last_index(keys, k)] == old(self).memos@[last_index(keys, k)]) by {
                        lemma_last_index(old_keys, k);
                        lemma_last_index(old_keys, key);
                    }
                    assert(self@.memos =~= old(self)@.memos.insert(
                        key,
                        MemoView { verified_at: epoch.0, ..old(self)@.memos[key] },
                    ));
                }
                true
            },
            None => false,
        }
    }
}

impl<V> MemoTable<V> {
    /// Adds `dep` to what the innermost running query has read.
    pub(crate) fn push_dep(&mut self, dep: DepId)
        ensures
            final(self)@ == (TableView { active: record_in_top(old(self)@.active, dep@), ..old(self)@ }),
    {
        let ghost d = dep@;
        match self.active.pop() {
            None => {},
            Some(top) => {
                let (q, mut deps) = top;
                deps.push(dep);
                self.active.push((q, deps));
                proof {
                    assert(deps_view(deps@) =~= deps_view(old(self).active@.last().1@).push(d));
                    assert(frames_view(self.active@) =~= record_in_top(old(self)@.active, d));
                }
            },
        }
    }

    /// Whether `id` is among the running queries.
    pub(crate) fn is_active(&self, id: &QueryId) -> (r: bool)
        ensures
            r == active_queries(self@.active).contains(id@),
    {
        let mut i: usize = 0;
        while i < self.active.len()
            invariant
                i <= self.active@.len(),
                forall|j: int| 0 <= j < i ==> self.active@[j].0@ != id@,
            decreases self.active.len() - i,
        {
            if self.active[i].0.same(id) {
                assert(active_queries(self@.active)[i as int] == id@);
                return true;
            }
            i = i + 1;
        }
        assert forall|j: int| 0 <= j < active_queries(self@.active).len() implies active_queries(
            self@.active,
        )[j] != id@ by {
            assert(active_queries(self@.active)[j] == self.active@[j].0@);
        }
        false
    }

    /// The ids of the running queries, outermost first.
    pub(crate) fn active_ids(&self) -> (r: Vec<QueryId>)
        ensures
            query_ids_view(r@) == active_queries(self@.active),
    {
        let mut r: Vec<QueryId> = Vec::new();
        let mut i: usize = 0;
        while i < self.active.len()
            invariant
                i <= self.active@.len(),
                r@.len() == i,
                forall|j: int| 0 <= j < i ==> r@[j]@ == self.active@[j].0@,
            decreases self.active.len() - i,
        {
            r.push(self.active[i].0.clone());
            i = i + 1;
        }
        assert(query_ids_view(r@) =~= active_queries(self@.active));
        r
    }

    /// Starts a frame for `id`, which has read nothing yet.
    pub(crate) fn enter(&mut self, id: QueryId)
        ensures
            final(self)@ == (TableView {
                active: old(self)@.active.push(FrameView { query: id@, deps: Seq::empty() }),
                ..old(self)@
            }),
    {
        let ghost q = id@;
        let fresh: Vec<DepId> = Vec::new();
        assert(deps_view(fresh@) =~= Seq::<DepView>::empty());
        self.active.push((id, fresh));
        assert(frames_view(self.active@) =~= frames_view(old(self).active@).push(
            FrameView { query: q, deps: Seq::empty() },
        ));
    }

    /// Ends the innermost frame and hands back what its query read.
    pub(crate) fn leave(&mut self) -> (deps: Vec<DepId>)
        ensures
            old(self)@.active.len() > 0 ==> {
                &&& deps_view(deps@) == old(self)@.active.last().deps
                &&& final(self)@ == (TableView { active: old(self)@.active.drop_last(), ..old(self)@ })
            },
            old(self)@.active.len() == 0 ==> deps@.len() == 0 && final(self)@ == old(self)@,
    {
        match self.active.pop() {
            None => Vec::new(),
            Some(top) => {
                assert(frames_view(self.active@) =~= frames_view(old(self).active@).drop_last());
                top.1
            },
        }
    }

    /// How many queries are being computed.
    pub fn running_depth(&self) -> (n: usize)
        ensures
            n == self@.active.len(),
    {
        self.active.len()
    }

    /// Drops the frames of the queries above the first `depth` running ones:
    /// what a caller does when it catches a panic out of a computation, so
    /// that the abandoned queries no longer count as running and later reads
    /// are not recorded into them.
    pub fn unwind_to(&mut self, depth: usize)
        ensures
            final(self)@ == (TableView {
                active: if depth < old(self)@.active.len() {
                    old(self)@.active.take(depth as int)
                } else {
                    old(self)@.active
                },
                ..old(self)@
            }),
    {
        while self.active.len() > depth
            invariant
                frames_view(self.active@) == frames_view(old(self).active@).take(self.active@.len() as int),
                self.active@.len() <= old(self).active@.len(),
                depth < old(self).active@.len() ==> self.active@.len() >= depth,
                depth >= old(self).active@.len() ==> self.active@.len() == old(self).active@.len(),
                self.epoch == old(self).epoch,
                self.memos == old(self).memos,
                self.inputs == old(self).inputs,
                self.stats == old(self).stats,
            decreases self.active.len(),
        {
            let ghost before = self.active@;
            self.active.pop();
            assert(frames_view(self.active@) =~= frames_view(before).take(self.active@.len() as int));
            assert(frames_view(old(self).active@).take(self.active@.len() as int) =~= frames_view(old(self).active@).take(before.len() as int).take(self.active@.len() as int));
        }
        assert(frames_view(old(self).active@).take(old(self).active@.len() as int) =~= frames_view(old(self).active@));
        assert(frames_view(old(self).active@).len() == old(self)@.active.len());
    }

    /// Replaces the counters.
    pub(crate) fn set_stats(&mut self, stats: Stats)
        ensures
            final(self)@ == (TableView { stats, ..old(self)@ }),
    {
        self.stats = stats;
    }
}

impl<V: Clone> MemoTable<V> {
    /// A copy of the memo stored for `id`.
    pub fn get_memo(&self, id: &QueryId) -> (r: Option<Memo<V>>)
        ensures
            match r {
                Some(m) => {
                    &&& self@.memos.contains_key(id@)
                    &&& cloned(self@.memos[id@].value, m.value)
                    &&& m.verified_at.0 == self@.memos[id@].verified_at
                    &&& m.changed_at.0 == self@.memos[id@].changed_at
                    &&& deps_view(m.deps@) == self@.memos[id@].deps
                },
                None => !self@.memos.contains_key(id@),
            },
    {
        match self.find_memo(id) {
            Some(i) => Some(self.memos[i].1.clone()),
            None => None,
        }
    }
}

} // verus!
