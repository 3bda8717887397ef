//! Query execution: deciding what to do with a memo, the Eq cutoff, and the
//! two steps of asking for a query.
use crate::db::{
    active_queries, bumped, record_in_top, Database, FrameView, Memo, MemoTable, MemoView, Stats,
    TableView,
};
use crate::graph::{cycle_reachable, stale_reachable};
use crate::validate::{dep_tree_verdict, Verdict};
use crate::ids::{deps_view, query_ids_view, DepId, DepView, Epoch, IdView, InputId, QueryId};
use vstd::std_specs::cmp::PartialEqSpec;
use vstd::string::StringExecFns;
use vstd::prelude::*;

verus! {

/// Detected dependency cycle. `stack` lists every query from the outermost
/// active computation down to the repeated one.
#[derive(Debug)]
pub struct CycleError {
    pub stack: Vec<QueryId>,
}

fn copy_ids(ids: &Vec<QueryId>) -> (r: Vec<QueryId>)
    ensures
        query_ids_view(r@) == query_ids_view(ids@),
{
    let mut r: Vec<QueryId> = Vec::new();
    let mut i: usize = 0;
    while i < ids.len()
        invariant
            i <= ids@.len(),
            r@.len() == i,
            forall|j: int| 0 <= j < i ==> r@[j]@ == ids@[j]@,
        decreases ids.len() - i,
    {
        r.push(ids[i].clone());
        i = i + 1;
    }
    assert(query_ids_view(r@) =~= query_ids_view(ids@));
    r
}

impl Clone for CycleError {
    fn clone(&self) -> (r: Self)
        ensures
            query_ids_view(r.stack@) == query_ids_view(self.stack@),
    {
        CycleError { stack: copy_ids(&self.stack) }
    }
}

/// The names of a list of queries.
pub open spec fn names_of(stack: Seq<IdView>) -> Seq<Seq<char>> {
    stack.map_values(|q: IdView| q.name)
}

/// `" a -> b ->"` for the names `a`, `b`.
pub open spec fn cycle_links(names: Seq<Seq<char>>) -> Seq<char>
    decreases names.len(),
{
    if names.len() == 0 {
        Seq::empty()
    } else {
        cycle_links(names.drop_last()) + " "@ + names.last() + " ->"@
    }
}

/// The report of a cycle through the queries named `names`: each name
/// followed by an arrow, and the first name again to close the loop.
pub open spec fn cycle_message(names: Seq<Seq<char>>) -> Seq<char> {
    "cycle detected:"@ + cycle_links(names) + " "@ + names[0]
}

impl CycleError {
    /// The cycle as text: `cycle detected: a -> b -> a`.
    pub fn message(&self) -> (m: String)
        requires
            self.stack@.len() > 0,
        ensures
            m@ == cycle_message(names_of(query_ids_view(self.stack@))),
    {
        let ghost names = names_of(query_ids_view(self.stack@));
        let mut m = String::from_str("cycle detected:");
        let mut i: usize = 0;
        while i < self.stack.len()
            invariant
                i <= self.stack@.len(),
                names == names_of(query_ids_view(self.stack@)),
                m@ == "cycle detected:"@ + cycle_links(names.take(i as int)),
            decreases self.stack.len() - i,
        {
            m.append(" ");
            m.append(self.stack[i].name());
            m.append(" ->");
            proof {
                assert(names[i as int] == self.stack@[i as int]@.name);
                assert(names.take(i + 1).drop_last() =~= names.take(i as int));
                assert(names.take(i + 1).last() == names[i as int]);
            }
            i = i + 1;
        }
        m.append(" ");
        m.append(self.stack[0].name());
        proof {
            assert(names.take(i as int) =~= names);
            assert(names[0] == self.stack@[0]@.name);
        }
        m
    }
}

/// Records that the innermost running query read the input `id`; outside
/// any query nothing is recorded.
pub fn record_input_dep<V>(table: &mut MemoTable<V>, id: InputId)
    ensures
        final(table)@ == (TableView {
            active: record_in_top(old(table)@.active, DepView::Input(id@)),
            ..old(table)@
        }),
{
    table.push_dep(DepId::Input(id));
}

/// `m` is a copy of the memo `mv`: a clone of its value, the same revisions
/// and the same dependencies.
pub open spec fn copy_of<V: Clone>(m: Memo<V>, mv: MemoView<V>) -> bool {
    &&& cloned(mv.value, m.value)
    &&& m.verified_at.0 == mv.verified_at
    &&& m.changed_at.0 == mv.changed_at
    &&& deps_view(m.deps@) == mv.deps
}

/// Pre-compute decision.
pub enum Plan<V> {
    /// The memo was confirmed at the requested revision.
    Hit { value: V },
    /// The memo is older, but nothing it depends on changed.
    Reuse { value: V },
    /// The query has to run; `previous` is its old memo, if any.
    Recompute { previous: Option<Memo<V>> },
}

/// Decides what to do with the memo of `id` at revision `epoch`.
pub fn plan_for<V: Clone>(table: &MemoTable<V>, id: &QueryId, epoch: Epoch) -> (p: Plan<V>)
    ensures
        match p {
            Plan::Hit { value } => {
                &&& table@.memos.contains_key(id@)
                &&& table@.memos[id@].verified_at == epoch.0
                &&& cloned(table@.memos[id@].value, value)
            },
            Plan::Reuse { value } => {
                &&& table@.memos.contains_key(id@)
                &&& table@.memos[id@].verified_at != epoch.0
                &&& !stale_reachable(table@, id@)
                &&& !cycle_reachable(table@, id@)
                &&& cloned(table@.memos[id@].value, value)
            },
            Plan::Recompute { previous: None } => !table@.memos.contains_key(id@),
            Plan::Recompute { previous: Some(m) } => {
                &&& table@.memos.contains_key(id@)
                &&& table@.memos[id@].verified_at != epoch.0
                &&& stale_reachable(table@, id@) || cycle_reachable(table@, id@)
                &&& copy_of(m, table@.memos[id@])
            },
        },
{
    let memo = match table.get_memo_raw(id) {
        None => {
            return Plan::Recompute { previous: None };
        },
        Some(m) => m,
    };
    if memo.verified_at.0 == epoch.0 {
        return Plan::Hit { value: memo.value.clone() };
    }
    match dep_tree_verdict(table, id) {
        Verdict::Clean => Plan::Reuse { value: memo.value.clone() },
        Verdict::Dirty => Plan::Recompute { previous: Some(memo.clone()) },
    }
}

/// Eq cutoff decision.
#[derive(Clone, Copy, PartialEq, Eq, Debug, Structural)]
pub enum Cutoff {
    /// The new value equals the old one: the memo keeps its revision.
    Unchanged { changed_at: Epoch },
    /// There was no old value, or it differs.
    Changed,
}

/// The revision a recomputed value is advertised with: the old memo's, when
/// the value is equal to the old one.
pub fn cutoff<V: PartialEq>(previous: Option<&Memo<V>>, value: &V) -> (c: Cutoff)
    ensures
        match c {
            Cutoff::Unchanged { changed_at } => previous matches Some(prev) && changed_at
                == prev.changed_at && call_ensures(V::eq, (&prev.value, value), true) && (
            V::obeys_eq_spec() ==> prev.value.eq_spec(value)),
            Cutoff::Changed => (previous matches Some(prev) ==> call_ensures(
                V::eq,
                (&prev.value, value),
                false,
            )) && (V::obeys_eq_spec() ==> !(previous matches Some(prev) && prev.value.eq_spec(
                value,
            ))),
        },
{
    match previous {
        Some(prev) => {
            if prev.value == *value {
                Cutoff::Unchanged { changed_at: prev.changed_at }
            } else {
                Cutoff::Changed
            }
        },
        None => Cutoff::Changed,
    }
}

/// Counters after a memo hit.
pub open spec fn count_hit(s: Stats) -> Stats {
    Stats { hits: bumped(s.hits), ..s }
}

/// Counters after reusing a validated memo.
pub open spec fn count_reuse(s: Stats) -> Stats {
    Stats { reused: bumped(s.reused), ..s }
}

/// Counters after starting a computation; `fresh` when there was no memo.
pub open spec fn count_compute(s: Stats, fresh: bool) -> Stats {
    Stats {
        recomputes: bumped(s.recomputes),
        misses: if fresh {
            bumped(s.misses)
        } else {
            s.misses
        },
        ..s
    }
}

/// Counters after a recomputation that kept the old revision.
pub open spec fn count_cutoff(s: Stats) -> Stats {
    Stats { cutoffs: bumped(s.cutoffs), ..s }
}

/// The table once the running query has been told that it read `id`.
pub open spec fn with_parent_edge<V>(t: TableView<V>, id: IdView) -> TableView<V> {
    TableView { active: record_in_top(t.active, DepView::Query(id)), ..t }
}

/// The memo of `id` cannot be used at the table's revision: there is none,
/// or it is older and validation found a change or a cycle.
pub open spec fn must_recompute<V>(t: TableView<V>, id: IdView) -> bool {
    !t.memos.contains_key(id) || (t.memos[id].verified_at != t.epoch && (stale_reachable(t, id)
        || cycle_reachable(t, id)))
}

/// Asking for `id` in `t0` was answered with `v` from its memo and left the
/// table as `t`.
pub open spec fn served_outcome<V: Clone>(t0: TableView<V>, id: IdView, v: V, t: TableView<V>) -> bool {
    let t1 = with_parent_edge(t0, id);
    &&& t0.memos.contains_key(id)
    &&& cloned(t0.memos[id].value, v)
    &&& if t0.memos[id].verified_at == t0.epoch {
        t == (TableView { stats: count_hit(t1.stats), ..t1 })
    } else {
        &&& !stale_reachable(t0, id)
        &&& !cycle_reachable(t0, id)
        &&& t == (TableView {
            memos: t1.memos.insert(id, MemoView { verified_at: t0.epoch, ..t1.memos[id] }),
            stats: count_reuse(t1.stats),
            ..t1
        })
    }
}

/// Asking for `id` in `t0` ran into `id` while it was being computed;
/// `stack` lists the running queries, and the table is left as `t`.
pub open spec fn cycle_outcome<V>(t0: TableView<V>, id: IdView, stack: Seq<IdView>, t: TableView<V>) -> bool {
    &&& must_recompute(t0, id)
    &&& active_queries(t0.active).contains(id)
    &&& stack == active_queries(t0.active)
    &&& t == with_parent_edge(t0, id)
}

/// What a started computation of a query carries to its end.
pub struct Pending<V> {
    pub query_id: QueryId,
    pub previous: Option<Memo<V>>,
    pub epoch: Epoch,
}

/// Asking for `id` in `t0` started its computation, described by `p`, and
/// left the table as `t`.
pub open spec fn compute_outcome<V: Clone>(t0: TableView<V>, id: IdView, p: Pending<V>, t: TableView<V>) -> bool {
    let t1 = with_parent_edge(t0, id);
    &&& must_recompute(t0, id)
    &&& !active_queries(t0.active).contains(id)
    &&& p.query_id@ == id
    &&& p.epoch.0 == t0.epoch
    &&& (p.previous is None <==> !t0.memos.contains_key(id))
    &&& (p.previous matches Some(m) ==> copy_of(m, t0.memos[id]))
    &&& t == (TableView {
        active: t1.active.push(FrameView { query: id, deps: Seq::empty() }),
        stats: count_compute(t1.stats, p.previous is None),
        ..t1
    })
}

/// How asking for a query starts.
pub enum Start<V> {
    /// The memo answers the query.
    Served(V),
    /// The query is already being computed.
    Cycle(CycleError),
    /// The query has to run; finish it with `finish_query`.
    Compute(Pending<V>),
}

fn bump(n: u64) -> (r: u64)
    ensures
        r == bumped(n),
{
    if n < u64::MAX {
        n + 1
    } else {
        n
    }
}

/// Starts asking for `query_id`: the running query (if any) records that it
/// read it, then the memo is served, or a cycle is reported, or a frame is
/// opened for its computation.
pub fn begin_query<V: Clone>(table: &mut MemoTable<V>, query_id: &QueryId) -> (s: Start<V>)
    ensures
        match s {
            Start::Served(v) => served_outcome(old(table)@, query_id@, v, final(table)@),
            Start::Cycle(e) => cycle_outcome(old(table)@, query_id@, query_ids_view(e.stack@), final(table)@),
            Start::Compute(p) => compute_outcome(old(table)@, query_id@, p, final(table)@),
        },
{
    let epoch = table.epoch();
    let plan = plan_for(table, query_id, epoch);
    table.push_dep(DepId::Query(query_id.clone()));
    match plan {
        Plan::Hit { value } => {
            let mut st = table.stats();
            st.hits = bump(st.hits);
            table.set_stats(st);
            Start::Served(value)
        },
        Plan::Reuse { value } => {
            table.update_verified_at(query_id, epoch);
            let mut st = table.stats();
            st.reused = bump(st.reused);
            table.set_stats(st);
            Start::Served(value)
        },
        Plan::Recompute { previous } => {
            if table.is_active(query_id) {
                let stack = table.active_ids();
                proof {
                    assert(active_queries(table@.active) =~= active_queries(old(table)@.active));
                }
                return Start::Cycle(CycleError { stack });
            }
            proof {
                assert(active_queries(table@.active) =~= active_queries(old(table)@.active));
            }
            table.enter(query_id.clone());
            let mut st = table.stats();
            st.recomputes = bump(st.recomputes);
            if previous.is_none() {
                st.misses = bump(st.misses);
            }
            table.set_stats(st);
            Start::Compute(Pending { query_id: query_id.clone(), previous, epoch })
        },
    }
}

/// The old memo's value equals the new one, so the memo keeps its revision.
pub open spec fn keeps_revision<V: PartialEq>(previous: Option<Memo<V>>, value: V) -> bool {
    previous matches Some(prev) && prev.value.eq_spec(&value)
}

/// What the innermost frame read; nothing when no query is running.
pub open spec fn top_deps(active: Seq<FrameView>) -> Seq<DepView> {
    if active.len() > 0 {
        active.last().deps
    } else {
        Seq::empty()
    }
}

/// The frames once the innermost one is closed.
pub open spec fn without_top(active: Seq<FrameView>) -> Seq<FrameView> {
    if active.len() > 0 {
        active.drop_last()
    } else {
        active
    }
}

/// Ending the computation `p` with `value` took the table from `t0` to `t`:
/// the innermost frame is closed, and the memo of the query holds a clone of
/// `value`, confirmed at the computation's revision, with what the frame read
/// as its dependencies; it keeps the old memo's revision exactly when the
/// value equals the old one (Eq cutoff).
pub open spec fn finish_outcome<V: Clone + PartialEq>(t0: TableView<V>, p: Pending<V>, value: V, t: TableView<V>) -> bool {
    let id = p.query_id@;
    let m = t.memos[id];
    &&& t.memos == t0.memos.insert(id, m)
    &&& cloned(value, m.value)
    &&& m.verified_at == p.epoch.0
    &&& m.deps == top_deps(t0.active)
    &&& t.epoch == t0.epoch
    &&& t.inputs == t0.inputs
    &&& t.active == without_top(t0.active)
    &&& (m.changed_at == p.epoch.0 && t.stats == t0.stats && (p.previous matches Some(prev)
        ==> call_ensures(V::eq, (&prev.value, &value), false))) || (p.previous matches Some(prev)
        && m.changed_at == prev.changed_at.0 && t.stats == count_cutoff(t0.stats) && call_ensures(
        V::eq,
        (&prev.value, &value),
        true,
    ))
    &&& V::obeys_eq_spec() ==> if keeps_revision(p.previous, value) {
        m.changed_at == p.previous->0.changed_at.0 && t.stats == count_cutoff(t0.stats)
    } else {
        m.changed_at == p.epoch.0 && t.stats == t0.stats
    }
}

/// Ends the computation described by `pending` with its result `value`:
/// closes the innermost frame, applies the Eq cutoff and stores the memo with
/// what the computation read.
pub fn finish_query<V: Clone + PartialEq>(table: &mut MemoTable<V>, pending: Pending<V>, value: V) -> (r: V)
    ensures
        r == value,
        finish_outcome(old(table)@, pending, value, final(table)@),
{
    let deps = table.leave();
    let changed_at = match cutoff(pending.previous.as_ref(), &value) {
        Cutoff::Unchanged { changed_at } => {
            let mut st = table.stats();
            st.cutoffs = bump(st.cutoffs);
            table.set_stats(st);
            changed_at
        },
        Cutoff::Changed => pending.epoch,
    };
    let stored = value.clone();
    table.insert_memo(
        pending.query_id,
        Memo { value: stored, verified_at: pending.epoch, changed_at, deps },
    );
    proof {
        let id = pending.query_id@;
        let t = table@;
        let m = t.memos[id];
        assert(t.memos == old(table)@.memos.insert(id, m));
        assert(cloned(value, m.value));
        assert(m.deps == top_deps(old(table)@.active));
        assert(t.active == without_top(old(table)@.active));
    }
    value
}

/// Runs a query with memoization, dependency validation and Eq cutoff:
/// the memo of `query_id` is served when it is current or nothing it read
/// has changed; otherwise `compute` runs once, on the database as starting
/// the computation left it, its result is returned, and ending the
/// computation stores that result with what it read as dependencies.
/// Asking for a query that is being computed is a cycle, reported with the
/// stack of running queries.
pub fn execute_query<DB, F>(db: &mut DB, query_id: QueryId, compute: F) -> (r: Result<DB::Value, CycleError>)
    where
        DB: Database,
        DB::Value: Clone + PartialEq,
        F: FnOnce(&mut DB) -> DB::Value,
    requires
        forall|d: &mut DB| call_requires(compute, (d,)),
    ensures
        match r {
            Err(e) => {
                &&& cycle_outcome(
                    old(db).memo_view(),
                    query_id@,
                    query_ids_view(e.stack@),
                    final(db).memo_view(),
                )
                &&& final(db).outside_view() == old(db).outside_view()
            },
            Ok(v) => {
                ||| served_outcome(old(db).memo_view(), query_id@, v, final(db).memo_view())
                    && final(db).outside_view() == old(db).outside_view()
                ||| exists|p: Pending<DB::Value>, d: &mut DB|
                    {
                        &&& #[trigger] compute_outcome(old(db).memo_view(), query_id@, p, (*d).memo_view())
                        &&& (*d).outside_view() == old(db).outside_view()
                        &&& #[trigger] call_ensures(compute, (d,), v)
                        &&& finish_outcome((*final(d)).memo_view(), p, v, final(db).memo_view())
                        &&& final(db).outside_view() == (*final(d)).outside_view()
                    }
            },
        },
{
    let start = begin_query(db.memo_table_mut(), &query_id);
    match start {
        Start::Served(v) => Ok(v),
        Start::Cycle(e) => Err(e),
        Start::Compute(pending) => {
            let ghost before = *db;
            let ghost p = pending;
            let value = compute(db);
            let ghost after = *db;
            let r = finish_query(db.memo_table_mut(), pending, value);
            proof {
                assert(exists|d: &mut DB|
                    *d == before && *final(d) == after && call_ensures(compute, (d,), value));
                let d = choose|d: &mut DB|
                    *d == before && *final(d) == after && call_ensures(compute, (d,), value);
                assert(compute_outcome(old(db).memo_view(), query_id@, p, (*d).memo_view()));
                assert((*d).outside_view() == old(db).outside_view());
                assert(finish_outcome((*final(d)).memo_view(), p, value, final(db).memo_view()));
            }
            Ok(r)
        },
    }
}

/// A memo stored by a computation that started at the table's current
/// revision is confirmed at that revision: asking again before any input is
/// set is served from it as a hit.
pub proof fn law_computed_memo_is_fresh<V: Clone + PartialEq>(
    t0: TableView<V>,
    p: Pending<V>,
    value: V,
    t: TableView<V>,
)
    requires
        finish_outcome(t0, p, value, t),
        p.epoch.0 == t0.epoch,
    ensures
        t.memos.contains_key(p.query_id@),
        t.memos[p.query_id@].verified_at == t.epoch,
        cloned(value, t.memos[p.query_id@].value),
{
}

/// Starting a computation and finishing it, with the nested computations in
/// between balanced (they leave the frames as they found them, but for what
/// the query itself read), leaves the running queries as they were and
/// stores as dependencies exactly what the query read.
pub proof fn law_balanced_frames<V: Clone + PartialEq>(
    t0: TableView<V>,
    id: IdView,
    p: Pending<V>,
    t1: TableView<V>,
    t2: TableView<V>,
    value: V,
    t3: TableView<V>,
)
    requires
        compute_outcome(t0, id, p, t1),
        t2.active.len() == t1.active.len(),
        t2.active.drop_last() == t1.active.drop_last(),
        finish_outcome(t2, p, value, t3),
    ensures
        t3.active == with_parent_edge(t0, id).active,
        t3.memos[id].deps == t2.active.last().deps,
{
    assert(t1.active.drop_last() =~= with_parent_edge(t0, id).active);
}


/// A query asked for from inside a running computation is recorded once, at
/// the end of what that computation read, whatever the call does: served
/// from its memo, refused as a cycle, or computed with its own nested calls
/// balanced. The frames of the queries further out are untouched, and what
/// the nested computation itself read goes to its memo, not to the caller.
pub proof fn law_nested_call_records_parent_edge<V: Clone + PartialEq>(
    t0: TableView<V>,
    id: IdView,
    served: V,
    stack: Seq<IdView>,
    p: Pending<V>,
    t1: TableView<V>,
    t2: TableView<V>,
    value: V,
    t: TableView<V>,
)
    requires
        t0.active.len() > 0,
        served_outcome(t0, id, served, t) || cycle_outcome(t0, id, stack, t) || (compute_outcome(
            t0,
            id,
            p,
            t1,
        ) && t2.active.len() == t1.active.len() && t2.active.drop_last() == t1.active.drop_last()
            && finish_outcome(t2, p, value, t)),
    ensures
        t.active.len() == t0.active.len(),
        t.active.drop_last() == t0.active.drop_last(),
        t.active.last().query == t0.active.last().query,
        t.active.last().deps == t0.active.last().deps.push(DepView::Query(id)),
        compute_outcome(t0, id, p, t1) && t2.active.len() == t1.active.len()
            && t2.active.drop_last() == t1.active.drop_last() && finish_outcome(t2, p, value, t)
            ==> t.memos[id].deps == t2.active.last().deps,
{
    if compute_outcome(t0, id, p, t1) && t2.active.len() == t1.active.len()
        && t2.active.drop_last() == t1.active.drop_last() && finish_outcome(t2, p, value, t) {
        law_balanced_frames(t0, id, p, t1, t2, value, t);
    }
    let a = with_parent_edge(t0, id).active;
    assert(a.drop_last() =~= t0.active.drop_last());
}

} // verus!
