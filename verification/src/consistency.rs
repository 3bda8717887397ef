//! What a memo that is served without running its query is worth: the value
//! that computing the query from scratch gives at the current revision.
//!
//! `input_at(x, r)` is the value of input `x` at revision `r`, and
//! `query_at(q, r)` the value that a fresh database, given the writes made up
//! to revision `r`, computes for query `q`. The laws here relate them to what
//! the memo table records.
use crate::db::{MemoView, TableView};
use crate::graph::{cycle_reachable, dep_edge, has_repeat, is_walk, settled, stale_reachable, walk_step};
use crate::ids::{DepView, IdView};
use crate::runtime::served_outcome;
use vstd::prelude::*;
use vstd::set_lib::lemma_len_subset;

verus! {

/// No memo was confirmed at a revision later than the current one.
pub open spec fn confirmed_by_now<V>(t: TableView<V>) -> bool {
    forall|q: IdView| #[trigger] t.memos.contains_key(q) ==> t.memos[q].verified_at <= t.epoch
}

/// The revision recorded for each input is exact: from that revision up to the
/// current one, the input holds the value it holds now.
pub open spec fn inputs_exact<V, A>(t: TableView<V>, input_at: spec_fn(IdView, u64) -> A) -> bool {
    forall|x: IdView, r: u64|
        #![trigger t.inputs[x], input_at(x, r)]
        t.inputs.contains_key(x) && t.inputs[x] <= r <= t.epoch ==> input_at(x, r) == input_at(
            x,
            t.epoch,
        )
}

/// Each memo holds what computing its query from scratch gave at the revision
/// at which the memo was last confirmed.
pub open spec fn memos_correct<V>(t: TableView<V>, query_at: spec_fn(IdView, u64) -> V) -> bool {
    forall|q: IdView| #[trigger]
        t.memos.contains_key(q) ==> query_at(q, t.memos[q].verified_at) == t.memos[q].value
}

/// A query's recorded last change is what its readers saw: when a memo read a
/// query whose value last changed no later than that memo's confirmation, the
/// query had, at that confirmation, the value its memo holds now.
pub open spec fn reads_observed<V>(t: TableView<V>, query_at: spec_fn(IdView, u64) -> V) -> bool {
    forall|a: IdView, b: IdView|
        #![trigger t.memos[a].deps.contains(DepView::Query(b)), t.memos[b]]
        t.memos.contains_key(a) && t.memos[a].deps.contains(DepView::Query(b)) && t.memos.contains_key(b)
            && t.memos[b].changed_at <= t.memos[a].verified_at ==> query_at(b, t.memos[a].verified_at)
            == t.memos[b].value
}

/// The dependency `d` has the same value at revisions `r1` and `r2`.
pub open spec fn dep_agrees<V, A>(
    input_at: spec_fn(IdView, u64) -> A,
    query_at: spec_fn(IdView, u64) -> V,
    d: DepView,
    r1: u64,
    r2: u64,
) -> bool {
    match d {
        DepView::Input(x) => input_at(x, r1) == input_at(x, r2),
        DepView::Query(b) => query_at(b, r1) == query_at(b, r2),
    }
}

/// Queries are pure: when everything a memo recorded as read has, at the
/// current revision, the value it had at the memo's confirmation, the query
/// computes now what it computed then.
pub open spec fn pure_over_reads<V, A>(
    t: TableView<V>,
    input_at: spec_fn(IdView, u64) -> A,
    query_at: spec_fn(IdView, u64) -> V,
) -> bool {
    forall|a: IdView|
        #![trigger query_at(a, t.epoch)]
        t.memos.contains_key(a) && (forall|i: int|
            0 <= i < t.memos[a].deps.len() ==> dep_agrees(
                input_at,
                query_at,
                #[trigger] t.memos[a].deps[i],
                t.memos[a].verified_at,
                t.epoch,
            )) ==> query_at(a, t.epoch) == query_at(a, t.memos[a].verified_at)
}

/// The table agrees with the from-scratch values: the promises that the
/// revisions and recorded reads of an incremental database make.
pub open spec fn history_consistent<V, A>(
    t: TableView<V>,
    input_at: spec_fn(IdView, u64) -> A,
    query_at: spec_fn(IdView, u64) -> V,
) -> bool {
    &&& confirmed_by_now(t)
    &&& inputs_exact(t, input_at)
    &&& memos_correct(t, query_at)
    &&& reads_observed(t, query_at)
    &&& pure_over_reads(t, input_at, query_at)
}

/// A walk from a query from which validation reaches neither a stale memo
/// nor a cycle visits distinct memoized queries, so it is no longer than
/// the number of memos.
proof fn lemma_clean_walk_bounded<V>(t: TableView<V>, root: IdView, w: Seq<IdView>)
    requires
        t.memos.dom().finite(),
        !stale_reachable(t, root),
        !cycle_reachable(t, root),
        is_walk(t, w),
        w[0] == root,
    ensures
        w.len() <= t.memos.dom().len(),
{
    assert(w.no_duplicates()) by {
        assert forall|i: int, j: int|
            0 <= i < w.len() && 0 <= j < w.len() && i != j implies w[i] != w[j] by {
            if w[i] == w[j] {
                if i < j {
                    assert(has_repeat(w));
                } else {
                    assert(0 <= j < i < w.len() && w[j] == w[i]);
                    assert(has_repeat(w));
                }
            }
        }
    }
    assert(w.to_set().subset_of(t.memos.dom())) by {
        assert forall|q: IdView| w.to_set().contains(q) implies t.memos.dom().contains(q) by {
            let k = choose|k: int| 0 <= k < w.len() && w[k] == q;
            if k < w.len() - 1 {
                assert(walk_step(t, w, k));
            } else {
                assert(settled(t, w.last()));
            }
        }
    }
    w.unique_seq_to_set();
    lemma_len_subset(w.to_set(), t.memos.dom());
}

/// The query at the end of a walk from a query that passes validation holds,
/// in its memo, its from-scratch value at the current revision.
proof fn lemma_walk_end_is_cold<V, A>(
    t: TableView<V>,
    input_at: spec_fn(IdView, u64) -> A,
    query_at: spec_fn(IdView, u64) -> V,
    root: IdView,
    w: Seq<IdView>,
)
    requires
        t.memos.dom().finite(),
        history_consistent(t, input_at, query_at),
        !stale_reachable(t, root),
        !cycle_reachable(t, root),
        is_walk(t, w),
        w[0] == root,
    ensures
        t.memos.contains_key(w.last()),
        query_at(w.last(), t.epoch) == t.memos[w.last()].value,
    decreases t.memos.dom().len() - w.len(),
{
    let q = w.last();
    assert(settled(t, q));
    let m = t.memos[q];
    if m.verified_at != t.epoch {
        lemma_clean_walk_bounded(t, root, w);
        assert forall|i: int| 0 <= i < m.deps.len() implies dep_agrees(
            input_at,
            query_at,
            #[trigger] m.deps[i],
            m.verified_at,
            t.epoch,
        ) by {
            match m.deps[i] {
                DepView::Input(x) => {
                    assert(t.inputs.contains_key(x) && t.inputs[x] <= m.verified_at);
                    assert(input_at(x, m.verified_at) == input_at(x, t.epoch));
                },
                DepView::Query(b) => {
                    assert(m.deps.contains(DepView::Query(b)));
                    assert(dep_edge(t, q, b));
                    let w2 = w.push(b);
                    assert forall|k: int| 0 <= k < w2.len() - 1 implies #[trigger] walk_step(
                        t,
                        w2,
                        k,
                    ) by {
                        if k < w.len() - 1 {
                            assert(walk_step(t, w, k));
                        }
                    }
                    assert(is_walk(t, w2));
                    lemma_clean_walk_bounded(t, root, w2);
                    lemma_walk_end_is_cold(t, input_at, query_at, root, w2);
                    assert(w2.last() == b);
                    assert(t.memos[b].changed_at <= m.verified_at);
                    assert(query_at(b, m.verified_at) == t.memos[b].value);
                },
            }
        }
        assert(query_at(q, t.epoch) == query_at(q, m.verified_at));
    }
}

/// From-scratch consistency of what is served without recomputing: when the
/// table agrees with the from-scratch values (`history_consistent`), a memo
/// confirmed at the current revision (a hit), or one from which validation
/// reaches neither a stale memo nor a cycle (a reuse, as `plan_for` decides
/// it), holds exactly the value that computing its query from scratch gives
/// at the current revision.
pub proof fn law_served_memo_is_cold_value<V, A>(
    t: TableView<V>,
    input_at: spec_fn(IdView, u64) -> A,
    query_at: spec_fn(IdView, u64) -> V,
    id: IdView,
)
    requires
        t.memos.dom().finite(),
        history_consistent(t, input_at, query_at),
        t.memos.contains_key(id),
        t.memos[id].verified_at == t.epoch || (!stale_reachable(t, id) && !cycle_reachable(
            t,
            id,
        )),
    ensures
        query_at(id, t.epoch) == t.memos[id].value,
{
    if t.memos[id].verified_at != t.epoch {
        let w = seq![id];
        assert(is_walk(t, w));
        lemma_walk_end_is_cold(t, input_at, query_at, id, w);
    }
}

/// Reusing a memo keeps the table consistent with the from-scratch values:
/// when validation of `id` reaches neither a stale memo nor a cycle,
/// confirming its memo at the current revision (what `execute_query` does
/// on a reuse) leaves a table that still agrees with them.
pub proof fn law_reuse_keeps_history_consistent<V, A>(
    t: TableView<V>,
    input_at: spec_fn(IdView, u64) -> A,
    query_at: spec_fn(IdView, u64) -> V,
    id: IdView,
)
    requires
        t.memos.dom().finite(),
        history_consistent(t, input_at, query_at),
        t.memos.contains_key(id),
        !stale_reachable(t, id),
        !cycle_reachable(t, id),
    ensures
        history_consistent(
            TableView {
                memos: t.memos.insert(id, MemoView { verified_at: t.epoch, ..t.memos[id] }),
                ..t
            },
            input_at,
            query_at,
        ),
{
    let m = t.memos[id];
    let t2 = TableView {
        memos: t.memos.insert(id, MemoView { verified_at: t.epoch, ..m }),
        ..t
    };
    law_served_memo_is_cold_value(t, input_at, query_at, id);
    assert(memos_correct(t2, query_at));
    assert forall|a: IdView, b: IdView|
        #![trigger t2.memos[a].deps.contains(DepView::Query(b)), t2.memos[b]]
        t2.memos.contains_key(a) && t2.memos[a].deps.contains(DepView::Query(b))
            && t2.memos.contains_key(b) && t2.memos[b].changed_at <= t2.memos[a].verified_at
        implies query_at(b, t2.memos[a].verified_at) == t2.memos[b].value by {
        if a == id && b != id && m.verified_at != t.epoch {
            let one = seq![id];
            assert(is_walk(t, one));
            assert(settled(t, id));
            assert(dep_edge(t, id, b));
            let w = seq![id, b];
            assert(walk_step(t, w, 0));
            assert(is_walk(t, w));
            lemma_walk_end_is_cold(t, input_at, query_at, id, w);
        } else if a == id && b != id {
            assert(t.memos[a].deps.contains(DepView::Query(b)));
        } else if a != id {
            assert(t.memos[a].deps.contains(DepView::Query(b)));
        }
    }
    assert forall|a: IdView|
        #![trigger query_at(a, t2.epoch)]
        t2.memos.contains_key(a) && (forall|i: int|
            0 <= i < t2.memos[a].deps.len() ==> dep_agrees(
                input_at,
                query_at,
                #[trigger] t2.memos[a].deps[i],
                t2.memos[a].verified_at,
                t2.epoch,
            )) implies query_at(a, t2.epoch) == query_at(a, t2.memos[a].verified_at) by {
        if a != id {
            assert(t.memos.contains_key(a));
            assert(t2.memos[a] == t.memos[a]);
        }
    }
}

/// Storing a recomputed memo keeps the table consistent with the
/// from-scratch values: the memo is confirmed at the current revision and
/// holds the from-scratch value there, every other query it read has a memo
/// confirmed at the current revision, and it is advertised as changed now or,
/// equal to the old memo's value, keeps the old memo's revision (the Eq
/// cutoff).
pub proof fn law_recompute_keeps_history_consistent<V, A>(
    t: TableView<V>,
    input_at: spec_fn(IdView, u64) -> A,
    query_at: spec_fn(IdView, u64) -> V,
    id: IdView,
    m: MemoView<V>,
)
    requires
        history_consistent(t, input_at, query_at),
        m.verified_at == t.epoch,
        m.value == query_at(id, t.epoch),
        forall|b: IdView|
            #[trigger] m.deps.contains(DepView::Query(b)) && b != id ==> t.memos.contains_key(b)
                && t.memos[b].verified_at == t.epoch,
        m.changed_at == t.epoch || (t.memos.contains_key(id) && m.changed_at
            == t.memos[id].changed_at && m.value == t.memos[id].value),
    ensures
        history_consistent(TableView { memos: t.memos.insert(id, m), ..t }, input_at, query_at),
{
    let t2 = TableView { memos: t.memos.insert(id, m), ..t };
    assert(memos_correct(t2, query_at));
    assert forall|a: IdView, b: IdView|
        #![trigger t2.memos[a].deps.contains(DepView::Query(b)), t2.memos[b]]
        t2.memos.contains_key(a) && t2.memos[a].deps.contains(DepView::Query(b))
            && t2.memos.contains_key(b) && t2.memos[b].changed_at <= t2.memos[a].verified_at
        implies query_at(b, t2.memos[a].verified_at) == t2.memos[b].value by {
        if a == id && b != id {
            assert(t.memos.contains_key(b) && t.memos[b].verified_at == t.epoch);
        } else if a != id && b == id {
            assert(t.memos.contains_key(a));
            if m.changed_at != t.epoch {
                assert(t.memos[a].deps.contains(DepView::Query(id)));
            }
        } else if a != id {
            assert(t.memos[a].deps.contains(DepView::Query(b)));
        }
    }
    assert forall|a: IdView|
        #![trigger query_at(a, t2.epoch)]
        t2.memos.contains_key(a) && (forall|i: int|
            0 <= i < t2.memos[a].deps.len() ==> dep_agrees(
                input_at,
                query_at,
                #[trigger] t2.memos[a].deps[i],
                t2.memos[a].verified_at,
                t2.epoch,
            )) implies query_at(a, t2.epoch) == query_at(a, t2.memos[a].verified_at) by {
        if a != id {
            assert(t2.memos[a] == t.memos[a]);
        }
    }
}

/// Writing an input keeps the table consistent with the from-scratch values:
/// the revision moves on by one; the written input `x` is recorded as
/// changed at the new revision or, its value unchanged, keeps its recorded
/// revision; every other input keeps its value; and the queries are pure at
/// the new revision.
pub proof fn law_write_keeps_history_consistent<V, A>(
    t: TableView<V>,
    input_at: spec_fn(IdView, u64) -> A,
    query_at: spec_fn(IdView, u64) -> V,
    x: IdView,
    at: u64,
)
    requires
        history_consistent(t, input_at, query_at),
        t.epoch < u64::MAX,
        forall|y: IdView| y != x ==> #[trigger] input_at(y, (t.epoch + 1) as u64) == input_at(y, t.epoch),
        at == t.epoch + 1 || (t.inputs.contains_key(x) && at == t.inputs[x] && input_at(
            x,
            (t.epoch + 1) as u64,
        ) == input_at(x, t.epoch)),
        pure_over_reads(
            TableView { epoch: (t.epoch + 1) as u64, inputs: t.inputs.insert(x, at), ..t },
            input_at,
            query_at,
        ),
    ensures
        history_consistent(
            TableView { epoch: (t.epoch + 1) as u64, inputs: t.inputs.insert(x, at), ..t },
            input_at,
            query_at,
        ),
{
    let e = t.epoch;
    let t2 = TableView { epoch: (e + 1) as u64, inputs: t.inputs.insert(x, at), ..t };
    assert forall|y: IdView, r: u64|
        #![trigger t2.inputs[y], input_at(y, r)]
        t2.inputs.contains_key(y) && t2.inputs[y] <= r <= t2.epoch implies input_at(y, r)
        == input_at(y, t2.epoch) by {
        if r <= e {
            if y != x {
                assert(t.inputs.contains_key(y) && t.inputs[y] <= r <= e);
                assert(input_at(y, r) == input_at(y, e));
                assert(input_at(y, (e + 1) as u64) == input_at(y, e));
            } else {
                assert(t.inputs[x] <= r <= e);
                assert(input_at(x, r) == input_at(x, e));
            }
        }
    }
    assert(reads_observed(t2, query_at));
}

/// What `execute_query` serves without running the query is the
/// from-scratch value: when the table agrees with the from-scratch values
/// and a call serves `v` from the memo of `id` (a hit or a reuse, as its
/// contract describes), `v` is a clone of the memo's value, that value is
/// what computing the query from scratch gives at the current revision, and
/// the table the call leaves still agrees with the from-scratch values.
pub proof fn law_served_value_is_cold_value<V: Clone, A>(
    t0: TableView<V>,
    input_at: spec_fn(IdView, u64) -> A,
    query_at: spec_fn(IdView, u64) -> V,
    id: IdView,
    v: V,
    t: TableView<V>,
)
    requires
        t0.memos.dom().finite(),
        history_consistent(t0, input_at, query_at),
        served_outcome(t0, id, v, t),
    ensures
        cloned(t0.memos[id].value, v),
        query_at(id, t0.epoch) == t0.memos[id].value,
        history_consistent(t, input_at, query_at),
{
    law_served_memo_is_cold_value(t0, input_at, query_at, id);
    if t0.memos[id].verified_at != t0.epoch {
        law_reuse_keeps_history_consistent(t0, input_at, query_at, id);
        let t2 = TableView {
            memos: t0.memos.insert(id, MemoView { verified_at: t0.epoch, ..t0.memos[id] }),
            ..t0
        };
        lemma_consistency_reads_memos_and_inputs(t2, t, input_at, query_at);
    } else {
        lemma_consistency_reads_memos_and_inputs(t0, t, input_at, query_at);
    }
}

/// Whether a table agrees with the from-scratch values depends only on its
/// revision, its memos and its inputs.
proof fn lemma_consistency_reads_memos_and_inputs<V, A>(
    t: TableView<V>,
    u: TableView<V>,
    input_at: spec_fn(IdView, u64) -> A,
    query_at: spec_fn(IdView, u64) -> V,
)
    requires
        history_consistent(t, input_at, query_at),
        u.epoch == t.epoch,
        u.memos == t.memos,
        u.inputs == t.inputs,
    ensures
        history_consistent(u, input_at, query_at),
{
}

} // verus!
