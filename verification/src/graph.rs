//! The dependency graph that the memo table records, and what it means for
//! a cached result to be current.
use crate::db::{MemoView, TableView};
use crate::ids::{DepView, IdView};
use vstd::prelude::*;

verus! {

/// Every input the memo read is recorded and has not changed since the memo
/// was last confirmed.
pub open spec fn inputs_unchanged<V>(t: TableView<V>, m: MemoView<V>) -> bool {
    forall|i: int|
        0 <= i < m.deps.len() ==> match #[trigger] m.deps[i] {
            DepView::Input(x) => t.inputs.contains_key(x) && t.inputs[x] <= m.verified_at,
            DepView::Query(_) => true,
        }
}

/// Every query the memo read has a memo whose value last changed no later
/// than the revision at which this memo was confirmed.
pub open spec fn queries_unchanged<V>(t: TableView<V>, m: MemoView<V>) -> bool {
    forall|i: int|
        0 <= i < m.deps.len() ==> match #[trigger] m.deps[i] {
            DepView::Input(_) => true,
            DepView::Query(b) => t.memos.contains_key(b) && t.memos[b].changed_at <= m.verified_at,
        }
}

/// Nothing the memo read directly has changed since it was confirmed.
pub open spec fn reads_unchanged<V>(t: TableView<V>, m: MemoView<V>) -> bool {
    inputs_unchanged(t, m) && queries_unchanged(t, m)
}

/// The query has a memo that is either confirmed at the current revision or
/// whose direct reads, inputs and queries, are unchanged.
pub open spec fn settled<V>(t: TableView<V>, id: IdView) -> bool {
    &&& t.memos.contains_key(id)
    &&& (t.memos[id].verified_at == t.epoch || reads_unchanged(t, t.memos[id]))
}

/// Validation of `a` goes on to its dependency `b`: `a` has a memo from an
/// earlier revision whose direct reads are unchanged, and that memo read `b`.
pub open spec fn dep_edge<V>(t: TableView<V>, a: IdView, b: IdView) -> bool {
    &&& t.memos.contains_key(a)
    &&& t.memos[a].verified_at != t.epoch
    &&& reads_unchanged(t, t.memos[a])
    &&& t.memos[a].deps.contains(DepView::Query(b))
}

/// The step from position `i` of `w` to the next is an edge.
pub open spec fn walk_step<V>(t: TableView<V>, w: Seq<IdView>, i: int) -> bool {
    dep_edge(t, w[i], w[i + 1])
}

/// A nonempty sequence of queries, each an edge away from the one before.
pub open spec fn is_walk<V>(t: TableView<V>, w: Seq<IdView>) -> bool {
    &&& w.len() > 0
    &&& forall|i: int| 0 <= i < w.len() - 1 ==> #[trigger] walk_step(t, w, i)
}

/// Some query occurs twice in `w`.
pub open spec fn has_repeat(w: Seq<IdView>) -> bool {
    exists|i: int, j: int| 0 <= i < j < w.len() && w[i] == w[j]
}

/// Validation from `root` reaches a query that is not settled.
pub open spec fn stale_reachable<V>(t: TableView<V>, root: IdView) -> bool {
    exists|w: Seq<IdView>| #[trigger] is_walk(t, w) && w[0] == root && !settled(t, w.last())
}

/// Validation from `root` runs into a dependency cycle.
pub open spec fn cycle_reachable<V>(t: TableView<V>, root: IdView) -> bool {
    exists|w: Seq<IdView>| #[trigger] is_walk(t, w) && w[0] == root && has_repeat(w)
}

/// A set of queries that are all settled, from none of which validation
/// runs into a cycle, and that contains every query validation goes on to
/// from any of them.
pub open spec fn closed_clean<V>(t: TableView<V>, clean: Set<IdView>) -> bool {
    forall|c: IdView|
        #[trigger] clean.contains(c) ==> {
            &&& settled(t, c)
            &&& !cycle_reachable(t, c)
            &&& forall|b: IdView| #[trigger] dep_edge(t, c, b) ==> clean.contains(b)
        }
}

/// A walk without its first query is a walk from the second.
pub proof fn lemma_walk_tail<V>(t: TableView<V>, w: Seq<IdView>)
    requires
        is_walk(t, w),
        w.len() >= 2,
    ensures
        is_walk(t, w.drop_first()),
        dep_edge(t, w[0], w[1]),
{
    let v = w.drop_first();
    assert(walk_step(t, w, 0));
    assert forall|i: int| 0 <= i < v.len() - 1 implies #[trigger] walk_step(t, v, i) by {
        assert(walk_step(t, w, i + 1));
    }
}

/// Adding to a closed clean set a settled query, not yet in it, whose edges
/// all lead into the set keeps the set closed.
pub proof fn lemma_clean_extend<V>(t: TableView<V>, clean: Set<IdView>, c: IdView)
    requires
        closed_clean(t, clean),
        settled(t, c),
        !clean.contains(c),
        forall|b: IdView| #[trigger] dep_edge(t, c, b) ==> clean.contains(b),
    ensures
        closed_clean(t, clean.insert(c)),
{
    if cycle_reachable(t, c) {
        let w = choose|w: Seq<IdView>| #[trigger] is_walk(t, w) && w[0] == c && has_repeat(w);
        let (i, j) = choose|i: int, j: int| 0 <= i < j < w.len() && w[i] == w[j];
        lemma_walk_tail(t, w);
        let v = w.drop_first();
        assert(clean.contains(v[0]));
        if i >= 1 {
            assert(v[i - 1] == v[j - 1]);
            assert(is_walk(t, v) && v[0] == w[1] && has_repeat(v));
            assert(cycle_reachable(t, v[0]));
        } else {
            lemma_walk_stays_clean(t, clean, v, j - 1);
            assert(v[j - 1] == c);
        }
    }
}

/// Every walk that starts in a closed clean set stays in it.
pub proof fn lemma_walk_stays_clean<V>(t: TableView<V>, clean: Set<IdView>, w: Seq<IdView>, k: int)
    requires
        closed_clean(t, clean),
        is_walk(t, w),
        clean.contains(w[0]),
        0 <= k < w.len(),
    ensures
        clean.contains(w[k]),
    decreases k,
{
    if k > 0 {
        lemma_walk_stays_clean(t, clean, w, k - 1);
        assert(walk_step(t, w, k - 1));
    }
}

/// Nothing unsettled is reachable from a member of a closed clean set.
pub proof fn lemma_clean_not_stale<V>(t: TableView<V>, clean: Set<IdView>, root: IdView)
    requires
        closed_clean(t, clean),
        clean.contains(root),
    ensures
        !stale_reachable(t, root),
{
    assert forall|w: Seq<IdView>| #[trigger] is_walk(t, w) && w[0] == root implies settled(t, w.last()) by {
        lemma_walk_stays_clean(t, clean, w, w.len() - 1);
    }
}

/// Putting a step in front of a walk gives a walk.
pub proof fn lemma_walk_prepend<V>(t: TableView<V>, a: IdView, w: Seq<IdView>)
    requires
        is_walk(t, w),
        dep_edge(t, a, w[0]),
    ensures
        is_walk(t, seq![a] + w),
        (seq![a] + w)[0] == a,
        (seq![a] + w).last() == w.last(),
{
    let v = seq![a] + w;
    assert forall|i: int| 0 <= i < v.len() - 1 implies #[trigger] walk_step(t, v, i) by {
        if i > 0 {
            assert(walk_step(t, w, i - 1));
            assert(v[i] == w[i - 1]);
            assert(v[i + 1] == w[i]);
        }
    }
}

/// A stale memo that validation passes read only inputs recorded as changed
/// no later than its confirmation, and only queries whose values last changed
/// no later than its confirmation and which pass validation themselves: the
/// local condition under which serving its old value is sound.
pub proof fn law_validated_memo_reads_nothing_newer<V>(t: TableView<V>, id: IdView)
    requires
        t.memos.contains_key(id),
        t.memos[id].verified_at != t.epoch,
        !stale_reachable(t, id),
    ensures
        forall|i: int|
            0 <= i < t.memos[id].deps.len() ==> match #[trigger] t.memos[id].deps[i] {
                DepView::Input(x) => t.inputs.contains_key(x) && t.inputs[x] <= t.memos[id].verified_at,
                DepView::Query(b) => {
                    &&& t.memos.contains_key(b)
                    &&& t.memos[b].changed_at <= t.memos[id].verified_at
                    &&& !stale_reachable(t, b)
                },
            },
{
    let one = seq![id];
    assert(is_walk(t, one));
    assert(settled(t, id));
    let m = t.memos[id];
    assert forall|i: int| 0 <= i < m.deps.len() implies match #[trigger] m.deps[i] {
        DepView::Input(x) => t.inputs.contains_key(x) && t.inputs[x] <= m.verified_at,
        DepView::Query(b) => {
            &&& t.memos.contains_key(b)
            &&& t.memos[b].changed_at <= m.verified_at
            &&& !stale_reachable(t, b)
        },
    } by {
        if let DepView::Query(b) = m.deps[i] {
            assert(m.deps.contains(DepView::Query(b)));
            assert(dep_edge(t, id, b));
            assert forall|w: Seq<IdView>| #[trigger] is_walk(t, w) && w[0] == b implies settled(t, w.last()) by {
                lemma_walk_prepend(t, id, w);
            }
        }
    }
}

} // verus!
