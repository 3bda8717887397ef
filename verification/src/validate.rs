//! Validation of a cached tree: whether anything a stale memo depends on,
//! directly or through other memos, has changed since it was confirmed.
use crate::db::{MemoTable, TableView};
use crate::graph::{
    closed_clean, cycle_reachable, dep_edge, has_repeat, inputs_unchanged, is_walk,
    lemma_clean_extend, lemma_clean_not_stale, lemma_walk_prepend, queries_unchanged,
    reads_unchanged, settled, stale_reachable, walk_step,
};
use crate::ids::{query_ids_view, DepId, DepView, IdView, QueryId};
use vstd::prelude::*;

verus! {

/// Cached-tree validation outcome.
#[derive(Clone, Copy, PartialEq, Eq, Debug, Structural)]
pub enum Verdict {
    Clean,
    Dirty,
}

/// The ids in a list, as a set.
pub open spec fn id_set(v: Seq<QueryId>) -> Set<IdView> {
    query_ids_view(v).to_set()
}

proof fn lemma_id_set_push(v: Seq<QueryId>, x: QueryId)
    ensures
        query_ids_view(v.push(x)) == query_ids_view(v).push(x@),
        id_set(v.push(x)) == id_set(v).insert(x@),
{
    let s = query_ids_view(v);
    assert(query_ids_view(v.push(x)) =~= s.push(x@));
    assert forall|a: IdView| #[trigger] s.push(x@).contains(a) == (s.contains(a) || a == x@) by {
        if s.contains(a) {
            let i = choose|i: int| 0 <= i < s.len() && s[i] == a;
            assert(s.push(x@)[i] == a);
        }
        if a == x@ {
            assert(s.push(x@)[s.len() as int] == a);
        }
        if s.push(x@).contains(a) {
            let i = choose|i: int| 0 <= i < s.len() + 1 && s.push(x@)[i] == a;
            if i < s.len() {
                assert(s[i] == a);
            }
        }
    }
    assert(id_set(v.push(x)) =~= id_set(v).insert(x@));
}

proof fn lemma_id_view_drop_last(v: Seq<QueryId>)
    requires
        v.len() > 0,
    ensures
        query_ids_view(v.drop_last()) == query_ids_view(v).drop_last(),
{
    assert(query_ids_view(v.drop_last()) =~= query_ids_view(v).drop_last());
}

/// A list without repeats whose members all lie in a finite set is no longer
/// than the set.
proof fn lemma_unique_within(s: Seq<IdView>, d: Set<IdView>)
    requires
        s.no_duplicates(),
        d.finite(),
        forall|k: int| 0 <= k < s.len() ==> d.contains(#[trigger] s[k]),
    ensures
        s.len() <= d.len(),
{
    s.unique_seq_to_set();
    assert(s.to_set().subset_of(d));
    vstd::set_lib::lemma_len_subset(s.to_set(), d);
}

fn contains_id(v: &Vec<QueryId>, id: &QueryId) -> (r: bool)
    ensures
        r == query_ids_view(v@).contains(id@),
{
    let mut i: usize = 0;
    while i < v.len()
        invariant
            i <= v@.len(),
            forall|j: int| 0 <= j < i ==> v@[j]@ != id@,
        decreases v.len() - i,
    {
        if v[i].same(id) {
            assert(query_ids_view(v@)[i as int] == id@);
            return true;
        }
        i = i + 1;
    }
    assert forall|j: int| 0 <= j < query_ids_view(v@).len() implies query_ids_view(v@)[j] != id@ by {
        assert(query_ids_view(v@)[j] == v@[j]@);
    }
    false
}

/// Validates the cached tree under `id`, with `path` the queries whose
/// validation is under way (outermost first) and `clean` the queries already
/// found current.
fn visit<V>(table: &MemoTable<V>, id: &QueryId, clean: &mut Vec<QueryId>, path: &mut Vec<QueryId>) -> (r: Verdict)
    requires
        closed_clean(table@, id_set(old(clean)@)),
        query_ids_view(old(path)@).no_duplicates(),
        forall|k: int| 0 <= k < old(path)@.len() ==> table@.memos.contains_key(#[trigger] old(path)@[k]@),
        old(path)@.len() == 0 || (is_walk(table@, query_ids_view(old(path)@)) && dep_edge(
            table@,
            query_ids_view(old(path)@).last(),
            id@,
        )),
    ensures
        query_ids_view(final(path)@) == query_ids_view(old(path)@),
        id_set(old(clean)@).subset_of(id_set(final(clean)@)),
        closed_clean(table@, id_set(final(clean)@)),
        forall|x: IdView|
            #[trigger] id_set(final(clean)@).contains(x) && !id_set(old(clean)@).contains(x)
                ==> !query_ids_view(old(path)@).contains(x),
        r == Verdict::Clean ==> id_set(final(clean)@).contains(id@),
        r == Verdict::Dirty ==> exists|w: Seq<IdView>|
            #[trigger] is_walk(table@, w) && w[0] == id@ && (!settled(table@, w.last()) || has_repeat(
                query_ids_view(old(path)@) + w,
            )),
    decreases table@.memos.dom().len() - old(path)@.len(),
{
    let ghost t = table@;
    let ghost s = query_ids_view(path@);
    let ghost one = seq![id@];
    if contains_id(clean, id) {
        return Verdict::Clean;
    }
    if contains_id(path, id) {
        proof {
            let i = choose|i: int| 0 <= i < s.len() && s[i] == id@;
            assert((s + one)[i] == (s + one)[s.len() as int]);
            assert(is_walk(t, one));
        }
        return Verdict::Dirty;
    }
    let memo = match table.get_memo_raw(id) {
        Some(m) => m,
        None => {
            assert(is_walk(t, one));
            return Verdict::Dirty;
        },
    };
    if memo.verified_at.0 == table.epoch().0 {
        let ghost before = clean@;
        clean.push(id.clone());
        proof {
            assert(clean@ == before.push(clean@.last()));
            lemma_id_set_push(before, clean@.last());
            lemma_clean_extend(t, id_set(before), id@);
            assert forall|b: IdView| #[trigger] dep_edge(t, id@, b) implies false by {}
        }
        return Verdict::Clean;
    }
    let ghost mv = memo@;
    let mut queries: Vec<QueryId> = Vec::new();
    let mut i: usize = 0;
    while i < memo.deps.len()
        invariant
            mv == memo@,
            mv == t.memos[id@],
            t == table@,
            clean@ == old(clean)@,
            path@ == old(path)@,
            closed_clean(t, id_set(clean@)),
            mv.verified_at != t.epoch,
            i <= memo.deps@.len(),
            forall|j: int|
                0 <= j < i ==> match #[trigger] mv.deps[j] {
                    DepView::Input(x) => t.inputs.contains_key(x) && t.inputs[x] <= mv.verified_at,
                    DepView::Query(q) => query_ids_view(queries@).contains(q) && t.memos.contains_key(q)
                        && t.memos[q].changed_at <= mv.verified_at,
                },
            forall|k: int| 0 <= k < queries@.len() ==> mv.deps.contains(DepView::Query(#[trigger] queries@[k]@)),
        decreases memo.deps.len() - i,
    {
        assert(mv.deps[i as int] == memo.deps@[i as int]@);
        match &memo.deps[i] {
            DepId::Input(x) => {
                let fresh = match table.input_changed_at(x) {
                    Some(at) => at.0 <= memo.verified_at.0,
                    None => false,
                };
                if !fresh {
                    proof {
                        assert(!inputs_unchanged(t, mv));
                        let w = seq![id@];
                        assert(is_walk(t, w) && w[0] == id@ && !settled(t, w.last()));
                    }
                    return Verdict::Dirty;
                }
            },
            DepId::Query(q) => {
                let current = match table.get_memo_raw(q) {
                    Some(child) => child.changed_at.0 <= memo.verified_at.0,
                    None => false,
                };
                if !current {
                    proof {
                        assert(!queries_unchanged(t, mv));
                        let w = seq![id@];
                        assert(is_walk(t, w) && w[0] == id@ && !settled(t, w.last()));
                    }
                    return Verdict::Dirty;
                }
                let ghost old_q = queries@;
                queries.push(q.clone());
                proof {
                    assert(queries@ == old_q.push(queries@.last()));
                    lemma_id_set_push(old_q, queries@.last());
                    let nv = query_ids_view(queries@);
                    let ov = query_ids_view(old_q);
                    assert(mv.deps.contains(DepView::Query(q@))) by {
                        assert(mv.deps[i as int] == DepView::Query(q@));
                    }
                    assert(nv[nv.len() - 1] == q@);
                    assert forall|j: int| 0 <= j < i implies match #[trigger] mv.deps[j] {
                        DepView::Input(x) => t.inputs.contains_key(x) && t.inputs[x] <= mv.verified_at,
                        DepView::Query(p) => nv.contains(p) && t.memos.contains_key(p)
                            && t.memos[p].changed_at <= mv.verified_at,
                    } by {
                        if let DepView::Query(p) = mv.deps[j] {
                            assert(ov.contains(p));
                            let jj = choose|jj: int| 0 <= jj < ov.len() && ov[jj] == p;
                            assert(nv[jj] == p);
                        }
                    }
                    assert forall|kk: int| 0 <= kk < queries@.len() implies mv.deps.contains(DepView::Query(#[trigger] queries@[kk]@)) by {
                        if kk < old_q.len() {
                            assert(old_q[kk] == queries@[kk]);
                        }
                    }
                }
            },
        }
        i = i + 1;
    }
    proof {
        assert(inputs_unchanged(t, mv));
        assert(queries_unchanged(t, mv));
        assert(reads_unchanged(t, mv));
        assert(settled(t, id@));
        table.lemma_memos_finite();
        lemma_unique_within(s, t.memos.dom());
    }
    let ghost old_clean = clean@;
    let ghost mid_path = s.push(id@);
    proof {
        lemma_id_set_push(path@, *id);
    }
    path.push(id.clone());
    proof {
        assert(query_ids_view(path@) == mid_path);
        assert(mid_path.no_duplicates()) by {
            assert forall|a: int, b: int| 0 <= a < b < mid_path.len() implies mid_path[a] != mid_path[b] by {
                if b == s.len() {
                    assert(s.contains(s[a]));
                }
            }
        }
        assert forall|k: int| 0 <= k < mid_path.len() implies t.memos.contains_key(#[trigger] mid_path[k]) by {
            if k < s.len() {
                assert(old(path)@[k]@ == s[k]);
            }
        }
        assert(is_walk(t, mid_path)) by {
            assert forall|j: int| 0 <= j < mid_path.len() - 1 implies #[trigger] walk_step(t, mid_path, j) by {
                if j < s.len() - 1 {
                    assert(walk_step(t, s, j));
                }
            }
        }
        lemma_unique_within(mid_path, t.memos.dom());
    }
    let mut k: usize = 0;
    while k < queries.len()
        invariant
            t == table@,
            mv == t.memos[id@],
            mv.verified_at != t.epoch,
            reads_unchanged(t, mv),
            !id_set(old_clean).contains(id@),
            forall|x: IdView|
                #[trigger] id_set(clean@).contains(x) && !id_set(old_clean).contains(x) ==> !mid_path.contains(x),
            k <= queries@.len(),
            query_ids_view(path@) == mid_path,
            s == query_ids_view(old(path)@),
            old_clean == old(clean)@,
            mid_path == s.push(id@),
            mid_path.no_duplicates(),
            is_walk(t, mid_path),
            forall|j: int| 0 <= j < mid_path.len() ==> t.memos.contains_key(#[trigger] mid_path[j]),
            mid_path.len() <= t.memos.dom().len(),
            closed_clean(t, id_set(clean@)),
            id_set(old_clean).subset_of(id_set(clean@)),
            forall|j: int| 0 <= j < k ==> id_set(clean@).contains(#[trigger] queries@[j]@),
            forall|j: int| 0 <= j < queries@.len() ==> mv.deps.contains(DepView::Query(#[trigger] queries@[j]@)),
        decreases queries.len() - k,
    {
        let ghost before = clean@;
        proof {
            assert(mv.deps.contains(DepView::Query(queries@[k as int]@)));
            assert(dep_edge(t, mid_path.last(), queries@[k as int]@));
            assert forall|j: int| 0 <= j < path@.len() implies table@.memos.contains_key(#[trigger] path@[j]@) by {
                assert(mid_path[j] == path@[j]@);
            }
        }
        let v = visit(table, &queries[k], clean, path);
        proof {
            assert forall|x: IdView|
                #[trigger] id_set(clean@).contains(x) && !id_set(old_clean).contains(x) implies !mid_path.contains(x) by {
                if id_set(before).contains(x) {
                } else {
                }
            }
        }
        if v == Verdict::Dirty {
            let ghost q = queries@[k as int]@;
            proof {
                let wq = choose|wq: Seq<IdView>| #[trigger] is_walk(t, wq) && wq[0] == q && (!settled(t, wq.last()) || has_repeat(mid_path + wq));
                lemma_walk_prepend(t, id@, wq);
                let w = seq![id@] + wq;
                assert(mid_path + wq =~= s + w);
                assert(is_walk(t, w) && w[0] == id@ && (!settled(t, w.last()) || has_repeat(s + w)));
            }
            let ghost prev = path@;
            path.pop();
            proof {
                lemma_id_view_drop_last(prev);
                assert(mid_path.drop_last() =~= s);
            }
            return Verdict::Dirty;
        }
        k = k + 1;
    }
    let ghost prev = path@;
    path.pop();
    proof {
        lemma_id_view_drop_last(prev);
        assert(mid_path.drop_last() =~= s);
    }
    let ghost before_push = clean@;
    clean.push(id.clone());
    proof {
        assert(clean@ == before_push.push(clean@.last()));
        lemma_id_set_push(before_push, clean@.last());
        let cs = id_set(before_push);
        assert(mid_path.contains(id@)) by {
            assert(mid_path[s.len() as int] == id@);
        }
        assert(!cs.contains(id@));
        assert forall|b: IdView| #[trigger] dep_edge(t, id@, b) implies cs.contains(b) by {
            let j = choose|j: int| 0 <= j < mv.deps.len() && mv.deps[j] == DepView::Query(b);
            assert(mv.deps[j] == DepView::Query(b));
            assert(query_ids_view(queries@).contains(b));
            let kk = choose|kk: int| 0 <= kk < queries@.len() && query_ids_view(queries@)[kk] == b;
            assert(queries@[kk]@ == b);
        }
        lemma_clean_extend(t, cs, id@);
        assert forall|x: IdView|
            #[trigger] id_set(clean@).contains(x) && !id_set(old(clean)@).contains(x) implies !s.contains(x) by {
            if x != id@ {
                assert(cs.contains(x));
                if s.contains(x) {
                    let a = choose|a: int| 0 <= a < s.len() && s[a] == x;
                    assert(mid_path[a] == x);
                }
            }
        }
    }
    Verdict::Clean
}

/// Validates the cached tree under `root`: `Clean` when every memo that
/// validation reaches is current, `Dirty` otherwise. A shared dependency is
/// validated once.
pub fn dep_tree_verdict<V>(table: &MemoTable<V>, root: &QueryId) -> (r: Verdict)
    ensures
        r == Verdict::Clean ==> !stale_reachable(table@, root@),
        r == Verdict::Dirty ==> stale_reachable(table@, root@) || cycle_reachable(table@, root@),
        r == Verdict::Clean <==> (!stale_reachable(table@, root@) && !cycle_reachable(table@, root@)),
{
    let mut clean: Vec<QueryId> = Vec::new();
    let mut path: Vec<QueryId> = Vec::new();
    proof {
        assert(id_set(clean@) =~= Set::<IdView>::empty());
        assert(query_ids_view(path@) =~= Seq::<IdView>::empty());
    }
    let r = visit(table, root, &mut clean, &mut path);
    proof {
        if r == Verdict::Clean {
            lemma_clean_not_stale(table@, id_set(clean@), root@);
        } else {
            let w = choose|w: Seq<IdView>| #[trigger] is_walk(table@, w) && w[0] == root@ && (!settled(table@, w.last()) || has_repeat(Seq::<IdView>::empty() + w));
            assert(Seq::<IdView>::empty() + w =~= w);
        }
    }
    r
}

} // verus!
