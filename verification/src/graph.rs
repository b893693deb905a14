//! Directed-graph algorithms over node identifiers: reachability closure with
//! breadth-first depth, and the level-by-level peeling of a DAG.

use vstd::prelude::*;

verus! {

/// An edge between two node identifiers, source first.
pub type IdEdge = (u128, u128);

/// Every node that an edge leads to from a node of `s`.
pub open spec fn successors(edges: Seq<IdEdge>, s: Set<u128>) -> Set<u128> {
    Set::new(|t: u128| exists|j: int| 0 <= j < edges.len() && s.contains(edges[j].0) && edges[j].1 == t)
}

/// The nodes reachable from `s0` by paths of at most `k` edges.
pub open spec fn within(edges: Seq<IdEdge>, s0: Set<u128>, k: nat) -> Set<u128>
    decreases k,
{
    if k == 0 {
        s0
    } else {
        within(edges, s0, (k - 1) as nat).union(successors(edges, within(edges, s0, (k - 1) as nat)))
    }
}

/// `t` can be reached from one of the nodes of `s0` by following edges.
pub open spec fn reaches(edges: Seq<IdEdge>, s0: Set<u128>, t: u128) -> bool {
    exists|k: nat| #[trigger] within(edges, s0, k).contains(t)
}

/// The edges with their direction reversed.
pub open spec fn reversed(edges: Seq<IdEdge>) -> Seq<IdEdge> {
    Seq::new(edges.len(), |j: int| (edges[j].1, edges[j].0))
}

/// The breadth-first depth: the least `d` at which the reachable set stops growing,
/// which is the largest shortest-path distance from `s0` to a reachable node.
pub open spec fn is_bfs_depth(edges: Seq<IdEdge>, s0: Set<u128>, d: nat) -> bool {
    &&& within(edges, s0, d + 1) == within(edges, s0, d)
    &&& forall|j: nat| j < d ==> #[trigger] within(edges, s0, j + 1) != within(edges, s0, j)
}

pub proof fn lemma_within_mono(edges: Seq<IdEdge>, s0: Set<u128>, a: nat, b: nat)
    requires
        a <= b,
    ensures
        within(edges, s0, a).subset_of(within(edges, s0, b)),
    decreases b,
{
    if a < b {
        lemma_within_mono(edges, s0, a, (b - 1) as nat);
    }
}

pub proof fn lemma_within_fixpoint(edges: Seq<IdEdge>, s0: Set<u128>, k: nat, m: nat)
    requires
        within(edges, s0, k + 1) == within(edges, s0, k),
        k <= m,
    ensures
        within(edges, s0, m) == within(edges, s0, k),
    decreases m,
{
    if m > k {
        lemma_within_fixpoint(edges, s0, k, (m - 1) as nat);
        assert(within(edges, s0, m) == within(edges, s0, ((m - 1) as nat) + 1));
    }
}

/// Number of edges whose target is outside `v`.
pub open spec fn count_unvisited(edges: Seq<IdEdge>, v: Set<u128>) -> nat
    decreases edges.len(),
{
    if edges.len() == 0 {
        0
    } else {
        count_unvisited(edges.drop_last(), v) + if v.contains(edges.last().1) {
            0nat
        } else {
            1nat
        }
    }
}

proof fn lemma_count_bound(edges: Seq<IdEdge>, v: Set<u128>)
    ensures
        count_unvisited(edges, v) <= edges.len(),
    decreases edges.len(),
{
    if edges.len() > 0 {
        lemma_count_bound(edges.drop_last(), v);
    }
}

proof fn lemma_count_mono(edges: Seq<IdEdge>, v1: Set<u128>, v2: Set<u128>)
    requires
        v1.subset_of(v2),
    ensures
        count_unvisited(edges, v2) <= count_unvisited(edges, v1),
        (exists|j: int|
            0 <= j < edges.len() && v2.contains(#[trigger] edges[j].1) && !v1.contains(edges[j].1))
            ==> count_unvisited(edges, v2) < count_unvisited(edges, v1),
    decreases edges.len(),
{
    if edges.len() > 0 {
        let pre = edges.drop_last();
        lemma_count_mono(pre, v1, v2);
        if exists|j: int|
            0 <= j < edges.len() && v2.contains(#[trigger] edges[j].1) && !v1.contains(edges[j].1) {
            let j = choose|j: int|
                0 <= j < edges.len() && v2.contains(#[trigger] edges[j].1) && !v1.contains(
                    edges[j].1,
                );
            if j < edges.len() - 1 {
                assert(pre[j] == edges[j]);
                assert(v2.contains(pre[j].1) && !v1.contains(pre[j].1));
            }
        }
    }
}

pub proof fn lemma_push_contains(s: Seq<u128>, x: u128)
    ensures
        forall|t: u128| #[trigger] s.push(x).contains(t) <==> (s.contains(t) || t == x),
{
    assert forall|t: u128| #[trigger] s.push(x).contains(t) <==> (s.contains(t) || t == x) by {
        if s.contains(t) {
            let i = choose|i: int| 0 <= i < s.len() && s[i] == t;
            assert(s.push(x)[i] == t);
        }
        if t == x {
            assert(s.push(x)[s.len() as int] == x);
        }
        if s.push(x).contains(t) {
            let i = choose|i: int| 0 <= i < s.len() + 1 && s.push(x)[i] == t;
            if i < s.len() {
                assert(s[i] == t);
            }
        }
    }
}

/// Whether `x` occurs in `v`.
pub fn contains_id(v: &Vec<u128>, x: u128) -> (b: bool)
    ensures
        b == v@.contains(x),
{
    let mut i: usize = 0;
    while i < v.len()
        invariant
            i <= v.len(),
            forall|j: int| 0 <= j < i ==> v@[j] != x,
        decreases v.len() - i,
    {
        if v[i] == x {
            return true;
        }
        i = i + 1;
    }
    false
}

/// The edges with their direction reversed.
pub fn reverse_edges(edges: &Vec<IdEdge>) -> (r: Vec<IdEdge>)
    ensures
        r@ == reversed(edges@),
{
    let mut r: Vec<IdEdge> = Vec::new();
    let mut i: usize = 0;
    while i < edges.len()
        invariant
            i <= edges.len(),
            r@ == reversed(edges@).take(i as int),
        decreases edges.len() - i,
    {
        let (a, b) = edges[i];
        r.push((b, a));
        i = i + 1;
        assert(r@ =~= reversed(edges@).take(i as int));
    }
    assert(r@ =~= reversed(edges@));
    r
}

/// Breadth-first closure of `sources` under `edges`.
///
/// Returns the reachable nodes (each once) and the breadth-first depth.
pub fn bfs_closure(edges: &Vec<IdEdge>, sources: &Vec<u128>) -> (r: (Vec<u128>, usize))
    ensures
        r.0@.no_duplicates(),
        forall|t: u128| r.0@.contains(t) <==> reaches(edges@, sources@.to_set(), t),
        is_bfs_depth(edges@, sources@.to_set(), r.1 as nat),
{
    let ghost e = edges@;
    let ghost s0 = sources@.to_set();
    let mut visited: Vec<u128> = Vec::new();
    let mut i: usize = 0;
    while i < sources.len()
        invariant
            i <= sources.len(),
            visited@.no_duplicates(),
            forall|t: u128| #[trigger] visited@.contains(t) <==> sources@.take(i as int).contains(t),
        decreases sources.len() - i,
    {
        let x = sources[i];
        proof {
            assert(sources@.take(i + 1) =~= sources@.take(i as int).push(x));
            lemma_push_contains(sources@.take(i as int), x);
            lemma_push_contains(visited@, x);
        }
        if !contains_id(&visited, x) {
            visited.push(x);
        }
        i = i + 1;
    }
    assert(sources@.take(sources.len() as int) =~= sources@);
    assert(visited@.to_set() =~= s0);
    let mut frontier: Vec<u128> = visited.clone();
    let mut k: usize = 0;
    proof {
        lemma_count_bound(e, s0);
    }
    loop
        invariant
            e == edges@,
            s0 == sources@.to_set(),
            visited@.no_duplicates(),
            visited@.to_set() == within(e, s0, k as nat),
            frontier@.to_set() == (if k == 0 {
                s0
            } else {
                within(e, s0, k as nat).difference(within(e, s0, (k - 1) as nat))
            }),
            forall|j: nat| j < k ==> #[trigger] within(e, s0, j + 1) != within(e, s0, j),
            k + count_unvisited(e, visited@.to_set()) <= e.len(),
        decreases count_unvisited(e, visited@.to_set()),
    {
        let ghost w = within(e, s0, k as nat);
        let mut next: Vec<u128> = Vec::new();
        let mut j: usize = 0;
        while j < edges.len()
            invariant
                e == edges@,
                j <= edges.len(),
                visited@.to_set() == w,
                next@.no_duplicates(),
                forall|t: u128|
                    #[trigger] next@.contains(t) <==> (!w.contains(t) && exists|jj: int|
                        0 <= jj < j && frontier@.contains(e[jj].0) && #[trigger] e[jj].1 == t),
            decreases edges.len() - j,
        {
            let (a, b) = edges[j];
            let fa = contains_id(&frontier, a);
            let vb = contains_id(&visited, b);
            let nb = contains_id(&next, b);
            let ghost next_before = next@;
            proof {
                lemma_push_contains(next@, b);
            }
            if fa && !vb && !nb {
                next.push(b);
            }
            proof {
                assert(a == e[j as int].0 && b == e[j as int].1);
                assert(vb == w.contains(b));
                assert forall|t: u128|
                    #[trigger] next@.contains(t) <==> (!w.contains(t) && exists|jj: int|
                        0 <= jj < j + 1 && frontier@.contains(e[jj].0) && #[trigger] e[jj].1
                            == t) by {
                    if next@.contains(t) {
                        if next_before.contains(t) {
                            let jj = choose|jj: int|
                                0 <= jj < j && frontier@.contains(e[jj].0) && #[trigger] e[jj].1
                                    == t;
                            assert(0 <= jj < j + 1 && frontier@.contains(e[jj].0) && e[jj].1 == t);
                        } else {
                            assert(t == b && fa && !vb);
                            assert(frontier@.contains(e[j as int].0) && e[j as int].1 == t);
                        }
                    }
                    if !w.contains(t) && exists|jj: int|
                        0 <= jj < j + 1 && frontier@.contains(e[jj].0) && #[trigger] e[jj].1 == t {
                        let jj = choose|jj: int|
                            0 <= jj < j + 1 && frontier@.contains(e[jj].0) && #[trigger] e[jj].1
                                == t;
                        if jj < j {
                            assert(next_before.contains(t));
                        } else {
                            assert(t == b && fa && !vb);
                        }
                    }
                }
            }
            j = j + 1;
        }
        // The new layer is exactly what one more step adds.
        proof {
            let w1 = within(e, s0, (k + 1) as nat);
            assert(w1 == w.union(successors(e, w)));
            assert forall|t: u128| w1.contains(t) <==> (w.contains(t) || next@.contains(t)) by {
                if w1.contains(t) && !w.contains(t) {
                    let jj = choose|jj: int|
                        0 <= jj < e.len() && w.contains(e[jj].0) && e[jj].1 == t;
                    if !frontier@.contains(e[jj].0) {
                        assert(!frontier@.to_set().contains(e[jj].0));
                        // then the source was already in the previous layer, so t is in w
                        assert(k > 0);
                        let wp = within(e, s0, (k - 1) as nat);
                        assert(wp.contains(e[jj].0));
                        assert(successors(e, wp).contains(t));
                        assert(w.contains(t));
                    }
                    assert(next@.contains(t));
                }
                if next@.contains(t) {
                    let jj = choose|jj: int|
                        0 <= jj < e.len() && frontier@.contains(e[jj].0) && #[trigger] e[jj].1
                            == t;
                    assert(frontier@.to_set().contains(e[jj].0));
                    assert(w.contains(e[jj].0));
                    assert(successors(e, w).contains(t));
                }
            }
        }
        if next.len() == 0 {
            proof {
                assert(within(e, s0, (k + 1) as nat) =~= within(e, s0, k as nat));
            }
            proof {
                assert forall|t: u128| visited@.contains(t) <==> reaches(e, s0, t) by {
                    if visited@.contains(t) {
                        assert(visited@.to_set().contains(t));
                        assert(within(e, s0, k as nat).contains(t));
                    }
                    if reaches(e, s0, t) {
                        let m = choose|m: nat| #[trigger] within(e, s0, m).contains(t);
                        if m <= k {
                            lemma_within_mono(e, s0, m, k as nat);
                        } else {
                            lemma_within_fixpoint(e, s0, k as nat, m);
                        }
                        assert(visited@.to_set().contains(t));
                    }
                }
            }
            return (visited, k);
        }
        let ghost old_vis = visited@.to_set();
        let mut q: usize = 0;
        while q < next.len()
            invariant
                q <= next.len(),
                next@.no_duplicates(),
                forall|t: u128| #[trigger] next@.contains(t) ==> !old_vis.contains(t),
                visited@.no_duplicates(),
                forall|t: u128|
                    #[trigger] visited@.contains(t) <==> (old_vis.contains(t) || next@.take(
                        q as int,
                    ).contains(t)),
            decreases next.len() - q,
        {
            let x = next[q];
            proof {
                assert(next@.take(q + 1) =~= next@.take(q as int).push(x));
                lemma_push_contains(next@.take(q as int), x);
                lemma_push_contains(visited@, x);
                assert(!visited@.contains(x)) by {
                    assert(next@.contains(x));
                    if next@.take(q as int).contains(x) {
                        let p = choose|p: int| 0 <= p < q && next@.take(q as int)[p] == x;
                        assert(next@[p] == next@[q as int]);
                    }
                }
            }
            visited.push(x);
            q = q + 1;
        }
        proof {
            assert(next@.take(next.len() as int) =~= next@);
            let w1 = within(e, s0, (k + 1) as nat);
            assert(visited@.to_set() =~= w1);
            assert(next@.to_set() =~= w1.difference(w));
            // Progress: the first new node is the target of some edge.
            let t0 = next@[0];
            assert(next@.contains(t0));
            let jj = choose|jj: int|
                0 <= jj < e.len() && frontier@.contains(e[jj].0) && #[trigger] e[jj].1 == t0;
            assert(visited@.to_set().contains(e[jj].1));
            lemma_count_mono(e, old_vis, visited@.to_set());
            assert(w1 != w) by {
                assert(w1.contains(t0));
            }
        }
        frontier = next;
        k = k + 1;
    }
}


/// The nodes of `ids` not yet in `done` whose every predecessor is in `done`.
pub open spec fn ready(ids: Seq<u128>, edges: Seq<IdEdge>, done: Set<u128>) -> Set<u128> {
    Set::new(
        |v: u128|
            ids.contains(v) && !done.contains(v) && forall|j: int|
                0 <= j < edges.len() && #[trigger] edges[j].1 == v ==> done.contains(edges[j].0),
    )
}

/// The nodes placed in the first `k` levels of the peeling.
pub open spec fn done_after(ids: Seq<u128>, edges: Seq<IdEdge>, k: nat) -> Set<u128>
    decreases k,
{
    if k == 0 {
        Set::empty()
    } else {
        let d = done_after(ids, edges, (k - 1) as nat);
        d.union(ready(ids, edges, d))
    }
}

/// The nodes of level `k`: those that become ready once the first `k` levels are done.
pub open spec fn level_set(ids: Seq<u128>, edges: Seq<IdEdge>, k: nat) -> Set<u128> {
    ready(ids, edges, done_after(ids, edges, k))
}

/// Every edge joins two of the given nodes.
pub open spec fn edges_within(ids: Seq<u128>, edges: Seq<IdEdge>) -> bool {
    forall|j: int| 0 <= j < edges.len() ==> ids.contains(#[trigger] edges[j].0) && ids.contains(edges[j].1)
}

/// A rank that every edge strictly increases.
pub open spec fn is_ranking(edges: Seq<IdEdge>, rank: spec_fn(u128) -> int) -> bool {
    forall|j: int| 0 <= j < edges.len() ==> rank(#[trigger] edges[j].0) < rank(edges[j].1)
}

/// The graph has no directed cycle: its nodes can be ranked so that every edge goes up.
pub open spec fn acyclic(edges: Seq<IdEdge>) -> bool {
    exists|rank: spec_fn(u128) -> int| is_ranking(edges, rank)
}

/// The elements of `ids` that belong to `s`, in their order.
pub open spec fn select(ids: Seq<u128>, s: Set<u128>) -> Seq<u128>
    decreases ids.len(),
{
    if ids.len() == 0 {
        Seq::empty()
    } else {
        let p = select(ids.drop_last(), s);
        if s.contains(ids.last()) {
            p.push(ids.last())
        } else {
            p
        }
    }
}

/// The levels of a successful peeling: level `k` lists, in node order, the nodes of `level_set(k)`;
/// all levels are non-empty and the peeling stops with every node placed.
pub open spec fn is_peeling(ids: Seq<u128>, edges: Seq<IdEdge>, levels: Seq<Seq<u128>>) -> bool {
    &&& forall|k: int|
        0 <= k < levels.len() ==> #[trigger] levels[k] == select(ids, level_set(ids, edges, k as nat))
            && levels[k].len() > 0
    &&& level_set(ids, edges, levels.len()) == Set::<u128>::empty()
    &&& forall|i: int| 0 <= i < ids.len() ==> done_after(ids, edges, levels.len()).contains(#[trigger] ids[i])
}

pub proof fn lemma_done_mono(ids: Seq<u128>, edges: Seq<IdEdge>, a: nat, b: nat)
    requires
        a <= b,
    ensures
        done_after(ids, edges, a).subset_of(done_after(ids, edges, b)),
    decreases b,
{
    if a < b {
        lemma_done_mono(ids, edges, a, (b - 1) as nat);
    }
}

proof fn lemma_done_has_level(ids: Seq<u128>, edges: Seq<IdEdge>, k: nat, v: u128) -> (k2: nat)
    requires
        done_after(ids, edges, k).contains(v),
    ensures
        k2 < k,
        level_set(ids, edges, k2).contains(v),
    decreases k,
{
    let d = done_after(ids, edges, (k - 1) as nat);
    if d.contains(v) {
        lemma_done_has_level(ids, edges, (k - 1) as nat, v)
    } else {
        (k - 1) as nat
    }
}

proof fn lemma_level_unique(ids: Seq<u128>, edges: Seq<IdEdge>, a: nat, b: nat, v: u128)
    requires
        level_set(ids, edges, a).contains(v),
        level_set(ids, edges, b).contains(v),
    ensures
        a == b,
{
    if a < b {
        lemma_done_mono(ids, edges, a + 1, b);
        assert(done_after(ids, edges, a + 1).contains(v));
    } else if b < a {
        lemma_done_mono(ids, edges, b + 1, a);
        assert(done_after(ids, edges, b + 1).contains(v));
    }
}

/// The level at which a placed node was placed.
pub open spec fn level_of(ids: Seq<u128>, edges: Seq<IdEdge>, v: u128) -> int {
    (choose|k: nat| #[trigger] level_set(ids, edges, k).contains(v)) as int
}

/// When every node gets placed, the level index is a ranking: every edge goes to a later level.
pub proof fn lemma_levels_rank(ids: Seq<u128>, edges: Seq<IdEdge>, n: nat)
    requires
        edges_within(ids, edges),
        forall|i: int| 0 <= i < ids.len() ==> done_after(ids, edges, n).contains(#[trigger] ids[i]),
    ensures
        is_ranking(edges, |v: u128| level_of(ids, edges, v)),
{
    assert forall|j: int| 0 <= j < edges.len() implies level_of(ids, edges, #[trigger] edges[j].0)
        < level_of(ids, edges, edges[j].1) by {
        let u = edges[j].0;
        let v = edges[j].1;
        let iv = choose|i: int| 0 <= i < ids.len() && ids[i] == v;
        assert(done_after(ids, edges, n).contains(ids[iv]));
        let kv = lemma_done_has_level(ids, edges, n, v);
        let kv2 = choose|k: nat| #[trigger] level_set(ids, edges, k).contains(v);
        lemma_level_unique(ids, edges, kv, kv2, v);
        assert(done_after(ids, edges, kv).contains(u));
        let ku = lemma_done_has_level(ids, edges, kv, u);
        let ku2 = choose|k: nat| #[trigger] level_set(ids, edges, k).contains(u);
        lemma_level_unique(ids, edges, ku, ku2, u);
    }
}

proof fn lemma_min_rank(ids: Seq<u128>, done: Set<u128>, rank: spec_fn(u128) -> int, w: u128) -> (m: u128)
    requires
        ids.contains(w),
        !done.contains(w),
    ensures
        ids.contains(m),
        !done.contains(m),
        forall|x: u128| ids.contains(x) && !done.contains(x) ==> rank(m) <= rank(x),
    decreases ids.len(),
{
    let pre = ids.drop_last();
    let last = ids.last();
    if exists|x: u128| pre.contains(x) && !done.contains(x) {
        let x = choose|x: u128| pre.contains(x) && !done.contains(x);
        let m1 = lemma_min_rank(pre, done, rank, x);
        let m = if !done.contains(last) && rank(last) < rank(m1) {
            last
        } else {
            m1
        };
        assert forall|y: u128| ids.contains(y) && !done.contains(y) implies rank(m) <= rank(y) by {
            let i = choose|i: int| 0 <= i < ids.len() && ids[i] == y;
            if i < ids.len() - 1 {
                assert(pre[i] == y);
            }
        }
        assert(ids.contains(m)) by {
            if m == m1 {
                let i = choose|i: int| 0 <= i < pre.len() && pre[i] == m1;
                assert(ids[i] == m1);
            } else {
                assert(ids[ids.len() - 1] == last);
            }
        }
        m
    } else {
        let i = choose|i: int| 0 <= i < ids.len() && ids[i] == w;
        if i < ids.len() - 1 {
            assert(pre[i] == w);
        }
        assert forall|y: u128| ids.contains(y) && !done.contains(y) implies rank(last) <= rank(y) by {
            let i2 = choose|i2: int| 0 <= i2 < ids.len() && ids[i2] == y;
            if i2 < ids.len() - 1 {
                assert(pre[i2] == y);
            }
        }
        last
    }
}

/// If the peeling stalls before every node is placed, the graph has a cycle.
pub proof fn lemma_stall_not_acyclic(ids: Seq<u128>, edges: Seq<IdEdge>, n: nat, w: u128)
    requires
        edges_within(ids, edges),
        level_set(ids, edges, n) == Set::<u128>::empty(),
        ids.contains(w),
        !done_after(ids, edges, n).contains(w),
    ensures
        !acyclic(edges),
{
    let done = done_after(ids, edges, n);
    if acyclic(edges) {
        let rank = choose|rank: spec_fn(u128) -> int| is_ranking(edges, rank);
        let m = lemma_min_rank(ids, done, rank, w);
        assert(!level_set(ids, edges, n).contains(m));
        let j = choose|j: int|
            0 <= j < edges.len() && #[trigger] edges[j].1 == m && !done.contains(edges[j].0);
        assert(ids.contains(edges[j].0));
        assert(rank(edges[j].0) < rank(edges[j].1));
    }
}

/// Number of `false` entries.
pub open spec fn count_false(s: Seq<bool>) -> nat
    decreases s.len(),
{
    if s.len() == 0 {
        0
    } else {
        count_false(s.drop_last()) + if s.last() {
            0nat
        } else {
            1nat
        }
    }
}

proof fn lemma_count_false_bound(a: Seq<bool>)
    ensures
        count_false(a) <= a.len(),
    decreases a.len(),
{
    if a.len() > 0 {
        lemma_count_false_bound(a.drop_last());
    }
}

proof fn lemma_count_false_dec(a: Seq<bool>, b: Seq<bool>, i: int)
    requires
        a.len() == b.len(),
        forall|x: int| 0 <= x < a.len() ==> a[x] ==> b[x],
        0 <= i < a.len(),
        !a[i],
        b[i],
    ensures
        count_false(b) < count_false(a),
    decreases a.len(),
{
    lemma_count_false_le(a.drop_last(), b.drop_last());
    if i < a.len() - 1 {
        lemma_count_false_dec(a.drop_last(), b.drop_last(), i);
    }
}

proof fn lemma_count_false_le(a: Seq<bool>, b: Seq<bool>)
    requires
        a.len() == b.len(),
        forall|x: int| 0 <= x < a.len() ==> a[x] ==> b[x],
    ensures
        count_false(b) <= count_false(a),
    decreases a.len(),
{
    if a.len() > 0 {
        lemma_count_false_le(a.drop_last(), b.drop_last());
    }
}

/// The position of the first occurrence of `x`.
pub fn find_index(v: &Vec<u128>, x: u128) -> (r: Option<usize>)
    ensures
        match r {
            Some(i) => i < v@.len() && v@[i as int] == x,
            None => !v@.contains(x),
        },
{
    let mut i: usize = 0;
    while i < v.len()
        invariant
            i <= v.len(),
            forall|j: int| 0 <= j < i ==> v@[j] != x,
        decreases v.len() - i,
    {
        if v[i] == x {
            return Some(i);
        }
        i = i + 1;
    }
    None
}

/// Whether no identifier occurs twice.
pub fn all_distinct(v: &Vec<u128>) -> (b: bool)
    ensures
        b == v@.no_duplicates(),
{
    let mut i: usize = 0;
    while i < v.len()
        invariant
            i <= v.len(),
            forall|a: int, c: int| 0 <= a < i && 0 <= c < v.len() && a != c ==> v@[a] != v@[c],
        decreases v.len() - i,
    {
        let mut j: usize = 0;
        while j < v.len()
            invariant
                i < v.len(),
                j <= v.len(),
                forall|a: int, c: int| 0 <= a < i && 0 <= c < v.len() && a != c ==> v@[a] != v@[c],
                forall|c: int| 0 <= c < j && c != i ==> v@[i as int] != v@[c],
            decreases v.len() - j,
        {
            if j != i && v[i] == v[j] {
                return false;
            }
            j = j + 1;
        }
        i = i + 1;
    }
    true
}

/// Whether the node at position `i` is ready: not done, and the source of every
/// edge into it is done.
fn is_ready(ids: &Vec<u128>, edges: &Vec<IdEdge>, done: &Vec<bool>, i: usize, Ghost(d): Ghost<Set<u128>>) -> (b: bool)
    requires
        edges_within(ids@, edges@),
        i < ids@.len(),
        done@.len() == ids@.len(),
        forall|x: int| 0 <= x < ids@.len() ==> (#[trigger] done@[x] <==> d.contains(ids@[x])),
    ensures
        b == ready(ids@, edges@, d).contains(ids@[i as int]),
{
    if done[i] {
        assert(d.contains(ids@[i as int]));
        return false;
    }
    let v = ids[i];
    let mut j: usize = 0;
    while j < edges.len()
        invariant
            edges_within(ids@, edges@),
            done@.len() == ids@.len(),
            forall|x: int| 0 <= x < ids@.len() ==> (#[trigger] done@[x] <==> d.contains(ids@[x])),
            i < ids@.len(),
            v == ids@[i as int],
            !d.contains(v),
            j <= edges.len(),
            forall|jj: int| 0 <= jj < j && #[trigger] edges@[jj].1 == v ==> d.contains(edges@[jj].0),
        decreases edges.len() - j,
    {
        let (a, b) = edges[j];
        if b == v {
            match find_index(ids, a) {
                Some(ia) => {
                    if !done[ia] {
                        assert(!d.contains(edges@[j as int].0));
                        assert(edges@[j as int].1 == ids@[i as int]);
                        return false;
                    }
                },
                None => {
                    assert(ids@.contains(edges@[j as int].0));
                },
            }
        }
        j = j + 1;
    }
    assert(ids@.contains(v));
    true
}

/// Peel the graph level by level: level 0 holds the nodes without predecessors, and each
/// following level the nodes whose predecessors all lie in earlier levels.
///
/// Returns `None` when the identifiers are not distinct or the graph has a cycle.
pub fn peel_levels(ids: &Vec<u128>, edges: &Vec<IdEdge>) -> (r: Option<Vec<Vec<u128>>>)
    requires
        edges_within(ids@, edges@),
    ensures
        r is Some <==> (ids@.no_duplicates() && acyclic(edges@)),
        r matches Some(levels) ==> is_peeling(ids@, edges@, levels@.map_values(|l: Vec<u128>| l@)),
{
    if !all_distinct(ids) {
        return None;
    }
    let n = ids.len();
    let mut done: Vec<bool> = Vec::new();
    let mut i: usize = 0;
    while i < n
        invariant
            n == ids@.len(),
            i <= n,
            done@.len() == i,
            forall|x: int| 0 <= x < i ==> !(#[trigger] done@[x]),
        decreases n - i,
    {
        done.push(false);
        i = i + 1;
    }
    let mut levels: Vec<Vec<u128>> = Vec::new();
    let mut k: usize = 0;
    proof {
        lemma_count_false_bound(done@);
    }
    let ghost ie = ids@;
    let ghost ee = edges@;
    loop
        invariant
            ie == ids@,
            ee == edges@,
            n == ids@.len(),
            edges_within(ie, ee),
            ie.no_duplicates(),
            done@.len() == n,
            forall|x: int| 0 <= x < n ==> (#[trigger] done@[x] <==> done_after(ie, ee, k as nat).contains(ie[x])),
            levels@.len() == k,
            forall|kk: int|
                0 <= kk < k ==> #[trigger] levels@[kk]@ == select(ie, level_set(ie, ee, kk as nat))
                    && levels@[kk]@.len() > 0,
            k + count_false(done@) <= n,
        decreases count_false(done@),
    {
        let ghost d = done_after(ie, ee, k as nat);
        let mut rd: Vec<bool> = Vec::new();
        let mut level: Vec<u128> = Vec::new();
        let mut i: usize = 0;
        while i < n
            invariant
                ie == ids@,
                ee == edges@,
                n == ids@.len(),
                edges_within(ie, ee),
                done@.len() == n,
                forall|x: int| 0 <= x < n ==> (#[trigger] done@[x] <==> d.contains(ie[x])),
                i <= n,
                rd@.len() == i,
                forall|x: int| 0 <= x < i ==> (#[trigger] rd@[x] <==> ready(ie, ee, d).contains(ie[x])),
                level@ == select(ie.take(i as int), ready(ie, ee, d)),
            decreases n - i,
        {
            let b = is_ready(ids, edges, &done, i, Ghost(d));
            rd.push(b);
            if b {
                level.push(ids[i]);
            }
            proof {
                assert(ie.take(i + 1).drop_last() =~= ie.take(i as int));
                assert(ie.take(i + 1).last() == ie[i as int]);
            }
            i = i + 1;
        }
        proof {
            assert(ie.take(n as int) =~= ie);
        }
        if level.len() == 0 {
            // The peeling has stalled: succeed exactly when every node is placed.
            proof {
                assert forall|x: int| 0 <= x < n implies !ready(ie, ee, d).contains(#[trigger] ie[x]) by {
                    if ready(ie, ee, d).contains(ie[x]) {
                        lemma_select_contains(ie, ready(ie, ee, d), x);
                    }
                }
                assert(level_set(ie, ee, k as nat) =~= Set::<u128>::empty());
            }
            let mut x: usize = 0;
            while x < n
                invariant
                    n == ids@.len(),
                    ie == ids@,
                    ee == edges@,
                    edges_within(ie, ee),
                    level_set(ie, ee, k as nat) == Set::<u128>::empty(),
                    forall|y: int| 0 <= y < n ==> (#[trigger] done@[y] <==> d.contains(ie[y])),
                    d == done_after(ie, ee, k as nat),
                    done@.len() == n,
                    x <= n,
                    forall|y: int| 0 <= y < x ==> #[trigger] done@[y],
                decreases n - x,
            {
                if !done[x] {
                    proof {
                        lemma_stall_not_acyclic(ie, ee, k as nat, ie[x as int]);
                    }
                    return None;
                }
                x = x + 1;
            }
            proof {
                assert forall|y: int| 0 <= y < ie.len() implies done_after(ie, ee, k as nat).contains(
                    #[trigger] ie[y],
                ) by {
                    assert(done@[y]);
                }
                lemma_levels_rank(ie, ee, k as nat);
                let lv = levels@.map_values(|l: Vec<u128>| l@);
                assert(lv.len() == k);
                assert forall|kk: int| 0 <= kk < lv.len() implies #[trigger] lv[kk] == select(
                    ie,
                    level_set(ie, ee, kk as nat),
                ) && lv[kk].len() > 0 by {
                    assert(lv[kk] == levels@[kk]@);
                }
                assert forall|y: int| 0 <= y < ie.len() implies done_after(ie, ee, lv.len()).contains(
                    #[trigger] ie[y],
                ) by {
                    assert(done@[y]);
                }
            }
            return Some(levels);
        }
        let ghost old_done = done@;
        let mut y: usize = 0;
        while y < n
            invariant
                n == ids@.len(),
                done@.len() == n,
                rd@.len() == n,
                old_done.len() == n,
                y <= n,
                forall|x: int| 0 <= x < y ==> #[trigger] done@[x] == (old_done[x] || rd@[x]),
                forall|x: int| y <= x < n ==> #[trigger] done@[x] == old_done[x],
            decreases n - y,
        {
            if rd[y] {
                done.set(y, true);
            }
            y = y + 1;
        }
        proof {
            let d2 = done_after(ie, ee, (k + 1) as nat);
            assert(d2 == d.union(ready(ie, ee, d)));
            assert forall|x: int| 0 <= x < n implies (#[trigger] done@[x] <==> d2.contains(ie[x])) by {
                assert(done@[x] == (old_done[x] || rd@[x]));
            }
            // Progress: some node of the level was not done before.
            let v0 = level@[0];
            lemma_select_member(ie, ready(ie, ee, d), 0);
            let x0 = choose|x: int| 0 <= x < ie.len() && ie[x] == v0;
            assert(rd@[x0]);
            assert(!old_done[x0]);
            lemma_count_false_dec(old_done, done@, x0);
        }
        levels.push(level);
        k = k + 1;
        proof {
            assert forall|kk: int|
                0 <= kk < k implies #[trigger] levels@[kk]@ == select(ie, level_set(ie, ee, kk as nat))
                && levels@[kk]@.len() > 0 by {
                if kk == k - 1 {
                    assert(levels@[kk]@ == level@);
                }
            }
        }
    }
}

proof fn lemma_select_contains(ids: Seq<u128>, s: Set<u128>, x: int)
    requires
        0 <= x < ids.len(),
        s.contains(ids[x]),
    ensures
        select(ids, s).len() > 0,
    decreases ids.len(),
{
    if x < ids.len() - 1 {
        lemma_select_contains(ids.drop_last(), s, x);
        assert(ids.drop_last()[x] == ids[x]);
    }
}

proof fn lemma_select_member(ids: Seq<u128>, s: Set<u128>, i: int)
    requires
        0 <= i < select(ids, s).len(),
    ensures
        ids.contains(select(ids, s)[i]),
        s.contains(select(ids, s)[i]),
    decreases ids.len(),
{
    let p = select(ids.drop_last(), s);
    if i < p.len() {
        lemma_select_member(ids.drop_last(), s, i);
        let w = choose|w: int| 0 <= w < ids.drop_last().len() && ids.drop_last()[w] == p[i];
        assert(ids[w] == p[i]);
    } else {
        assert(ids[ids.len() - 1] == ids.last());
    }
}

proof fn lemma_select_includes(ids: Seq<u128>, s: Set<u128>, i: int)
    requires
        0 <= i < ids.len(),
        s.contains(ids[i]),
    ensures
        select(ids, s).contains(ids[i]),
    decreases ids.len(),
{
    let pre = select(ids.drop_last(), s);
    if i < ids.len() - 1 {
        lemma_select_includes(ids.drop_last(), s, i);
        assert(ids.drop_last()[i] == ids[i]);
        let w = choose|w: int| 0 <= w < pre.len() && pre[w] == ids[i];
        assert(select(ids, s)[w] == ids[i]);
    } else {
        assert(select(ids, s)[pre.len() as int] == ids[i]);
    }
}

proof fn lemma_select_subset(ids: Seq<u128>, s: Set<u128>, x: u128)
    requires
        select(ids, s).contains(x),
    ensures
        s.contains(x),
        ids.contains(x),
{
    let w = choose|w: int| 0 <= w < select(ids, s).len() && select(ids, s)[w] == x;
    lemma_select_member(ids, s, w);
}

/// In a successful peeling every edge leads from an earlier level to a later one.
pub proof fn lemma_peeling_orders_edges(
    ids: Seq<u128>,
    edges: Seq<IdEdge>,
    levels: Seq<Seq<u128>>,
    j: int,
    a: int,
    b: int,
)
    requires
        is_peeling(ids, edges, levels),
        0 <= j < edges.len(),
        0 <= a < levels.len(),
        0 <= b < levels.len(),
        levels[a].contains(edges[j].0),
        levels[b].contains(edges[j].1),
    ensures
        a < b,
{
    let u = edges[j].0;
    let v = edges[j].1;
    assert(levels[a] == select(ids, level_set(ids, edges, a as nat)));
    assert(levels[b] == select(ids, level_set(ids, edges, b as nat)));
    lemma_select_subset(ids, level_set(ids, edges, a as nat), u);
    lemma_select_subset(ids, level_set(ids, edges, b as nat), v);
    assert(done_after(ids, edges, b as nat).contains(u));
    let k = lemma_done_has_level(ids, edges, b as nat, u);
    lemma_level_unique(ids, edges, k, a as nat, u);
}

/// In a successful peeling every node lies in a level, and in one level only.
pub proof fn lemma_peeling_covers(ids: Seq<u128>, edges: Seq<IdEdge>, levels: Seq<Seq<u128>>, i: int)
    requires
        is_peeling(ids, edges, levels),
        0 <= i < ids.len(),
    ensures
        exists|k: int| 0 <= k < levels.len() && #[trigger] levels[k].contains(ids[i]),
        forall|a: int, b: int|
            0 <= a < levels.len() && 0 <= b < levels.len() && #[trigger] levels[a].contains(ids[i])
                && #[trigger] levels[b].contains(ids[i]) ==> a == b,
{
    let x = ids[i];
    assert(done_after(ids, edges, levels.len()).contains(x));
    let k = lemma_done_has_level(ids, edges, levels.len(), x);
    lemma_select_includes(ids, level_set(ids, edges, k), i);
    assert(levels[k as int] == select(ids, level_set(ids, edges, k)));
    assert forall|a: int, b: int|
        0 <= a < levels.len() && 0 <= b < levels.len() && #[trigger] levels[a].contains(ids[i])
            && #[trigger] levels[b].contains(ids[i]) implies a == b by {
        assert(levels[a] == select(ids, level_set(ids, edges, a as nat)));
        assert(levels[b] == select(ids, level_set(ids, edges, b as nat)));
        lemma_select_subset(ids, level_set(ids, edges, a as nat), x);
        lemma_select_subset(ids, level_set(ids, edges, b as nat), x);
        lemma_level_unique(ids, edges, a as nat, b as nat, x);
    }
}

/// The nodes of the levels, level after level.
pub open spec fn levels_in_order(levels: Seq<Seq<u128>>) -> Seq<u128>
    decreases levels.len(),
{
    if levels.len() == 0 {
        Seq::empty()
    } else {
        levels_in_order(levels.drop_last()) + levels.last()
    }
}

proof fn lemma_select_no_dup(ids: Seq<u128>, s: Set<u128>)
    requires
        ids.no_duplicates(),
    ensures
        select(ids, s).no_duplicates(),
    decreases ids.len(),
{
    if ids.len() > 0 {
        let d = ids.drop_last();
        assert(d.no_duplicates());
        lemma_select_no_dup(d, s);
        let p = select(d, s);
        if s.contains(ids.last()) {
            assert forall|a: int, b: int| 0 <= a < b < p.push(ids.last()).len() implies p.push(ids.last())[a]
                != p.push(ids.last())[b] by {
                if b == p.len() {
                    lemma_select_member(d, s, a);
                    let w = choose|w: int| 0 <= w < d.len() && d[w] == p[a];
                    assert(ids[w] == d[w]);
                    assert(ids[ids.len() - 1] == ids.last());
                }
            }
        }
    }
}

proof fn lemma_order_distinct(ls: Seq<Seq<u128>>)
    requires
        forall|k: int| 0 <= k < ls.len() ==> (#[trigger] ls[k]).no_duplicates(),
        forall|a: int, b: int, x: u128|
            0 <= a < ls.len() && 0 <= b < ls.len() && #[trigger] ls[a].contains(x) && #[trigger] ls[b].contains(x)
                ==> a == b,
    ensures
        levels_in_order(ls).no_duplicates(),
        forall|x: u128| levels_in_order(ls).contains(x) <==> exists|k: int| 0 <= k < ls.len() && #[trigger] ls[k].contains(x),
    decreases ls.len(),
{
    if ls.len() > 0 {
        let d = ls.drop_last();
        assert forall|k: int| 0 <= k < d.len() implies (#[trigger] d[k]).no_duplicates() by {
            assert(d[k] == ls[k]);
        }
        assert forall|a: int, b: int, x: u128|
            0 <= a < d.len() && 0 <= b < d.len() && #[trigger] d[a].contains(x) && #[trigger] d[b].contains(x) implies a
                == b by {
            assert(d[a] == ls[a] && d[b] == ls[b]);
        }
        lemma_order_distinct(d);
        let p = levels_in_order(d);
        let l = ls.last();
        assert(l == ls[ls.len() - 1]);
        assert forall|i: int, j: int| 0 <= i < j < (p + l).len() implies (p + l)[i] != (p + l)[j] by {
            if j >= p.len() && i < p.len() {
                let x = p[i];
                assert(p.contains(x));
                let k = choose|k: int| 0 <= k < d.len() && #[trigger] d[k].contains(x);
                assert(d[k] == ls[k]);
                if (p + l)[j] == x {
                    assert(l[j - p.len()] == x);
                    assert(ls[ls.len() - 1].contains(x));
                }
            } else if i >= p.len() {
                assert((p + l)[i] == l[i - p.len()]);
                assert((p + l)[j] == l[j - p.len()]);
            }
        }
        assert forall|x: u128| (p + l).contains(x) <==> exists|k: int| 0 <= k < ls.len() && #[trigger] ls[k].contains(x) by {
            if (p + l).contains(x) {
                let i = choose|i: int| 0 <= i < (p + l).len() && (p + l)[i] == x;
                if i < p.len() {
                    assert(p.contains(x));
                    let k = choose|k: int| 0 <= k < d.len() && #[trigger] d[k].contains(x);
                    assert(d[k] == ls[k]);
                } else {
                    assert(l[i - p.len()] == x);
                    assert(ls[ls.len() - 1].contains(x));
                }
            }
            if exists|k: int| 0 <= k < ls.len() && #[trigger] ls[k].contains(x) {
                let k = choose|k: int| 0 <= k < ls.len() && #[trigger] ls[k].contains(x);
                if k < ls.len() - 1 {
                    assert(d[k] == ls[k]);
                    assert(p.contains(x));
                    let i = choose|i: int| 0 <= i < p.len() && p[i] == x;
                    assert((p + l)[i] == x);
                } else {
                    let i = choose|i: int| 0 <= i < l.len() && l[i] == x;
                    assert((p + l)[p.len() + i] == x);
                }
            }
        }
    }
}

/// The levels of a successful peeling hold every node exactly once: taken level after
/// level, they hold no node twice and exactly the nodes of the workflow.
pub proof fn lemma_peeling_order(ids: Seq<u128>, edges: Seq<IdEdge>, levels: Seq<Seq<u128>>)
    requires
        is_peeling(ids, edges, levels),
        ids.no_duplicates(),
    ensures
        levels_in_order(levels).no_duplicates(),
        forall|x: u128| levels_in_order(levels).contains(x) <==> ids.contains(x),
{
    assert forall|k: int| 0 <= k < levels.len() implies (#[trigger] levels[k]).no_duplicates() by {
        lemma_select_no_dup(ids, level_set(ids, edges, k as nat));
    }
    assert forall|a: int, b: int, x: u128|
        0 <= a < levels.len() && 0 <= b < levels.len() && #[trigger] levels[a].contains(x) && #[trigger] levels[b].contains(x)
            implies a == b by {
        let i = choose|i: int| 0 <= i < levels[a].len() && levels[a][i] == x;
        lemma_select_member(ids, level_set(ids, edges, a as nat), i);
        let w = choose|w: int| 0 <= w < ids.len() && ids[w] == x;
        lemma_peeling_covers(ids, edges, levels, w);
    }
    lemma_order_distinct(levels);
    assert forall|x: u128| levels_in_order(levels).contains(x) <==> ids.contains(x) by {
        if ids.contains(x) {
            let w = choose|w: int| 0 <= w < ids.len() && ids[w] == x;
            lemma_peeling_covers(ids, edges, levels, w);
        }
        if exists|k: int| 0 <= k < levels.len() && #[trigger] levels[k].contains(x) {
            let k = choose|k: int| 0 <= k < levels.len() && #[trigger] levels[k].contains(x);
            let i = choose|i: int| 0 <= i < levels[k].len() && levels[k][i] == x;
            lemma_select_member(ids, level_set(ids, edges, k as nat), i);
        }
    }
}

} // verus!
