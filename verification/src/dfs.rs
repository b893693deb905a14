//! Depth-first search from a list of roots, giving the nodes in finishing order.
//! A node met again while it is still on the search path closes a cycle and is
//! skipped, so the search ends on every graph.

use vstd::prelude::*;
use crate::graph::{contains_id, lemma_push_contains, reaches, successors, within, IdEdge};

verus! {

/// `b` can be reached from `a` (by zero or more edges).
pub open spec fn reach1(edges: Seq<IdEdge>, a: u128, b: u128) -> bool {
    reaches(edges, set![a], b)
}

/// Every edge leaving a finished node leads to a finished node or to one on the path.
pub open spec fn closed_rel(edges: Seq<IdEdge>, done: Seq<u128>, path: Seq<u128>) -> bool {
    forall|j: int|
        0 <= j < edges.len() && done.contains(#[trigger] edges[j].0) ==> done.contains(edges[j].1) || path.contains(
            edges[j].1,
        )
}

/// Every edge leaving a node of `done` leads to a node that finished before it, unless
/// it closes a cycle (its target reaches its source).
pub open spec fn finish_ordered(edges: Seq<IdEdge>, done: Seq<u128>) -> bool {
    forall|a: int, j: int|
        0 <= a < done.len() && 0 <= j < edges.len() && #[trigger] done[a] == #[trigger] edges[j].0
            ==> done.take(a).contains(edges[j].1) || reach1(edges, edges[j].1, edges[j].0)
}

/// No node is both on the path and finished.
pub open spec fn disjoint(a: Seq<u128>, b: Seq<u128>) -> bool {
    forall|x: u128| a.contains(x) ==> !b.contains(x)
}

pub proof fn lemma_reaches_refl(edges: Seq<IdEdge>, s0: Set<u128>, a: u128)
    requires
        s0.contains(a),
    ensures
        reaches(edges, s0, a),
{
    assert(within(edges, s0, 0).contains(a));
}

pub proof fn lemma_reaches_step(edges: Seq<IdEdge>, s0: Set<u128>, j: int)
    requires
        0 <= j < edges.len(),
        reaches(edges, s0, edges[j].0),
    ensures
        reaches(edges, s0, edges[j].1),
{
    let k = choose|k: nat| #[trigger] within(edges, s0, k).contains(edges[j].0);
    assert(successors(edges, within(edges, s0, k)).contains(edges[j].1));
    assert(within(edges, s0, k + 1).contains(edges[j].1));
}

proof fn lemma_path_room(path: Seq<u128>, u: Set<u128>, x: u128)
    requires
        u.finite(),
        path.no_duplicates(),
        forall|i: int| 0 <= i < path.len() ==> u.contains(path[i]),
        u.contains(x),
        !path.contains(x),
    ensures
        path.len() + 1 <= u.len(),
{
    let p = path.push(x);
    assert(p.no_duplicates()) by {
        assert forall|a: int, b: int| 0 <= a < b < p.len() implies p[a] != p[b] by {
            if b == path.len() {
                assert(path[a] == p[a]);
            }
        }
    }
    p.unique_seq_to_set();
    assert(p.to_set().subset_of(u)) by {
        assert forall|y: u128| p.to_set().contains(y) implies u.contains(y) by {
            let i = choose|i: int| 0 <= i < p.len() && p[i] == y;
            if i < path.len() {
                assert(path[i] == y);
            }
        }
    }
    vstd::set_lib::lemma_len_subset(p.to_set(), u);
}

fn dfs_visit(
    edges: &Vec<IdEdge>,
    node: u128,
    path: &mut Vec<u128>,
    done: &mut Vec<u128>,
    Ghost(u): Ghost<Set<u128>>,
    Ghost(s0): Ghost<Set<u128>>,
)
    requires
        u.finite(),
        u.contains(node),
        forall|j: int| 0 <= j < edges@.len() ==> u.contains(#[trigger] edges@[j].1),
        forall|i: int| 0 <= i < old(path)@.len() ==> u.contains(old(path)@[i]),
        old(path)@.no_duplicates(),
        old(done)@.no_duplicates(),
        disjoint(old(path)@, old(done)@),
        closed_rel(edges@, old(done)@, old(path)@),
        finish_ordered(edges@, old(done)@),
        forall|i: int| 0 <= i < old(path)@.len() ==> reach1(edges@, #[trigger] old(path)@[i], node),
        reaches(edges@, s0, node),
        forall|i: int| 0 <= i < old(done)@.len() ==> reaches(edges@, s0, #[trigger] old(done)@[i]),
    ensures
        final(path)@ == old(path)@,
        old(done)@.len() <= final(done)@.len(),
        final(done)@.take(old(done)@.len() as int) == old(done)@,
        final(done)@.no_duplicates(),
        disjoint(old(path)@, final(done)@),
        closed_rel(edges@, final(done)@, old(path)@),
        finish_ordered(edges@, final(done)@),
        final(done)@.contains(node) || old(path)@.contains(node),
        forall|i: int| 0 <= i < final(done)@.len() ==> reaches(edges@, s0, #[trigger] final(done)@[i]),
    decreases u.len() - old(path)@.len(),
{
    if contains_id(done, node) || contains_id(path, node) {
        assert(done@.take(done@.len() as int) =~= done@);
        return;
    }
    proof {
        lemma_path_room(path@, u, node);
    }
    let ghost path0 = path@;
    let ghost done0 = done@;
    path.push(node);
    proof {
        lemma_push_contains(path0, node);
    }
    let mut j: usize = 0;
    while j < edges.len()
        invariant
            u.finite(),
            u.contains(node),
            forall|k: int| 0 <= k < edges@.len() ==> u.contains(#[trigger] edges@[k].1),
            forall|i: int| 0 <= i < path0.len() ==> u.contains(path0[i]),
            path0.len() + 1 <= u.len(),
            path@ == path0.push(node),
            path0 == old(path)@,
            forall|t: u128| #[trigger] path@.contains(t) <==> (path0.contains(t) || t == node),
            path0.no_duplicates(),
            !path0.contains(node),
            !done0.contains(node),
            j <= edges@.len(),
            done0.len() <= done@.len(),
            done@.take(done0.len() as int) == done0,
            done@.no_duplicates(),
            disjoint(path@, done@),
            closed_rel(edges@, done@, path@),
            finish_ordered(edges@, done@),
            forall|i: int| 0 <= i < path0.len() ==> reach1(edges@, #[trigger] path0[i], node),
            reaches(edges@, s0, node),
            forall|i: int| 0 <= i < done@.len() ==> reaches(edges@, s0, #[trigger] done@[i]),
            forall|k: int|
                0 <= k < j && #[trigger] edges@[k].0 == node ==> done@.contains(edges@[k].1) || path@.contains(
                    edges@[k].1,
                ),
        decreases edges.len() - j,
    {
        if edges[j].0 == node {
            let child = edges[j].1;
            let ghost done1 = done@;
            proof {
                let pn = path@;
                assert(pn.no_duplicates()) by {
                    assert forall|a: int, b: int| 0 <= a < b < pn.len() implies pn[a] != pn[b] by {
                        if b == path0.len() {
                            assert(path0[a] == pn[a]);
                        } else {
                            assert(path0[a] == pn[a] && path0[b] == pn[b]);
                        }
                    }
                }
                assert forall|i: int| 0 <= i < pn.len() implies reach1(edges@, #[trigger] pn[i], child) by {
                    if i < path0.len() {
                        assert(pn[i] == path0[i]);
                        assert(reach1(edges@, path0[i], node));
                        lemma_reaches_step(edges@, set![path0[i]], j as int);
                    } else {
                        lemma_reaches_refl(edges@, set![node], node);
                        lemma_reaches_step(edges@, set![node], j as int);
                    }
                }
                assert forall|i: int| 0 <= i < pn.len() implies u.contains(pn[i]) by {
                    if i < path0.len() {
                        assert(pn[i] == path0[i]);
                    }
                }
                lemma_reaches_step(edges@, s0, j as int);
            }
            dfs_visit(edges, child, path, done, Ghost(u), Ghost(s0));
            proof {
                assert(done@.take(done0.len() as int) =~= done1.take(done0.len() as int)) by {
                    assert forall|i: int| 0 <= i < done0.len() implies done@[i] == done1[i] by {
                        assert(done@.take(done1.len() as int)[i] == done1[i]);
                    }
                }
                assert forall|k: int|
                    0 <= k < j + 1 && #[trigger] edges@[k].0 == node implies done@.contains(edges@[k].1)
                        || path@.contains(edges@[k].1) by {
                    if k < j {
                        if done1.contains(edges@[k].1) {
                            let i = choose|i: int| 0 <= i < done1.len() && done1[i] == edges@[k].1;
                            assert(done@.take(done1.len() as int)[i] == edges@[k].1);
                            assert(done@[i] == edges@[k].1);
                        }
                    }
                }
            }
        }
        j = j + 1;
    }
    path.pop();
    proof {
        assert(path@ =~= path0);
    }
    let ghost done2 = done@;
    done.push(node);
    proof {
        lemma_push_contains(done2, node);
        let d = done@;
        assert(d.take(done0.len() as int) =~= done2.take(done0.len() as int));
        assert(d.no_duplicates()) by {
            assert forall|a: int, b: int| 0 <= a < b < d.len() implies d[a] != d[b] by {
                if b == done2.len() {
                    assert(d[a] == done2[a]);
                    assert(done2.contains(done2[a]));
                    assert(path@.push(node).contains(node));
                } else {
                    assert(d[a] == done2[a] && d[b] == done2[b]);
                }
            }
        }
        assert(disjoint(path0, d)) by {
            assert forall|x: u128| path0.contains(x) implies !d.contains(x) by {
                assert(path0.push(node).contains(x)) by {
                    let i = choose|i: int| 0 <= i < path0.len() && path0[i] == x;
                    assert(path0.push(node)[i] == x);
                }
            }
        }
        assert(closed_rel(edges@, d, path0)) by {
            assert forall|k: int| 0 <= k < edges@.len() && d.contains(#[trigger] edges@[k].0) implies d.contains(
                edges@[k].1,
            ) || path0.contains(edges@[k].1) by {
                let m = edges@[k].1;
                if edges@[k].0 == node {
                    assert(done2.contains(m) || path0.push(node).contains(m));
                } else {
                    assert(done2.contains(edges@[k].0));
                    assert(done2.contains(m) || path0.push(node).contains(m));
                }
            }
        }
        assert(finish_ordered(edges@, d)) by {
            assert forall|a: int, k: int|
                0 <= a < d.len() && 0 <= k < edges@.len() && #[trigger] d[a] == #[trigger] edges@[k].0 implies d.take(
                    a,
                ).contains(edges@[k].1) || reach1(edges@, edges@[k].1, edges@[k].0) by {
                let m = edges@[k].1;
                if a < done2.len() {
                    assert(d[a] == done2[a]);
                    assert(d.take(a) =~= done2.take(a));
                } else {
                    assert(d.take(a) =~= done2);
                    assert(done2.contains(node) == false);
                    if !done2.contains(m) {
                        assert(path0.push(node).contains(m));
                        if m == node {
                            lemma_reaches_refl(edges@, set![m], m);
                        } else {
                            assert(path0.contains(m));
                            let i = choose|i: int| 0 <= i < path0.len() && path0[i] == m;
                            assert(reach1(edges@, path0[i], node));
                        }
                    }
                }
            }
        }
        assert(d.contains(node));
        assert forall|i: int| 0 <= i < d.len() implies reaches(edges@, s0, #[trigger] d[i]) by {
            if i < done2.len() {
                assert(d[i] == done2[i]);
            }
        }
    }
}

/// The depth-first finishing order from `roots`, each root searched in turn.
pub open spec fn dfs_result_ok(edges: Seq<IdEdge>, roots: Seq<u128>, done: Seq<u128>) -> bool {
    &&& done.no_duplicates()
    &&& forall|x: u128| done.contains(x) <==> reaches(edges, roots.to_set(), x)
    &&& finish_ordered(edges, done)
}

proof fn lemma_closed_complete(edges: Seq<IdEdge>, s0: Set<u128>, done: Seq<u128>, k: nat)
    requires
        closed_rel(edges, done, Seq::empty()),
        forall|x: u128| s0.contains(x) ==> done.contains(x),
    ensures
        forall|x: u128| within(edges, s0, k).contains(x) ==> done.contains(x),
    decreases k,
{
    if k > 0 {
        lemma_closed_complete(edges, s0, done, (k - 1) as nat);
        assert forall|x: u128| within(edges, s0, k).contains(x) implies done.contains(x) by {
            let prev = within(edges, s0, (k - 1) as nat);
            if !prev.contains(x) {
                assert(successors(edges, prev).contains(x));
                let j = choose|j: int| 0 <= j < edges.len() && prev.contains(edges[j].0) && edges[j].1 == x;
                assert(done.contains(edges[j].0));
                assert(!Seq::<u128>::empty().contains(x));
            }
        }
    }
}

/// Depth-first search from each root in turn; the nodes in the order their search
/// finished. Every node reachable from a root appears once, and every edge between them
/// that closes no cycle leads from a later to an earlier node.
pub fn dfs_postorder(edges: &Vec<IdEdge>, roots: &Vec<u128>) -> (r: Vec<u128>)
    ensures
        dfs_result_ok(edges@, roots@, r@),
{
    let ghost targets = Seq::new(edges@.len(), |j: int| edges@[j].1);
    let ghost u = (roots@ + targets).to_set();
    let ghost s0 = roots@.to_set();
    let mut path: Vec<u128> = Vec::new();
    let mut done: Vec<u128> = Vec::new();
    proof {
        vstd::seq_lib::seq_to_set_is_finite(roots@ + targets);
        assert forall|j: int| 0 <= j < edges@.len() implies u.contains(#[trigger] edges@[j].1) by {
            assert((roots@ + targets)[roots@.len() + j] == edges@[j].1);
        }
    }
    let mut i: usize = 0;
    while i < roots.len()
        invariant
            u.finite(),
            u == (roots@ + targets).to_set(),
            s0 == roots@.to_set(),
            forall|j: int| 0 <= j < edges@.len() ==> u.contains(#[trigger] edges@[j].1),
            i <= roots@.len(),
            path@ == Seq::<u128>::empty(),
            done@.no_duplicates(),
            closed_rel(edges@, done@, Seq::empty()),
            finish_ordered(edges@, done@),
            forall|k: int| 0 <= k < i ==> done@.contains(#[trigger] roots@[k]),
            forall|k: int| 0 <= k < done@.len() ==> reaches(edges@, s0, #[trigger] done@[k]),
        decreases roots.len() - i,
    {
        let root = roots[i];
        let ghost before = done@;
        proof {
            assert(u.contains(root)) by {
                assert((roots@ + targets)[i as int] == root);
            }
            assert(s0.contains(root));
            lemma_reaches_refl(edges@, s0, root);
            assert(disjoint(path@, done@));
        }
        dfs_visit(edges, root, &mut path, &mut done, Ghost(u), Ghost(s0));
        proof {
            assert forall|k: int| 0 <= k < i + 1 implies done@.contains(#[trigger] roots@[k]) by {
                if k < i {
                    let p = choose|p: int| 0 <= p < before.len() && before[p] == roots@[k];
                    assert(done@.take(before.len() as int)[p] == roots@[k]);
                    assert(done@[p] == roots@[k]);
                }
            }
        }
        i = i + 1;
    }
    proof {
        assert forall|x: u128| s0.contains(x) implies done@.contains(x) by {
            let k = choose|k: int| 0 <= k < roots@.len() && roots@[k] == x;
        }
        assert forall|x: u128| done@.contains(x) <==> reaches(edges@, s0, x) by {
            if reaches(edges@, s0, x) {
                let k = choose|k: nat| #[trigger] within(edges@, s0, k).contains(x);
                lemma_closed_complete(edges@, s0, done@, k);
            }
        }
    }
    done
}

} // verus!
