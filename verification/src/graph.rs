//! Reachability over directed edges between named nodes.
use crate::json::text_eq;
use crate::textset::{is_text_set, lemma_text_set_len, set_insert, views};
use vstd::prelude::*;
use vstd::string::*;

verus! {

/// A directed edge between two named nodes.
#[derive(Debug)]
pub struct Edge {
    pub from: String,
    pub to: String,
}

/// The relation "there is an edge from `a` to `b`" of a list of edges.
pub open spec fn edge_rel(edges: Seq<Edge>) -> spec_fn(Seq<char>, Seq<char>) -> bool {
    |a: Seq<char>, b: Seq<char>|
        exists|k: int| 0 <= k < edges.len() && (#[trigger] edges[k]).from@ == a && edges[k].to@ == b
}

/// A path along `step`: at least one node, each step related.
pub open spec fn is_path(step: spec_fn(Seq<char>, Seq<char>) -> bool, p: Seq<Seq<char>>) -> bool {
    &&& p.len() >= 1
    &&& forall|i: int| 0 <= i < p.len() - 1 ==> #[trigger] step(p[i], p[i + 1])
}

/// `b` can be reached from `a` along `step` (in no steps when equal).
pub open spec fn reaches(step: spec_fn(Seq<char>, Seq<char>) -> bool, a: Seq<char>, b: Seq<char>) -> bool {
    exists|p: Seq<Seq<char>>| #[trigger] is_path(step, p) && p[0] == a && p.last() == b
}

/// A path followed by one more step is a path.
pub proof fn lemma_reach_extend(
    step: spec_fn(Seq<char>, Seq<char>) -> bool,
    a: Seq<char>,
    b: Seq<char>,
    c: Seq<char>,
)
    requires
        reaches(step, a, b),
        step(b, c),
    ensures
        reaches(step, a, c),
{
    let p = choose|p: Seq<Seq<char>>| #[trigger] is_path(step, p) && p[0] == a && p.last() == b;
    let q = p.push(c);
    assert forall|i: int| 0 <= i < q.len() - 1 implies #[trigger] step(q[i], q[i + 1]) by {
        if i < p.len() - 1 {
            assert(step(p[i], p[i + 1]));
        }
    }
    assert(is_path(step, q));
}

/// Reachability is transitive.
pub proof fn lemma_reach_trans(
    step: spec_fn(Seq<char>, Seq<char>) -> bool,
    a: Seq<char>,
    b: Seq<char>,
    c: Seq<char>,
)
    requires
        reaches(step, a, b),
        reaches(step, b, c),
    ensures
        reaches(step, a, c),
{
    let p = choose|p: Seq<Seq<char>>| #[trigger] is_path(step, p) && p[0] == a && p.last() == b;
    let q = choose|q: Seq<Seq<char>>| #[trigger] is_path(step, q) && q[0] == b && q.last() == c;
    let r = p + q.drop_first();
    assert forall|i: int| 0 <= i < r.len() - 1 implies #[trigger] step(r[i], r[i + 1]) by {
        if i < p.len() - 1 {
            assert(step(p[i], p[i + 1]));
        } else if i == p.len() - 1 {
            assert(step(q[0], q[0int + 1]));
        } else {
            let j = i - p.len() + 1;
            assert(step(q[j], q[j + 1]));
        }
    }
    assert(is_path(step, r));
    if q.len() == 1 {
        assert(r.last() == p.last());
    }
}

/// Every node is reachable from itself.
pub proof fn lemma_reach_self(step: spec_fn(Seq<char>, Seq<char>) -> bool, a: Seq<char>)
    ensures
        reaches(step, a, a),
{
    assert(is_path(step, seq![a]));
}

/// One step is a path.
pub proof fn lemma_reach_step(step: spec_fn(Seq<char>, Seq<char>) -> bool, a: Seq<char>, b: Seq<char>)
    requires
        step(a, b),
    ensures
        reaches(step, a, b),
{
    let p = seq![a, b];
    assert(step(p[0], p[1]));
    assert(is_path(step, p));
}

/// Every edge out of `x` ends in `set`.
pub open spec fn closed_at(edges: Seq<Edge>, set: Seq<Seq<char>>, x: Seq<char>) -> bool {
    forall|k: int| 0 <= k < edges.len() && (#[trigger] edges[k]).from@ == x ==> set.contains(edges[k].to@)
}

/// The targets of a list of edges.
pub open spec fn edge_targets(edges: Seq<Edge>) -> Set<Seq<char>> {
    edges.map_values(|e: Edge| e.to@).to_set()
}

/// A set closed under the edges holds all that its members reach.
proof fn lemma_closed_contains(edges: Seq<Edge>, set: Seq<Seq<char>>, a: Seq<char>, b: Seq<char>)
    requires
        forall|x: Seq<char>| set.contains(x) ==> closed_at(edges, set, x),
        set.contains(a),
        reaches(edge_rel(edges), a, b),
    ensures
        set.contains(b),
{
    let step = edge_rel(edges);
    let p = choose|p: Seq<Seq<char>>| #[trigger] is_path(step, p) && p[0] == a && p.last() == b;
    lemma_path_in_set(edges, set, p, p.len() - 1);
}

proof fn lemma_path_in_set(edges: Seq<Edge>, set: Seq<Seq<char>>, p: Seq<Seq<char>>, i: int)
    requires
        forall|x: Seq<char>| set.contains(x) ==> closed_at(edges, set, x),
        is_path(edge_rel(edges), p),
        set.contains(p[0]),
        0 <= i < p.len(),
    ensures
        set.contains(p[i]),
    decreases i,
{
    if i > 0 {
        lemma_path_in_set(edges, set, p, i - 1);
        assert(edge_rel(edges)(p[i - 1], p[i - 1 + 1]));
        let k = choose|k: int|
            0 <= k < edges.len() && (#[trigger] edges[k]).from@ == p[i - 1] && edges[k].to@ == p[i];
        assert(closed_at(edges, set, p[i - 1]));
    }
}

/// The nodes reachable from `root` along the edges, `root` included, as a
/// text set.
#[verifier::loop_isolation(false)]
pub fn reachable_from(root: &str, edges: &Vec<Edge>) -> (r: Vec<String>)
    ensures
        is_text_set(r@),
        forall|x: Seq<char>| views(r@).contains(x) <==> reaches(edge_rel(edges@), root@, x),
{
    let ghost step = edge_rel(edges@);
    let ghost bound = edge_targets(edges@).insert(root@);
    proof {
        vstd::seq_lib::seq_to_set_is_finite(edges@.map_values(|e: Edge| e.to@));
    }
    let mut result: Vec<String> = Vec::new();
    set_insert(&mut result, root);
    let mut pending: Vec<String> = Vec::new();
    pending.push(root.to_owned());
    proof {
        assert(views(result@).to_set().contains(root@));
        assert(views(pending@)[0] == root@);
        lemma_reach_self(step, root@);
        assert forall|x: Seq<char>| views(result@).contains(x) implies x == root@ by {
            assert(views(result@).to_set().contains(x));
        }
        assert(views(result@).to_set().subset_of(bound));
        lemma_text_set_len(result@, bound);
    }
    while pending.len() > 0
        invariant
            is_text_set(result@),
            views(result@).contains(root@),
            forall|x: Seq<char>| views(result@).contains(x) ==> reaches(step, root@, x),
            forall|x: Seq<char>| views(pending@).contains(x) ==> views(result@).contains(x),
            forall|x: Seq<char>|
                views(result@).contains(x) ==> (views(pending@).contains(x) || closed_at(
                    edges@,
                    views(result@),
                    x,
                )),
            views(result@).to_set().subset_of(bound),
            result@.len() <= bound.len(),
        decreases bound.len() - result@.len(), pending@.len(),
    {
        let ghost pending_before = pending@;
        let ghost len_before = result@.len();
        let parent = pending.pop().unwrap();
        proof {
            assert(pending_before == pending@.push(parent));
            assert(views(pending_before).last() == parent@);
            assert(views(pending_before).contains(parent@));
            assert forall|x: Seq<char>| views(pending@).contains(x) implies views(
                pending_before,
            ).contains(x) by {
                let i = choose|i: int| 0 <= i < views(pending@).len() && views(pending@)[i] == x;
                assert(views(pending_before)[i] == x);
            }
            assert forall|x: Seq<char>| views(pending_before).contains(x) && x != parent@ implies views(
                pending@,
            ).contains(x) by {
                let i = choose|i: int|
                    0 <= i < views(pending_before).len() && views(pending_before)[i] == x;
                assert(i < pending@.len());
                assert(views(pending@)[i] == x);
            }
        }
        let mut k: usize = 0;
        while k < edges.len()
            invariant
                k <= edges.len(),
                is_text_set(result@),
                views(result@).contains(root@),
                views(result@).contains(parent@),
                forall|x: Seq<char>| views(result@).contains(x) ==> reaches(step, root@, x),
                forall|x: Seq<char>| views(pending@).contains(x) ==> views(result@).contains(x),
                forall|x: Seq<char>|
                    views(result@).contains(x) ==> (x == parent@ || views(pending@).contains(x)
                        || closed_at(edges@, views(result@), x)),
                forall|q: int|
                    0 <= q < k && (#[trigger] edges@[q]).from@ == parent@ ==> views(
                        result@,
                    ).contains(edges@[q].to@),
                views(result@).to_set().subset_of(bound),
                result@.len() <= bound.len(),
                result@.len() >= len_before,
                pending@.len() + 1 == pending_before.len() + (result@.len() - len_before),
            decreases edges.len() - k,
        {
            if text_eq(edges[k].from.as_str(), parent.as_str()) {
                let ghost old_result = views(result@);
                let ghost old_pending = views(pending@);
                let target = edges[k].to.as_str();
                if set_insert(&mut result, target) {
                    pending.push(edges[k].to.clone());
                }
                proof {
                    let now = views(result@);
                    assert forall|x: Seq<char>| old_result.contains(x) implies now.contains(x) by {
                        assert(old_result.to_set().contains(x));
                        assert(now.to_set().contains(x));
                    }
                    assert(now.to_set().contains(target@));
                    assert(now.contains(target@));
                    assert(views(pending@) =~= old_pending || views(pending@) =~= old_pending.push(
                        target@,
                    ));
                    assert forall|x: Seq<char>| now.contains(x) implies reaches(step, root@, x) by {
                        assert(now.to_set().contains(x));
                        if x == target@ && !old_result.contains(x) {
                            assert(step(parent@, target@));
                            lemma_reach_extend(step, root@, parent@, target@);
                        } else {
                            assert(old_result.to_set().contains(x));
                        }
                    }
                    assert forall|x: Seq<char>| views(pending@).contains(x) implies now.contains(
                        x,
                    ) by {
                        if old_pending.contains(x) {
                            assert(old_result.contains(x));
                        }
                    }
                    assert forall|x: Seq<char>| now.contains(x) implies (x == parent@ || views(
                        pending@,
                    ).contains(x) || closed_at(edges@, now, x)) by {
                        assert(now.to_set().contains(x));
                        if old_result.contains(x) {
                            if old_pending.contains(x) {
                                let i = choose|i: int| 0 <= i < old_pending.len() && old_pending[i] == x;
                                assert(views(pending@)[i] == x);
                            } else if x != parent@ {
                                assert(closed_at(edges@, old_result, x));
                                assert forall|q: int|
                                    0 <= q < edges@.len() && (#[trigger] edges@[q]).from@
                                        == x implies now.contains(edges@[q].to@) by {
                                    assert(old_result.contains(edges@[q].to@));
                                }
                            }
                        } else {
                            assert(x == target@);
                            assert(views(pending@).last() == target@);
                        }
                    }
                    assert forall|q: int|
                        0 <= q < k + 1 && (#[trigger] edges@[q]).from@ == parent@ implies now.contains(
                        edges@[q].to@,
                    ) by {
                        if q < k {
                            assert(old_result.contains(edges@[q].to@));
                        }
                    }
                    assert(edges@.map_values(|e: Edge| e.to@)[k as int] == target@);
                    assert(edge_targets(edges@).contains(target@));
                    assert(now.to_set().subset_of(bound));
                    lemma_text_set_len(result@, bound);
                }
            }
            k += 1;
        }
        proof {
            assert(closed_at(edges@, views(result@), parent@));
        }
    }
    proof {
        assert forall|x: Seq<char>| reaches(step, root@, x) implies views(result@).contains(x) by {
            assert forall|y: Seq<char>| views(result@).contains(y) implies closed_at(
                edges@,
                views(result@),
                y,
            ) by {
                assert(!views(pending@).contains(y));
            }
            lemma_closed_contains(edges@, views(result@), root@, x);
        }
    }
    result
}

} // verus!
