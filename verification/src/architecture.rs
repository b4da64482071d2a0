//! Architecture scopes: which targets a workspace, package or module contains,
//! how visibility is inherited, where dependencies form cycles, and which
//! reviews of smaller scopes a larger scope waits for.
use crate::graph::{
    Edge, edge_rel, lemma_reach_self, lemma_reach_step, lemma_reach_trans, reachable_from, reaches,
    is_path,
};
use crate::json::text_eq;
use crate::order::{lemma_text_lt_total, lemma_text_lt_trans, text_lt};
use crate::text::{has_suffix, text_ends_with};
use crate::textset::{
    all_distinct, copy_texts, is_text_set, orders, set_contains, set_index, set_insert, sorted_positions,
    strictly_sorted, views,
};
use vstd::prelude::*;
use vstd::string::*;

verus! {

/// The scope an architecture review covers.
#[derive(Debug, PartialEq, Eq, Structural, Clone, Copy)]
pub enum ArchitectureScope {
    Module,
    Package,
    Workspace,
}

/// The shape of a target, as far as scopes are concerned.
#[derive(Debug, PartialEq, Eq, Structural, Clone, Copy)]
pub enum TargetForm {
    Workspace,
    Package,
    /// Any other portable or language-specific target.
    Other,
}

/// Declared visibility of a target.
#[derive(Debug, PartialEq, Eq, Structural, Clone, Copy)]
pub enum TargetVisibility {
    Public,
    Private,
    /// The visibility of the parent applies.
    Inherited,
    NotApplicable,
    Unknown,
}

/// How far the inventory of a target got.
#[derive(Debug, PartialEq, Eq, Structural, Clone, Copy)]
pub enum InventoryState {
    Represented,
    Pending,
    Excluded,
    Unsupported,
    Failed,
}

/// How a constituent review of a scope ended.
#[derive(Debug, PartialEq, Eq, Structural, Clone, Copy)]
pub enum ArchitectureConstituentStatus {
    Passed,
    Deficient,
    UnableToVerify,
    Failed,
    Cancelled,
}

/// A target of the inventory, as architecture planning reads it.
#[derive(Debug)]
pub struct ArchitectureTarget {
    pub id: String,
    pub name: String,
    pub form: TargetForm,
    pub visibility: TargetVisibility,
    pub inventory: InventoryState,
    pub parent: Option<String>,
}

/// A relation between two targets.
#[derive(Debug)]
pub struct ArchitectureRelation {
    pub id: String,
    pub source: String,
    pub target: String,
    pub kind: String,
}

/// The scope a target is reviewed at.
pub open spec fn scope_of_form(form: TargetForm) -> ArchitectureScope {
    match form {
        TargetForm::Workspace => ArchitectureScope::Workspace,
        TargetForm::Package => ArchitectureScope::Package,
        TargetForm::Other => ArchitectureScope::Module,
    }
}

/// The scope a target is reviewed at: a workspace as a workspace, a package
/// as a package, anything else as a module.
pub fn scope_for(target: &ArchitectureTarget) -> (r: ArchitectureScope)
    ensures
        r == scope_of_form(target.form),
{
    match target.form {
        TargetForm::Workspace => ArchitectureScope::Workspace,
        TargetForm::Package => ArchitectureScope::Package,
        TargetForm::Other => ArchitectureScope::Module,
    }
}

/// `b` is a direct child of `a`: a target whose parent is `a`, or the end of
/// a `core:contains` relation from `a`.
pub open spec fn child_rel(targets: Seq<ArchitectureTarget>, relations: Seq<ArchitectureRelation>) -> spec_fn(
    Seq<char>,
    Seq<char>,
) -> bool {
    |a: Seq<char>, b: Seq<char>|
        (exists|i: int| 0 <= i < targets.len() && #[trigger] parent_edge(targets[i], a, b)) || (exists|
            j: int,
        | 0 <= j < relations.len() && #[trigger] contains_edge(relations[j], a, b))
}

/// The target names `a` as its parent and is `b`.
pub open spec fn parent_edge(t: ArchitectureTarget, a: Seq<char>, b: Seq<char>) -> bool {
    &&& t.parent is Some
    &&& t.parent->Some_0@ == a
    &&& t.id@ == b
}

/// The relation is a `core:contains` relation from `a` to `b`.
pub open spec fn contains_edge(r: ArchitectureRelation, a: Seq<char>, b: Seq<char>) -> bool {
    &&& r.kind@ == "core:contains"@
    &&& r.source@ == a
    &&& r.target@ == b
}

/// The targets within the scope of `root`: `root` and everything it contains,
/// directly or not, sorted by identifier.
pub fn scope_target_ids(
    root: &str,
    targets: &Vec<ArchitectureTarget>,
    relations: &Vec<ArchitectureRelation>,
) -> (r: Vec<String>)
    ensures
        is_text_set(r@),
        forall|x: Seq<char>|
            views(r@).contains(x) <==> reaches(child_rel(targets@, relations@), root@, x),
{
    let mut edges: Vec<Edge> = Vec::new();
    let ghost mut origin: Seq<int> = seq![];
    let ghost mut slot: Seq<int> = seq![];
    let mut i: usize = 0;
    while i < targets.len()
        invariant
            i <= targets.len(),
            origin.len() == edges@.len(),
            slot.len() == i,
            forall|k: int|
                0 <= k < edges@.len() ==> 0 <= #[trigger] origin[k] < i && parent_edge(
                    targets@[origin[k]],
                    edges@[k].from@,
                    edges@[k].to@,
                ),
            forall|q: int|
                0 <= q < i && (#[trigger] targets@[q]).parent is Some ==> 0 <= slot[q] < edges@.len()
                    && parent_edge(targets@[q], edges@[slot[q]].from@, edges@[slot[q]].to@),
        decreases targets.len() - i,
    {
        if let Some(parent) = &targets[i].parent {
            edges.push(Edge { from: parent.clone(), to: targets[i].id.clone() });
            proof {
                origin = origin.push(i as int);
                slot = slot.push(edges@.len() - 1);
            }
        } else {
            proof {
                slot = slot.push(-1);
            }
        }
        i += 1;
    }
    let ghost after_targets = edges@.len() as int;
    let ghost mut slot2: Seq<int> = seq![];
    let mut j: usize = 0;
    while j < relations.len()
        invariant
            j <= relations.len(),
            0 <= after_targets <= edges@.len(),
            origin.len() == edges@.len(),
            slot.len() == targets@.len(),
            slot2.len() == j,
            forall|k: int|
                0 <= k < after_targets ==> 0 <= #[trigger] origin[k] < targets@.len() && parent_edge(
                    targets@[origin[k]],
                    edges@[k].from@,
                    edges@[k].to@,
                ),
            forall|q: int|
                0 <= q < targets@.len() && (#[trigger] targets@[q]).parent is Some ==> 0 <= slot[q]
                    < after_targets && parent_edge(
                    targets@[q],
                    edges@[slot[q]].from@,
                    edges@[slot[q]].to@,
                ),
            forall|k: int|
                after_targets <= k < edges@.len() ==> 0 <= #[trigger] origin[k] < j && contains_edge(
                    relations@[origin[k]],
                    edges@[k].from@,
                    edges@[k].to@,
                ),
            forall|q: int|
                0 <= q < j && (#[trigger] relations@[q]).kind@ == "core:contains"@ ==> 0 <= slot2[q]
                    < edges@.len() && contains_edge(
                    relations@[q],
                    edges@[slot2[q]].from@,
                    edges@[slot2[q]].to@,
                ),
        decreases relations.len() - j,
    {
        if text_eq(relations[j].kind.as_str(), "core:contains") {
            edges.push(Edge { from: relations[j].source.clone(), to: relations[j].target.clone() });
            proof {
                let n = edges@.len() - 1;
                assert(relations@[j as int].kind@ == "core:contains"@);
                assert(edges@[n].from@ == relations@[j as int].source@);
                assert(contains_edge(relations@[j as int], edges@[n].from@, edges@[n].to@));
                let old_origin = origin;
                origin = origin.push(j as int);
                slot2 = slot2.push(edges@.len() - 1);
                assert forall|k: int| after_targets <= k < edges@.len() implies 0 <= #[trigger] origin[k]
                    < j + 1 && contains_edge(relations@[origin[k]], edges@[k].from@, edges@[k].to@) by {
                    if k < n {
                        assert(origin[k] == old_origin[k]);
                    }
                }
            }
        } else {
            proof {
                slot2 = slot2.push(-1);
            }
        }
        j += 1;
    }
    proof {
        let step = child_rel(targets@, relations@);
        assert forall|a: Seq<char>, b: Seq<char>| #[trigger] edge_rel(edges@)(a, b) == step(a, b) by {
            if edge_rel(edges@)(a, b) {
                let k = choose|k: int|
                    0 <= k < edges@.len() && (#[trigger] edges@[k]).from@ == a && edges@[k].to@ == b;
                if k < after_targets {
                    assert(parent_edge(targets@[origin[k]], a, b));
                } else {
                    assert(contains_edge(relations@[origin[k]], a, b));
                }
            }
            if step(a, b) {
                if exists|q: int| 0 <= q < targets@.len() && #[trigger] parent_edge(targets@[q], a, b) {
                    let q = choose|q: int|
                        0 <= q < targets@.len() && #[trigger] parent_edge(targets@[q], a, b);
                    assert(targets@[q].parent is Some);
                    let k = slot[q];
                    assert(edges@[k].from@ == a && edges@[k].to@ == b);
                } else {
                    let q = choose|q: int|
                        0 <= q < relations@.len() && #[trigger] contains_edge(relations@[q], a, b);
                    assert(relations@[q].kind@ == "core:contains"@);
                    let k = slot2[q];
                    assert(edges@[k].from@ == a && edges@[k].to@ == b);
                }
            }
        }
        assert(edge_rel(edges@) =~= step);
    }
    reachable_from(root, &edges)
}

/// Index of the first target with the identifier, or -1.
pub open spec fn target_pos(targets: Seq<ArchitectureTarget>, id: Seq<char>) -> int
    decreases targets.len(),
{
    if targets.len() == 0 {
        -1
    } else if target_pos(targets.drop_last(), id) >= 0 {
        target_pos(targets.drop_last(), id)
    } else if targets.last().id@ == id {
        targets.len() - 1
    } else {
        -1
    }
}

/// What `target_pos` finds: the first target with the identifier, or none.
pub proof fn lemma_target_pos(targets: Seq<ArchitectureTarget>, id: Seq<char>)
    ensures
        -1 <= target_pos(targets, id) < targets.len(),
        target_pos(targets, id) >= 0 ==> targets[target_pos(targets, id)].id@ == id,
        target_pos(targets, id) >= 0 ==> forall|k: int|
            0 <= k < target_pos(targets, id) ==> (#[trigger] targets[k]).id@ != id,
        target_pos(targets, id) == -1 ==> forall|k: int| 0 <= k < targets.len() ==> (#[trigger] targets[k]).id@ != id,
    decreases targets.len(),
{
    if targets.len() > 0 {
        lemma_target_pos(targets.drop_last(), id);
        assert forall|k: int| 0 <= k < targets.len() - 1 implies #[trigger] targets[k] == targets.drop_last()[k] by {}
    }
}

/// Finds a target by identifier.
pub fn find_target(targets: &Vec<ArchitectureTarget>, id: &str) -> (r: Option<usize>)
    ensures
        match r {
            Some(i) => i as int == target_pos(targets@, id@),
            None => target_pos(targets@, id@) == -1,
        },
{
    proof {
        lemma_target_pos(targets@, id@);
    }
    let mut i: usize = 0;
    while i < targets.len()
        invariant
            i <= targets.len(),
            forall|k: int| 0 <= k < i ==> (#[trigger] targets@[k]).id@ != id@,
            -1 <= target_pos(targets@, id@) < targets@.len(),
            target_pos(targets@, id@) >= 0 ==> targets@[target_pos(targets@, id@)].id@ == id@,
            target_pos(targets@, id@) >= 0 ==> forall|k: int|
                0 <= k < target_pos(targets@, id@) ==> (#[trigger] targets@[k]).id@ != id@,
            target_pos(targets@, id@) == -1 ==> forall|k: int|
                0 <= k < targets@.len() ==> (#[trigger] targets@[k]).id@ != id@,
        decreases targets.len() - i,
    {
        if text_eq(targets[i].id.as_str(), id) {
            return Some(i);
        }
        i += 1;
    }
    None
}

/// The visibility reached by following inherited visibility up the parents,
/// at most `steps` times: the first visibility that is not inherited, or
/// `Unknown` when the parents end, name no known target, or the steps run out.
pub open spec fn visibility_walk(
    targets: Seq<ArchitectureTarget>,
    t: ArchitectureTarget,
    steps: nat,
) -> TargetVisibility
    decreases steps,
{
    if t.visibility != TargetVisibility::Inherited {
        t.visibility
    } else if steps == 0 {
        TargetVisibility::Unknown
    } else {
        match t.parent {
            None => TargetVisibility::Unknown,
            Some(p) => {
                let i = target_pos(targets, p@);
                if 0 <= i < targets.len() {
                    visibility_walk(targets, targets[i], (steps - 1) as nat)
                } else {
                    TargetVisibility::Unknown
                }
            },
        }
    }
}

/// The visibility that applies to a target: its own, or its nearest
/// ancestor's where it inherits. The walk takes at most as many steps as there
/// are targets, so a chain of parents that comes back on itself gives
/// `Unknown`.
pub fn effective_visibility(target: &ArchitectureTarget, targets: &Vec<ArchitectureTarget>) -> (r:
    TargetVisibility)
    ensures
        r == visibility_walk(targets@, *target, targets@.len()),
{
    let mut current = target;
    let mut steps: usize = targets.len();
    while current.visibility == TargetVisibility::Inherited && steps > 0
        invariant
            steps <= targets.len(),
            visibility_walk(targets@, *target, targets@.len()) == visibility_walk(
                targets@,
                *current,
                steps as nat,
            ),
        decreases steps,
    {
        proof {
            lemma_target_pos(targets@, current.parent->Some_0@);
        }
        match &current.parent {
            None => {
                return TargetVisibility::Unknown;
            },
            Some(parent) => match find_target(targets, parent.as_str()) {
                None => {
                    return TargetVisibility::Unknown;
                },
                Some(i) => {
                    current = &targets[i];
                    steps = steps - 1;
                },
            },
        }
    }
    if current.visibility == TargetVisibility::Inherited {
        TargetVisibility::Unknown
    } else {
        current.visibility
    }
}

/// Keeps at most `maximum` values and counts how many were dropped.
pub fn bounded<T>(values: Vec<T>, maximum: usize) -> (r: (Vec<T>, usize))
    ensures
        values@.len() <= maximum ==> r.0@ == values@ && r.1 == 0,
        values@.len() > maximum ==> r.0@ == values@.take(maximum as int) && r.1 == values@.len()
            - maximum,
{
    let mut values = values;
    let omitted = values.len().saturating_sub(maximum);
    values.truncate(maximum);
    (values, omitted)
}

/// The relation is a dependency (its kind ends in `depends_on`) from `a` to
/// `b`.
pub open spec fn depends_edge(r: ArchitectureRelation, a: Seq<char>, b: Seq<char>) -> bool {
    &&& has_suffix(r.kind@, "depends_on"@)
    &&& r.source@ == a
    &&& r.target@ == b
}

/// `a` depends on `b` within the scope: both lie in the scope and a
/// dependency relation leads from `a` to `b`.
pub open spec fn depends_rel(scope: Seq<Seq<char>>, relations: Seq<ArchitectureRelation>) -> spec_fn(
    Seq<char>,
    Seq<char>,
) -> bool {
    |a: Seq<char>, b: Seq<char>|
        scope.contains(a) && scope.contains(b) && exists|j: int|
            0 <= j < relations.len() && #[trigger] depends_edge(relations[j], a, b)
}

/// `a` and `b` reach each other.
pub open spec fn mutual(step: spec_fn(Seq<char>, Seq<char>) -> bool, a: Seq<char>, b: Seq<char>) -> bool {
    reaches(step, a, b) && reaches(step, b, a)
}

/// `v` lies on a cycle: it steps to itself, or it reaches and is reached by
/// another node.
pub open spec fn on_cycle(step: spec_fn(Seq<char>, Seq<char>) -> bool, v: Seq<char>) -> bool {
    step(v, v) || exists|u: Seq<char>| u != v && #[trigger] mutual(step, v, u)
}

/// A reported cycle: the sorted component of its first node, which lies in
/// the scope and on a cycle.
pub open spec fn cycle_ok(
    step: spec_fn(Seq<char>, Seq<char>) -> bool,
    scope: Seq<Seq<char>>,
    c: Seq<String>,
) -> bool {
    &&& is_text_set(c)
    &&& c.len() > 0
    &&& scope.contains(c[0]@)
    &&& on_cycle(step, c[0]@)
    &&& forall|x: Seq<char>| views(c).contains(x) <==> mutual(step, c[0]@, x)
}

/// Every reported cycle is sound.
pub open spec fn cycles_sound(
    step: spec_fn(Seq<char>, Seq<char>) -> bool,
    scope: Seq<Seq<char>>,
    cycles: Seq<Vec<String>>,
) -> bool {
    forall|k: int| 0 <= k < cycles.len() ==> cycle_ok(step, scope, (#[trigger] cycles[k])@)
}

/// Every scope node on a cycle is in some reported cycle.
pub open spec fn cycles_cover(
    step: spec_fn(Seq<char>, Seq<char>) -> bool,
    scope: Seq<Seq<char>>,
    cycles: Seq<Vec<String>>,
) -> bool {
    forall|v: Seq<char>|
        scope.contains(v) && on_cycle(step, v) ==> exists|k: int|
            0 <= k < cycles.len() && views((#[trigger] cycles[k])@).contains(v)
}

/// The reported cycles are in strictly increasing order of their first
/// nodes.
pub open spec fn cycles_ordered(cycles: Seq<Vec<String>>) -> bool {
    forall|k: int, l: int|
        0 <= k < l < cycles.len() ==> text_lt((#[trigger] cycles[k])@[0]@, (#[trigger] cycles[l])@[0]@)
}

/// What is reached from a scope node along scope dependencies stays in the
/// scope.
proof fn lemma_reach_in_scope(
    scope: Seq<Seq<char>>,
    relations: Seq<ArchitectureRelation>,
    a: Seq<char>,
    x: Seq<char>,
)
    requires
        scope.contains(a),
        reaches(depends_rel(scope, relations), a, x),
    ensures
        scope.contains(x),
{
    let step = depends_rel(scope, relations);
    let p = choose|p: Seq<Seq<char>>| #[trigger] is_path(step, p) && p[0] == a && p.last() == x;
    if p.len() > 1 {
        let i = p.len() - 2;
        assert(step(p[i], p[i + 1]));
    }
}

/// The dependency cycles among the targets of a scope: each strongly
/// connected component that holds a cycle, as a sorted list, the list of
/// them sorted.
#[verifier::loop_isolation(false)]
#[verifier::rlimit(40)]
pub fn dependency_cycles(scope: &Vec<String>, relations: &Vec<ArchitectureRelation>) -> (r: Vec<
    Vec<String>,
>)
    requires
        is_text_set(scope@),
    ensures
        cycles_sound(depends_rel(views(scope@), relations@), views(scope@), r@),
        cycles_cover(depends_rel(views(scope@), relations@), views(scope@), r@),
        cycles_ordered(r@),
{
    let ghost sv = views(scope@);
    let ghost step = depends_rel(sv, relations@);
    let mut edges: Vec<Edge> = Vec::new();
    let ghost mut origin: Seq<int> = seq![];
    let ghost mut slot: Seq<int> = seq![];
    let mut j: usize = 0;
    while j < relations.len()
        invariant
            j <= relations.len(),
            origin.len() == edges@.len(),
            slot.len() == j,
            forall|k: int|
                0 <= k < edges@.len() ==> 0 <= #[trigger] origin[k] < j && depends_edge(
                    relations@[origin[k]],
                    edges@[k].from@,
                    edges@[k].to@,
                ) && sv.contains(edges@[k].from@) && sv.contains(edges@[k].to@),
            forall|q: int|
                0 <= q < j && has_suffix((#[trigger] relations@[q]).kind@, "depends_on"@) && sv.contains(
                    relations@[q].source@,
                ) && sv.contains(relations@[q].target@) ==> 0 <= slot[q] < edges@.len()
                    && depends_edge(relations@[q], edges@[slot[q]].from@, edges@[slot[q]].to@),
        decreases relations.len() - j,
    {
        let rel = &relations[j];
        if text_ends_with(rel.kind.as_str(), "depends_on") && set_contains(scope, rel.source.as_str())
            && set_contains(scope, rel.target.as_str()) {
            edges.push(Edge { from: rel.source.clone(), to: rel.target.clone() });
            proof {
                let old_origin = origin;
                origin = origin.push(j as int);
                slot = slot.push(edges@.len() - 1);
                assert forall|k: int| 0 <= k < edges@.len() implies 0 <= #[trigger] origin[k] < j + 1
                    && depends_edge(relations@[origin[k]], edges@[k].from@, edges@[k].to@)
                    && sv.contains(edges@[k].from@) && sv.contains(edges@[k].to@) by {
                    if k < edges@.len() - 1 {
                        assert(origin[k] == old_origin[k]);
                    }
                }
            }
        } else {
            proof {
                slot = slot.push(-1);
            }
        }
        j += 1;
    }
    proof {
        assert forall|a: Seq<char>, b: Seq<char>| #[trigger] edge_rel(edges@)(a, b) == step(a, b) by {
            if edge_rel(edges@)(a, b) {
                let k = choose|k: int|
                    0 <= k < edges@.len() && (#[trigger] edges@[k]).from@ == a && edges@[k].to@ == b;
                assert(depends_edge(relations@[origin[k]], a, b));
            }
            if step(a, b) {
                let q = choose|q: int| 0 <= q < relations@.len() && #[trigger] depends_edge(relations@[q], a, b);
                let k = slot[q];
                assert(edges@[k].from@ == a && edges@[k].to@ == b);
            }
        }
        assert(edge_rel(edges@) =~= step);
    }
    let mut reach: Vec<Vec<String>> = Vec::new();
    let mut i: usize = 0;
    while i < scope.len()
        invariant
            i <= scope.len(),
            reach@.len() == i,
            edge_rel(edges@) == step,
            forall|q: int|
                0 <= q < i ==> is_text_set((#[trigger] reach@[q])@) && forall|x: Seq<char>|
                    views(reach@[q]@).contains(x) <==> reaches(step, sv[q], x),
        decreases scope.len() - i,
    {
        let closure = reachable_from(scope[i].as_str(), &edges);
        reach.push(closure);
        proof {
            assert(sv[i as int] == scope@[i as int]@);
        }
        i += 1;
    }
    let mut cycles: Vec<Vec<String>> = Vec::new();
    let ghost mut first_at: Seq<int> = seq![];
    let ghost mut home: Seq<int> = seq![];
    let mut i: usize = 0;
    while i < scope.len()
        invariant
            i <= scope.len(),
            reach@.len() == scope@.len(),
            edge_rel(edges@) == step,
            forall|q: int|
                0 <= q < scope@.len() ==> is_text_set((#[trigger] reach@[q])@) && forall|x: Seq<char>|
                    views(reach@[q]@).contains(x) <==> reaches(step, sv[q], x),
            first_at.len() == cycles@.len(),
            home.len() == i,
            forall|k: int| 0 <= k < cycles@.len() ==> cycle_ok(step, sv, (#[trigger] cycles@[k])@),
            forall|k: int|
                0 <= k < cycles@.len() ==> 0 <= #[trigger] first_at[k] < i && cycles@[k]@[0]@
                    == sv[first_at[k]],
            forall|k: int, l: int|
                0 <= k < l < cycles@.len() ==> text_lt(
                    (#[trigger] cycles@[k])@[0]@,
                    (#[trigger] cycles@[l])@[0]@,
                ),
            forall|q: int|
                0 <= q < i && on_cycle(step, #[trigger] sv[q]) ==> 0 <= home[q] < cycles@.len()
                    && views(cycles@[home[q]]@).contains(sv[q]),
        decreases scope.len() - i,
    {
        let v = scope[i].as_str();
        let ghost vv = sv[i as int];
        proof {
            assert(vv == v@);
        }
        let around = &reach[i];
        proof {
            assert(is_text_set(reach@[i as int]@));
            assert(forall|x: Seq<char>| views(around@).contains(x) <==> reaches(step, vv, x));
        }
        let mut comp: Vec<String> = Vec::new();
        let mut t: usize = 0;
        while t < around.len()
            invariant
                t <= around@.len(),
                is_text_set(comp@),
                forall|x: Seq<char>|
                    #[trigger] views(comp@).contains(x) ==> views(around@).contains(x) && reaches(
                        step,
                        x,
                        vv,
                    ),
                forall|m: int|
                    0 <= m < t && reaches(step, #[trigger] views(around@)[m], vv) ==> views(
                        comp@,
                    ).contains(views(around@)[m]),
                forall|x: Seq<char>| views(around@).contains(x) <==> reaches(step, vv, x),
            decreases around.len() - t,
        {
            let u = around[t].as_str();
            proof {
                assert(views(around@)[t as int] == u@);
                assert(views(around@).contains(u@));
                lemma_reach_in_scope(sv, relations@, vv, u@);
            }
            match set_index(scope, u) {
                Some(p) => {
                    let ghost before = views(comp@);
                    let back = set_contains(&reach[p], v);
                    proof {
                        assert(is_text_set(reach@[p as int]@));
                        assert(sv[p as int] == u@);
                        assert(back == reaches(step, u@, vv));
                    }
                    if back {
                        set_insert(&mut comp, u);
                        proof {
                            assert forall|x: Seq<char>| #[trigger] views(comp@).contains(x) implies views(
                                around@,
                            ).contains(x) && reaches(step, x, vv) by {
                                assert(views(comp@).to_set().contains(x));
                                if x != u@ {
                                    assert(before.to_set().contains(x));
                                }
                            }
                            assert forall|m: int|
                                0 <= m < t + 1 && reaches(step, #[trigger] views(around@)[m], vv) implies views(
                                comp@,
                            ).contains(views(around@)[m]) by {
                                if m < t {
                                    assert(before.contains(views(around@)[m]));
                                    assert(before.to_set().contains(views(around@)[m]));
                                }
                                assert(views(comp@).to_set().contains(views(around@)[m]));
                            }
                        }
                    }
                },
                None => {
                    proof {
                        assert(false);
                    }
                },
            }
            t += 1;
        }
        proof {
            lemma_reach_self(step, vv);
            assert forall|x: Seq<char>| views(comp@).contains(x) <==> mutual(step, vv, x) by {
                if mutual(step, vv, x) {
                    assert(views(around@).contains(x));
                    let m = choose|m: int| 0 <= m < views(around@).len() && views(around@)[m] == x;
                    assert(reaches(step, views(around@)[m], vv));
                }
            }
            assert(views(comp@).contains(vv));
        }
        let mut self_edge = false;
        let mut e: usize = 0;
        while e < edges.len()
            invariant
                e <= edges@.len(),
                self_edge == exists|k: int| 0 <= k < e && (#[trigger] edges@[k]).from@ == vv && edges@[k].to@ == vv,
            decreases edges.len() - e,
        {
            if text_eq(edges[e].from.as_str(), v) && text_eq(edges[e].to.as_str(), v) {
                self_edge = true;
            }
            e += 1;
        }
        proof {
            assert(self_edge == edge_rel(edges@)(vv, vv));
        }
        let leads = comp.len() > 0 && text_eq(comp[0].as_str(), v);
        if leads && (comp.len() > 1 || self_edge) {
            proof {
                assert(views(comp@)[0] == vv);
                if comp@.len() > 1 {
                    let y = views(comp@)[1];
                    assert(views(comp@).contains(y));
                    assert(text_lt(views(comp@)[0], views(comp@)[1]));
                    lemma_text_lt_total(views(comp@)[0], views(comp@)[1]);
                    assert(views(comp@).contains(views(comp@)[1]));
                    assert(mutual(step, vv, views(comp@)[1]));
                }
                assert(on_cycle(step, vv));
                assert forall|k: int| 0 <= k < cycles@.len() implies text_lt(
                    (#[trigger] cycles@[k])@[0]@,
                    vv,
                ) by {
                    assert(text_lt(sv[first_at[k]], sv[i as int]));
                }
            }
            cycles.push(comp);
            proof {
                first_at = first_at.push(i as int);
                home = home.push(cycles@.len() - 1);
                let c = cycles@.len() - 1;
                assert(cycles@[c]@[0]@ == vv);
                assert(cycle_ok(step, sv, cycles@[c]@));
                assert forall|q: int|
                    0 <= q < i + 1 && on_cycle(step, #[trigger] sv[q]) implies 0 <= home[q]
                    < cycles@.len() && views(cycles@[home[q]]@).contains(sv[q]) by {
                    if q < i {
                        assert(views(cycles@[home[q]]@).contains(sv[q]));
                    }
                }
            }
        } else {
            proof {
                let ghost mut h: int = -1;
                if on_cycle(step, vv) {
                    if leads {
                        assert(!self_edge);
                        let u = choose|u: Seq<char>| u != vv && #[trigger] mutual(step, vv, u);
                        assert(views(comp@).contains(u));
                        let m = choose|m: int| 0 <= m < views(comp@).len() && views(comp@)[m] == u;
                        assert(views(comp@)[0] == vv);
                        assert(false);
                    } else {
                        let x = views(comp@)[0];
                        assert(views(comp@).contains(x));
                        assert(mutual(step, vv, x));
                        let m = choose|m: int| 0 <= m < views(comp@).len() && views(comp@)[m] == vv;
                        assert(m != 0);
                        assert(text_lt(x, vv));
                        lemma_reach_in_scope(sv, relations@, vv, x);
                        let p = choose|p: int| 0 <= p < sv.len() && sv[p] == x;
                        if p >= i {
                            lemma_text_lt_total(x, vv);
                            if p > i {
                                assert(text_lt(sv[i as int], sv[p]));
                                lemma_text_lt_total(vv, x);
                            }
                            assert(false);
                        }
                        lemma_text_lt_total(x, vv);
                        assert(x != vv && mutual(step, x, vv));
                        assert(on_cycle(step, sv[p]));
                        let k = home[p];
                        assert(views(cycles@[k]@).contains(x));
                        let f = cycles@[k]@[0]@;
                        assert(cycle_ok(step, sv, cycles@[k]@));
                        assert(mutual(step, f, x));
                        lemma_reach_trans(step, f, x, vv);
                        lemma_reach_trans(step, vv, x, f);
                        assert(mutual(step, f, vv));
                        assert(views(cycles@[k]@).contains(vv));
                        h = k;
                    }
                }
                home = home.push(h);
                assert forall|q: int|
                    0 <= q < i + 1 && on_cycle(step, #[trigger] sv[q]) implies 0 <= home[q]
                    < cycles@.len() && views(cycles@[home[q]]@).contains(sv[q]) by {
                    if q < i {
                        assert(views(cycles@[home[q]]@).contains(sv[q]));
                    }
                }
            }
        }
        i += 1;
    }
    proof {
        assert forall|v: Seq<char>| sv.contains(v) && on_cycle(step, v) implies exists|k: int|
            0 <= k < cycles@.len() && views((#[trigger] cycles@[k])@).contains(v) by {
            let q = choose|q: int| 0 <= q < sv.len() && sv[q] == v;
            assert(on_cycle(step, sv[q]));
            let k = home[q];
            assert(views(cycles@[k]@).contains(v));
        }
    }
    cycles
}

/// Why an architecture plan was refused.
#[derive(Debug)]
pub enum ArchitectureError {
    MultipleWorkspaces,
    DuplicateTargets,
    DuplicateRelations,
    UnknownRelationTarget,
    ScopeBudgetExceeded,
    UnknownEvidenceTarget,
    DuplicateEvidence,
    ScopeSerialization,
}

impl ArchitectureError {
    /// The text of the error's message.
    pub open spec fn message_text(&self) -> Seq<char> {
        match self {
            ArchitectureError::MultipleWorkspaces => "architecture inventory contains multiple workspace targets"@,
            ArchitectureError::DuplicateTargets => "architecture plan contains duplicate targets"@,
            ArchitectureError::DuplicateRelations => "architecture plan contains duplicate relations"@,
            ArchitectureError::UnknownRelationTarget => "architecture relation references an unknown target"@,
            ArchitectureError::ScopeBudgetExceeded => "architecture scope metadata exceeds its serialized byte budget"@,
            ArchitectureError::UnknownEvidenceTarget => "architecture evidence references an unknown target"@,
            ArchitectureError::DuplicateEvidence => "architecture plan contains duplicate evidence IDs"@,
            ArchitectureError::ScopeSerialization => "cannot serialize architecture scope evidence"@,
        }
    }

    /// The error's message.
    pub fn message(&self) -> (r: String)
        ensures
            r@ == self.message_text(),
    {
        match self {
            ArchitectureError::MultipleWorkspaces => {
                "architecture inventory contains multiple workspace targets".to_owned()
            },
            ArchitectureError::DuplicateTargets => {
                "architecture plan contains duplicate targets".to_owned()
            },
            ArchitectureError::DuplicateRelations => {
                "architecture plan contains duplicate relations".to_owned()
            },
            ArchitectureError::UnknownRelationTarget => {
                "architecture relation references an unknown target".to_owned()
            },
            ArchitectureError::ScopeBudgetExceeded => {
                "architecture scope metadata exceeds its serialized byte budget".to_owned()
            },
            ArchitectureError::UnknownEvidenceTarget => {
                "architecture evidence references an unknown target".to_owned()
            },
            ArchitectureError::DuplicateEvidence => {
                "architecture plan contains duplicate evidence IDs".to_owned()
            },
            ArchitectureError::ScopeSerialization => {
                "cannot serialize architecture scope evidence".to_owned()
            },
        }
    }
}

/// The number of workspace targets.
pub open spec fn workspace_count(targets: Seq<ArchitectureTarget>) -> nat
    decreases targets.len(),
{
    if targets.len() == 0 {
        0
    } else {
        workspace_count(targets.drop_last()) + if targets.last().form == TargetForm::Workspace {
            1nat
        } else {
            0nat
        }
    }
}

/// Index of the first workspace target, or -1.
pub open spec fn workspace_pos(targets: Seq<ArchitectureTarget>) -> int
    decreases targets.len(),
{
    if targets.len() == 0 {
        -1
    } else if workspace_pos(targets.drop_last()) >= 0 {
        workspace_pos(targets.drop_last())
    } else if targets.last().form == TargetForm::Workspace {
        targets.len() - 1
    } else {
        -1
    }
}

/// The parent of a target, as text.
pub open spec fn parent_text(p: Option<String>) -> Option<Seq<char>> {
    match p {
        Some(s) => Some(s@),
        None => None,
    }
}

/// `u` is `t` with the parent that normalization gives it under the workspace
/// `w`: a target other than the workspace without a parent is placed under
/// the workspace.
pub open spec fn normalized_from(t: ArchitectureTarget, u: ArchitectureTarget, w: Seq<char>) -> bool {
    &&& u.id@ == t.id@
    &&& u.name@ == t.name@
    &&& u.form == t.form
    &&& u.visibility == t.visibility
    &&& u.inventory == t.inventory
    &&& parent_text(u.parent) == if t.id@ != w && t.parent is None {
        Some(w)
    } else {
        parent_text(t.parent)
    }
}

/// The workspace target added to an inventory without one.
pub open spec fn is_synthetic_workspace(t: ArchitectureTarget, id: Seq<char>) -> bool {
    &&& t.id@ == id
    &&& t.name@ == "workspace"@
    &&& t.form == TargetForm::Workspace
    &&& t.visibility == TargetVisibility::Unknown
    &&& t.inventory == InventoryState::Represented
    &&& t.parent is None
}

/// The workspace every target falls under: the inventory's own, or the added
/// one.
pub open spec fn workspace_id(targets: Seq<ArchitectureTarget>, synthetic_id: Seq<char>) -> Seq<char> {
    if workspace_count(targets) == 0 {
        synthetic_id
    } else {
        targets[workspace_pos(targets)].id@
    }
}

proof fn lemma_workspace_step(targets: Seq<ArchitectureTarget>, i: int)
    requires
        0 <= i < targets.len(),
    ensures
        workspace_count(targets.subrange(0, i + 1)) == workspace_count(targets.subrange(0, i))
            + if targets[i].form == TargetForm::Workspace {
            1nat
        } else {
            0nat
        },
        workspace_pos(targets.subrange(0, i + 1)) == if workspace_pos(targets.subrange(0, i))
            >= 0 {
            workspace_pos(targets.subrange(0, i))
        } else if targets[i].form == TargetForm::Workspace {
            i
        } else {
            -1
        },
{
    assert(targets.subrange(0, i + 1).drop_last() =~= targets.subrange(0, i));
}

proof fn lemma_workspace_pos(targets: Seq<ArchitectureTarget>)
    ensures
        workspace_count(targets) == 0 <==> workspace_pos(targets) == -1,
        workspace_pos(targets) >= 0 ==> workspace_pos(targets) < targets.len()
            && targets[workspace_pos(targets)].form == TargetForm::Workspace,
    decreases targets.len(),
{
    if targets.len() > 0 {
        lemma_workspace_pos(targets.drop_last());
    }
}

fn copy_target(t: &ArchitectureTarget, parent: Option<String>) -> (r: ArchitectureTarget)
    ensures
        r.id@ == t.id@,
        r.name@ == t.name@,
        r.form == t.form,
        r.visibility == t.visibility,
        r.inventory == t.inventory,
        r.parent == parent,
{
    ArchitectureTarget {
        id: t.id.clone(),
        name: t.name.clone(),
        form: t.form,
        visibility: t.visibility,
        inventory: t.inventory,
        parent: parent,
    }
}

/// Places every target under one workspace: refused when the inventory holds
/// more than one workspace; a workspace named `synthetic_id` is added when it
/// holds none; each other target without a parent gets the workspace as
/// parent.
pub fn normalize_architecture_targets(targets: &Vec<ArchitectureTarget>, synthetic_id: &str) -> (r:
    Result<Vec<ArchitectureTarget>, ArchitectureError>)
    ensures
        r is Err <==> workspace_count(targets@) > 1,
        r is Err ==> r->Err_0 is MultipleWorkspaces,
        r is Ok ==> ({
            let v = r->Ok_0@;
            let w = workspace_id(targets@, synthetic_id@);
            &&& v.len() == targets@.len() + if workspace_count(targets@) == 0 {
                1int
            } else {
                0int
            }
            &&& forall|i: int|
                0 <= i < targets@.len() ==> normalized_from(#[trigger] targets@[i], v[i], w)
            &&& workspace_count(targets@) == 0 ==> is_synthetic_workspace(
                v[targets@.len() as int],
                synthetic_id@,
            )
        }),
{
    let mut count: usize = 0;
    let mut first: Option<usize> = None;
    let mut i: usize = 0;
    while i < targets.len()
        invariant
            i <= targets.len(),
            count <= i,
            count == workspace_count(targets@.subrange(0, i as int)),
            match first {
                Some(k) => k as int == workspace_pos(targets@.subrange(0, i as int)),
                None => workspace_pos(targets@.subrange(0, i as int)) == -1,
            },
        decreases targets.len() - i,
    {
        proof {
            lemma_workspace_step(targets@, i as int);
        }
        if targets[i].form == TargetForm::Workspace {
            if first.is_none() {
                first = Some(i);
            }
            count += 1;
        }
        i += 1;
    }
    proof {
        assert(targets@.subrange(0, targets@.len() as int) =~= targets@);
        lemma_workspace_pos(targets@);
    }
    if count > 1 {
        return Err(ArchitectureError::MultipleWorkspaces);
    }
    let w: String = match first {
        Some(k) => targets[k].id.clone(),
        None => synthetic_id.to_owned(),
    };
    proof {
        assert(w@ == workspace_id(targets@, synthetic_id@));
    }
    let mut out: Vec<ArchitectureTarget> = Vec::new();
    let mut i: usize = 0;
    while i < targets.len()
        invariant
            i <= targets.len(),
            out@.len() == i,
            w@ == workspace_id(targets@, synthetic_id@),
            forall|q: int| 0 <= q < i ==> normalized_from(#[trigger] targets@[q], out@[q], w@),
        decreases targets.len() - i,
    {
        let t = &targets[i];
        let parent = if !text_eq(t.id.as_str(), w.as_str()) && t.parent.is_none() {
            Some(w.clone())
        } else {
            match &t.parent {
                Some(p) => Some(p.clone()),
                None => None,
            }
        };
        out.push(copy_target(t, parent));
        i += 1;
    }
    if first.is_none() {
        out.push(
            ArchitectureTarget {
                id: w.clone(),
                name: "workspace".to_owned(),
                form: TargetForm::Workspace,
                visibility: TargetVisibility::Unknown,
                inventory: InventoryState::Represented,
                parent: None,
            },
        );
        proof {
            reveal_strlit("workspace");
        }
    }
    Ok(out)
}

/// Whether a review applies to its target.
#[derive(Debug, PartialEq, Eq, Structural, Clone, Copy)]
pub enum ApplicabilityState {
    Applicable,
    NotApplicable,
    Pending,
}

/// One planned architecture review.
#[derive(Debug)]
pub struct ArchitectureReviewUnit {
    pub schema_version: u32,
    pub work_item: String,
    pub target: String,
    pub scope: ArchitectureScope,
    pub policy: String,
    pub policy_version: String,
    pub applicability: ApplicabilityState,
    pub evidence: Vec<String>,
    pub prerequisite_work: Vec<String>,
}

/// The unit at `j` is the one kept for its target among the applicable ones:
/// applicable, and no later applicable unit reviews the same target.
pub open spec fn kept_applicable(units: Seq<ArchitectureReviewUnit>, j: int) -> bool {
    &&& units[j].applicability == ApplicabilityState::Applicable
    &&& forall|l: int|
        j < l < units.len() && (#[trigger] units[l]).applicability == ApplicabilityState::Applicable
            ==> units[l].target@ != units[j].target@
}

/// The unit at `j` is a prerequisite of the unit at `i` at the given scope:
/// kept, of another target within the scope of `i`'s target, at that scope.
pub open spec fn prerequisite_of(
    units: Seq<ArchitectureReviewUnit>,
    step: spec_fn(Seq<char>, Seq<char>) -> bool,
    i: int,
    j: int,
    scope: ArchitectureScope,
) -> bool {
    &&& 0 <= j < units.len()
    &&& kept_applicable(units, j)
    &&& units[j].target@ != units[i].target@
    &&& units[j].scope == scope
    &&& reaches(step, units[i].target@, units[j].target@)
}

/// The work items of the prerequisites of unit `i` at the given scope.
pub open spec fn prerequisite_work_at(
    units: Seq<ArchitectureReviewUnit>,
    step: spec_fn(Seq<char>, Seq<char>) -> bool,
    i: int,
    scope: ArchitectureScope,
) -> Set<Seq<char>> {
    Set::new(
        |w: Seq<char>|
            exists|j: int| #[trigger] prerequisite_of(units, step, i, j, scope) && units[j].work_item@ == w,
    )
}

/// What unit `i` waits for: a module waits for nothing new (it is left as
/// it is); a package for the module reviews within it; a workspace for the
/// package reviews within it, or, when there are none, the module reviews.
pub open spec fn progressive_prerequisites(
    units: Seq<ArchitectureReviewUnit>,
    step: spec_fn(Seq<char>, Seq<char>) -> bool,
    i: int,
) -> Option<Set<Seq<char>>> {
    match units[i].scope {
        ArchitectureScope::Module => None,
        ArchitectureScope::Package => Some(
            prerequisite_work_at(units, step, i, ArchitectureScope::Module),
        ),
        ArchitectureScope::Workspace => {
            let packages = prerequisite_work_at(units, step, i, ArchitectureScope::Package);
            if packages == Set::<Seq<char>>::empty() {
                Some(prerequisite_work_at(units, step, i, ArchitectureScope::Module))
            } else {
                Some(packages)
            }
        },
    }
}

/// Two units agree on everything but their prerequisites.
pub open spec fn same_unit_but_prerequisites(a: ArchitectureReviewUnit, b: ArchitectureReviewUnit) -> bool {
    &&& a.schema_version == b.schema_version
    &&& a.work_item@ == b.work_item@
    &&& a.target@ == b.target@
    &&& a.scope == b.scope
    &&& a.policy@ == b.policy@
    &&& a.policy_version@ == b.policy_version@
    &&& a.applicability == b.applicability
    &&& a.evidence@ == b.evidence@
}

fn kept_applicable_units(units: &Vec<ArchitectureReviewUnit>) -> (r: Vec<usize>)
    ensures
        forall|k: int| 0 <= k < r@.len() ==> (#[trigger] r@[k]) < units@.len() && kept_applicable(units@, r@[k] as int),
        forall|j: int|
            0 <= j < units@.len() && #[trigger] kept_applicable(units@, j) ==> r@.contains(j as usize),
{
    let mut r: Vec<usize> = Vec::new();
    let mut j: usize = 0;
    while j < units.len()
        invariant
            j <= units.len(),
            forall|k: int| 0 <= k < r@.len() ==> (#[trigger] r@[k]) < units@.len() && kept_applicable(units@, r@[k] as int),
            forall|q: int| 0 <= q < j && #[trigger] kept_applicable(units@, q) ==> r@.contains(q as usize),
        decreases units.len() - j,
    {
        if units[j].applicability == ApplicabilityState::Applicable {
            let mut later = false;
            let mut l: usize = j + 1;
            while l < units.len()
                invariant
                    j < l <= units.len(),
                    !later ==> forall|m: int|
                        j < m < l && (#[trigger] units@[m]).applicability == ApplicabilityState::Applicable
                            ==> units@[m].target@ != units@[j as int].target@,
                    later ==> !kept_applicable(units@, j as int),
                decreases units.len() - l,
            {
                if units[l].applicability == ApplicabilityState::Applicable && text_eq(
                    units[l].target.as_str(),
                    units[j].target.as_str(),
                ) {
                    later = true;
                }
                l += 1;
            }
            if !later {
                let ghost before = r@;
                r.push(j);
                proof {
                    assert(r@[r@.len() - 1] == j);
                    assert forall|q: int| 0 <= q < j + 1 && #[trigger] kept_applicable(units@, q) implies r@.contains(q as usize) by {
                        if q < j {
                            assert(before.contains(q as usize));
                            let m = choose|m: int| 0 <= m < before.len() && before[m] == q as usize;
                            assert(r@[m] == q as usize);
                        }
                    }
                }
            }
        }
        j += 1;
    }
    r
}

/// The work items of the kept applicable units of another target within
/// `scope_targets` at the given scope, as a sorted set.
#[verifier::loop_isolation(false)]
fn prerequisites_at(
    units: &Vec<ArchitectureReviewUnit>,
    kept: &Vec<usize>,
    i: usize,
    scope_targets: &Vec<String>,
    scope: ArchitectureScope,
    step: Ghost<spec_fn(Seq<char>, Seq<char>) -> bool>,
) -> (r: Vec<String>)
    requires
        i < units@.len(),
        forall|k: int| 0 <= k < kept@.len() ==> (#[trigger] kept@[k]) < units@.len() && kept_applicable(units@, kept@[k] as int),
        forall|j: int|
            0 <= j < units@.len() && #[trigger] kept_applicable(units@, j) ==> kept@.contains(j as usize),
        forall|x: Seq<char>| views(scope_targets@).contains(x) <==> reaches(step@, units@[i as int].target@, x),
    ensures
        is_text_set(r@),
        views(r@).to_set() == prerequisite_work_at(units@, step@, i as int, scope),
{
    let unit_count = units.len();
    let mut r: Vec<String> = Vec::new();
    let mut k: usize = 0;
    while k < kept.len()
        invariant
            k <= kept@.len(),
            is_text_set(r@),
            forall|w: Seq<char>|
                views(r@).to_set().contains(w) <==> exists|q: int|
                    0 <= q < k && #[trigger] prerequisite_of(units@, step@, i as int, kept@[q] as int, scope)
                        && units@[kept@[q] as int].work_item@ == w,
        decreases kept.len() - k,
    {
        let j = kept[k];
        let u = &units[j];
        let ghost before = views(r@).to_set();
        let candidate = !text_eq(u.target.as_str(), units[i].target.as_str()) && u.scope == scope
            && set_contains(scope_targets, u.target.as_str());
        proof {
            assert(candidate == prerequisite_of(units@, step@, i as int, j as int, scope));
        }
        if candidate {
            set_insert(&mut r, u.work_item.as_str());
        }
        proof {
            assert forall|w: Seq<char>|
                views(r@).to_set().contains(w) <==> exists|q: int|
                    0 <= q < k + 1 && #[trigger] prerequisite_of(units@, step@, i as int, kept@[q] as int, scope)
                        && units@[kept@[q] as int].work_item@ == w by {
                if exists|q: int|
                    0 <= q < k + 1 && #[trigger] prerequisite_of(units@, step@, i as int, kept@[q] as int, scope)
                        && units@[kept@[q] as int].work_item@ == w {
                    let q = choose|q: int|
                        0 <= q < k + 1 && #[trigger] prerequisite_of(units@, step@, i as int, kept@[q] as int, scope)
                            && units@[kept@[q] as int].work_item@ == w;
                    if q < k {
                        assert(before.contains(w));
                    }
                }
                if before.contains(w) {
                    let q = choose|q: int|
                        0 <= q < k && #[trigger] prerequisite_of(units@, step@, i as int, kept@[q] as int, scope)
                            && units@[kept@[q] as int].work_item@ == w;
                    assert(0 <= q < k + 1);
                }
            }
        }
        k += 1;
    }
    proof {
        assert forall|w: Seq<char>| views(r@).to_set().contains(w) <==> prerequisite_work_at(
            units@,
            step@,
            i as int,
            scope,
        ).contains(w) by {
            if prerequisite_work_at(units@, step@, i as int, scope).contains(w) {
                let j = choose|j: int| #[trigger] prerequisite_of(units@, step@, i as int, j, scope) && units@[j].work_item@ == w;
                assert(kept_applicable(units@, j));
                assert(kept@.contains(j as usize));
                let q = choose|q: int| 0 <= q < kept@.len() && kept@[q] == j as usize;
                assert(kept@[q] as int == j);
                assert(prerequisite_of(units@, step@, i as int, kept@[q] as int, scope));
                assert(units@[kept@[q] as int].work_item@ == w);
            }
            if views(r@).to_set().contains(w) {
                let q = choose|q: int|
                    0 <= q < kept@.len() && #[trigger] prerequisite_of(units@, step@, i as int, kept@[q] as int, scope)
                        && units@[kept@[q] as int].work_item@ == w;
                let j = kept@[q] as int;
                assert(prerequisite_of(units@, step@, i as int, j, scope) && units@[j].work_item@ == w);
            }
        }
        assert(views(r@).to_set() =~= prerequisite_work_at(units@, step@, i as int, scope));
    }
    r
}

/// Sets what each architecture review waits for: a package review waits for
/// the applicable module reviews within it, a workspace review for the
/// package reviews within it, or the module reviews when it holds no package
/// review. Module reviews, and everything but the prerequisites, stay as they
/// are.
pub fn assign_progressive_prerequisites(
    units: &mut Vec<ArchitectureReviewUnit>,
    targets: &Vec<ArchitectureTarget>,
    relations: &Vec<ArchitectureRelation>,
)
    ensures
        final(units)@.len() == old(units)@.len(),
        forall|i: int|
            0 <= i < old(units)@.len() ==> same_unit_but_prerequisites(
                #[trigger] final(units)@[i],
                old(units)@[i],
            ),
        forall|i: int|
            0 <= i < old(units)@.len() ==> match progressive_prerequisites(
                old(units)@,
                child_rel(targets@, relations@),
                i,
            ) {
                None => (#[trigger] final(units)@[i]).prerequisite_work@ == old(units)@[i].prerequisite_work@,
                Some(s) => is_text_set(final(units)@[i].prerequisite_work@) && views(
                    final(units)@[i].prerequisite_work@,
                ).to_set() == s,
            },
{
    let ghost step = child_rel(targets@, relations@);
    let kept = kept_applicable_units(units);
    let mut out: Vec<ArchitectureReviewUnit> = Vec::new();
    let mut i: usize = 0;
    while i < units.len()
        invariant
            i <= units@.len(),
            out@.len() == i,
            units@ == old(units)@,
            step == child_rel(targets@, relations@),
            forall|k: int| 0 <= k < kept@.len() ==> (#[trigger] kept@[k]) < units@.len() && kept_applicable(units@, kept@[k] as int),
            forall|j: int|
                0 <= j < units@.len() && #[trigger] kept_applicable(units@, j) ==> kept@.contains(j as usize),
            forall|q: int| 0 <= q < i ==> same_unit_but_prerequisites(#[trigger] out@[q], units@[q]),
            forall|q: int|
                0 <= q < i ==> match progressive_prerequisites(units@, step, q) {
                    None => (#[trigger] out@[q]).prerequisite_work@ == units@[q].prerequisite_work@,
                    Some(s) => is_text_set(out@[q].prerequisite_work@) && views(out@[q].prerequisite_work@).to_set() == s,
                },
        decreases units.len() - i,
    {
        let u = &units[i];
        let prerequisites = match u.scope {
            ArchitectureScope::Module => copy_texts(&u.prerequisite_work),
            ArchitectureScope::Package => {
                let within = scope_target_ids(u.target.as_str(), targets, relations);
                prerequisites_at(units, &kept, i, &within, ArchitectureScope::Module, Ghost(step))
            },
            ArchitectureScope::Workspace => {
                let within = scope_target_ids(u.target.as_str(), targets, relations);
                let packages = prerequisites_at(units, &kept, i, &within, ArchitectureScope::Package, Ghost(step));
                if packages.len() == 0 {
                    proof {
                        assert(views(packages@).to_set() =~= Set::<Seq<char>>::empty());
                    }
                    prerequisites_at(units, &kept, i, &within, ArchitectureScope::Module, Ghost(step))
                } else {
                    proof {
                        assert(views(packages@).to_set().contains(views(packages@)[0]));
                    }
                    packages
                }
            },
        };
        out.push(
            ArchitectureReviewUnit {
                schema_version: u.schema_version,
                work_item: u.work_item.clone(),
                target: u.target.clone(),
                scope: u.scope,
                policy: u.policy.clone(),
                policy_version: u.policy_version.clone(),
                applicability: u.applicability,
                evidence: copy_texts(&u.evidence),
                prerequisite_work: prerequisites,
            },
        );
        i += 1;
    }
    *units = out;
}

/// The relation lies within the scope: both ends in it.
pub open spec fn internal_to(scope: Seq<Seq<char>>, r: ArchitectureRelation) -> bool {
    scope.contains(r.source@) && scope.contains(r.target@)
}

/// The relation crosses the scope's boundary: exactly one end in it.
pub open spec fn crosses(scope: Seq<Seq<char>>, r: ArchitectureRelation) -> bool {
    scope.contains(r.source@) != scope.contains(r.target@)
}

/// The positions, in order, of the relations that satisfy `keep`.
pub open spec fn selects(picked: Seq<usize>, n: int, keep: spec_fn(int) -> bool) -> bool {
    &&& forall|a: int, b: int| 0 <= a < b < picked.len() ==> #[trigger] picked[a] < #[trigger] picked[b]
    &&& forall|a: int| 0 <= a < picked.len() ==> #[trigger] picked[a] < n && keep(picked[a] as int)
    &&& forall|j: int| 0 <= j < n && keep(j) ==> #[trigger] picked.contains(j as usize)
}

/// Targets listed by position, in strictly increasing order of identifier,
/// are exactly the known targets whose identifiers satisfy `keep`.
pub open spec fn lists_targets(
    targets: Seq<ArchitectureTarget>,
    listed: Seq<usize>,
    keep: spec_fn(Seq<char>) -> bool,
) -> bool {
    &&& forall|a: int| 0 <= a < listed.len() ==> (#[trigger] listed[a]) < targets.len() && target_pos(targets, targets[listed[a] as int].id@) == listed[a] as int && keep(targets[listed[a] as int].id@)
    &&& forall|a: int, b: int|
        0 <= a < b < listed.len() ==> text_lt(
            targets[(#[trigger] listed[a]) as int].id@,
            targets[(#[trigger] listed[b]) as int].id@,
        )
    &&& forall|x: Seq<char>| keep(x) && target_pos(targets, x) >= 0 ==> #[trigger] listed.contains(target_pos(targets, x) as usize)
}

/// How the constituents of a scope fared in inventory.
#[derive(Debug)]
pub struct ConstituentHealthSummary {
    pub total_constituents: usize,
    pub succeeded_constituents: usize,
    pub failed_constituents: usize,
    pub unable_to_verify_constituents: usize,
}

/// How many of the listed targets satisfy `keep`.
pub open spec fn count_listed(
    targets: Seq<ArchitectureTarget>,
    listed: Seq<usize>,
    keep: spec_fn(InventoryState) -> bool,
) -> nat
    decreases listed.len(),
{
    if listed.len() == 0 {
        0
    } else {
        count_listed(targets, listed.drop_last(), keep) + if keep(targets[listed.last() as int].inventory) {
            1nat
        } else {
            0nat
        }
    }
}

/// The inventory could not be verified: pending, excluded or unsupported.
pub open spec fn unverifiable(s: InventoryState) -> bool {
    s == InventoryState::Pending || s == InventoryState::Excluded || s == InventoryState::Unsupported
}

/// The structure of a scope: what it holds, what its relations do, where it
/// depends on itself.
#[derive(Debug)]
pub struct ScopeStructure {
    /// The targets within the scope, sorted.
    pub scope_targets: Vec<String>,
    /// The known targets within the scope other than its root, by position,
    /// sorted by identifier.
    pub constituents: Vec<usize>,
    /// The known targets outside the scope that a crossing relation touches,
    /// by position, sorted by identifier.
    pub boundary_targets: Vec<usize>,
    /// The relations within the scope, by position, in order.
    pub internal_relations: Vec<usize>,
    /// The relations that cross the scope's boundary, by position, in order.
    pub boundary_relations: Vec<usize>,
    pub dependency_cycles: Vec<Vec<String>>,
    pub constituent_health: ConstituentHealthSummary,
}

/// The identifier is an end, outside the scope, of a crossing relation.
pub open spec fn boundary_end(scope: Seq<Seq<char>>, relations: Seq<ArchitectureRelation>, x: Seq<char>) -> bool {
    boundary_end_among(scope, relations, x, relations.len() as int)
}

/// The identifier is an end, outside the scope, of one of the first `n`
/// relations that cross it.
pub open spec fn boundary_end_among(
    scope: Seq<Seq<char>>,
    relations: Seq<ArchitectureRelation>,
    x: Seq<char>,
    n: int,
) -> bool {
    &&& !scope.contains(x)
    &&& exists|j: int|
        0 <= j < n && crosses(scope, #[trigger] relations[j]) && (relations[j].source@ == x
            || relations[j].target@ == x)
}

/// Positions of the relations that satisfy the test, in order.
fn select_relations(
    relations: &Vec<ArchitectureRelation>,
    scope: &Vec<String>,
    crossing: bool,
) -> (r: Vec<usize>)
    ensures
        selects(
            r@,
            relations@.len() as int,
            |j: int|
                if crossing {
                    crosses(views(scope@), relations@[j])
                } else {
                    internal_to(views(scope@), relations@[j])
                },
        ),
{
    let ghost keep = |j: int|
        if crossing {
            crosses(views(scope@), relations@[j])
        } else {
            internal_to(views(scope@), relations@[j])
        };
    let mut r: Vec<usize> = Vec::new();
    let mut j: usize = 0;
    while j < relations.len()
        invariant
            j <= relations@.len(),
            keep == (|j: int|
                if crossing {
                    crosses(views(scope@), relations@[j])
                } else {
                    internal_to(views(scope@), relations@[j])
                }),
            forall|a: int, b: int| 0 <= a < b < r@.len() ==> #[trigger] r@[a] < #[trigger] r@[b],
            forall|a: int| 0 <= a < r@.len() ==> #[trigger] r@[a] < j && keep(r@[a] as int),
            forall|q: int| 0 <= q < j && keep(q) ==> #[trigger] r@.contains(q as usize),
        decreases relations.len() - j,
    {
        let s = set_contains(scope, relations[j].source.as_str());
        let t = set_contains(scope, relations[j].target.as_str());
        let take = if crossing {
            s != t
        } else {
            s && t
        };
        proof {
            assert(take == keep(j as int));
        }
        if take {
            let ghost before = r@;
            r.push(j);
            proof {
                assert forall|q: int| 0 <= q < j + 1 && keep(q) implies #[trigger] r@.contains(q as usize) by {
                    if q < j {
                        assert(before.contains(q as usize));
                        let m = choose|m: int| 0 <= m < before.len() && before[m] == q as usize;
                        assert(r@[m] == q as usize);
                    } else {
                        assert(r@[r@.len() - 1] == q as usize);
                    }
                }
            }
        }
        j += 1;
    }
    r
}

/// Positions of the known targets whose identifiers are listed, in the
/// order of the (sorted) list.
fn known_targets(targets: &Vec<ArchitectureTarget>, ids: &Vec<String>, skip: &str) -> (r: Vec<usize>)
    requires
        is_text_set(ids@),
    ensures
        lists_targets(targets@, r@, |x: Seq<char>| views(ids@).contains(x) && x != skip@),
{
    let ghost keep = |x: Seq<char>| views(ids@).contains(x) && x != skip@;
    let mut r: Vec<usize> = Vec::new();
    let mut i: usize = 0;
    while i < ids.len()
        invariant
            i <= ids@.len(),
            is_text_set(ids@),
            keep == (|x: Seq<char>| views(ids@).contains(x) && x != skip@),
            forall|a: int| 0 <= a < r@.len() ==> (#[trigger] r@[a]) < targets@.len() && target_pos(targets@, targets@[r@[a] as int].id@) == r@[a] as int && keep(targets@[r@[a] as int].id@),
            forall|a: int| 0 <= a < r@.len() ==> exists|m: int| 0 <= m < i && views(ids@)[m] == targets@[(#[trigger] r@[a]) as int].id@,
            forall|a: int, b: int|
                0 <= a < b < r@.len() ==> text_lt(
                    targets@[(#[trigger] r@[a]) as int].id@,
                    targets@[(#[trigger] r@[b]) as int].id@,
                ),
            forall|m: int| 0 <= m < i && keep(views(ids@)[m]) && target_pos(targets@, #[trigger] views(ids@)[m]) >= 0 ==> r@.contains(target_pos(targets@, views(ids@)[m]) as usize),
        decreases ids.len() - i,
    {
        let id = ids[i].as_str();
        proof {
            assert(views(ids@)[i as int] == id@);
            lemma_target_pos(targets@, id@);
        }
        if !text_eq(id, skip) {
            match find_target(targets, id) {
                Some(k) => {
                    let ghost before = r@;
                    proof {
                        assert(views(ids@).contains(id@));
                        assert forall|a: int| 0 <= a < before.len() implies text_lt(
                            targets@[(#[trigger] before[a]) as int].id@,
                            id@,
                        ) by {
                            let m = choose|m: int| 0 <= m < i && views(ids@)[m] == targets@[before[a] as int].id@;
                            assert(text_lt(views(ids@)[m], views(ids@)[i as int]));
                        }
                    }
                    r.push(k);
                    proof {
                        assert forall|m: int| 0 <= m < i + 1 && keep(views(ids@)[m]) && target_pos(targets@, #[trigger] views(ids@)[m]) >= 0 implies r@.contains(target_pos(targets@, views(ids@)[m]) as usize) by {
                            if m < i {
                                let p = choose|p: int| 0 <= p < before.len() && before[p] == target_pos(targets@, views(ids@)[m]) as usize;
                                assert(r@[p] == before[p]);
                            } else {
                                assert(r@[r@.len() - 1] == k);
                            }
                        }
                        assert forall|a: int| 0 <= a < r@.len() implies exists|m: int| 0 <= m < i + 1 && views(ids@)[m] == targets@[(#[trigger] r@[a]) as int].id@ by {
                            if a < before.len() {
                                assert(r@[a] == before[a]);
                            } else {
                                assert(views(ids@)[i as int] == targets@[r@[a] as int].id@);
                            }
                        }
                    }
                },
                None => {},
            }
        }
        i += 1;
    }
    proof {
        assert forall|x: Seq<char>| keep(x) && target_pos(targets@, x) >= 0 implies #[trigger] r@.contains(target_pos(targets@, x) as usize) by {
            let m = choose|m: int| 0 <= m < views(ids@).len() && views(ids@)[m] == x;
            assert(keep(views(ids@)[m]));
        }
    }
    r
}

/// The ends, outside the scope, of the relations that cross it, as a text
/// set.
#[verifier::loop_isolation(false)]
fn boundary_ends(relations: &Vec<ArchitectureRelation>, scope: &Vec<String>) -> (r: Vec<String>)
    ensures
        is_text_set(r@),
        forall|x: Seq<char>| views(r@).contains(x) <==> boundary_end(views(scope@), relations@, x),
{
    let ghost sv = views(scope@);
    let mut r: Vec<String> = Vec::new();
    let mut j: usize = 0;
    while j < relations.len()
        invariant
            j <= relations@.len(),
            is_text_set(r@),
            forall|x: Seq<char>|
                views(r@).to_set().contains(x) <==> boundary_end_among(sv, relations@, x, j as int),
        decreases relations.len() - j,
    {
        let rel = &relations[j];
        let s = set_contains(scope, rel.source.as_str());
        let t = set_contains(scope, rel.target.as_str());
        let ghost before = views(r@).to_set();
        if s != t {
            if !s {
                set_insert(&mut r, rel.source.as_str());
            }
            if !t {
                set_insert(&mut r, rel.target.as_str());
            }
        }
        proof {
            assert(views(r@).to_set() == if s == t {
                before
            } else if !s {
                before.insert(rel.source@)
            } else {
                before.insert(rel.target@)
            });
            assert forall|x: Seq<char>|
                views(r@).to_set().contains(x) <==> boundary_end_among(
                    sv,
                    relations@,
                    x,
                    j + 1,
                ) by {
                if boundary_end_among(sv, relations@, x, j + 1) {
                    let q = choose|q: int|
                        0 <= q < j + 1 && crosses(sv, #[trigger] relations@[q]) && (relations@[q].source@
                            == x || relations@[q].target@ == x);
                    if q < j {
                        assert(boundary_end_among(sv, relations@, x, j as int));
                        assert(before.contains(x));
                    }
                }
                if views(r@).to_set().contains(x) {
                    if before.contains(x) {
                        let q = choose|q: int|
                            0 <= q < j && crosses(sv, #[trigger] relations@[q]) && (relations@[q].source@
                                == x || relations@[q].target@ == x);
                        assert(0 <= q < j + 1);
                    } else {
                        assert(crosses(sv, relations@[j as int]));
                    }
                }
            }
        }
        j += 1;
    }
    proof {
        assert forall|x: Seq<char>| views(r@).contains(x) <==> boundary_end(sv, relations@, x) by {
            assert(views(r@).contains(x) == views(r@).to_set().contains(x));
        }
    }
    r
}

proof fn lemma_count_step(
    targets: Seq<ArchitectureTarget>,
    listed: Seq<usize>,
    keep: spec_fn(InventoryState) -> bool,
    i: int,
)
    requires
        0 <= i < listed.len(),
    ensures
        count_listed(targets, listed.subrange(0, i + 1), keep) == count_listed(
            targets,
            listed.subrange(0, i),
            keep,
        ) + if keep(targets[listed[i] as int].inventory) {
            1nat
        } else {
            0nat
        },
{
    assert(listed.subrange(0, i + 1).drop_last() =~= listed.subrange(0, i));
}

/// Counts the constituents by inventory state.
#[verifier::loop_isolation(false)]
fn constituent_health(targets: &Vec<ArchitectureTarget>, listed: &Vec<usize>) -> (r:
    ConstituentHealthSummary)
    requires
        forall|a: int| 0 <= a < listed@.len() ==> (#[trigger] listed@[a]) < targets@.len(),
    ensures
        r.total_constituents == listed@.len(),
        r.succeeded_constituents == count_listed(
            targets@,
            listed@,
            |s: InventoryState| s == InventoryState::Represented,
        ),
        r.failed_constituents == count_listed(
            targets@,
            listed@,
            |s: InventoryState| s == InventoryState::Failed,
        ),
        r.unable_to_verify_constituents == count_listed(
            targets@,
            listed@,
            |s: InventoryState| unverifiable(s),
        ),
{
    let ghost ok = |s: InventoryState| s == InventoryState::Represented;
    let ghost bad = |s: InventoryState| s == InventoryState::Failed;
    let ghost unknown = |s: InventoryState| unverifiable(s);
    let mut succeeded: usize = 0;
    let mut failed: usize = 0;
    let mut unable: usize = 0;
    let mut i: usize = 0;
    while i < listed.len()
        invariant
            i <= listed@.len(),
            forall|a: int| 0 <= a < listed@.len() ==> (#[trigger] listed@[a]) < targets@.len(),
            succeeded <= i && failed <= i && unable <= i,
            succeeded == count_listed(targets@, listed@.subrange(0, i as int), ok),
            failed == count_listed(targets@, listed@.subrange(0, i as int), bad),
            unable == count_listed(targets@, listed@.subrange(0, i as int), unknown),
        decreases listed.len() - i,
    {
        proof {
            lemma_count_step(targets@, listed@, ok, i as int);
            lemma_count_step(targets@, listed@, bad, i as int);
            lemma_count_step(targets@, listed@, unknown, i as int);
        }
        let state = targets[listed[i]].inventory;
        if state == InventoryState::Represented {
            succeeded += 1;
        }
        if state == InventoryState::Failed {
            failed += 1;
        }
        if state == InventoryState::Pending || state == InventoryState::Excluded || state
            == InventoryState::Unsupported {
            unable += 1;
        }
        i += 1;
    }
    proof {
        assert(listed@.subrange(0, listed@.len() as int) =~= listed@);
    }
    ConstituentHealthSummary {
        total_constituents: listed.len(),
        succeeded_constituents: succeeded,
        failed_constituents: failed,
        unable_to_verify_constituents: unable,
    }
}

/// The structure of the scope of `root`: its targets, the known ones among
/// them, the relations within it and across its boundary, the known targets
/// just outside it, its dependency cycles and the health of its constituents.
pub fn scope_structure(
    root: &str,
    targets: &Vec<ArchitectureTarget>,
    relations: &Vec<ArchitectureRelation>,
) -> (r: ScopeStructure)
    ensures
        is_text_set(r.scope_targets@),
        forall|x: Seq<char>|
            views(r.scope_targets@).contains(x) <==> reaches(child_rel(targets@, relations@), root@, x),
        lists_targets(
            targets@,
            r.constituents@,
            |x: Seq<char>| views(r.scope_targets@).contains(x) && x != root@,
        ),
        lists_targets(
            targets@,
            r.boundary_targets@,
            |x: Seq<char>| boundary_end(views(r.scope_targets@), relations@, x) && x != root@,
        ),
        selects(
            r.internal_relations@,
            relations@.len() as int,
            |j: int| internal_to(views(r.scope_targets@), relations@[j]),
        ),
        selects(
            r.boundary_relations@,
            relations@.len() as int,
            |j: int| crosses(views(r.scope_targets@), relations@[j]),
        ),
        cycles_sound(
            depends_rel(views(r.scope_targets@), relations@),
            views(r.scope_targets@),
            r.dependency_cycles@,
        ),
        cycles_cover(
            depends_rel(views(r.scope_targets@), relations@),
            views(r.scope_targets@),
            r.dependency_cycles@,
        ),
        cycles_ordered(r.dependency_cycles@),
        r.constituent_health.total_constituents == r.constituents@.len(),
        r.constituent_health.succeeded_constituents == count_listed(
            targets@,
            r.constituents@,
            |s: InventoryState| s == InventoryState::Represented,
        ),
        r.constituent_health.failed_constituents == count_listed(
            targets@,
            r.constituents@,
            |s: InventoryState| s == InventoryState::Failed,
        ),
        r.constituent_health.unable_to_verify_constituents == count_listed(
            targets@,
            r.constituents@,
            |s: InventoryState| unverifiable(s),
        ),
{
    let scope_targets = scope_target_ids(root, targets, relations);
    let constituents = known_targets(targets, &scope_targets, root);
    let internal_relations = select_relations(relations, &scope_targets, false);
    let boundary_relations = select_relations(relations, &scope_targets, true);
    let ends = boundary_ends(relations, &scope_targets);
    let boundary_targets = known_targets(targets, &ends, root);
    let dependency_cycles = dependency_cycles(&scope_targets, relations);
    let constituent_health = constituent_health(targets, &constituents);
    proof {
        let sv = views(scope_targets@);
        assert(sv.contains(root@)) by {
            lemma_reach_self(child_rel(targets@, relations@), root@);
        }
        assert forall|x: Seq<char>| (views(ends@).contains(x) && x != root@) == (boundary_end(sv, relations@, x) && x != root@) by {}
        assert((|x: Seq<char>| views(ends@).contains(x) && x != root@) =~= (|x: Seq<char>| boundary_end(sv, relations@, x) && x != root@));
    }
    ScopeStructure {
        scope_targets,
        constituents,
        boundary_targets,
        internal_relations,
        boundary_relations,
        dependency_cycles,
        constituent_health,
    }
}

/// The schema version of architecture scope evidence.
pub const ARCHITECTURE_SCOPE_EVIDENCE_SCHEMA_VERSION: u32 = 1;

/// At most this many constituents are listed in scope evidence.
pub const MAX_SCOPE_CONSTITUENTS: usize = 2048;

/// At most this many relations within the scope are listed.
pub const MAX_SCOPE_INTERNAL_RELATIONS: usize = 4096;

/// At most this many crossing relations, and as many targets outside the
/// scope, are listed.
pub const MAX_SCOPE_BOUNDARY_RELATIONS: usize = 2048;

/// At most this many bytes of serialized scope evidence are kept.
pub const MAX_SCOPE_EVIDENCE_BYTES: usize = 524288;

/// What scope evidence records of a target.
#[derive(Debug)]
pub struct ArchitectureTargetFact {
    pub id: String,
    pub name: String,
    pub visibility: TargetVisibility,
    pub inventory: InventoryState,
    pub parent: Option<String>,
}

/// What scope evidence records of a relation.
#[derive(Debug)]
pub struct ArchitectureRelationFact {
    pub source: String,
    pub target: String,
    pub kind: String,
}

/// The structural evidence of an architecture scope.
#[derive(Debug)]
pub struct ArchitectureScopeEvidence {
    pub schema_version: u32,
    pub fingerprint: String,
    pub target: String,
    pub scope: ArchitectureScope,
    pub constituents: Vec<ArchitectureTargetFact>,
    pub omitted_constituents: usize,
    pub boundary_targets: Vec<ArchitectureTargetFact>,
    pub omitted_boundary_targets: usize,
    pub internal_relations: Vec<ArchitectureRelationFact>,
    pub omitted_internal_relations: usize,
    pub boundary_relations: Vec<ArchitectureRelationFact>,
    pub omitted_boundary_relations: usize,
    pub dependency_cycles: Vec<Vec<String>>,
    pub omitted_dependency_cycles: usize,
    pub constituent_health: ConstituentHealthSummary,
}

/// The fact records the target.
pub open spec fn is_target_fact(t: ArchitectureTarget, f: ArchitectureTargetFact) -> bool {
    &&& f.id@ == t.id@
    &&& f.name@ == t.name@
    &&& f.visibility == t.visibility
    &&& f.inventory == t.inventory
    &&& parent_text(f.parent) == parent_text(t.parent)
}

/// The fact records the relation.
pub open spec fn is_relation_fact(r: ArchitectureRelation, f: ArchitectureRelationFact) -> bool {
    &&& f.source@ == r.source@
    &&& f.target@ == r.target@
    &&& f.kind@ == r.kind@
}

/// The facts record the first listed targets, at most `maximum` of them.
pub open spec fn target_facts_of(
    targets: Seq<ArchitectureTarget>,
    listed: Seq<usize>,
    maximum: int,
    facts: Seq<ArchitectureTargetFact>,
) -> bool {
    &&& facts.len() == if listed.len() <= maximum {
        listed.len() as int
    } else {
        maximum
    }
    &&& forall|a: int| 0 <= a < facts.len() ==> is_target_fact(targets[listed[a] as int], #[trigger] facts[a])
}

/// The facts record the first listed relations, at most `maximum` of them.
pub open spec fn relation_facts_of(
    relations: Seq<ArchitectureRelation>,
    listed: Seq<usize>,
    maximum: int,
    facts: Seq<ArchitectureRelationFact>,
) -> bool {
    &&& facts.len() == if listed.len() <= maximum {
        listed.len() as int
    } else {
        maximum
    }
    &&& forall|a: int| 0 <= a < facts.len() ==> is_relation_fact(relations[listed[a] as int], #[trigger] facts[a])
}

/// How many of `count` items beyond `maximum` are left out.
pub open spec fn omitted(count: int, maximum: int) -> int {
    if count <= maximum {
        0
    } else {
        count - maximum
    }
}

fn target_facts(targets: &Vec<ArchitectureTarget>, listed: &Vec<usize>, maximum: usize) -> (r: (
    Vec<ArchitectureTargetFact>,
    usize,
))
    requires
        forall|a: int| 0 <= a < listed@.len() ==> (#[trigger] listed@[a]) < targets@.len(),
    ensures
        target_facts_of(targets@, listed@, maximum as int, r.0@),
        r.1 == omitted(listed@.len() as int, maximum as int),
{
    let mut facts: Vec<ArchitectureTargetFact> = Vec::new();
    let mut a: usize = 0;
    while a < listed.len() && a < maximum
        invariant
            a <= listed@.len(),
            a <= maximum,
            facts@.len() == a,
            forall|a: int| 0 <= a < listed@.len() ==> (#[trigger] listed@[a]) < targets@.len(),
            forall|b: int| 0 <= b < a ==> is_target_fact(targets@[listed@[b] as int], #[trigger] facts@[b]),
        decreases listed.len() - a,
    {
        let t = &targets[listed[a]];
        facts.push(
            ArchitectureTargetFact {
                id: t.id.clone(),
                name: t.name.clone(),
                visibility: t.visibility,
                inventory: t.inventory,
                parent: match &t.parent {
                    Some(p) => Some(p.clone()),
                    None => None,
                },
            },
        );
        a += 1;
    }
    (facts, listed.len().saturating_sub(maximum))
}

fn relation_facts(relations: &Vec<ArchitectureRelation>, listed: &Vec<usize>, maximum: usize) -> (r: (
    Vec<ArchitectureRelationFact>,
    usize,
))
    requires
        forall|a: int| 0 <= a < listed@.len() ==> (#[trigger] listed@[a]) < relations@.len(),
    ensures
        relation_facts_of(relations@, listed@, maximum as int, r.0@),
        r.1 == omitted(listed@.len() as int, maximum as int),
{
    let mut facts: Vec<ArchitectureRelationFact> = Vec::new();
    let mut a: usize = 0;
    while a < listed.len() && a < maximum
        invariant
            a <= listed@.len(),
            a <= maximum,
            facts@.len() == a,
            forall|a: int| 0 <= a < listed@.len() ==> (#[trigger] listed@[a]) < relations@.len(),
            forall|b: int| 0 <= b < a ==> is_relation_fact(relations@[listed@[b] as int], #[trigger] facts@[b]),
        decreases listed.len() - a,
    {
        let r = &relations[listed[a]];
        facts.push(
            ArchitectureRelationFact {
                source: r.source.clone(),
                target: r.target.clone(),
                kind: r.kind.clone(),
            },
        );
        a += 1;
    }
    (facts, listed.len().saturating_sub(maximum))
}

/// The scope evidence of a structure: the facts of at most so many
/// constituents, targets outside the scope, relations within it and relations
/// across it, with counts of those left out, every dependency cycle, and the
/// constituents' health, under the given fingerprint.
pub fn assemble_scope_evidence(
    root: &str,
    scope: ArchitectureScope,
    structure: ScopeStructure,
    targets: &Vec<ArchitectureTarget>,
    relations: &Vec<ArchitectureRelation>,
    fingerprint: String,
) -> (r: ArchitectureScopeEvidence)
    requires
        forall|a: int| 0 <= a < structure.constituents@.len() ==> (#[trigger] structure.constituents@[a]) < targets@.len(),
        forall|a: int| 0 <= a < structure.boundary_targets@.len() ==> (#[trigger] structure.boundary_targets@[a]) < targets@.len(),
        forall|a: int| 0 <= a < structure.internal_relations@.len() ==> (#[trigger] structure.internal_relations@[a]) < relations@.len(),
        forall|a: int| 0 <= a < structure.boundary_relations@.len() ==> (#[trigger] structure.boundary_relations@[a]) < relations@.len(),
    ensures
        r.schema_version == ARCHITECTURE_SCOPE_EVIDENCE_SCHEMA_VERSION,
        r.fingerprint == fingerprint,
        r.target@ == root@,
        r.scope == scope,
        target_facts_of(targets@, structure.constituents@, MAX_SCOPE_CONSTITUENTS as int, r.constituents@),
        r.omitted_constituents == omitted(structure.constituents@.len() as int, MAX_SCOPE_CONSTITUENTS as int),
        target_facts_of(targets@, structure.boundary_targets@, MAX_SCOPE_BOUNDARY_RELATIONS as int, r.boundary_targets@),
        r.omitted_boundary_targets == omitted(structure.boundary_targets@.len() as int, MAX_SCOPE_BOUNDARY_RELATIONS as int),
        relation_facts_of(relations@, structure.internal_relations@, MAX_SCOPE_INTERNAL_RELATIONS as int, r.internal_relations@),
        r.omitted_internal_relations == omitted(structure.internal_relations@.len() as int, MAX_SCOPE_INTERNAL_RELATIONS as int),
        relation_facts_of(relations@, structure.boundary_relations@, MAX_SCOPE_BOUNDARY_RELATIONS as int, r.boundary_relations@),
        r.omitted_boundary_relations == omitted(structure.boundary_relations@.len() as int, MAX_SCOPE_BOUNDARY_RELATIONS as int),
        r.dependency_cycles == structure.dependency_cycles,
        r.omitted_dependency_cycles == 0,
        r.constituent_health == structure.constituent_health,
{
    let (constituents, omitted_constituents) = target_facts(targets, &structure.constituents, MAX_SCOPE_CONSTITUENTS);
    let (boundary_targets, omitted_boundary_targets) = target_facts(targets, &structure.boundary_targets, MAX_SCOPE_BOUNDARY_RELATIONS);
    let (internal_relations, omitted_internal_relations) = relation_facts(relations, &structure.internal_relations, MAX_SCOPE_INTERNAL_RELATIONS);
    let (boundary_relations, omitted_boundary_relations) = relation_facts(relations, &structure.boundary_relations, MAX_SCOPE_BOUNDARY_RELATIONS);
    ArchitectureScopeEvidence {
        schema_version: ARCHITECTURE_SCOPE_EVIDENCE_SCHEMA_VERSION,
        fingerprint,
        target: root.to_owned(),
        scope,
        constituents,
        omitted_constituents,
        boundary_targets,
        omitted_boundary_targets,
        internal_relations,
        omitted_internal_relations,
        boundary_relations,
        omitted_boundary_relations,
        dependency_cycles: structure.dependency_cycles,
        omitted_dependency_cycles: 0,
        constituent_health: structure.constituent_health,
    }
}

/// Which list scope evidence gives up an entry from next when it is too
/// large: targets outside the scope, then crossing relations, then relations
/// within, then constituents, then cycles; 0 when all are empty.
pub open spec fn trim_choice(e: ArchitectureScopeEvidence) -> int {
    if e.boundary_targets@.len() > 0 {
        1
    } else if e.boundary_relations@.len() > 0 {
        2
    } else if e.internal_relations@.len() > 0 {
        3
    } else if e.constituents@.len() > 0 {
        4
    } else if e.dependency_cycles@.len() > 0 {
        5
    } else {
        0
    }
}

/// The count of the list trimmed next can still grow.
pub open spec fn can_trim(e: ArchitectureScopeEvidence) -> bool {
    let c = trim_choice(e);
    &&& c == 1 ==> e.omitted_boundary_targets < usize::MAX
    &&& c == 2 ==> e.omitted_boundary_relations < usize::MAX
    &&& c == 3 ==> e.omitted_internal_relations < usize::MAX
    &&& c == 4 ==> e.omitted_constituents < usize::MAX
    &&& c == 5 ==> e.omitted_dependency_cycles < usize::MAX
}

/// `b` is `a` with the last entry of the list chosen by `trim_choice`
/// dropped and counted as left out; `a` itself when every list is empty.
pub open spec fn trim_step(a: ArchitectureScopeEvidence, b: ArchitectureScopeEvidence) -> bool {
    let c = trim_choice(a);
    &&& b.schema_version == a.schema_version
    &&& b.fingerprint == a.fingerprint
    &&& b.target == a.target
    &&& b.scope == a.scope
    &&& b.constituent_health == a.constituent_health
    &&& b.boundary_targets@ == if c == 1 {
        a.boundary_targets@.drop_last()
    } else {
        a.boundary_targets@
    }
    &&& b.omitted_boundary_targets == a.omitted_boundary_targets + if c == 1 {
        1int
    } else {
        0int
    }
    &&& b.boundary_relations@ == if c == 2 {
        a.boundary_relations@.drop_last()
    } else {
        a.boundary_relations@
    }
    &&& b.omitted_boundary_relations == a.omitted_boundary_relations + if c == 2 {
        1int
    } else {
        0int
    }
    &&& b.internal_relations@ == if c == 3 {
        a.internal_relations@.drop_last()
    } else {
        a.internal_relations@
    }
    &&& b.omitted_internal_relations == a.omitted_internal_relations + if c == 3 {
        1int
    } else {
        0int
    }
    &&& b.constituents@ == if c == 4 {
        a.constituents@.drop_last()
    } else {
        a.constituents@
    }
    &&& b.omitted_constituents == a.omitted_constituents + if c == 4 {
        1int
    } else {
        0int
    }
    &&& b.dependency_cycles@ == if c == 5 {
        a.dependency_cycles@.drop_last()
    } else {
        a.dependency_cycles@
    }
    &&& b.omitted_dependency_cycles == a.omitted_dependency_cycles + if c == 5 {
        1int
    } else {
        0int
    }
}

/// Drops the last entry of the list chosen by `trim_choice` and counts it as
/// left out; tells whether anything was dropped.
pub fn trim_scope_evidence(e: &mut ArchitectureScopeEvidence) -> (trimmed: bool)
    requires
        can_trim(*old(e)),
    ensures
        trimmed == (trim_choice(*old(e)) != 0),
        trim_step(*old(e), *final(e)),
{
    if e.boundary_targets.pop().is_some() {
        e.omitted_boundary_targets = e.omitted_boundary_targets + 1;
        true
    } else if e.boundary_relations.pop().is_some() {
        e.omitted_boundary_relations = e.omitted_boundary_relations + 1;
        true
    } else if e.internal_relations.pop().is_some() {
        e.omitted_internal_relations = e.omitted_internal_relations + 1;
        true
    } else if e.constituents.pop().is_some() {
        e.omitted_constituents = e.omitted_constituents + 1;
        true
    } else if e.dependency_cycles.pop().is_some() {
        e.omitted_dependency_cycles = e.omitted_dependency_cycles + 1;
        true
    } else {
        false
    }
}

/// The identifiers of the targets.
pub open spec fn target_ids(targets: Seq<ArchitectureTarget>) -> Seq<Seq<char>> {
    targets.map_values(|t: ArchitectureTarget| t.id@)
}

/// The identifiers of the relations.
pub open spec fn relation_ids(relations: Seq<ArchitectureRelation>) -> Seq<Seq<char>> {
    relations.map_values(|r: ArchitectureRelation| r.id@)
}

/// The identifiers of the targets after normalization: the same, with the
/// added workspace when there was none.
pub open spec fn normalized_ids(targets: Seq<ArchitectureTarget>, synthetic_id: Seq<char>) -> Seq<Seq<char>> {
    if workspace_count(targets) == 0 {
        target_ids(targets).push(synthetic_id)
    } else {
        target_ids(targets)
    }
}

/// Both ends of every relation are known targets.
pub open spec fn relation_ends_known(ids: Seq<Seq<char>>, relations: Seq<ArchitectureRelation>) -> bool {
    forall|j: int|
        0 <= j < relations.len() ==> ids.contains((#[trigger] relations[j]).source@) && ids.contains(
            relations[j].target@,
        )
}

/// Two relations agree field by field.
pub open spec fn same_relation(a: ArchitectureRelation, b: ArchitectureRelation) -> bool {
    &&& a.id@ == b.id@
    &&& a.source@ == b.source@
    &&& a.target@ == b.target@
    &&& a.kind@ == b.kind@
}

/// An inventory ready for planning: targets normalized, and the orders of
/// targets and relations by identifier.
#[derive(Debug)]
pub struct ArchitectureInventory {
    pub targets: Vec<ArchitectureTarget>,
    /// Positions of the targets in increasing order of identifier.
    pub target_order: Vec<usize>,
    /// The relations in increasing order of identifier.
    pub relations: Vec<ArchitectureRelation>,
}

fn target_id_list(targets: &Vec<ArchitectureTarget>) -> (r: Vec<String>)
    ensures
        views(r@) == target_ids(targets@),
{
    let mut r: Vec<String> = Vec::new();
    let mut i: usize = 0;
    while i < targets.len()
        invariant
            i <= targets@.len(),
            r@.len() == i,
            views(r@) == target_ids(targets@).subrange(0, i as int),
        decreases targets.len() - i,
    {
        let ghost before = r@;
        r.push(targets[i].id.clone());
        proof {
            assert forall|k: int| 0 <= k < i + 1 implies views(r@)[k] == target_ids(targets@).subrange(0, i + 1)[k] by {
                if k < i {
                    assert(r@[k] == before[k]);
                    assert(views(before)[k] == target_ids(targets@).subrange(0, i as int)[k]);
                }
            }
            assert(views(r@) =~= target_ids(targets@).subrange(0, i + 1));
        }
        i += 1;
    }
    proof {
        assert(target_ids(targets@).subrange(0, i as int) =~= target_ids(targets@));
    }
    r
}

fn relation_id_list(relations: &Vec<ArchitectureRelation>) -> (r: Vec<String>)
    ensures
        views(r@) == relation_ids(relations@),
{
    let mut r: Vec<String> = Vec::new();
    let mut i: usize = 0;
    while i < relations.len()
        invariant
            i <= relations@.len(),
            r@.len() == i,
            views(r@) == relation_ids(relations@).subrange(0, i as int),
        decreases relations.len() - i,
    {
        let ghost before = r@;
        r.push(relations[i].id.clone());
        proof {
            assert forall|k: int| 0 <= k < i + 1 implies views(r@)[k] == relation_ids(relations@).subrange(0, i + 1)[k] by {
                if k < i {
                    assert(r@[k] == before[k]);
                    assert(views(before)[k] == relation_ids(relations@).subrange(0, i as int)[k]);
                }
            }
            assert(views(r@) =~= relation_ids(relations@).subrange(0, i + 1));
        }
        i += 1;
    }
    proof {
        assert(relation_ids(relations@).subrange(0, i as int) =~= relation_ids(relations@));
    }
    r
}

/// Checks and orders an inventory for planning: refused when it holds more
/// than one workspace, when two targets (after normalization) or two
/// relations share an identifier, or when a relation names an unknown
/// target, in that order.
#[verifier::loop_isolation(false)]
pub fn prepare_architecture_inventory(
    targets: &Vec<ArchitectureTarget>,
    synthetic_id: &str,
    relations: &Vec<ArchitectureRelation>,
) -> (r: Result<ArchitectureInventory, ArchitectureError>)
    ensures
        workspace_count(targets@) > 1 <==> r matches Err(ArchitectureError::MultipleWorkspaces),
        (workspace_count(targets@) <= 1 && !all_distinct(normalized_ids(targets@, synthetic_id@)))
            <==> r matches Err(ArchitectureError::DuplicateTargets),
        (workspace_count(targets@) <= 1 && all_distinct(normalized_ids(targets@, synthetic_id@))
            && !all_distinct(relation_ids(relations@))) <==> r matches Err(
            ArchitectureError::DuplicateRelations,
        ),
        (workspace_count(targets@) <= 1 && all_distinct(normalized_ids(targets@, synthetic_id@))
            && all_distinct(relation_ids(relations@)) && !relation_ends_known(
            normalized_ids(targets@, synthetic_id@),
            relations@,
        )) <==> r matches Err(ArchitectureError::UnknownRelationTarget),
        r is Ok ==> ({
            let inv = r->Ok_0;
            let w = workspace_id(targets@, synthetic_id@);
            &&& inv.targets@.len() == normalized_ids(targets@, synthetic_id@).len()
            &&& forall|i: int|
                0 <= i < targets@.len() ==> normalized_from(#[trigger] targets@[i], inv.targets@[i], w)
            &&& workspace_count(targets@) == 0 ==> is_synthetic_workspace(
                inv.targets@[targets@.len() as int],
                synthetic_id@,
            )
            &&& target_ids(inv.targets@) == normalized_ids(targets@, synthetic_id@)
            &&& orders(target_ids(inv.targets@), inv.target_order@)
            &&& exists|order: Seq<usize>|
                orders(relation_ids(relations@), order) && inv.relations@.len() == order.len()
                    && forall|a: int|
                    0 <= a < order.len() ==> same_relation(
                        #[trigger] inv.relations@[a],
                        relations@[order[a] as int],
                    )
        }),
        r is Err ==> !(r matches Err(ArchitectureError::ScopeBudgetExceeded)),
{
    let normalized = match normalize_architecture_targets(targets, synthetic_id) {
        Ok(v) => v,
        Err(e) => {
            return Err(e);
        },
    };
    let ids = target_id_list(&normalized);
    proof {
        let w = workspace_id(targets@, synthetic_id@);
        assert forall|i: int| 0 <= i < targets@.len() implies target_ids(normalized@)[i] == normalized_ids(
            targets@,
            synthetic_id@,
        )[i] by {
            assert(normalized_from(targets@[i], normalized@[i], w));
        }
        if workspace_count(targets@) == 0 {
            assert(target_ids(normalized@)[targets@.len() as int] == synthetic_id@);
        }
        assert(target_ids(normalized@) =~= normalized_ids(targets@, synthetic_id@));
    }
    let target_order = match sorted_positions(&ids) {
        Some(order) => order,
        None => {
            return Err(ArchitectureError::DuplicateTargets);
        },
    };
    let relation_keys = relation_id_list(relations);
    let relation_order = match sorted_positions(&relation_keys) {
        Some(order) => order,
        None => {
            return Err(ArchitectureError::DuplicateRelations);
        },
    };
    let mut j: usize = 0;
    while j < relations.len()
        invariant
            j <= relations@.len(),
            forall|q: int|
                0 <= q < j ==> views(ids@).contains((#[trigger] relations@[q]).source@) && views(
                    ids@,
                ).contains(relations@[q].target@),
        decreases relations.len() - j,
    {
        if !set_contains(&ids, relations[j].source.as_str()) || !set_contains(
            &ids,
            relations[j].target.as_str(),
        ) {
            proof {
                assert(!relation_ends_known(views(ids@), relations@));
            }
            return Err(ArchitectureError::UnknownRelationTarget);
        }
        j += 1;
    }
    let mut sorted: Vec<ArchitectureRelation> = Vec::new();
    let mut a: usize = 0;
    while a < relation_order.len()
        invariant
            a <= relation_order@.len(),
            orders(relation_ids(relations@), relation_order@),
            sorted@.len() == a,
            forall|b: int|
                0 <= b < a ==> same_relation(#[trigger] sorted@[b], relations@[relation_order@[b] as int]),
        decreases relation_order.len() - a,
    {
        let rel = &relations[relation_order[a]];
        sorted.push(
            ArchitectureRelation {
                id: rel.id.clone(),
                source: rel.source.clone(),
                target: rel.target.clone(),
                kind: rel.kind.clone(),
            },
        );
        a += 1;
    }
    Ok(ArchitectureInventory { targets: normalized, target_order, relations: sorted })
}

/// Trimming scope evidence loses nothing from the record: for every list,
/// the entries kept plus those counted as left out stay the same, and when
/// something is trimmed, the entries kept shrink by one.
pub proof fn law_trim_keeps_totals(a: ArchitectureScopeEvidence, b: ArchitectureScopeEvidence)
    requires
        trim_step(a, b),
    ensures
        b.boundary_targets@.len() + b.omitted_boundary_targets == a.boundary_targets@.len()
            + a.omitted_boundary_targets,
        b.boundary_relations@.len() + b.omitted_boundary_relations == a.boundary_relations@.len()
            + a.omitted_boundary_relations,
        b.internal_relations@.len() + b.omitted_internal_relations == a.internal_relations@.len()
            + a.omitted_internal_relations,
        b.constituents@.len() + b.omitted_constituents == a.constituents@.len()
            + a.omitted_constituents,
        b.dependency_cycles@.len() + b.omitted_dependency_cycles == a.dependency_cycles@.len()
            + a.omitted_dependency_cycles,
        trim_choice(a) != 0 ==> b.boundary_targets@.len() + b.boundary_relations@.len()
            + b.internal_relations@.len() + b.constituents@.len() + b.dependency_cycles@.len() + 1
            == a.boundary_targets@.len() + a.boundary_relations@.len() + a.internal_relations@.len()
            + a.constituents@.len() + a.dependency_cycles@.len(),
{
}

/// Reported dependency cycles never share a node: each node on a cycle lies
/// in exactly one of them.
pub proof fn law_cycles_are_disjoint(
    step: spec_fn(Seq<char>, Seq<char>) -> bool,
    scope: Seq<Seq<char>>,
    cycles: Seq<Vec<String>>,
    k: int,
    l: int,
    x: Seq<char>,
)
    requires
        cycles_sound(step, scope, cycles),
        cycles_ordered(cycles),
        0 <= k < cycles.len(),
        0 <= l < cycles.len(),
        k != l,
    ensures
        !(views(cycles[k]@).contains(x) && views(cycles[l]@).contains(x)),
{
    if views(cycles[k]@).contains(x) && views(cycles[l]@).contains(x) {
        let ck = cycles[k]@;
        let cl = cycles[l]@;
        assert(cycle_ok(step, scope, ck));
        assert(cycle_ok(step, scope, cl));
        let fk = ck[0]@;
        let fl = cl[0]@;
        assert(mutual(step, fk, x));
        assert(mutual(step, fl, x));
        lemma_reach_trans(step, fk, x, fl);
        lemma_reach_trans(step, fl, x, fk);
        assert(mutual(step, fk, fl));
        assert(views(ck).contains(fl));
        assert(mutual(step, fl, fk));
        assert(views(cl).contains(fk));
        let a = choose|a: int| 0 <= a < views(ck).len() && views(ck)[a] == fl;
        let b = choose|b: int| 0 <= b < views(cl).len() && views(cl)[b] == fk;
        if a > 0 {
            assert(text_lt(views(ck)[0], views(ck)[a]));
        }
        if b > 0 {
            assert(text_lt(views(cl)[0], views(cl)[b]));
        }
        if k < l {
            assert(text_lt(fk, fl));
        } else {
            assert(text_lt(fl, fk));
        }
        lemma_text_lt_total(fk, fl);
    }
}

/// The scope of a target holds the target itself and is closed under
/// containment: whatever a member contains is a member.
pub proof fn law_scope_is_closed(
    targets: Seq<ArchitectureTarget>,
    relations: Seq<ArchitectureRelation>,
    root: Seq<char>,
    scope: Seq<Seq<char>>,
    a: Seq<char>,
    b: Seq<char>,
)
    requires
        forall|x: Seq<char>| scope.contains(x) <==> reaches(child_rel(targets, relations), root, x),
    ensures
        scope.contains(root),
        scope.contains(a) && child_rel(targets, relations)(a, b) ==> scope.contains(b),
{
    lemma_reach_self(child_rel(targets, relations), root);
    if scope.contains(a) && child_rel(targets, relations)(a, b) {
        crate::graph::lemma_reach_extend(child_rel(targets, relations), root, a, b);
    }
}

} // verus!
