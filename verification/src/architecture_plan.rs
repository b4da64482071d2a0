//! Planning architecture reviews: one unit per target of a prepared
//! inventory, with what the applicability policy decides, its work item, the
//! evidence that speaks of it and, where the review applies, its scope
//! evidence; then the prerequisites, and the plan's evidence in order.
use crate::architecture::{
    ArchitectureScopeEvidence, MAX_SCOPE_EVIDENCE_BYTES, can_trim, trim_choice, trim_scope_evidence, trim_step,
    ApplicabilityState, ArchitectureError, ArchitectureInventory, ArchitectureReviewUnit, ArchitectureScope,
    ArchitectureTarget, InventoryState, TargetForm, TargetVisibility, assign_progressive_prerequisites,
    child_rel, effective_visibility, find_target, progressive_prerequisites, same_unit_but_prerequisites,
    scope_for, scope_of_form, target_ids, target_pos, visibility_walk,
};
use crate::documentation_plan::{DocumentationEvidence, evidence_for, evidence_ids_for, evidence_targets_known};
use crate::textset::{all_distinct, is_text_set, lemma_views_push, orders, set_insert, sorted_positions, views};
use crate::prompt::blen;
use vstd::prelude::*;
use vstd::string::*;

verus! {

/// The schema version of architecture review plans.
pub const ARCHITECTURE_REVIEW_PLAN_SCHEMA_VERSION: u32 = 1;

/// What the applicability policy is shown of a target.
#[derive(Debug)]
pub struct ArchitectureTargetProfile {
    pub target: String,
    pub name: String,
    pub form: TargetForm,
    pub visibility: TargetVisibility,
    pub inventory: InventoryState,
}

/// `p` is the profile of target `t` among `targets`: its identity, form and
/// inventory state, and the visibility that applies to it.
pub open spec fn is_architecture_profile_of(
    p: ArchitectureTargetProfile,
    targets: Seq<ArchitectureTarget>,
    t: ArchitectureTarget,
) -> bool {
    &&& p.target@ == t.id@
    &&& p.name@ == t.name@
    &&& p.form == t.form
    &&& p.visibility == visibility_walk(targets, t, targets.len())
    &&& p.inventory == t.inventory
}

/// A planned set of architecture reviews and the identifiers of the evidence
/// they rest on, in increasing order.
#[derive(Debug)]
pub struct ArchitectureReviewPlan {
    pub units: Vec<ArchitectureReviewUnit>,
    pub evidence: Vec<String>,
}

/// The inventory is ready for planning: its order lists every target once,
/// by increasing identifier.
pub open spec fn inventory_ready(inv: ArchitectureInventory) -> bool {
    orders(target_ids(inv.targets@), inv.target_order@)
}

/// The identifiers of the evidence records.
pub open spec fn evidence_ids(evidence: Seq<DocumentationEvidence>) -> Seq<Seq<char>> {
    evidence.map_values(|e: DocumentationEvidence| e.id@)
}

/// `u` is the unit planned for target `t` before its prerequisites are set:
/// the current schema, the planner's policy, the target's scope, what the
/// policy, the work-item derivation and the scope evidence returned for it,
/// no prerequisites, and as evidence the records that speak of the target,
/// with its scope evidence where the review applies.
pub open spec fn is_architecture_unit_for<F, W, E>(
    u: ArchitectureReviewUnit,
    policy_id: Seq<char>,
    policy_version: Seq<char>,
    targets: Seq<ArchitectureTarget>,
    t: ArchitectureTarget,
    evidence: Seq<DocumentationEvidence>,
    evaluate: F,
    work_item_for: W,
    scope_evidence: E,
) -> bool where
    F: Fn(&ArchitectureTargetProfile) -> ApplicabilityState,
    W: Fn(&String) -> String,
    E: Fn(&String, ArchitectureScope) -> Result<String, ArchitectureError>,
 {
    &&& u.schema_version == ARCHITECTURE_REVIEW_PLAN_SCHEMA_VERSION
    &&& u.target@ == t.id@
    &&& u.scope == scope_of_form(t.form)
    &&& u.policy@ == policy_id
    &&& u.policy_version@ == policy_version
    &&& exists|p: ArchitectureTargetProfile|
        is_architecture_profile_of(p, targets, t) && #[trigger] evaluate.ensures((&p,), u.applicability)
    &&& work_item_for.ensures((&t.id,), u.work_item)
    &&& u.prerequisite_work@.len() == 0
    &&& is_text_set(u.evidence@)
    &&& u.applicability != ApplicabilityState::Applicable ==> views(u.evidence@).to_set()
        == evidence_ids_for(evidence, t.id@)
    &&& u.applicability == ApplicabilityState::Applicable ==> exists|sid: String|
        #[trigger] scope_evidence.ensures((&t.id, u.scope), Ok(sid)) && views(u.evidence@).to_set()
            == evidence_ids_for(evidence, t.id@).insert(sid@)
}

/// The evidence of the applicable units among the first `k`.
pub open spec fn applicable_evidence(units: Seq<ArchitectureReviewUnit>, k: int) -> Set<Seq<char>> {
    Set::new(
        |x: Seq<char>|
            exists|a: int|
                0 <= a < k && (#[trigger] units[a]).applicability == ApplicabilityState::Applicable
                    && views(units[a].evidence@).contains(x),
    )
}

/// The records that speak of a target are among all the records.
proof fn lemma_ids_for_within(evidence: Seq<DocumentationEvidence>, t: Seq<char>)
    ensures
        evidence_ids_for(evidence, t).subset_of(evidence_ids(evidence).to_set()),
    decreases evidence.len(),
{
    if evidence.len() > 0 {
        lemma_ids_for_within(evidence.drop_last(), t);
        assert(evidence_ids(evidence.drop_last()) =~= evidence_ids(evidence).drop_last());
        assert(evidence_ids(evidence)[evidence.len() - 1] == evidence.last().id@);
        assert forall|x: Seq<char>| evidence_ids(evidence.drop_last()).to_set().contains(x) implies evidence_ids(
            evidence,
        ).to_set().contains(x) by {
            let q = choose|q: int| 0 <= q < evidence_ids(evidence.drop_last()).len() && evidence_ids(evidence.drop_last())[q] == x;
            assert(evidence_ids(evidence)[q] == x);
        }
    }
}

fn evidence_id_list(evidence: &Vec<DocumentationEvidence>) -> (r: Vec<String>)
    ensures
        views(r@) == evidence_ids(evidence@),
{
    let mut r: Vec<String> = Vec::new();
    let mut i: usize = 0;
    while i < evidence.len()
        invariant
            i <= evidence@.len(),
            views(r@) == evidence_ids(evidence@).subrange(0, i as int),
        decreases evidence.len() - i,
    {
        let ghost before = r@;
        r.push(evidence[i].id.clone());
        i += 1;
        proof {
            lemma_views_push(before, r@[r@.len() - 1]);
            assert(r@ == before.push(r@[r@.len() - 1]));
            assert(views(r@) =~= evidence_ids(evidence@).subrange(0, i as int));
        }
    }
    proof {
        assert(evidence_ids(evidence@).subrange(0, evidence@.len() as int) =~= evidence_ids(evidence@));
    }
    r
}

/// Plans one architecture review per target of a prepared inventory, in
/// increasing order of target identifier. `evaluate` is the applicability
/// policy, `work_item_for` derives a target's work item and `scope_evidence`
/// produces the scope evidence of an applicable target and gives its
/// identifier. Refused when an evidence record names a target the inventory
/// does not hold, when producing scope evidence fails, and when two evidence
/// records share an identifier.
#[verifier::loop_isolation(false)]
pub fn plan_architecture_units<F, W, E>(
    inventory: &ArchitectureInventory,
    evidence: &Vec<DocumentationEvidence>,
    policy_id: &str,
    policy_version: &str,
    evaluate: F,
    work_item_for: W,
    scope_evidence: E,
) -> (r: Result<ArchitectureReviewPlan, ArchitectureError>) where
    F: Fn(&ArchitectureTargetProfile) -> ApplicabilityState,
    W: Fn(&String) -> String,
    E: Fn(&String, ArchitectureScope) -> Result<String, ArchitectureError>,
    requires
        inventory_ready(*inventory),
        forall|p: &ArchitectureTargetProfile| #[trigger] evaluate.requires((p,)),
        forall|t: &String| #[trigger] work_item_for.requires((t,)),
        forall|t: &String, s: ArchitectureScope| #[trigger] scope_evidence.requires((t, s)),
        forall|t: &String, s: ArchitectureScope, x: Result<String, ArchitectureError>|
            #[trigger] scope_evidence.ensures((t, s), x) ==> !(x matches Err(ArchitectureError::UnknownEvidenceTarget))
                && !(x matches Err(ArchitectureError::DuplicateEvidence)),
    ensures
        r matches Err(ArchitectureError::UnknownEvidenceTarget) <==> !evidence_targets_known(
            inventory.targets@,
            evidence@,
        ),
        evidence_targets_known(inventory.targets@, evidence@) && !all_distinct(evidence_ids(evidence@))
            ==> r is Err,
        r is Ok ==> evidence_targets_known(inventory.targets@, evidence@) && all_distinct(
            evidence_ids(evidence@),
        ),
        r is Err && !(r->Err_0 is UnknownEvidenceTarget) && !(r->Err_0 is DuplicateEvidence) ==> exists|
            t: String,
            s: ArchitectureScope,
        | #[trigger] scope_evidence.ensures((&t, s), Err(r->Err_0)),
        r is Ok ==> ({
            let units = r->Ok_0.units@;
            let targets = inventory.targets@;
            let order = inventory.target_order@;
            &&& units.len() == targets.len()
            &&& forall|a: int, b: int|
                0 <= a < b < units.len() ==> crate::order::text_lt(
                    (#[trigger] units[a]).target@,
                    (#[trigger] units[b]).target@,
                )
            &&& exists|pre: Seq<ArchitectureReviewUnit>|
                #![trigger pre.len()]
                pre.len() == units.len() && (forall|k: int|
                    0 <= k < units.len() ==> #[trigger] is_architecture_unit_for(
                        pre[k],
                        policy_id@,
                        policy_version@,
                        targets,
                        targets[order[k] as int],
                        evidence@,
                        evaluate,
                        work_item_for,
                        scope_evidence,
                    )) && (forall|k: int|
                    0 <= k < units.len() ==> same_unit_but_prerequisites(#[trigger] units[k], pre[k]))
                    && (forall|k: int|
                    0 <= k < units.len() ==> match progressive_prerequisites(
                        pre,
                        child_rel(targets, inventory.relations@),
                        k,
                    ) {
                        None => (#[trigger] units[k]).prerequisite_work@.len() == 0,
                        Some(s) => is_text_set(units[k].prerequisite_work@) && views(
                            units[k].prerequisite_work@,
                        ).to_set() == s,
                    })
            &&& is_text_set(r->Ok_0.evidence@)
            &&& views(r->Ok_0.evidence@).to_set() == evidence_ids(evidence@).to_set() + applicable_evidence(
                units,
                units.len() as int,
            )
        }),
{
    let targets = &inventory.targets;
    let order = &inventory.target_order;
    let mut j: usize = 0;
    while j < evidence.len()
        invariant
            j <= evidence@.len(),
            forall|q: int|
                0 <= q < j ==> match (#[trigger] evidence@[q]).target {
                    Some(x) => target_pos(targets@, x@) >= 0,
                    None => true,
                },
        decreases evidence.len() - j,
    {
        match &evidence[j].target {
            Some(x) => {
                if find_target(targets, x.as_str()).is_none() {
                    return Err(ArchitectureError::UnknownEvidenceTarget);
                }
            },
            None => {},
        }
        j += 1;
    }
    let mut all = evidence_id_list(evidence);
    let mut units: Vec<ArchitectureReviewUnit> = Vec::new();
    let mut k: usize = 0;
    while k < order.len()
        invariant
            k <= order@.len(),
            units@.len() == k,
            evidence_targets_known(targets@, evidence@),
            forall|a: int|
                0 <= a < k ==> #[trigger] is_architecture_unit_for(
                    units@[a],
                    policy_id@,
                    policy_version@,
                    targets@,
                    targets@[order@[a] as int],
                    evidence@,
                    evaluate,
                    work_item_for,
                    scope_evidence,
                ),
            views(all@).to_set() == evidence_ids(evidence@).to_set() + applicable_evidence(units@, k as int),
            views(all@).len() >= evidence_ids(evidence@).len(),
            views(all@).subrange(0, evidence@.len() as int) == evidence_ids(evidence@),
        decreases order.len() - k,
    {
        let at = order[k];
        let t = &targets[at];
        let profile = ArchitectureTargetProfile {
            target: t.id.clone(),
            name: t.name.clone(),
            form: t.form,
            visibility: effective_visibility(t, targets),
            inventory: t.inventory,
        };
        let applicability = evaluate(&profile);
        let work_item = work_item_for(&t.id);
        let scope = scope_for(t);
        let mut ids = evidence_for(evidence, t.id.as_str());
        let ghost old_units = units@;
        let ghost old_all = all@;
        proof {
            assert(is_architecture_profile_of(profile, targets@, *t));
            lemma_ids_for_within(evidence@, t.id@);
        }
        if applicability == ApplicabilityState::Applicable {
            let sid = match scope_evidence(&t.id, scope) {
                Ok(sid) => sid,
                Err(e) => {
                    proof {
                        assert(scope_evidence.ensures((&t.id, scope), Err::<String, ArchitectureError>(e)));
                    }
                    return Err(e);
                },
            };
            set_insert(&mut ids, sid.as_str());
            all.push(sid);
        }
        let unit = ArchitectureReviewUnit {
            schema_version: ARCHITECTURE_REVIEW_PLAN_SCHEMA_VERSION,
            work_item,
            target: t.id.clone(),
            scope,
            policy: policy_id.to_owned(),
            policy_version: policy_version.to_owned(),
            applicability,
            evidence: ids,
            prerequisite_work: Vec::new(),
        };
        units.push(unit);
        proof {
            let nu = units@;
            assert(nu[k as int] == unit);
            assert forall|a: int| 0 <= a < k implies nu[a] == old_units[a] by {}
            assert(is_architecture_unit_for(
                nu[k as int],
                policy_id@,
                policy_version@,
                targets@,
                targets@[order@[k as int] as int],
                evidence@,
                evaluate,
                work_item_for,
                scope_evidence,
            ));
            let before = applicable_evidence(old_units, k as int);
            let after = applicable_evidence(nu, k + 1);
            assert(views(all@).subrange(0, evidence@.len() as int) =~= evidence_ids(evidence@)) by {
                if applicability == ApplicabilityState::Applicable {
                    assert(views(all@) =~= views(old_all).push(all@[all@.len() - 1]@));
                    assert(views(all@).subrange(0, evidence@.len() as int) =~= views(old_all).subrange(0, evidence@.len() as int));
                }
            }
            assert forall|x: Seq<char>| after.contains(x) <==> (before.contains(x) || (applicability
                == ApplicabilityState::Applicable && views(unit.evidence@).contains(x))) by {
                if after.contains(x) {
                    let a = choose|a: int|
                        0 <= a < k + 1 && (#[trigger] nu[a]).applicability == ApplicabilityState::Applicable
                            && views(nu[a].evidence@).contains(x);
                    if a < k {
                        assert(old_units[a] == nu[a]);
                    }
                }
                if before.contains(x) {
                    let a = choose|a: int|
                        0 <= a < k && (#[trigger] old_units[a]).applicability == ApplicabilityState::Applicable
                            && views(old_units[a].evidence@).contains(x);
                    assert(nu[a] == old_units[a]);
                }
                if applicability == ApplicabilityState::Applicable && views(unit.evidence@).contains(x) {
                    assert(nu[k as int] == unit);
                }
            }
            let input = evidence_ids(evidence@).to_set();
            if applicability == ApplicabilityState::Applicable {
                let sid_text = all@[all@.len() - 1]@;
                assert(views(all@) =~= views(old_all).push(sid_text));
                assert(views(unit.evidence@).to_set() == evidence_ids_for(evidence@, t.id@).insert(sid_text));
                assert forall|x: Seq<char>| views(all@).to_set().contains(x) implies (input + after).contains(x) by {
                    if views(old_all).contains(x) {
                        assert(views(old_all).to_set().contains(x));
                        assert((input + before).contains(x));
                    } else {
                        let q = choose|q: int| 0 <= q < views(all@).len() && views(all@)[q] == x;
                        if q < views(old_all).len() {
                            assert(views(old_all)[q] == x);
                        }
                        assert(x == sid_text);
                        assert(views(unit.evidence@).to_set().contains(x));
                    }
                }
                assert forall|x: Seq<char>| (input + after).contains(x) implies views(all@).to_set().contains(x) by {
                    if input.contains(x) || before.contains(x) {
                        assert(views(old_all).to_set().contains(x));
                        let q = choose|q: int| 0 <= q < views(old_all).len() && views(old_all)[q] == x;
                        assert(views(all@)[q] == x);
                    } else {
                        assert(views(unit.evidence@).contains(x));
                        assert(views(unit.evidence@).to_set().contains(x));
                        if x != sid_text {
                            assert(evidence_ids_for(evidence@, t.id@).contains(x));
                            assert(input.contains(x));
                        }
                        assert(views(all@)[all@.len() - 1] == x);
                    }
                }
                assert(views(all@).to_set() =~= input + after);
            } else {
                assert forall|x: Seq<char>| (input + after).contains(x) <==> (input + before).contains(x) by {}
                assert(views(all@).to_set() =~= input + after);
            }
        }
        k += 1;
    }
    let ghost pre = units@;
    assign_progressive_prerequisites(&mut units, targets, &inventory.relations);
    let all_order = match sorted_positions(&all) {
        None => {
            proof {
                if all_distinct(evidence_ids(evidence@)) {
                }
            }
            return Err(ArchitectureError::DuplicateEvidence);
        },
        Some(o) => o,
    };
    let mut sorted: Vec<String> = Vec::new();
    let mut b: usize = 0;
    while b < all_order.len()
        invariant
            b <= all_order@.len(),
            orders(views(all@), all_order@),
            sorted@.len() == b,
            forall|c: int| 0 <= c < b ==> (#[trigger] sorted@[c])@ == views(all@)[all_order@[c] as int],
        decreases all_order.len() - b,
    {
        sorted.push(all[all_order[b]].clone());
        b += 1;
    }
    proof {
        let keys = views(all@);
        let ov = all_order@;
        assert forall|c: int, d: int| 0 <= c < d < sorted@.len() implies crate::order::text_lt(
            #[trigger] views(sorted@)[c],
            #[trigger] views(sorted@)[d],
        ) by {
            assert(views(sorted@)[c] == keys[ov[c] as int]);
            assert(views(sorted@)[d] == keys[ov[d] as int]);
        }
        assert forall|x: Seq<char>| views(sorted@).to_set().contains(x) <==> keys.to_set().contains(x) by {
            if keys.to_set().contains(x) {
                let q = choose|q: int| 0 <= q < keys.len() && keys[q] == x;
                assert(ov.contains(q as usize));
                let c = choose|c: int| 0 <= c < ov.len() && ov[c] == q as usize;
                assert(views(sorted@)[c] == x);
            }
            if views(sorted@).to_set().contains(x) {
                let c = choose|c: int| 0 <= c < views(sorted@).len() && views(sorted@)[c] == x;
                assert(keys[ov[c] as int] == x);
            }
        }
        assert(views(sorted@).to_set() =~= keys.to_set());
        let fin = units@;
        assert forall|x: Seq<char>| applicable_evidence(fin, fin.len() as int).contains(x) <==> applicable_evidence(
            pre,
            pre.len() as int,
        ).contains(x) by {
            if applicable_evidence(fin, fin.len() as int).contains(x) {
                let a = choose|a: int|
                    0 <= a < fin.len() && (#[trigger] fin[a]).applicability == ApplicabilityState::Applicable
                        && views(fin[a].evidence@).contains(x);
                assert(same_unit_but_prerequisites(fin[a], pre[a]));
            }
            if applicable_evidence(pre, pre.len() as int).contains(x) {
                let a = choose|a: int|
                    0 <= a < pre.len() && (#[trigger] pre[a]).applicability == ApplicabilityState::Applicable
                        && views(pre[a].evidence@).contains(x);
                assert(same_unit_but_prerequisites(fin[a], pre[a]));
            }
        }
        assert(applicable_evidence(fin, fin.len() as int) =~= applicable_evidence(pre, pre.len() as int));
        assert forall|a: int, c: int| 0 <= a < c < fin.len() implies crate::order::text_lt(
            (#[trigger] fin[a]).target@,
            (#[trigger] fin[c]).target@,
        ) by {
            assert(same_unit_but_prerequisites(fin[a], pre[a]));
            assert(same_unit_but_prerequisites(fin[c], pre[c]));
            assert(is_architecture_unit_for(pre[a], policy_id@, policy_version@, targets@, targets@[order@[a] as int], evidence@, evaluate, work_item_for, scope_evidence));
            assert(is_architecture_unit_for(pre[c], policy_id@, policy_version@, targets@, targets@[order@[c] as int], evidence@, evaluate, work_item_for, scope_evidence));
            assert(target_ids(targets@)[order@[a] as int] == targets@[order@[a] as int].id@);
            assert(target_ids(targets@)[order@[c] as int] == targets@[order@[c] as int].id@);
        }
        assert forall|q: int| 0 <= q < fin.len() implies match progressive_prerequisites(
            pre,
            child_rel(targets@, inventory.relations@),
            q,
        ) {
            None => (#[trigger] fin[q]).prerequisite_work@.len() == 0,
            Some(s) => is_text_set(fin[q].prerequisite_work@) && views(fin[q].prerequisite_work@).to_set() == s,
        } by {
            assert(is_architecture_unit_for(pre[q], policy_id@, policy_version@, targets@, targets@[order@[q] as int], evidence@, evaluate, work_item_for, scope_evidence));
        }
        assert(all_distinct(views(all@)));
        assert forall|a: int, c: int| 0 <= a < c < evidence_ids(evidence@).len() implies #[trigger] evidence_ids(
            evidence@,
        )[a] != #[trigger] evidence_ids(evidence@)[c] by {
            assert(views(all@)[a] == evidence_ids(evidence@)[a]);
            assert(views(all@)[c] == evidence_ids(evidence@)[c]);
        }
    }
    Ok(ArchitectureReviewPlan { units, evidence: sorted })
}

/// `b` is `a` with trailing entries dropped and counted as left out, in
/// trimming order: boundary targets first, then boundary relations,
/// internal relations, constituents and dependency cycles, each list only
/// once the lists before it are empty; nothing else differs.
pub open spec fn trimmed_from(a: ArchitectureScopeEvidence, b: ArchitectureScopeEvidence) -> bool {
    &&& b.schema_version == a.schema_version
    &&& b.fingerprint == a.fingerprint
    &&& b.target == a.target
    &&& b.scope == a.scope
    &&& b.constituent_health == a.constituent_health
    &&& b.boundary_targets@.len() <= a.boundary_targets@.len()
    &&& b.boundary_targets@ == a.boundary_targets@.subrange(0, b.boundary_targets@.len() as int)
    &&& b.omitted_boundary_targets + b.boundary_targets@.len() == a.omitted_boundary_targets + a.boundary_targets@.len()
    &&& b.boundary_relations@.len() <= a.boundary_relations@.len()
    &&& b.boundary_relations@ == a.boundary_relations@.subrange(0, b.boundary_relations@.len() as int)
    &&& b.omitted_boundary_relations + b.boundary_relations@.len() == a.omitted_boundary_relations
        + a.boundary_relations@.len()
    &&& b.internal_relations@.len() <= a.internal_relations@.len()
    &&& b.internal_relations@ == a.internal_relations@.subrange(0, b.internal_relations@.len() as int)
    &&& b.omitted_internal_relations + b.internal_relations@.len() == a.omitted_internal_relations
        + a.internal_relations@.len()
    &&& b.constituents@.len() <= a.constituents@.len()
    &&& b.constituents@ == a.constituents@.subrange(0, b.constituents@.len() as int)
    &&& b.omitted_constituents + b.constituents@.len() == a.omitted_constituents + a.constituents@.len()
    &&& b.dependency_cycles@.len() <= a.dependency_cycles@.len()
    &&& b.dependency_cycles@ == a.dependency_cycles@.subrange(0, b.dependency_cycles@.len() as int)
    &&& b.omitted_dependency_cycles + b.dependency_cycles@.len() == a.omitted_dependency_cycles
        + a.dependency_cycles@.len()
    &&& b.boundary_relations@.len() < a.boundary_relations@.len() ==> b.boundary_targets@.len() == 0
    &&& b.internal_relations@.len() < a.internal_relations@.len() ==> b.boundary_targets@.len() == 0
        && b.boundary_relations@.len() == 0
    &&& b.constituents@.len() < a.constituents@.len() ==> b.boundary_targets@.len() == 0
        && b.boundary_relations@.len() == 0 && b.internal_relations@.len() == 0
    &&& b.dependency_cycles@.len() < a.dependency_cycles@.len() ==> b.boundary_targets@.len() == 0
        && b.boundary_relations@.len() == 0 && b.internal_relations@.len() == 0 && b.constituents@.len()
        == 0
}

/// Every count of left-out entries can take in all of its list.
pub open spec fn totals_fit(e: ArchitectureScopeEvidence) -> bool {
    &&& e.omitted_boundary_targets + e.boundary_targets@.len() <= usize::MAX
    &&& e.omitted_boundary_relations + e.boundary_relations@.len() <= usize::MAX
    &&& e.omitted_internal_relations + e.internal_relations@.len() <= usize::MAX
    &&& e.omitted_constituents + e.constituents@.len() <= usize::MAX
    &&& e.omitted_dependency_cycles + e.dependency_cycles@.len() <= usize::MAX
}

/// The entries the five lists still hold.
pub open spec fn entries_left(e: ArchitectureScopeEvidence) -> nat {
    e.boundary_targets@.len() + e.boundary_relations@.len() + e.internal_relations@.len()
        + e.constituents@.len() + e.dependency_cycles@.len()
}

proof fn lemma_trimmed_step(a: ArchitectureScopeEvidence, b: ArchitectureScopeEvidence, c: ArchitectureScopeEvidence)
    requires
        trimmed_from(a, b),
        trim_step(b, c),
    ensures
        trimmed_from(a, c),
{
    let k = trim_choice(b);
    if k == 1 {
        assert(c.boundary_targets@ =~= a.boundary_targets@.subrange(0, c.boundary_targets@.len() as int));
    } else if k == 2 {
        assert(c.boundary_relations@ =~= a.boundary_relations@.subrange(0, c.boundary_relations@.len() as int));
    } else if k == 3 {
        assert(c.internal_relations@ =~= a.internal_relations@.subrange(0, c.internal_relations@.len() as int));
    } else if k == 4 {
        assert(c.constituents@ =~= a.constituents@.subrange(0, c.constituents@.len() as int));
    } else if k == 5 {
        assert(c.dependency_cycles@ =~= a.dependency_cycles@.subrange(0, c.dependency_cycles@.len() as int));
    }
}

/// Serializes scope evidence with `serialize` and, while the bytes exceed
/// `MAX_SCOPE_EVIDENCE_BYTES`, drops the next trailing entry in trimming
/// order and tries again; refused when nothing is left to drop and the
/// bytes are still too many, or when serializing fails.
pub fn enforce_scope_byte_budget<S>(evidence: &mut ArchitectureScopeEvidence, serialize: &S) -> (r: Result<
    Vec<u8>,
    ArchitectureError,
>) where S: Fn(&ArchitectureScopeEvidence) -> Result<Vec<u8>, ArchitectureError>
    requires
        totals_fit(*old(evidence)),
        forall|e: &ArchitectureScopeEvidence| #[trigger] serialize.requires((e,)),
        forall|e: &ArchitectureScopeEvidence, x: Result<Vec<u8>, ArchitectureError>|
            #[trigger] serialize.ensures((e,), x) ==> !(x matches Err(ArchitectureError::ScopeBudgetExceeded)),
    ensures
        trimmed_from(*old(evidence), *final(evidence)),
        r is Ok ==> r->Ok_0@.len() <= MAX_SCOPE_EVIDENCE_BYTES && serialize.ensures(
            (&*final(evidence),),
            Ok::<Vec<u8>, ArchitectureError>(r->Ok_0),
        ),
        r matches Err(ArchitectureError::ScopeBudgetExceeded) ==> entries_left(*final(evidence)) == 0
            && exists|b: Vec<u8>|
            b@.len() > MAX_SCOPE_EVIDENCE_BYTES && #[trigger] serialize.ensures((&*final(evidence),), Ok::<Vec<u8>, ArchitectureError>(b)),
        r is Err && !(r->Err_0 is ScopeBudgetExceeded) ==> serialize.ensures(
            (&*final(evidence),),
            Err::<Vec<u8>, ArchitectureError>(r->Err_0),
        ),
{
    let ghost start = *evidence;
    proof {
        assert(evidence.boundary_targets@ =~= start.boundary_targets@.subrange(0, start.boundary_targets@.len() as int));
        assert(evidence.boundary_relations@ =~= start.boundary_relations@.subrange(0, start.boundary_relations@.len() as int));
        assert(evidence.internal_relations@ =~= start.internal_relations@.subrange(0, start.internal_relations@.len() as int));
        assert(evidence.constituents@ =~= start.constituents@.subrange(0, start.constituents@.len() as int));
        assert(evidence.dependency_cycles@ =~= start.dependency_cycles@.subrange(0, start.dependency_cycles@.len() as int));
    }
    loop
        invariant
            start == *old(evidence),
            trimmed_from(start, *evidence),
            totals_fit(start),
            forall|e: &ArchitectureScopeEvidence| #[trigger] serialize.requires((e,)),
            forall|e: &ArchitectureScopeEvidence, x: Result<Vec<u8>, ArchitectureError>|
                #[trigger] serialize.ensures((e,), x) ==> !(x matches Err(ArchitectureError::ScopeBudgetExceeded)),
        decreases entries_left(*evidence),
    {
        let bytes = match serialize(&*evidence) {
            Ok(b) => b,
            Err(e) => {
                return Err(e);
            },
        };
        if bytes.len() <= MAX_SCOPE_EVIDENCE_BYTES {
            return Ok(bytes);
        }
        let ghost before = *evidence;
        proof {
            assert(can_trim(before));
        }
        if evidence.boundary_targets.len() == 0 && evidence.boundary_relations.len() == 0
            && evidence.internal_relations.len() == 0 && evidence.constituents.len() == 0
            && evidence.dependency_cycles.len() == 0 {
            proof {
                assert(serialize.ensures((&*evidence,), Ok::<Vec<u8>, ArchitectureError>(bytes)));
            }
            return Err(ArchitectureError::ScopeBudgetExceeded);
        }
        trim_scope_evidence(evidence);
        proof {
            lemma_trimmed_step(start, before, *evidence);
        }
    }
}

/// The kinds of evidence record the planner deals in.
#[derive(Debug, PartialEq, Eq, Structural, Clone, Copy)]
pub enum EvidenceKind {
    Source,
    Documentation,
    ArchitectureGraph,
}

/// How a record came about: scope evidence is inferred from the inventory.
#[derive(Debug, PartialEq, Eq, Structural, Clone, Copy)]
pub enum EvidenceOrigin {
    Inference,
}

/// The evidence record of an architecture scope.
#[derive(Debug)]
pub struct ScopeEvidenceRecord {
    pub id: String,
    pub kind: EvidenceKind,
    pub origin: EvidenceOrigin,
    pub target: Option<String>,
    pub summary: String,
    pub detail: String,
    pub provider: String,
    pub provider_version: String,
    pub configuration: String,
}

/// The name of a scope as records show it.
pub open spec fn scope_name(scope: ArchitectureScope) -> Seq<char> {
    match scope {
        ArchitectureScope::Module => "Module"@,
        ArchitectureScope::Package => "Package"@,
        ArchitectureScope::Workspace => "Workspace"@,
    }
}

/// The record of the scope evidence of `target` at `scope`, with the
/// serialized evidence as its detail: an architecture graph inferred by the
/// architecture synthesis under `configuration`, named `id`. Refused when the
/// detail takes more than `MAX_SCOPE_EVIDENCE_BYTES` bytes.
pub fn scope_evidence_record(
    target: &ArchitectureTarget,
    scope: ArchitectureScope,
    configuration: &str,
    id: String,
    detail: String,
) -> (r: Result<ScopeEvidenceRecord, ArchitectureError>)
    requires
        blen(detail@) <= usize::MAX,
    ensures
        r is Ok <==> blen(detail@) <= MAX_SCOPE_EVIDENCE_BYTES,
        r is Err ==> r->Err_0 is ScopeBudgetExceeded,
        r is Ok ==> ({
            let rec = r->Ok_0;
            &&& rec.id == id
            &&& rec.kind == EvidenceKind::ArchitectureGraph
            &&& rec.origin == EvidenceOrigin::Inference
            &&& rec.target matches Some(t) && t@ == target.id@
            &&& rec.summary@ == "Deterministic "@ + scope_name(scope) + " architecture graph for "@ + target.name@
            &&& rec.detail == detail
            &&& rec.provider@ == "argus-architecture-synthesis"@
            &&& rec.provider_version@ == "1"@
            &&& rec.configuration@ == configuration@
        }),
{
    let text = detail.as_str();
    let n = text.len();
    proof {
        assert(n as int == blen(detail@));
    }
    if n > MAX_SCOPE_EVIDENCE_BYTES {
        return Err(ArchitectureError::ScopeBudgetExceeded);
    }
    let mut summary = "Deterministic ".to_owned();
    match scope {
        ArchitectureScope::Module => summary.append("Module"),
        ArchitectureScope::Package => summary.append("Package"),
        ArchitectureScope::Workspace => summary.append("Workspace"),
    }
    summary.append(" architecture graph for ");
    summary.append(target.name.as_str());
    Ok(ScopeEvidenceRecord {
        id,
        kind: EvidenceKind::ArchitectureGraph,
        origin: EvidenceOrigin::Inference,
        target: Some(target.id.clone()),
        summary,
        detail,
        provider: "argus-architecture-synthesis".to_owned(),
        provider_version: "1".to_owned(),
        configuration: configuration.to_owned(),
    })
}

} // verus!
