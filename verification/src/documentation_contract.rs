//! Binding a documentation assessment to its trusted review context: the
//! target must be the one the context was built for, and the evidence the
//! assessment may cite is each targeted evidence item of the context, once,
//! in order of identifier.
use crate::architecture::ApplicabilityState;
use crate::documentation_plan::{DocumentationEvidenceKind, DocumentationTargetProfile};
use crate::json::text_eq;
use crate::order::text_lt;
use crate::textset::{all_distinct, orders, sorted_positions, strictly_sorted, views};
use vstd::prelude::*;
use vstd::string::*;

verus! {

/// The trusted control block of a review context.
#[derive(Debug)]
pub struct TrustedControl {
    pub target: String,
    pub policy: String,
    pub policy_version: String,
    pub package_revision: u32,
}

/// An evidence item the context shows the model.
#[derive(Debug)]
pub struct ContextEvidenceItem {
    pub id: String,
    pub target: Option<String>,
    pub kind: DocumentationEvidenceKind,
}

/// Evidence an assessment may cite: its identifier, the target it speaks of
/// and its kind.
#[derive(Debug)]
pub struct BoundEvidence {
    pub id: String,
    pub target: String,
    pub kind: DocumentationEvidenceKind,
}

/// What a documentation assessment is bound to.
#[derive(Debug)]
pub struct DocumentationAssessmentBinding {
    pub work_item: String,
    pub target: DocumentationTargetProfile,
    pub policy: String,
    pub policy_version: String,
    pub applicability: ApplicabilityState,
    pub evidence_revision: u32,
    /// The citable evidence, in strictly increasing order of identifier.
    pub evidence: Vec<BoundEvidence>,
}

/// Why a binding was refused.
#[derive(Debug, PartialEq, Eq, Structural, Clone, Copy)]
pub enum BindingError {
    /// The context was built for another target.
    TargetMismatch,
    /// Two targeted evidence items share an identifier.
    RepeatedEvidence,
}

impl BindingError {
    /// The text of the error's message.
    pub open spec fn message_text(&self) -> Seq<char> {
        match self {
            BindingError::TargetMismatch => "documentation target does not match the trusted review context"@,
            BindingError::RepeatedEvidence => "trusted review context repeats an evidence identity"@,
        }
    }

    /// A readable description of the refusal.
    pub fn message(&self) -> (r: String)
        ensures
            r@ == self.message_text(),
    {
        match self {
            BindingError::TargetMismatch => "documentation target does not match the trusted review context".to_owned(),
            BindingError::RepeatedEvidence => "trusted review context repeats an evidence identity".to_owned(),
        }
    }
}

/// The positions of the items that name a target, in order.
pub open spec fn targeted_positions(items: Seq<ContextEvidenceItem>) -> Seq<int>
    decreases items.len(),
{
    if items.len() == 0 {
        Seq::empty()
    } else {
        let rest = targeted_positions(items.drop_last());
        if items.last().target is Some {
            rest.push(items.len() - 1)
        } else {
            rest
        }
    }
}

/// The identifiers of the items that name a target, in order.
pub open spec fn targeted_ids(items: Seq<ContextEvidenceItem>) -> Seq<Seq<char>> {
    targeted_positions(items).map_values(|j: int| items[j].id@)
}

/// Position of the first item that names a target and has the identifier,
/// or -1.
pub open spec fn targeted_pos(items: Seq<ContextEvidenceItem>, id: Seq<char>) -> int
    decreases items.len(),
{
    if items.len() == 0 {
        -1
    } else if targeted_pos(items.drop_last(), id) >= 0 {
        targeted_pos(items.drop_last(), id)
    } else if items.last().target is Some && items.last().id@ == id {
        items.len() - 1
    } else {
        -1
    }
}

/// The bound evidence is the item: same identifier, its target and its kind.
pub open spec fn binds_item(b: BoundEvidence, item: ContextEvidenceItem) -> bool {
    &&& b.id@ == item.id@
    &&& item.target matches Some(t) && b.target@ == t@
    &&& b.kind == item.kind
}

/// The identifiers of bound evidence.
pub open spec fn bound_ids(v: Seq<BoundEvidence>) -> Seq<Seq<char>> {
    v.map_values(|b: BoundEvidence| b.id@)
}

proof fn lemma_targeted_positions(items: Seq<ContextEvidenceItem>)
    ensures
        forall|a: int|
            0 <= a < targeted_positions(items).len() ==> 0 <= #[trigger] targeted_positions(items)[a]
                < items.len() && items[targeted_positions(items)[a]].target is Some,
        forall|a: int, b: int|
            0 <= a < b < targeted_positions(items).len() ==> #[trigger] targeted_positions(items)[a]
                < #[trigger] targeted_positions(items)[b],
        forall|j: int|
            0 <= j < items.len() && (#[trigger] items[j]).target is Some ==> targeted_positions(
                items,
            ).contains(j),
    decreases items.len(),
{
    if items.len() > 0 {
        lemma_targeted_positions(items.drop_last());
        let rest = targeted_positions(items.drop_last());
        assert forall|j: int| 0 <= j < items.len() && (#[trigger] items[j]).target is Some implies targeted_positions(
            items,
        ).contains(j) by {
            if j < items.len() - 1 {
                assert(items.drop_last()[j] == items[j]);
                assert(rest.contains(j));
                let a = choose|a: int| 0 <= a < rest.len() && rest[a] == j;
                assert(targeted_positions(items)[a] == j);
            } else {
                assert(targeted_positions(items)[rest.len() as int] == j);
            }
        }
    }
}

proof fn lemma_targeted_pos(items: Seq<ContextEvidenceItem>, id: Seq<char>)
    ensures
        -1 <= targeted_pos(items, id) < items.len(),
        targeted_pos(items, id) >= 0 ==> items[targeted_pos(items, id)].id@ == id
            && items[targeted_pos(items, id)].target is Some,
        targeted_pos(items, id) == -1 ==> forall|j: int|
            0 <= j < items.len() && (#[trigger] items[j]).target is Some ==> items[j].id@ != id,
    decreases items.len(),
{
    if items.len() > 0 {
        lemma_targeted_pos(items.drop_last(), id);
        assert forall|j: int| 0 <= j < items.len() - 1 implies #[trigger] items[j] == items.drop_last()[j] by {}
    }
}

/// Binds a documentation assessment to its context: refused when the
/// context was built for another target, or else when two targeted evidence
/// items share an identifier; otherwise the binding carries the work item,
/// target, applicability, the context's policy, version and package
/// revision, and each targeted evidence item once, in order of identifier.
pub fn bind_context(
    work_item: String,
    target: DocumentationTargetProfile,
    applicability: ApplicabilityState,
    control: &TrustedControl,
    items: &Vec<ContextEvidenceItem>,
) -> (r: Result<DocumentationAssessmentBinding, BindingError>)
    ensures
        r == Err::<DocumentationAssessmentBinding, _>(BindingError::TargetMismatch) <==> control.target@
            != target.target@,
        r == Err::<DocumentationAssessmentBinding, _>(BindingError::RepeatedEvidence) <==> (
        control.target@ == target.target@ && !all_distinct(targeted_ids(items@))),
        r is Ok ==> ({
            let b = r->Ok_0;
            &&& b.work_item == work_item
            &&& b.target == target
            &&& b.applicability == applicability
            &&& b.policy@ == control.policy@
            &&& b.policy_version@ == control.policy_version@
            &&& b.evidence_revision == control.package_revision
            &&& strictly_sorted(bound_ids(b.evidence@))
            &&& b.evidence@.len() == targeted_positions(items@).len()
            &&& forall|k: int|
                0 <= k < b.evidence@.len() ==> targeted_pos(items@, (#[trigger] b.evidence@[k]).id@) >= 0
                    && binds_item(b.evidence@[k], items@[targeted_pos(items@, b.evidence@[k].id@)])
            &&& forall|j: int|
                0 <= j < items@.len() && (#[trigger] items@[j]).target is Some ==> bound_ids(
                    b.evidence@,
                ).contains(items@[j].id@)
        }),
{
    if !text_eq(control.target.as_str(), target.target.as_str()) {
        return Err(BindingError::TargetMismatch);
    }
    proof {
        lemma_targeted_positions(items@);
    }
    let ghost tp = targeted_positions(items@);
    let mut positions: Vec<usize> = Vec::new();
    let mut ids: Vec<String> = Vec::new();
    let mut j: usize = 0;
    while j < items.len()
        invariant
            j <= items@.len(),
            positions@.len() == ids@.len(),
            positions@.map_values(|p: usize| p as int) == targeted_positions(items@.subrange(0, j as int)),
            forall|a: int| 0 <= a < positions@.len() ==> (#[trigger] positions@[a]) < j,
            forall|a: int|
                0 <= a < positions@.len() ==> (#[trigger] ids@[a])@ == items@[positions@[a] as int].id@,
        decreases items.len() - j,
    {
        let ghost before = positions@;
        proof {
            assert(items@.subrange(0, j + 1).drop_last() =~= items@.subrange(0, j as int));
            assert(items@.subrange(0, j + 1).last() == items@[j as int]);
        }
        if items[j].target.is_some() {
            positions.push(j);
            ids.push(items[j].id.clone());
            proof {
                assert(positions@.map_values(|p: usize| p as int) =~= before.map_values(|p: usize| p as int).push(
                    j as int,
                ));
            }
        }
        j += 1;
    }
    proof {
        assert(items@.subrange(0, items@.len() as int) =~= items@);
        assert(positions@.len() == tp.len());
        assert forall|a: int| 0 <= a < tp.len() implies positions@[a] as int == #[trigger] tp[a] by {
            assert(positions@.map_values(|p: usize| p as int)[a] == positions@[a] as int);
        }
        assert(views(ids@) =~= targeted_ids(items@));
    }
    let order = match sorted_positions(&ids) {
        None => {
            return Err(BindingError::RepeatedEvidence);
        },
        Some(o) => o,
    };
    let ghost keys = views(ids@);
    let mut evidence: Vec<BoundEvidence> = Vec::new();
    let mut k: usize = 0;
    while k < order.len()
        invariant
            k <= order@.len(),
            orders(keys, order@),
            keys == views(ids@),
            keys.len() == positions@.len(),
            positions@.len() == tp.len(),
            forall|a: int| 0 <= a < tp.len() ==> positions@[a] as int == #[trigger] tp[a],
            forall|a: int| 0 <= a < positions@.len() ==> (#[trigger] ids@[a])@ == items@[positions@[a] as int].id@,
            forall|a: int|
                0 <= a < tp.len() ==> 0 <= #[trigger] tp[a] < items@.len() && items@[tp[a]].target is Some,
            evidence@.len() == k,
            forall|a: int|
                0 <= a < k ==> binds_item(
                    #[trigger] evidence@[a],
                    items@[positions@[order@[a] as int] as int],
                ) && evidence@[a].id@ == keys[order@[a] as int],
        decreases order.len() - k,
    {
        let q = order[k];
        proof {
            assert(positions@[q as int] as int == tp[q as int]);
        }
        let at = positions[q];
        let item = &items[at];
        let t = match &item.target {
            Some(t) => t.clone(),
            None => item.id.clone(),
        };
        evidence.push(BoundEvidence { id: item.id.clone(), target: t, kind: item.kind });
        k += 1;
    }
    proof {
        let ev = evidence@;
        assert forall|a: int, b: int| 0 <= a < b < ev.len() implies text_lt(
            #[trigger] bound_ids(ev)[a],
            #[trigger] bound_ids(ev)[b],
        ) by {}
        assert forall|k: int| 0 <= k < ev.len() implies targeted_pos(items@, (#[trigger] ev[k]).id@) >= 0
            && binds_item(ev[k], items@[targeted_pos(items@, ev[k].id@)]) by {
            let q = order@[k] as int;
            let j = positions@[q] as int;
            lemma_targeted_pos(items@, ev[k].id@);
            let p = targeted_pos(items@, ev[k].id@);
            assert(items@[j].target is Some);
            if p != j {
                assert(p >= 0);
                assert(tp.contains(p));
                let c = choose|c: int| 0 <= c < tp.len() && tp[c] == p;
                assert(keys[c] == items@[p].id@);
                assert(keys[q] == items@[j].id@);
                assert(c != q);
                if c < q {
                    assert(keys[c] != keys[q]);
                } else {
                    assert(keys[q] != keys[c]);
                }
            }
        }
        assert forall|j: int| 0 <= j < items@.len() && (#[trigger] items@[j]).target is Some implies bound_ids(
            ev,
        ).contains(items@[j].id@) by {
            assert(tp.contains(j));
            let c = choose|c: int| 0 <= c < tp.len() && tp[c] == j;
            assert(order@.contains(c as usize));
            let a = choose|a: int| 0 <= a < order@.len() && order@[a] == c as usize;
            assert(bound_ids(ev)[a] == keys[c]);
        }
    }
    Ok(
        DocumentationAssessmentBinding {
            work_item,
            target,
            policy: control.policy.clone(),
            policy_version: control.policy_version.clone(),
            applicability,
            evidence_revision: control.package_revision,
            evidence,
        },
    )
}

} // verus!
