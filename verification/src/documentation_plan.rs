//! Documentation review planning: one review unit per inventory target, in
//! order of target identifier, with the target's effective visibility, the
//! applicability the policy decides and the evidence recorded for it; and the
//! checks that admitted and restored units pass.
use crate::architecture::{
    ApplicabilityState, ArchitectureTarget, InventoryState, TargetVisibility, effective_visibility,
    find_target, lemma_target_pos, target_ids, target_pos, visibility_walk,
};
use crate::json::text_eq;
use crate::text::{is_normalized, is_normalized_text};
use crate::workflow_data::ReviewWorkflowData;
use crate::textset::{
    all_distinct, copy_texts, is_text_set, orders, set_insert, sorted_positions, views,
};
use vstd::prelude::*;
use vstd::string::*;

verus! {

/// Schema version of planned documentation review units and admissions.
pub const DOCUMENTATION_REVIEW_PLAN_SCHEMA_VERSION: u32 = 1;

/// Artifact kind under which an evidence package is stored.
pub const DOCUMENTATION_EVIDENCE_PACKAGE_ARTIFACT_KIND: &'static str = "evidence-package";

/// Artifact kind under which a review context is stored.
pub const DOCUMENTATION_REVIEW_CONTEXT_ARTIFACT_KIND: &'static str = "review-context";

/// An evidence record as planning reads it: its identifier and the target it
/// speaks of, if any.
#[derive(Debug)]
pub struct DocumentationEvidence {
    pub id: String,
    pub target: Option<String>,
}

/// What the applicability policy is shown of a target.
#[derive(Debug)]
pub struct DocumentationTargetProfile {
    pub target: String,
    pub name: String,
    /// The visibility that applies, inherited visibility resolved.
    pub visibility: TargetVisibility,
    pub inventory: InventoryState,
}

/// The applicability policy's answer for one target.
#[derive(Debug)]
pub struct DocumentationApplicabilityDecision {
    pub state: ApplicabilityState,
    pub rationale: String,
}

/// One planned documentation review.
#[derive(Debug)]
pub struct DocumentationReviewUnit {
    pub schema_version: u32,
    pub work_item: String,
    pub target: DocumentationTargetProfile,
    pub policy: String,
    pub policy_version: String,
    pub applicability: DocumentationApplicabilityDecision,
    /// Identifiers of the evidence recorded for the target, ascending, each once.
    pub evidence: Vec<String>,
}

/// The units planned for a snapshot, one per target.
#[derive(Debug)]
pub struct DocumentationReviewPlan {
    pub units: Vec<DocumentationReviewUnit>,
}

/// Why documentation planning, materialization or restoration refused.
#[derive(Debug, PartialEq, Eq, Structural, Clone, Copy)]
pub enum DocumentationPlanError {
    /// The policy version is empty or has surrounding whitespace.
    UnnormalizedPolicyVersion,
    /// Two targets share an identifier.
    DuplicateTargets,
    /// An evidence record names a target that is not in the inventory.
    UnknownEvidenceTarget,
    /// A unit or admission has another schema version.
    UnsupportedSchemaVersion,
    /// The unit's review does not apply.
    NotApplicable,
    /// The unit names evidence the catalog does not hold.
    UncataloguedEvidence,
    /// Stored evidence has another identifier than the one catalogued.
    CatalogIdentityMismatch,
    /// The evidence catalog would hold one identifier twice.
    DuplicateEvidence,
    /// A stored artifact is missing.
    MissingArtifact,
    /// A stored artifact has another kind than expected.
    ArtifactKindMismatch,
    /// A restored package or context does not belong to the unit.
    IdentityMismatch,
    /// The adapter identity is empty or has surrounding whitespace.
    UnnormalizedAdapter,
    /// An admission has another schema version, or its unit's review does not apply.
    UnsupportedAdmission,
    /// A stored artifact has another content hash than the one materialized.
    StoredIdentityMismatch,
}

impl DocumentationPlanError {
    /// The text of the error's message.
    pub open spec fn message_text(&self) -> Seq<char> {
        match self {
            DocumentationPlanError::UnnormalizedPolicyVersion => "documentation policy version must be normalized"@,
            DocumentationPlanError::DuplicateTargets => "documentation plan contains duplicate targets"@,
            DocumentationPlanError::UnknownEvidenceTarget => "documentation evidence references an unknown target"@,
            DocumentationPlanError::UnsupportedSchemaVersion => "unsupported documentation review plan schema version"@,
            DocumentationPlanError::NotApplicable => "only applicable documentation review units can be materialized"@,
            DocumentationPlanError::UncataloguedEvidence => "documentation review unit references uncatalogued evidence"@,
            DocumentationPlanError::CatalogIdentityMismatch => "documentation evidence catalog identity mismatch"@,
            DocumentationPlanError::DuplicateEvidence => "documentation evidence catalog contains duplicate IDs"@,
            DocumentationPlanError::MissingArtifact => "documentation artifact is missing"@,
            DocumentationPlanError::ArtifactKindMismatch => "documentation artifact kind mismatch"@,
            DocumentationPlanError::IdentityMismatch => "restored documentation review identity mismatch"@,
            DocumentationPlanError::UnnormalizedAdapter => "documentation adapter identity must be normalized"@,
            DocumentationPlanError::UnsupportedAdmission => "unsupported or inapplicable documentation review admission"@,
            DocumentationPlanError::StoredIdentityMismatch => "stored documentation artifact identity mismatch"@,
        }
    }

    /// A readable description of the refusal.
    pub fn message(&self) -> (r: String)
        ensures
            r@ == self.message_text(),
    {
        match self {
            DocumentationPlanError::UnnormalizedPolicyVersion => "documentation policy version must be normalized".to_owned(),
            DocumentationPlanError::DuplicateTargets => "documentation plan contains duplicate targets".to_owned(),
            DocumentationPlanError::UnknownEvidenceTarget => "documentation evidence references an unknown target".to_owned(),
            DocumentationPlanError::UnsupportedSchemaVersion => "unsupported documentation review plan schema version".to_owned(),
            DocumentationPlanError::NotApplicable => "only applicable documentation review units can be materialized".to_owned(),
            DocumentationPlanError::UncataloguedEvidence => "documentation review unit references uncatalogued evidence".to_owned(),
            DocumentationPlanError::CatalogIdentityMismatch => "documentation evidence catalog identity mismatch".to_owned(),
            DocumentationPlanError::DuplicateEvidence => "documentation evidence catalog contains duplicate IDs".to_owned(),
            DocumentationPlanError::MissingArtifact => "documentation artifact is missing".to_owned(),
            DocumentationPlanError::ArtifactKindMismatch => "documentation artifact kind mismatch".to_owned(),
            DocumentationPlanError::IdentityMismatch => "restored documentation review identity mismatch".to_owned(),
            DocumentationPlanError::UnnormalizedAdapter => "documentation adapter identity must be normalized".to_owned(),
            DocumentationPlanError::UnsupportedAdmission => "unsupported or inapplicable documentation review admission".to_owned(),
            DocumentationPlanError::StoredIdentityMismatch => "stored documentation artifact identity mismatch".to_owned(),
        }
    }
}

/// The identifiers of the evidence records that speak of target `t`.
pub open spec fn evidence_ids_for(evidence: Seq<DocumentationEvidence>, t: Seq<char>) -> Set<Seq<char>>
    decreases evidence.len(),
{
    if evidence.len() == 0 {
        Set::empty()
    } else {
        let rest = evidence_ids_for(evidence.drop_last(), t);
        match evidence.last().target {
            Some(x) => if x@ == t {
                rest.insert(evidence.last().id@)
            } else {
                rest
            },
            None => rest,
        }
    }
}

/// Every evidence record that names a target names one of the inventory.
pub open spec fn evidence_targets_known(
    targets: Seq<ArchitectureTarget>,
    evidence: Seq<DocumentationEvidence>,
) -> bool {
    forall|j: int|
        0 <= j < evidence.len() ==> match (#[trigger] evidence[j]).target {
            Some(x) => target_pos(targets, x@) >= 0,
            None => true,
        }
}

/// `p` is what the policy is shown of target `t` among `targets`.
pub open spec fn is_profile_of(
    p: DocumentationTargetProfile,
    targets: Seq<ArchitectureTarget>,
    t: ArchitectureTarget,
) -> bool {
    &&& p.target@ == t.id@
    &&& p.name@ == t.name@
    &&& p.visibility == visibility_walk(targets, t, targets.len())
    &&& p.inventory == t.inventory
}

/// The profile of a target: its identity, its inventory state, and the
/// visibility that applies to it.
pub fn profile_for(target: &ArchitectureTarget, targets: &Vec<ArchitectureTarget>) -> (r:
    DocumentationTargetProfile)
    ensures
        is_profile_of(r, targets@, *target),
{
    DocumentationTargetProfile {
        target: target.id.clone(),
        name: target.name.clone(),
        visibility: effective_visibility(target, targets),
        inventory: target.inventory,
    }
}

/// The identifiers of the evidence records for one target, ascending, each once.
pub(crate) fn evidence_for(evidence: &Vec<DocumentationEvidence>, target: &str) -> (r: Vec<String>)
    ensures
        is_text_set(r@),
        views(r@).to_set() == evidence_ids_for(evidence@, target@),
{
    let mut r: Vec<String> = Vec::new();
    let mut j: usize = 0;
    while j < evidence.len()
        invariant
            j <= evidence@.len(),
            is_text_set(r@),
            views(r@).to_set() == evidence_ids_for(evidence@.subrange(0, j as int), target@),
        decreases evidence.len() - j,
    {
        proof {
            assert(evidence@.subrange(0, j + 1).drop_last() =~= evidence@.subrange(0, j as int));
        }
        match &evidence[j].target {
            Some(x) => {
                if text_eq(x.as_str(), target) {
                    set_insert(&mut r, evidence[j].id.as_str());
                }
            },
            None => {},
        }
        j += 1;
    }
    proof {
        assert(evidence@.subrange(0, evidence@.len() as int) =~= evidence@);
    }
    r
}

/// `u` is the unit planned for target `t`: the current schema, the planner's
/// policy, the target's profile, and what the policy and the work-item
/// derivation returned for it.
pub open spec fn is_unit_for<F, W>(
    u: DocumentationReviewUnit,
    policy_id: Seq<char>,
    policy_version: Seq<char>,
    targets: Seq<ArchitectureTarget>,
    t: ArchitectureTarget,
    evidence: Seq<DocumentationEvidence>,
    evaluate: F,
    work_item_for: W,
) -> bool where
    F: Fn(&DocumentationTargetProfile) -> DocumentationApplicabilityDecision,
    W: Fn(&String) -> String,
 {
    &&& u.schema_version == DOCUMENTATION_REVIEW_PLAN_SCHEMA_VERSION
    &&& is_profile_of(u.target, targets, t)
    &&& u.policy@ == policy_id
    &&& u.policy_version@ == policy_version
    &&& evaluate.ensures((&u.target,), u.applicability)
    &&& work_item_for.ensures((&t.id,), u.work_item)
    &&& is_text_set(u.evidence@)
    &&& views(u.evidence@).to_set() == evidence_ids_for(evidence, t.id@)
}

/// The target identifiers of the units.
pub open spec fn unit_targets(units: Seq<DocumentationReviewUnit>) -> Seq<Seq<char>> {
    units.map_values(|u: DocumentationReviewUnit| u.target.target@)
}

/// Plans documentation reviews for one policy.
#[derive(Debug)]
pub struct DocumentationReviewPlanner {
    policy_id: String,
    policy_version: String,
}

impl DocumentationReviewPlanner {
    /// The policy the planner plans for.
    pub closed spec fn policy_id_text(&self) -> Seq<char> {
        self.policy_id@
    }

    /// The policy version the planner plans for.
    pub closed spec fn policy_version_text(&self) -> Seq<char> {
        self.policy_version@
    }

    /// A planner for a policy, refused when the version is empty or has
    /// surrounding whitespace.
    pub fn new(policy_id: String, policy_version: String) -> (r: Result<
        DocumentationReviewPlanner,
        DocumentationPlanError,
    >)
        ensures
            r is Ok <==> is_normalized(policy_version@),
            r is Err ==> r->Err_0 == DocumentationPlanError::UnnormalizedPolicyVersion,
            r is Ok ==> r->Ok_0.policy_id_text() == policy_id@ && r->Ok_0.policy_version_text()
                == policy_version@,
    {
        if !is_normalized_text(policy_version.as_str()) {
            return Err(DocumentationPlanError::UnnormalizedPolicyVersion);
        }
        Ok(DocumentationReviewPlanner { policy_id, policy_version })
    }

    /// Plans one unit per target, in ascending order of target identifier.
    /// `evaluate` is the applicability policy and `work_item_for` derives the
    /// work item of a target. Refused when two targets share an identifier,
    /// or else when an evidence record names a target that is not listed.
    pub fn plan<F, W>(
        &self,
        targets: &Vec<ArchitectureTarget>,
        evidence: &Vec<DocumentationEvidence>,
        evaluate: F,
        work_item_for: W,
    ) -> (r: Result<DocumentationReviewPlan, DocumentationPlanError>) where
        F: Fn(&DocumentationTargetProfile) -> DocumentationApplicabilityDecision,
        W: Fn(&String) -> String,
        requires
            forall|p: &DocumentationTargetProfile| #[trigger] evaluate.requires((p,)),
            forall|t: &String| #[trigger] work_item_for.requires((t,)),
        ensures
            r is Ok <==> all_distinct(target_ids(targets@)) && evidence_targets_known(
                targets@,
                evidence@,
            ),
            r == Err::<DocumentationReviewPlan, _>(DocumentationPlanError::DuplicateTargets)
                <==> !all_distinct(target_ids(targets@)),
            r == Err::<DocumentationReviewPlan, _>(DocumentationPlanError::UnknownEvidenceTarget)
                <==> all_distinct(target_ids(targets@)) && !evidence_targets_known(
                targets@,
                evidence@,
            ),
            r is Ok ==> ({
                let units = r->Ok_0.units@;
                &&& units.len() == targets@.len()
                &&& crate::textset::strictly_sorted(unit_targets(units))
                &&& forall|k: int|
                    0 <= k < units.len() ==> #[trigger] is_unit_for(
                        units[k],
                        self.policy_id_text(),
                        self.policy_version_text(),
                        targets@,
                        targets@[target_pos(targets@, units[k].target.target@)],
                        evidence@,
                        evaluate,
                        work_item_for,
                    )
                &&& forall|i: int|
                    0 <= i < targets@.len() ==> unit_targets(units).contains(
                        #[trigger] targets@[i].id@,
                    )
            }),
    {
        let mut ids: Vec<String> = Vec::new();
        let mut i: usize = 0;
        while i < targets.len()
            invariant
                i <= targets@.len(),
                ids@.len() == i,
                forall|q: int| 0 <= q < i ==> (#[trigger] ids@[q])@ == targets@[q].id@,
            decreases targets.len() - i,
        {
            ids.push(targets[i].id.clone());
            i += 1;
        }
        proof {
            assert(views(ids@) =~= target_ids(targets@));
        }
        let order = match sorted_positions(&ids) {
            None => {
                return Err(DocumentationPlanError::DuplicateTargets);
            },
            Some(o) => o,
        };
        let mut j: usize = 0;
        while j < evidence.len()
            invariant
                j <= evidence@.len(),
                all_distinct(target_ids(targets@)),
                forall|q: int|
                    0 <= q < j ==> match (#[trigger] evidence@[q]).target {
                        Some(x) => target_pos(targets@, x@) >= 0,
                        None => true,
                    },
            decreases evidence.len() - j,
        {
            match &evidence[j].target {
                Some(x) => {
                    if find_target(targets, x.as_str()).is_none() {
                        return Err(DocumentationPlanError::UnknownEvidenceTarget);
                    }
                },
                None => {},
            }
            j += 1;
        }
        let ghost keys = views(ids@);
        let mut units: Vec<DocumentationReviewUnit> = Vec::new();
        let mut k: usize = 0;
        while k < order.len()
            invariant
                k <= order@.len(),
                orders(keys, order@),
                keys == target_ids(targets@),
                keys.len() == targets@.len(),
                units@.len() == k,
                forall|p: &DocumentationTargetProfile| #[trigger] evaluate.requires((p,)),
                forall|t: &String| #[trigger] work_item_for.requires((t,)),
                forall|a: int|
                    0 <= a < k ==> #[trigger] is_unit_for(
                        units@[a],
                        self.policy_id_text(),
                        self.policy_version_text(),
                        targets@,
                        targets@[order@[a] as int],
                        evidence@,
                        evaluate,
                        work_item_for,
                    ),
                forall|a: int| 0 <= a < k ==> (#[trigger] units@[a]).target.target@ == keys[order@[a] as int],
            decreases order.len() - k,
        {
            let at = order[k];
            let t = &targets[at];
            let profile = profile_for(t, targets);
            let applicability = evaluate(&profile);
            let work_item = work_item_for(&t.id);
            let ids_for = evidence_for(evidence, t.id.as_str());
            units.push(
                DocumentationReviewUnit {
                    schema_version: DOCUMENTATION_REVIEW_PLAN_SCHEMA_VERSION,
                    work_item,
                    target: profile,
                    policy: self.policy_id.clone(),
                    policy_version: self.policy_version.clone(),
                    applicability,
                    evidence: ids_for,
                },
            );
            k += 1;
        }
        proof {
            let units_v = units@;
            assert forall|a: int, b: int| 0 <= a < b < units_v.len() implies crate::order::text_lt(
                #[trigger] unit_targets(units_v)[a],
                #[trigger] unit_targets(units_v)[b],
            ) by {
                assert(unit_targets(units_v)[a] == keys[order@[a] as int]);
                assert(unit_targets(units_v)[b] == keys[order@[b] as int]);
            }
            assert forall|a: int| 0 <= a < units_v.len() implies #[trigger] is_unit_for(
                units_v[a],
                self.policy_id_text(),
                self.policy_version_text(),
                targets@,
                targets@[target_pos(targets@, units_v[a].target.target@)],
                evidence@,
                evaluate,
                work_item_for,
            ) by {
                let i = order@[a] as int;
                lemma_target_pos(targets@, keys[i]);
                assert(keys[i] == targets@[i].id@);
                let pos = target_pos(targets@, keys[i]);
                assert(keys[pos] == targets@[pos].id@);
                assert(pos == i);
            }
            assert forall|i: int| 0 <= i < targets@.len() implies unit_targets(units_v).contains(
                #[trigger] targets@[i].id@,
            ) by {
                assert(order@.contains(i as usize));
                let a = choose|a: int| 0 <= a < order@.len() && order@[a] == i as usize;
                assert(unit_targets(units_v)[a] == keys[i]);
                assert(keys[i] == targets@[i].id@);
            }
        }
        Ok(DocumentationReviewPlan { units })
    }
}


/// The evidence catalog: the content hash under which each evidence record
/// was stored, in the order the records were stored.
#[derive(Debug)]
pub struct DocumentationEvidenceCatalog {
    entries: Vec<(String, String)>,
}

/// The identifier-to-hash map of catalog entries; a later entry for an
/// identifier replaces an earlier one.
pub open spec fn entries_map(e: Seq<(String, String)>) -> Map<Seq<char>, Seq<char>>
    decreases e.len(),
{
    if e.len() == 0 {
        Map::empty()
    } else {
        entries_map(e.drop_last()).insert(e.last().0@, e.last().1@)
    }
}

/// The identifiers of catalog entries.
pub open spec fn entry_ids(e: Seq<(String, String)>) -> Seq<Seq<char>> {
    e.map_values(|x: (String, String)| x.0@)
}

proof fn lemma_entries_map_prefix(e: Seq<(String, String)>, i: int, id: Seq<char>)
    requires
        0 <= i <= e.len(),
        forall|q: int| i <= q < e.len() ==> (#[trigger] e[q]).0@ != id,
    ensures
        entries_map(e).dom().contains(id) == entries_map(e.subrange(0, i)).dom().contains(id),
        entries_map(e).dom().contains(id) ==> entries_map(e)[id] == entries_map(e.subrange(0, i))[id],
    decreases e.len() - i,
{
    if i < e.len() {
        lemma_entries_map_prefix(e.subrange(0, e.len() - 1), i, id);
        assert(e.drop_last() =~= e.subrange(0, e.len() - 1));
        assert(e.subrange(0, e.len() - 1).subrange(0, i) =~= e.subrange(0, i));
    } else {
        assert(e.subrange(0, i) =~= e);
    }
}

impl DocumentationEvidenceCatalog {
    /// The catalog as a map from evidence identifier to content hash.
    pub closed spec fn hashes(&self) -> Map<Seq<char>, Seq<char>> {
        entries_map(self.entries@)
    }

    /// A catalog of records stored under the given hashes, each pair an
    /// evidence identifier and its hash; refused when an identifier repeats.
    pub fn ingest(stored: &Vec<(String, String)>) -> (r: Result<
        DocumentationEvidenceCatalog,
        DocumentationPlanError,
    >)
        ensures
            r is Ok <==> all_distinct(entry_ids(stored@)),
            r is Err ==> r->Err_0 == DocumentationPlanError::DuplicateEvidence,
            r is Ok ==> r->Ok_0.hashes() == entries_map(stored@),
    {
        let mut ids: Vec<String> = Vec::new();
        let mut entries: Vec<(String, String)> = Vec::new();
        let mut i: usize = 0;
        while i < stored.len()
            invariant
                i <= stored@.len(),
                ids@.len() == i,
                forall|q: int| 0 <= q < i ==> (#[trigger] ids@[q])@ == stored@[q].0@,
                entries@.len() == i,
                forall|q: int|
                    0 <= q < i ==> (#[trigger] entries@[q]).0@ == stored@[q].0@ && entries@[q].1@
                        == stored@[q].1@,
            decreases stored.len() - i,
        {
            ids.push(stored[i].0.clone());
            entries.push((stored[i].0.clone(), stored[i].1.clone()));
            i += 1;
        }
        proof {
            assert(views(ids@) =~= entry_ids(stored@));
            assert(entries_map(entries@) == entries_map(stored@)) by {
                lemma_entries_map_same(entries@, stored@);
            }
        }
        if sorted_positions(&ids).is_none() {
            return Err(DocumentationPlanError::DuplicateEvidence);
        }
        Ok(DocumentationEvidenceCatalog { entries })
    }

    /// The hash the catalog holds for an evidence identifier.
    pub fn hash_of(&self, id: &str) -> (r: Option<String>)
        ensures
            r is Some <==> self.hashes().dom().contains(id@),
            r is Some ==> r->Some_0@ == self.hashes()[id@],
    {
        let e = &self.entries;
        let mut i: usize = e.len();
        while i > 0
            invariant
                i <= e@.len(),
                e@ == self.entries@,
                forall|q: int| i <= q < e@.len() ==> (#[trigger] e@[q]).0@ != id@,
            decreases i,
        {
            if text_eq(e[i - 1].0.as_str(), id) {
                proof {
                    lemma_entries_map_prefix(e@, i as int, id@);
                    let pre = e@.subrange(0, i as int);
                    assert(pre.last() == e@[i - 1]);
                    assert(entries_map(pre) == entries_map(pre.drop_last()).insert(pre.last().0@, pre.last().1@));
                    assert(entries_map(pre).dom().contains(id@));
                }
                return Some(e[i - 1].1.clone());
            }
            i -= 1;
        }
        proof {
            lemma_entries_map_prefix(e@, 0, id@);
        }
        None
    }
}

proof fn lemma_entries_map_same(a: Seq<(String, String)>, b: Seq<(String, String)>)
    requires
        a.len() == b.len(),
        forall|q: int| 0 <= q < a.len() ==> (#[trigger] a[q]).0@ == b[q].0@ && a[q].1@ == b[q].1@,
    ensures
        entries_map(a) == entries_map(b),
    decreases a.len(),
{
    if a.len() > 0 {
        lemma_entries_map_same(a.drop_last(), b.drop_last());
    }
}


/// The kind of a stored evidence record, as far as candidate selection reads it.
#[derive(Debug, PartialEq, Eq, Structural, Clone, Copy)]
pub enum DocumentationEvidenceKind {
    Documentation,
    Source,
    Other,
}

/// An evidence record offered to the package builder.
#[derive(Debug)]
pub struct DocumentationEvidenceCandidate {
    pub hash: String,
    pub kind: DocumentationEvidenceKind,
    pub priority: u32,
    pub relation_depth: u32,
    pub estimated_tokens: u64,
}

/// The priority of a candidate: documentation first.
pub open spec fn candidate_priority(kind: DocumentationEvidenceKind) -> u32 {
    if kind == DocumentationEvidenceKind::Documentation {
        100
    } else {
        10
    }
}

impl DocumentationReviewUnit {
    /// Only units of the current schema whose review applies are materialized.
    pub fn check_materializable(&self) -> (r: Result<(), DocumentationPlanError>)
        ensures
            r == (if self.schema_version != DOCUMENTATION_REVIEW_PLAN_SCHEMA_VERSION {
                Err(DocumentationPlanError::UnsupportedSchemaVersion)
            } else if self.applicability.state != ApplicabilityState::Applicable {
                Err(DocumentationPlanError::NotApplicable)
            } else {
                Ok(())
            }),
    {
        if self.schema_version != DOCUMENTATION_REVIEW_PLAN_SCHEMA_VERSION {
            return Err(DocumentationPlanError::UnsupportedSchemaVersion);
        }
        if self.applicability.state != ApplicabilityState::Applicable {
            return Err(DocumentationPlanError::NotApplicable);
        }
        Ok(())
    }

    /// The catalogued hash of each evidence record of the unit, in order;
    /// refused when the catalog lacks one.
    pub fn catalogued_hashes(&self, catalog: &DocumentationEvidenceCatalog) -> (r: Result<
        Vec<String>,
        DocumentationPlanError,
    >)
        ensures
            r is Ok <==> forall|k: int|
                0 <= k < self.evidence@.len() ==> catalog.hashes().dom().contains(
                    #[trigger] self.evidence@[k]@,
                ),
            r is Err ==> r->Err_0 == DocumentationPlanError::UncataloguedEvidence,
            r is Ok ==> r->Ok_0@.len() == self.evidence@.len() && forall|k: int|
                0 <= k < self.evidence@.len() ==> (#[trigger] r->Ok_0@[k])@ == catalog.hashes()[self.evidence@[k]@],
    {
        let mut out: Vec<String> = Vec::new();
        let mut k: usize = 0;
        while k < self.evidence.len()
            invariant
                k <= self.evidence@.len(),
                out@.len() == k,
                forall|q: int| 0 <= q < k ==> catalog.hashes().dom().contains(#[trigger] self.evidence@[q]@),
                forall|q: int| 0 <= q < k ==> (#[trigger] out@[q])@ == catalog.hashes()[self.evidence@[q]@],
            decreases self.evidence.len() - k,
        {
            match catalog.hash_of(self.evidence[k].as_str()) {
                None => {
                    return Err(DocumentationPlanError::UncataloguedEvidence);
                },
                Some(h) => {
                    out.push(h);
                },
            }
            k += 1;
        }
        Ok(out)
    }
}

/// The candidate for a stored evidence record: documentation at priority 100,
/// anything else at 10, no relation depth, and a quarter of its canonical
/// bytes, rounded up, as estimated tokens. Refused when the stored record has
/// another identifier than the one it was catalogued under.
pub fn evidence_candidate(
    expected_id: &str,
    stored_id: &str,
    hash: String,
    kind: DocumentationEvidenceKind,
    canonical_bytes: u64,
) -> (r: Result<DocumentationEvidenceCandidate, DocumentationPlanError>)
    ensures
        r is Ok <==> stored_id@ == expected_id@,
        r is Err ==> r->Err_0 == DocumentationPlanError::CatalogIdentityMismatch,
        r is Ok ==> ({
            let c = r->Ok_0;
            &&& c.hash@ == hash@
            &&& c.kind == kind
            &&& c.priority == candidate_priority(kind)
            &&& c.relation_depth == 0
            &&& c.estimated_tokens as int == (canonical_bytes as int + 3) / 4
        }),
{
    if !text_eq(stored_id, expected_id) {
        return Err(DocumentationPlanError::CatalogIdentityMismatch);
    }
    let priority: u32 = if kind == DocumentationEvidenceKind::Documentation {
        100
    } else {
        10
    };
    let estimated_tokens: u64 = canonical_bytes / 4 + if canonical_bytes % 4 == 0 {
        0
    } else {
        1
    };
    Ok(DocumentationEvidenceCandidate { hash, kind, priority, relation_depth: 0, estimated_tokens })
}

/// The positions of the units whose review applies, in plan order.
pub open spec fn applicable_positions(units: Seq<DocumentationReviewUnit>) -> Seq<usize>
    decreases units.len(),
{
    if units.len() == 0 {
        Seq::empty()
    } else {
        let rest = applicable_positions(units.drop_last());
        if units.last().applicability.state == ApplicabilityState::Applicable {
            rest.push((units.len() - 1) as usize)
        } else {
            rest
        }
    }
}

impl DocumentationReviewPlan {
    /// The positions of the units that are materialized: those whose review
    /// applies, in plan order.
    pub fn admissible(&self) -> (r: Vec<usize>)
        ensures
            r@ == applicable_positions(self.units@),
    {
        let mut out: Vec<usize> = Vec::new();
        let mut k: usize = 0;
        while k < self.units.len()
            invariant
                k <= self.units@.len(),
                out@ == applicable_positions(self.units@.subrange(0, k as int)),
            decreases self.units.len() - k,
        {
            proof {
                assert(self.units@.subrange(0, k + 1).drop_last() =~= self.units@.subrange(0, k as int));
            }
            if self.units[k].applicability.state == ApplicabilityState::Applicable {
                out.push(k);
            }
            k += 1;
        }
        proof {
            assert(self.units@.subrange(0, self.units@.len() as int) =~= self.units@);
        }
        out
    }
}


/// Two profiles describe the same target alike.
pub open spec fn same_profile(a: DocumentationTargetProfile, b: DocumentationTargetProfile) -> bool {
    &&& a.target@ == b.target@
    &&& a.name@ == b.name@
    &&& a.visibility == b.visibility
    &&& a.inventory == b.inventory
}

/// Two units plan the same review.
pub open spec fn same_unit(a: DocumentationReviewUnit, b: DocumentationReviewUnit) -> bool {
    &&& a.schema_version == b.schema_version
    &&& a.work_item@ == b.work_item@
    &&& same_profile(a.target, b.target)
    &&& a.policy@ == b.policy@
    &&& a.policy_version@ == b.policy_version@
    &&& a.applicability.state == b.applicability.state
    &&& a.applicability.rationale@ == b.applicability.rationale@
    &&& a.evidence@ == b.evidence@
}

impl DocumentationReviewUnit {
    /// A copy of the unit.
    pub fn copied(&self) -> (r: DocumentationReviewUnit)
        ensures
            same_unit(r, *self),
    {
        DocumentationReviewUnit {
            schema_version: self.schema_version,
            work_item: self.work_item.clone(),
            target: DocumentationTargetProfile {
                target: self.target.target.clone(),
                name: self.target.name.clone(),
                visibility: self.target.visibility,
                inventory: self.target.inventory,
            },
            policy: self.policy.clone(),
            policy_version: self.policy_version.clone(),
            applicability: DocumentationApplicabilityDecision {
                state: self.applicability.state,
                rationale: self.applicability.rationale.clone(),
            },
            evidence: copy_texts(&self.evidence),
        }
    }
}

/// The queued record of an admitted unit: the unit and where its evidence
/// package and review context are stored.
#[derive(Debug)]
pub struct DocumentationReviewAdmission {
    pub schema_version: u32,
    pub unit: DocumentationReviewUnit,
    pub evidence_package_ref: String,
    pub review_context_ref: String,
}

/// The admission of a materialized unit whose package and context are stored
/// under the given references.
pub fn admission_for(unit: &DocumentationReviewUnit, evidence_package_ref: String, review_context_ref: String) -> (r:
    DocumentationReviewAdmission)
    ensures
        r.schema_version == DOCUMENTATION_REVIEW_PLAN_SCHEMA_VERSION,
        same_unit(r.unit, *unit),
        r.evidence_package_ref@ == evidence_package_ref@,
        r.review_context_ref@ == review_context_ref@,
{
    DocumentationReviewAdmission {
        schema_version: DOCUMENTATION_REVIEW_PLAN_SCHEMA_VERSION,
        unit: unit.copied(),
        evidence_package_ref,
        review_context_ref,
    }
}

/// An admission of the current schema for a unit of the current schema
/// whose review applies.
pub open spec fn admission_supported(a: DocumentationReviewAdmission) -> bool {
    &&& a.schema_version == DOCUMENTATION_REVIEW_PLAN_SCHEMA_VERSION
    &&& a.unit.schema_version == DOCUMENTATION_REVIEW_PLAN_SCHEMA_VERSION
    &&& a.unit.applicability.state == ApplicabilityState::Applicable
}

impl DocumentationReviewAdmission {
    /// Only admissions and units of the current schema whose review applies
    /// are restored.
    pub fn check(&self) -> (r: Result<(), DocumentationPlanError>)
        ensures
            r is Ok <==> admission_supported(*self),
            r is Err ==> r->Err_0 == DocumentationPlanError::UnsupportedAdmission,
    {
        if self.schema_version != DOCUMENTATION_REVIEW_PLAN_SCHEMA_VERSION
            || self.unit.schema_version != DOCUMENTATION_REVIEW_PLAN_SCHEMA_VERSION
            || self.unit.applicability.state != ApplicabilityState::Applicable {
            return Err(DocumentationPlanError::UnsupportedAdmission);
        }
        Ok(())
    }
}

/// Checks an artifact loaded for restoration: it must exist and have the
/// expected kind.
pub fn check_loaded_artifact(kind: Option<&str>, expected_kind: &str) -> (r: Result<
    (),
    DocumentationPlanError,
>)
    ensures
        r == (match kind {
            None => Err(DocumentationPlanError::MissingArtifact),
            Some(k) => if k@ == expected_kind@ {
                Ok(())
            } else {
                Err(DocumentationPlanError::ArtifactKindMismatch)
            },
        }),
{
    match kind {
        None => Err(DocumentationPlanError::MissingArtifact),
        Some(k) => if text_eq(k, expected_kind) {
            Ok(())
        } else {
            Err(DocumentationPlanError::ArtifactKindMismatch)
        },
    }
}

/// The identity of a restored evidence package.
#[derive(Debug)]
pub struct RestoredPackage {
    pub hash: String,
    pub revision: u32,
    pub snapshot: String,
    pub target: String,
    pub policy: String,
    pub policy_version: String,
}

/// The trusted control block of a restored review context, and the
/// identifiers of the untrusted evidence it shows the model.
#[derive(Debug)]
pub struct RestoredContext {
    pub hash: String,
    pub snapshot: String,
    pub target: String,
    pub policy: String,
    pub policy_version: String,
    pub package_hash: String,
    pub package_revision: u32,
    pub evidence: Vec<String>,
}

/// A restored package and context belong to the unit: the first package
/// revision for the unit's target and policy, a context bound to that package
/// and snapshot whose hash is the digest of its canonical form, and no
/// evidence shown that the unit does not list.
pub open spec fn restored_identity_ok(
    unit: DocumentationReviewUnit,
    package: RestoredPackage,
    context: RestoredContext,
    canonical_digest: Seq<char>,
) -> bool {
    &&& package.revision == 1
    &&& package.target@ == unit.target.target@
    &&& package.policy@ == unit.policy@
    &&& package.policy_version@ == unit.policy_version@
    &&& context.snapshot@ == package.snapshot@
    &&& context.target@ == unit.target.target@
    &&& context.policy@ == unit.policy@
    &&& context.policy_version@ == unit.policy_version@
    &&& context.package_hash@ == package.hash@
    &&& context.package_revision == package.revision
    &&& context.hash@ == canonical_digest
    &&& forall|k: int|
        0 <= k < context.evidence@.len() ==> views(unit.evidence@).contains(
            (#[trigger] context.evidence@[k])@,
        )
}

/// Checks that a restored package and context belong to the unit;
/// `canonical_digest` is the content hash of the context's canonical form.
pub fn validate_restored_identity(
    unit: &DocumentationReviewUnit,
    package: &RestoredPackage,
    context: &RestoredContext,
    canonical_digest: &str,
) -> (r: Result<(), DocumentationPlanError>)
    ensures
        r is Ok <==> restored_identity_ok(*unit, *package, *context, canonical_digest@),
        r is Err ==> r->Err_0 == DocumentationPlanError::IdentityMismatch,
{
    let same = package.revision == 1 && text_eq(package.target.as_str(), unit.target.target.as_str())
        && text_eq(package.policy.as_str(), unit.policy.as_str()) && text_eq(
        package.policy_version.as_str(),
        unit.policy_version.as_str(),
    ) && text_eq(context.snapshot.as_str(), package.snapshot.as_str()) && text_eq(
        context.target.as_str(),
        unit.target.target.as_str(),
    ) && text_eq(context.policy.as_str(), unit.policy.as_str()) && text_eq(
        context.policy_version.as_str(),
        unit.policy_version.as_str(),
    ) && text_eq(context.package_hash.as_str(), package.hash.as_str()) && context.package_revision
        == package.revision && text_eq(context.hash.as_str(), canonical_digest);
    if !same {
        return Err(DocumentationPlanError::IdentityMismatch);
    }
    let mut k: usize = 0;
    while k < context.evidence.len()
        invariant
            k <= context.evidence@.len(),
            forall|q: int|
                0 <= q < k ==> views(unit.evidence@).contains((#[trigger] context.evidence@[q])@),
        decreases context.evidence.len() - k,
    {
        if !listed(&unit.evidence, context.evidence[k].as_str()) {
            return Err(DocumentationPlanError::IdentityMismatch);
        }
        k += 1;
    }
    Ok(())
}

/// Whether a text is among the texts of a list.
fn listed(v: &Vec<String>, s: &str) -> (r: bool)
    ensures
        r == views(v@).contains(s@),
{
    let mut i: usize = 0;
    while i < v.len()
        invariant
            i <= v@.len(),
            forall|q: int| 0 <= q < i ==> (#[trigger] v@[q])@ != s@,
        decreases v.len() - i,
    {
        if text_eq(v[i].as_str(), s) {
            proof {
                assert(views(v@)[i as int] == s@);
            }
            return true;
        }
        i += 1;
    }
    proof {
        if views(v@).contains(s@) {
            let q = choose|q: int| 0 <= q < views(v@).len() && views(v@)[q] == s@;
            assert(v@[q]@ == s@);
        }
    }
    false
}

/// The first workflow data of a restored unit: its work item, target and
/// policy, the package it reviews, and nothing decided yet.
pub fn initial_workflow_data(unit: &DocumentationReviewUnit, package: &RestoredPackage) -> (r:
    ReviewWorkflowData)
    ensures
        r.work_id@ == unit.work_item@,
        r.review_unit_id@ == unit.target.target@,
        r.policy_id@ == unit.policy@,
        r.evidence_package_ref@ == package.hash@,
        r.evidence_revision == package.revision,
        r.primary_decisions@.len() == 0,
        r.candidate_findings@.len() == 0,
        r.scheduled_verification_work@.len() == 0,
        r.verification_results@.len() == 0,
        r.evidence_request_decisions@.len() == 0,
        r.evidence_expansions@.len() == 0,
        r.escalation_count == 0,
        r.evidence_expansion_count == 0,
        r.adjudication is None,
{
    ReviewWorkflowData {
        work_id: unit.work_item.clone(),
        review_unit_id: unit.target.target.clone(),
        policy_id: unit.policy.clone(),
        evidence_package_ref: package.hash.clone(),
        evidence_revision: package.revision,
        primary_decisions: Vec::new(),
        candidate_findings: Vec::new(),
        scheduled_verification_work: Vec::new(),
        verification_results: Vec::new(),
        evidence_request_decisions: Vec::new(),
        evidence_expansions: Vec::new(),
        escalation_count: 0,
        evidence_expansion_count: 0,
        adjudication: None,
    }
}

/// Admission requires a normalized adapter identity.
pub fn check_adapter(adapter: &str) -> (r: Result<(), DocumentationPlanError>)
    ensures
        r is Ok <==> is_normalized(adapter@),
        r is Err ==> r->Err_0 == DocumentationPlanError::UnnormalizedAdapter,
{
    if is_normalized_text(adapter) {
        Ok(())
    } else {
        Err(DocumentationPlanError::UnnormalizedAdapter)
    }
}

/// An artifact stored at admission must have the content hash it was
/// materialized with.
pub fn check_stored_identity(stored_hash: &str, materialized_hash: &str) -> (r: Result<
    (),
    DocumentationPlanError,
>)
    ensures
        r is Ok <==> stored_hash@ == materialized_hash@,
        r is Err ==> r->Err_0 == DocumentationPlanError::StoredIdentityMismatch,
{
    if text_eq(stored_hash, materialized_hash) {
        Ok(())
    } else {
        Err(DocumentationPlanError::StoredIdentityMismatch)
    }
}


/// A unit that can be materialized is restorable from its admission: the
/// admission made for it passes the restoration check.
pub proof fn law_materializable_units_restore(
    unit: DocumentationReviewUnit,
    admission: DocumentationReviewAdmission,
)
    requires
        unit.schema_version == DOCUMENTATION_REVIEW_PLAN_SCHEMA_VERSION,
        unit.applicability.state == ApplicabilityState::Applicable,
        admission.schema_version == DOCUMENTATION_REVIEW_PLAN_SCHEMA_VERSION,
        same_unit(admission.unit, unit),
    ensures
        admission_supported(admission),
{
}

/// A target that inherits its visibility from a listed parent with a
/// visibility of its own has the parent's visibility.
pub proof fn law_inherited_visibility_is_the_parents(
    targets: Seq<ArchitectureTarget>,
    t: ArchitectureTarget,
    parent: int,
)
    requires
        t.visibility == TargetVisibility::Inherited,
        t.parent is Some,
        parent == target_pos(targets, t.parent->Some_0@),
        parent >= 0,
        targets[parent].visibility != TargetVisibility::Inherited,
    ensures
        visibility_walk(targets, t, targets.len()) == targets[parent].visibility,
{
    lemma_target_pos(targets, t.parent->Some_0@);
    assert(targets.len() >= 1);
    assert(visibility_walk(targets, targets[parent], (targets.len() - 1) as nat) == targets[parent].visibility);
}

} // verus!
