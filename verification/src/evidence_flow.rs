//! The evidence request and expansion steps of a review: which decision is
//! current, what usage the approved requests have consumed, which event each
//! outcome emits, and how an authorized expansion advances the workflow data.
use crate::actors::{OutputEvent, declared};
use crate::equiv::{Same, all_same, starts_with};
use crate::evidence::{
    AuthorizedEvidenceExpansion, EvidenceBudget, EvidenceExpansionRecord, EvidenceRequest,
    EvidenceRequestDecision, EvidenceRequestDisposition, EvidenceRequestDraft,
    ExpansionDenialReason, ExpansionUsage, budget_exhaustion, is_budget_exhaustion, no_usage,
    parse_evidence_request_draft,
};
use crate::actors::{current_decision, current_decision_pos};
use crate::evidence::{budget_of, draft_ok, string_views, text_items, uint_of};
use crate::json::{Json, JsonMember, field, get_field, text_eq};
use crate::textset::{is_text_set, set_insert, views};
use crate::workflow_data::{ReviewWorkflowData, inc32, lemma_data_same_refl, transition_ok};
use vstd::prelude::*;
use vstd::string::*;

verus! {

/// The request decision taken at the current evidence revision, if any.
pub open spec fn current_request_pos(d: ReviewWorkflowData) -> int {
    let ds = d.evidence_request_decisions@;
    if ds.len() > 0 && ds[ds.len() - 1].evidence_revision == d.evidence_revision {
        ds.len() - 1
    } else {
        -1
    }
}

/// The position of the request decision taken at the current revision.
pub fn current_request_decision(d: &ReviewWorkflowData) -> (r: Option<usize>)
    ensures
        match r {
            Some(i) => i as int == current_request_pos(*d),
            None => current_request_pos(*d) == -1,
        },
{
    let n = d.evidence_request_decisions.len();
    if n > 0 && d.evidence_request_decisions[n - 1].evidence_revision == d.evidence_revision {
        Some(n - 1)
    } else {
        None
    }
}

/// The usage recorded by the latest approved request among the first `k`
/// decisions, or no usage.
pub open spec fn latest_usage(ds: Seq<EvidenceRequestDecision>, k: int) -> ExpansionUsage
    decreases k,
{
    if k <= 0 {
        no_usage()
    } else if ds[k - 1].disposition is Allowed {
        ds[k - 1].disposition->Allowed_authorization.next_usage
    } else {
        latest_usage(ds, k - 1)
    }
}

/// The usage consumed so far: that of the latest approved request.
pub fn current_usage(d: &ReviewWorkflowData) -> (r: ExpansionUsage)
    ensures
        r == latest_usage(d.evidence_request_decisions@, d.evidence_request_decisions@.len() as int),
{
    let ds = &d.evidence_request_decisions;
    let mut k = ds.len();
    while k > 0
        invariant
            k <= ds.len(),
            ds == &d.evidence_request_decisions,
            latest_usage(ds@, ds@.len() as int) == latest_usage(ds@, k as int),
        decreases k,
    {
        match &ds[k - 1].disposition {
            EvidenceRequestDisposition::Allowed { authorization } => {
                return authorization.next_usage;
            },
            EvidenceRequestDisposition::Denied { .. } => {},
        }
        k -= 1;
    }
    ExpansionUsage::none()
}

/// The wire name of a denial reason.
pub open spec fn reason_name(r: ExpansionDenialReason) -> Seq<char> {
    match r {
        ExpansionDenialReason::RequestLimitExhausted => "request_limit_exhausted"@,
        ExpansionDenialReason::ByteBudgetExhausted => "byte_budget_exhausted"@,
        ExpansionDenialReason::TokenBudgetExhausted => "token_budget_exhausted"@,
        ExpansionDenialReason::ItemBudgetExhausted => "item_budget_exhausted"@,
        ExpansionDenialReason::RelationDepthExhausted => "relation_depth_exhausted"@,
        ExpansionDenialReason::TargetOutOfScope => "target_out_of_scope"@,
        ExpansionDenialReason::KindNotAllowed => "kind_not_allowed"@,
        ExpansionDenialReason::ClassificationNotAllowed => "classification_not_allowed"@,
        ExpansionDenialReason::BasePackageMismatch => "base_package_mismatch"@,
    }
}

fn reason_text(r: ExpansionDenialReason) -> (s: String)
    ensures
        s@ == reason_name(r),
{
    match r {
        ExpansionDenialReason::RequestLimitExhausted => "request_limit_exhausted".to_owned(),
        ExpansionDenialReason::ByteBudgetExhausted => "byte_budget_exhausted".to_owned(),
        ExpansionDenialReason::TokenBudgetExhausted => "token_budget_exhausted".to_owned(),
        ExpansionDenialReason::ItemBudgetExhausted => "item_budget_exhausted".to_owned(),
        ExpansionDenialReason::RelationDepthExhausted => "relation_depth_exhausted".to_owned(),
        ExpansionDenialReason::TargetOutOfScope => "target_out_of_scope".to_owned(),
        ExpansionDenialReason::KindNotAllowed => "kind_not_allowed".to_owned(),
        ExpansionDenialReason::ClassificationNotAllowed => "classification_not_allowed".to_owned(),
        ExpansionDenialReason::BasePackageMismatch => "base_package_mismatch".to_owned(),
    }
}

/// The event type of a request decision: approved requests are
/// `request.allowed`; refusals for a spent budget are `budget.exhausted`, any
/// other refusal `request.denied`.
pub open spec fn request_event_type(d: EvidenceRequestDisposition) -> Seq<char> {
    match d {
        EvidenceRequestDisposition::Allowed { .. } => "request.allowed"@,
        EvidenceRequestDisposition::Denied { denial } => if budget_exhaustion(denial.reason) {
            "budget.exhausted"@
        } else {
            "request.denied"@
        },
    }
}

/// A refusal counts as a spent budget exactly when its reason is one of the
/// `_exhausted` reasons (request limit, bytes, tokens, items, relation
/// depth); a refusal for scope, kind, classification or base package does
/// not.
pub proof fn law_exhausted_reasons_are_budget_exhaustion(r: ExpansionDenialReason)
    ensures
        budget_exhaustion(r) <==> "_exhausted"@.is_suffix_of(reason_name(r)),
{
    reveal_strlit("_exhausted");
    let suffix = "_exhausted"@;
    match r {
        ExpansionDenialReason::RequestLimitExhausted => {
            reveal_strlit("request_limit_exhausted");
            assert(reason_name(r).subrange(reason_name(r).len() - suffix.len(), reason_name(r).len() as int) =~= suffix);
        },
        ExpansionDenialReason::ByteBudgetExhausted => {
            reveal_strlit("byte_budget_exhausted");
            assert(reason_name(r).subrange(reason_name(r).len() - suffix.len(), reason_name(r).len() as int) =~= suffix);
        },
        ExpansionDenialReason::TokenBudgetExhausted => {
            reveal_strlit("token_budget_exhausted");
            assert(reason_name(r).subrange(reason_name(r).len() - suffix.len(), reason_name(r).len() as int) =~= suffix);
        },
        ExpansionDenialReason::ItemBudgetExhausted => {
            reveal_strlit("item_budget_exhausted");
            assert(reason_name(r).subrange(reason_name(r).len() - suffix.len(), reason_name(r).len() as int) =~= suffix);
        },
        ExpansionDenialReason::RelationDepthExhausted => {
            reveal_strlit("relation_depth_exhausted");
            assert(reason_name(r).subrange(reason_name(r).len() - suffix.len(), reason_name(r).len() as int) =~= suffix);
        },
        ExpansionDenialReason::TargetOutOfScope => {
            reveal_strlit("target_out_of_scope");
            let n = reason_name(r);
            assert(n[n.len() - 1] != suffix[suffix.len() - 1]);
        },
        ExpansionDenialReason::KindNotAllowed => {
            reveal_strlit("kind_not_allowed");
            let n = reason_name(r);
            assert(n[n.len() - 3] != suffix[suffix.len() - 3]);
        },
        ExpansionDenialReason::ClassificationNotAllowed => {
            reveal_strlit("classification_not_allowed");
            let n = reason_name(r);
            assert(n[n.len() - 3] != suffix[suffix.len() - 3]);
        },
        ExpansionDenialReason::BasePackageMismatch => {
            reveal_strlit("base_package_mismatch");
            let n = reason_name(r);
            assert(n[n.len() - 1] != suffix[suffix.len() - 1]);
        },
    }
}

/// A refused request is announced as `budget.exhausted` exactly when the
/// name of its reason ends in `_exhausted`, and as `request.denied`
/// otherwise; an allowed one as `request.allowed`.
pub proof fn law_refusal_events_follow_the_reason(d: EvidenceRequestDisposition)
    ensures
        d matches EvidenceRequestDisposition::Denied { denial } ==> (request_event_type(d) == "budget.exhausted"@
            <==> "_exhausted"@.is_suffix_of(reason_name(denial.reason))),
        d matches EvidenceRequestDisposition::Denied { denial } ==> (request_event_type(d) == "request.denied"@
            <==> !"_exhausted"@.is_suffix_of(reason_name(denial.reason))),
        d is Allowed ==> request_event_type(d) == "request.allowed"@,
{
    reveal_strlit("budget.exhausted");
    reveal_strlit("request.denied");
    reveal_strlit("request.allowed");
    if let EvidenceRequestDisposition::Denied { denial } = d {
        law_exhausted_reasons_are_budget_exhaustion(denial.reason);
        assert("budget.exhausted"@[0] != "request.denied"@[0]);
    }
}

fn key(k: &str) -> (r: String)
    ensures
        r@ == k@,
{
    k.to_owned()
}

/// The event of a request decision, when the workflow declares it; its
/// payload carries the authorization hash, or the reason and detail of the
/// refusal.
pub fn request_decision_event(decision: &EvidenceRequestDecision, declared_events: &Vec<String>) -> (r:
    Result<OutputEvent, String>)
    ensures
        r is Ok <==> declared(declared_events@, request_event_type(decision.disposition)),
        r is Ok ==> r->Ok_0.event_type@ == request_event_type(decision.disposition),
        r is Ok ==> (match decision.disposition {
            EvidenceRequestDisposition::Allowed { authorization } => {
                let m = r->Ok_0.payload->Object_0@;
                &&& r->Ok_0.payload is Object
                &&& m.len() == 1
                &&& m[0].key@ == "authorization_hash"@
                &&& m[0].value is Str
                &&& m[0].value->Str_0@ == authorization.authorization_hash@
            },
            EvidenceRequestDisposition::Denied { denial } => {
                let m = r->Ok_0.payload->Object_0@;
                &&& r->Ok_0.payload is Object
                &&& m.len() == 2
                &&& m[0].key@ == "detail"@
                &&& m[0].value is Str
                &&& m[0].value->Str_0@ == denial.detail@
                &&& m[1].key@ == "reason"@
                &&& m[1].value is Str
                &&& m[1].value->Str_0@ == reason_name(denial.reason)
            },
        }),
{
    let (event_type, payload) = match &decision.disposition {
        EvidenceRequestDisposition::Allowed { authorization } => (
            "request.allowed",
            Json::Object(
                vec![
                    JsonMember {
                        key: key("authorization_hash"),
                        value: Json::Str(authorization.authorization_hash.clone()),
                    },
                ],
            ),
        ),
        EvidenceRequestDisposition::Denied { denial } => {
            let event_type = if is_budget_exhaustion(denial.reason) {
                "budget.exhausted"
            } else {
                "request.denied"
            };
            (
                event_type,
                Json::Object(
                    vec![
                        JsonMember { key: key("detail"), value: Json::Str(denial.detail.clone()) },
                        JsonMember { key: key("reason"), value: Json::Str(reason_text(denial.reason)) },
                    ],
                ),
            )
        },
    };
    if !crate::equiv::contains_text(declared_events, event_type) {
        let mut message = "evidence evaluator emitted undeclared event `".to_owned();
        message.append(event_type);
        message.append("`");
        return Err(message);
    }
    Ok(OutputEvent { event_type: event_type.to_owned(), payload })
}

/// The event of a durable expansion, when the workflow declares
/// `evidence.expanded`: the authorization hash, the new revision and the new
/// package.
pub fn expansion_event(expansion: &EvidenceExpansionRecord, declared_events: &Vec<String>) -> (r:
    Result<OutputEvent, String>)
    ensures
        r is Ok <==> declared(declared_events@, "evidence.expanded"@),
        r is Ok ==> ({
            let m = r->Ok_0.payload->Object_0@;
            &&& r->Ok_0.event_type@ == "evidence.expanded"@
            &&& r->Ok_0.payload is Object
            &&& m.len() == 3
            &&& m[0].key@ == "authorization_hash"@
            &&& m[0].value == Json::Str(expansion.authorization_hash)
            &&& m[1].key@ == "evidence_revision"@
            &&& m[1].value == Json::UInt(expansion.to_revision as u64)
            &&& m[2].key@ == "package_ref"@
            &&& m[2].value == Json::Str(expansion.package_ref)
        }),
{
    if !crate::equiv::contains_text(declared_events, "evidence.expanded") {
        return Err("evidence expander emitted undeclared event `evidence.expanded`".to_owned());
    }
    Ok(
        OutputEvent {
            event_type: "evidence.expanded".to_owned(),
            payload: Json::Object(
                vec![
                    JsonMember {
                        key: key("authorization_hash"),
                        value: Json::Str(expansion.authorization_hash.clone()),
                    },
                    JsonMember {
                        key: key("evidence_revision"),
                        value: Json::UInt(expansion.to_revision as u64),
                    },
                    JsonMember { key: key("package_ref"), value: Json::Str(expansion.package_ref.clone()) },
                ],
            ),
        },
    )
}

/// How an item made it into an evidence package.
#[derive(Debug, Clone, Copy, PartialEq, Eq, Structural)]
pub enum EvidenceDisposition {
    Included,
    Summarized,
    Partial,
    Excluded,
}

/// One item of an evidence package, as far as budgets are concerned.
#[derive(Debug)]
pub struct EvidenceItem {
    pub disposition: EvidenceDisposition,
    pub relation_depth: u32,
}

/// An evidence package: its identity and lineage, budget and usage.
#[derive(Debug)]
pub struct EvidencePackage {
    pub schema_version: u32,
    pub revision: u32,
    pub previous_package: Option<String>,
    pub snapshot: String,
    pub configuration: String,
    pub target: String,
    pub policy: String,
    pub policy_version: String,
    pub budget: EvidenceBudget,
    pub used_bytes: usize,
    pub used_tokens: usize,
    pub items: Vec<EvidenceItem>,
}

/// An evidence package with its content hash.
#[derive(Debug)]
pub struct PackageArtifact {
    pub hash: String,
    pub package: EvidencePackage,
}

/// The item counts against the item budget.
pub open spec fn counted(i: EvidenceItem) -> bool {
    ||| i.disposition is Included
    ||| i.disposition is Summarized
    ||| i.disposition is Partial
}

/// The number of counted items among the first `k`.
pub open spec fn counted_items(items: Seq<EvidenceItem>, k: int) -> int
    decreases k,
{
    if k <= 0 {
        0
    } else {
        counted_items(items, k - 1) + if counted(items[k - 1]) {
            1int
        } else {
            0int
        }
    }
}

/// The active package is the one the workflow data names: its hash is its
/// content digest, and hash, revision and policy agree with the data.
pub open spec fn active_package_ok(d: ReviewWorkflowData, base: PackageArtifact, digest: Seq<char>) -> bool {
    &&& base.hash@ == digest
    &&& d.evidence_package_ref@ == base.hash@
    &&& d.evidence_revision == base.package.revision
    &&& d.policy_id@ == base.package.policy@
}

/// Checks that the workflow data is working on the given package.
pub fn validate_active_package(d: &ReviewWorkflowData, base: &PackageArtifact, digest: &str) -> (r:
    Result<(), String>)
    ensures
        r is Ok <==> active_package_ok(*d, *base, digest@),
{
    if !text_eq(base.hash.as_str(), digest) {
        return Err("evidence package hash does not match its content".to_owned());
    }
    if !text_eq(d.evidence_package_ref.as_str(), base.hash.as_str()) || d.evidence_revision
        != base.package.revision || !text_eq(d.policy_id.as_str(), base.package.policy.as_str()) {
        return Err("active evidence package identity does not match workflow data".to_owned());
    }
    Ok(())
}

/// An expanded package is the authorized successor of the base: its digest
/// matches, it is the next revision of the base for the same snapshot,
/// configuration, target and policy, carries exactly the authorized budget and
/// stays within it.
pub open spec fn expanded_ok(
    base: PackageArtifact,
    authorization: AuthorizedEvidenceExpansion,
    expanded: PackageArtifact,
    digest: Seq<char>,
    schema_version: u32,
) -> bool {
    let p = expanded.package;
    let b = base.package;
    &&& expanded.hash@ == digest
    &&& b.revision < u32::MAX
    &&& p.schema_version == schema_version
    &&& p.revision == b.revision + 1
    &&& p.previous_package is Some
    &&& p.previous_package.unwrap()@ == base.hash@
    &&& p.snapshot@ == b.snapshot@
    &&& p.configuration@ == b.configuration@
    &&& p.target@ == b.target@
    &&& p.policy@ == b.policy@
    &&& p.policy_version@ == b.policy_version@
    &&& p.budget == authorization.request.additional_budget
    &&& p.used_bytes <= p.budget.max_bytes
    &&& p.used_tokens <= p.budget.max_tokens
    &&& counted_items(p.items@, p.items@.len() as int) <= p.budget.max_items
    &&& forall|i: int|
        0 <= i < p.items@.len() && counted(#[trigger] p.items@[i]) ==> p.items@[i].relation_depth
            <= p.budget.max_relation_depth
}

/// Checks a materialized expansion against its base and authorization.
pub fn validate_expanded_package(
    base: &PackageArtifact,
    authorization: &AuthorizedEvidenceExpansion,
    expanded: &PackageArtifact,
    digest: &str,
    schema_version: u32,
) -> (r: Result<(), String>)
    ensures
        r is Ok <==> expanded_ok(*base, *authorization, *expanded, digest@, schema_version),
{
    if !text_eq(expanded.hash.as_str(), digest) {
        return Err("expanded evidence package hash does not match its content".to_owned());
    }
    if base.package.revision == u32::MAX {
        return Err("evidence package revision overflow".to_owned());
    }
    let p = &expanded.package;
    let b = &base.package;
    let lineage = match &p.previous_package {
        Some(previous) => text_eq(previous.as_str(), base.hash.as_str()),
        None => false,
    };
    if p.schema_version != schema_version || p.revision != b.revision + 1 || !lineage || !text_eq(
        p.snapshot.as_str(),
        b.snapshot.as_str(),
    ) || !text_eq(p.configuration.as_str(), b.configuration.as_str()) || !text_eq(
        p.target.as_str(),
        b.target.as_str(),
    ) || !text_eq(p.policy.as_str(), b.policy.as_str()) || !text_eq(
        p.policy_version.as_str(),
        b.policy_version.as_str(),
    ) || p.budget != authorization.request.additional_budget {
        return Err(
            "expanded evidence package violates its authorized identity or revision".to_owned(),
        );
    }
    let mut included: usize = 0;
    let mut too_deep = false;
    let mut i: usize = 0;
    while i < p.items.len()
        invariant
            i <= p.items@.len(),
            included as int == counted_items(p.items@, i as int),
            included <= i,
            !too_deep ==> forall|j: int|
                0 <= j < i && counted(#[trigger] p.items@[j]) ==> p.items@[j].relation_depth
                    <= p.budget.max_relation_depth,
            too_deep ==> exists|j: int|
                0 <= j < p.items@.len() && counted(#[trigger] p.items@[j]) && p.items@[j].relation_depth
                    > p.budget.max_relation_depth,
        decreases p.items.len() - i,
    {
        let item = &p.items[i];
        let is_counted = match item.disposition {
            EvidenceDisposition::Included | EvidenceDisposition::Summarized
            | EvidenceDisposition::Partial => true,
            EvidenceDisposition::Excluded => false,
        };
        if is_counted {
            included = included + 1;
            if item.relation_depth > p.budget.max_relation_depth {
                too_deep = true;
            }
        }
        i += 1;
    }
    if p.used_bytes > p.budget.max_bytes || p.used_tokens > p.budget.max_tokens || included
        > p.budget.max_items || too_deep {
        return Err("expanded evidence package exceeds its authorized budget".to_owned());
    }
    Ok(())
}

/// The workflow data after a durable expansion from the base package to the
/// expanded one: the next evidence revision, the new active package, one more
/// expansion counted and recorded.
pub open spec fn expanded_data(
    d: ReviewWorkflowData,
    proposed: ReviewWorkflowData,
    authorization: AuthorizedEvidenceExpansion,
    base_hash: Seq<char>,
    expanded_hash: Seq<char>,
) -> bool {
    let e = proposed.evidence_expansions@[proposed.evidence_expansions@.len() - 1];
    &&& d.evidence_revision < u32::MAX
    &&& proposed.evidence_revision == d.evidence_revision + 1
    &&& proposed.evidence_package_ref@ == expanded_hash
    &&& proposed.evidence_expansion_count as int == inc32(d.evidence_expansion_count)
    &&& proposed.evidence_expansions@.len() == d.evidence_expansions@.len() + 1
    &&& proposed.evidence_expansions@.subrange(0, d.evidence_expansions@.len() as int)
        == d.evidence_expansions@
    &&& e.authorization_hash@ == authorization.authorization_hash@
    &&& e.from_revision == d.evidence_revision
    &&& e.previous_package@ == base_hash
    &&& e.to_revision == proposed.evidence_revision
    &&& e.package_ref@ == expanded_hash
    &&& proposed.work_id == d.work_id
    &&& proposed.review_unit_id == d.review_unit_id
    &&& proposed.policy_id == d.policy_id
    &&& proposed.primary_decisions == d.primary_decisions
    &&& proposed.candidate_findings == d.candidate_findings
    &&& proposed.scheduled_verification_work == d.scheduled_verification_work
    &&& proposed.verification_results == d.verification_results
    &&& proposed.evidence_request_decisions == d.evidence_request_decisions
    &&& proposed.escalation_count == d.escalation_count
    &&& proposed.adjudication == d.adjudication
}

/// Advances the workflow data through one authorized expansion.
pub fn apply_expansion(
    d: ReviewWorkflowData,
    authorization: &AuthorizedEvidenceExpansion,
    base_hash: &str,
    expanded_hash: &str,
) -> (r: Result<ReviewWorkflowData, String>)
    ensures
        r is Ok <==> d.evidence_revision < u32::MAX,
        r is Ok ==> expanded_data(d, r->Ok_0, *authorization, base_hash@, expanded_hash@),
{
    if d.evidence_revision == u32::MAX {
        return Err("evidence revision overflow".to_owned());
    }
    let ghost old_d = d;
    let to_revision = d.evidence_revision + 1;
    let record = EvidenceExpansionRecord {
        authorization_hash: authorization.authorization_hash.clone(),
        from_revision: d.evidence_revision,
        previous_package: base_hash.to_owned(),
        to_revision,
        package_ref: expanded_hash.to_owned(),
    };
    let mut proposed = d;
    proposed.evidence_revision = to_revision;
    proposed.evidence_package_ref = expanded_hash.to_owned();
    proposed.evidence_expansion_count = proposed.evidence_expansion_count.saturating_add(1);
    proposed.evidence_expansions.push(record);
    proof {
        assert(proposed.evidence_expansions@.subrange(0, old_d.evidence_expansions@.len() as int)
            =~= old_d.evidence_expansions@);
    }
    Ok(proposed)
}

/// An expansion is a transition the workflow data accepts: it advances the
/// evidence by exactly one durable expansion and appends to the history
/// without rewriting it.
pub proof fn law_expansion_is_valid_transition(
    d: ReviewWorkflowData,
    proposed: ReviewWorkflowData,
    authorization: AuthorizedEvidenceExpansion,
    base_hash: Seq<char>,
    expanded_hash: Seq<char>,
)
    requires
        expanded_data(d, proposed, authorization, base_hash, expanded_hash),
    ensures
        transition_ok(d, proposed),
{
    lemma_data_same_refl(d);
    let n = d.evidence_expansions@.len();
    assert forall|i: int| 0 <= i < n implies #[trigger] d.evidence_expansions@[i].same_as(
        &proposed.evidence_expansions@[i],
    ) by {
        assert(proposed.evidence_expansions@[i] == proposed.evidence_expansions@.subrange(0, n as int)[i]);
    }
}

/// A text set holding the texts of a list.
fn text_set_of(v: &Vec<String>) -> (r: Vec<String>)
    ensures
        is_text_set(r@),
        views(r@).to_set() == views(v@).to_set(),
{
    let mut r: Vec<String> = Vec::new();
    let mut i: usize = 0;
    while i < v.len()
        invariant
            i <= v@.len(),
            is_text_set(r@),
            views(r@).to_set() == views(v@).subrange(0, i as int).to_set(),
        decreases v.len() - i,
    {
        set_insert(&mut r, v[i].as_str());
        proof {
            assert(views(v@).subrange(0, i + 1) =~= views(v@).subrange(0, i as int).push(v@[i as int]@));
            views(v@).subrange(0, i as int).lemma_push_to_set_commute(v@[i as int]@);
        }
        i += 1;
    }
    proof {
        assert(views(v@).subrange(0, v@.len() as int) =~= views(v@));
    }
    r
}

/// The evidence request drafted by the current decision, which must be
/// unable to verify and carry a valid draft.
pub open spec fn current_request_draft(d: ReviewWorkflowData) -> Option<Json> {
    let p = current_decision_pos(d);
    if p < 0 {
        None
    } else {
        let decision = d.primary_decisions@[p];
        if decision.event_type@ != "review.unable_to_verify"@ {
            None
        } else {
            match field(decision.payload, "requested_evidence"@) {
                Some(v) => if draft_ok(v) {
                    Some(v)
                } else {
                    None
                },
                None => None,
            }
        }
    }
}

/// The request to put to the authorizer: the next sequence number after the
/// approved requests, the active package, and the drafted targets and kinds
/// (each once, in order), budget and rationale.
pub fn evidence_request_for(d: &ReviewWorkflowData, base_package: &str) -> (r: Result<EvidenceRequest, String>)
    ensures
        r is Ok <==> current_request_draft(*d) is Some,
        r is Ok ==> ({
            let q = r->Ok_0;
            let v = current_request_draft(*d).unwrap();
            let b = budget_of(v);
            let u = latest_usage(d.evidence_request_decisions@, d.evidence_request_decisions@.len() as int);
            &&& q.sequence as int == if u.approved_requests == u32::MAX {
                u32::MAX as int
            } else {
                u.approved_requests + 1
            }
            &&& q.base_package@ == base_package@
            &&& is_text_set(q.requested_targets@)
            &&& views(q.requested_targets@).to_set() == text_items(
                field(v, "requested_targets"@).unwrap()->Array_0@,
            ).to_set()
            &&& is_text_set(q.requested_kinds@)
            &&& views(q.requested_kinds@).to_set() == text_items(
                field(v, "requested_kinds"@).unwrap()->Array_0@,
            ).to_set()
            &&& q.rationale@ == field(v, "rationale"@).unwrap()->Str_0@
            &&& q.additional_budget.max_bytes == uint_of(b, "max_bytes"@)
            &&& q.additional_budget.max_tokens == uint_of(b, "max_tokens"@)
            &&& q.additional_budget.max_items == uint_of(b, "max_items"@)
            &&& q.additional_budget.max_relation_depth == uint_of(b, "max_relation_depth"@)
        }),
{
    let p = match current_decision(d) {
        Some(p) => p,
        None => {
            return Err("current primary decision is missing".to_owned());
        },
    };
    let primary = &d.primary_decisions[p];
    if !text_eq(primary.event_type.as_str(), "review.unable_to_verify") {
        return Err("evidence evaluator requires an unable-to-verify decision".to_owned());
    }
    let value = match get_field(&primary.payload, "requested_evidence") {
        Some(v) => v,
        None => {
            return Err("evidence request draft is missing".to_owned());
        },
    };
    let draft = parse_evidence_request_draft(value)?;
    let usage = current_usage(d);
    let sequence = usage.approved_requests.saturating_add(1);
    let requested_targets = text_set_of(&draft.requested_targets);
    let requested_kinds = text_set_of(&draft.requested_kinds);
    proof {
        assert(views(draft.requested_targets@) == string_views(draft.requested_targets@));
        assert(views(draft.requested_kinds@) == string_views(draft.requested_kinds@));
    }
    Ok(
        EvidenceRequest {
            sequence,
            base_package: base_package.to_owned(),
            requested_targets,
            requested_kinds,
            additional_budget: draft.additional_budget,
            rationale: draft.rationale,
        },
    )
}

/// Records the authorizer's disposition of a request at the current
/// revision.
pub fn record_request_decision(
    d: &mut ReviewWorkflowData,
    request: EvidenceRequest,
    disposition: EvidenceRequestDisposition,
)
    ensures
        final(d).evidence_request_decisions@ == old(d).evidence_request_decisions@.push(
            EvidenceRequestDecision {
                evidence_revision: old(d).evidence_revision,
                request: request,
                disposition: disposition,
            },
        ),
        final(d).evidence_revision == old(d).evidence_revision,
        final(d).primary_decisions@ == old(d).primary_decisions@,
{
    let evidence_revision = d.evidence_revision;
    d.evidence_request_decisions.push(EvidenceRequestDecision { evidence_revision, request, disposition });
}

/// The authorization of the latest request decision, which must allow it.
pub open spec fn latest_authorization_of(d: ReviewWorkflowData) -> Option<AuthorizedEvidenceExpansion> {
    let ds = d.evidence_request_decisions@;
    if ds.len() == 0 {
        None
    } else {
        match ds.last().disposition {
            EvidenceRequestDisposition::Allowed { authorization } => Some(authorization),
            EvidenceRequestDisposition::Denied { .. } => None,
        }
    }
}

/// The authorization of the latest request decision; refused when there is
/// no decision or it denied the request.
pub fn latest_authorization(d: &ReviewWorkflowData) -> (r: Result<&AuthorizedEvidenceExpansion, String>)
    ensures
        r is Ok <==> latest_authorization_of(*d) is Some,
        r is Ok ==> *r->Ok_0 == latest_authorization_of(*d).unwrap(),
{
    let n = d.evidence_request_decisions.len();
    if n == 0 {
        return Err("evidence request decision is missing".to_owned());
    }
    match &d.evidence_request_decisions[n - 1].disposition {
        EvidenceRequestDisposition::Allowed { authorization } => Ok(authorization),
        EvidenceRequestDisposition::Denied { .. } => Err("denied evidence request cannot be expanded".to_owned()),
    }
}

/// Position of the first expansion made under the authorization, or -1.
pub open spec fn expansion_pos(d: ReviewWorkflowData, hash: Seq<char>) -> int
    decreases d.evidence_expansions@.len(),
{
    expansion_pos_upto(d.evidence_expansions@, hash, d.evidence_expansions@.len() as int)
}

/// Position of the first of the first `n` expansions under the
/// authorization, or -1.
pub open spec fn expansion_pos_upto(es: Seq<EvidenceExpansionRecord>, hash: Seq<char>, n: int) -> int
    decreases n,
{
    if n <= 0 {
        -1
    } else if expansion_pos_upto(es, hash, n - 1) >= 0 {
        expansion_pos_upto(es, hash, n - 1)
    } else if es[n - 1].authorization_hash@ == hash {
        n - 1
    } else {
        -1
    }
}

/// The expansion already made under an authorization, if any.
pub fn find_expansion(d: &ReviewWorkflowData, hash: &str) -> (r: Option<usize>)
    ensures
        match r {
            Some(i) => i as int == expansion_pos(*d, hash@) && i < d.evidence_expansions@.len()
                && d.evidence_expansions@[i as int].authorization_hash@ == hash@,
            None => expansion_pos(*d, hash@) == -1,
        },
{
    let es = &d.evidence_expansions;
    let mut i: usize = 0;
    while i < es.len()
        invariant
            i <= es@.len(),
            es == &d.evidence_expansions,
            expansion_pos_upto(es@, hash@, i as int) == -1,
        decreases es.len() - i,
    {
        if text_eq(es[i].authorization_hash.as_str(), hash) {
            proof {
                lemma_expansion_pos_stable(es@, hash@, i + 1, es@.len() as int);
            }
            return Some(i);
        }
        i += 1;
    }
    None
}

proof fn lemma_expansion_pos_stable(es: Seq<EvidenceExpansionRecord>, hash: Seq<char>, m: int, n: int)
    requires
        0 <= m <= n,
        expansion_pos_upto(es, hash, m) >= 0,
    ensures
        expansion_pos_upto(es, hash, n) == expansion_pos_upto(es, hash, m),
    decreases n - m,
{
    if m < n {
        lemma_expansion_pos_stable(es, hash, m + 1, n);
    }
}

/// The authorization binds the active package and the current revision: it
/// was granted for the package under review, and no expansion has happened
/// since the latest request decision.
pub open spec fn binds_active_revision(d: ReviewWorkflowData, a: AuthorizedEvidenceExpansion, base_package: Seq<char>) -> bool {
    let ds = d.evidence_request_decisions@;
    &&& a.request.base_package@ == base_package
    &&& d.evidence_revision == if ds.len() == 0 {
        0
    } else {
        ds.last().evidence_revision
    }
}

/// Checks that an authorization binds the active package and revision.
pub fn check_binding(d: &ReviewWorkflowData, a: &AuthorizedEvidenceExpansion, base_package: &str) -> (r: Result<(), String>)
    ensures
        r is Ok <==> binds_active_revision(*d, *a, base_package@),
{
    let n = d.evidence_request_decisions.len();
    let latest = if n == 0 {
        0
    } else {
        d.evidence_request_decisions[n - 1].evidence_revision
    };
    if !text_eq(a.request.base_package.as_str(), base_package) || d.evidence_revision != latest {
        return Err("evidence authorization does not bind the active package revision".to_owned());
    }
    Ok(())
}

} // verus!
