//! The actors of the documentation review workflow, registered by identity
//! and version so that a recovered run can rebuild them, and the events of
//! the actors that check prepared evidence and relay terminal decisions.
use crate::actor_registry::{ActorRegistry, ActorRegistryError, RegisteredFactory, keys_distinct, registered};
use crate::actors::{OutputEvent, current_decision, current_decision_pos};
use crate::architecture_plan::EvidenceKind;
use crate::decision_schema::{member, object_of, text};
use crate::evidence::EvidenceBudget;
use crate::documentation_plan::DocumentationReviewUnit;
use crate::json::{Json, JsonMember, field, get_field, text_eq};
use crate::shape::{Shape, fits};
use crate::workflow_data::ReviewWorkflowData;
use vstd::prelude::*;
use vstd::string::*;

verus! {

/// The version every documentation actor is registered under.
pub const DOCUMENTATION_ACTOR_VERSION: &'static str = "1.0.0";

/// The documentation actors' identities, in registration order.
pub open spec fn documentation_actor_ids() -> Seq<Seq<char>> {
    seq![
        "argus.prepare-evidence"@,
        "argus.review"@,
        "argus.evaluate-evidence-request"@,
        "argus.expand-evidence"@,
        "argus.record-unable-to-verify"@,
        "argus.record-failure"@,
        "argus.record-candidates"@,
        "argus.schedule-finding-work"@,
        "argus.record-outcome"@,
    ]
}

/// Registers the documentation actors' factories, in order, each under its
/// identity and version `1.0.0`.
#[verifier::rlimit(40)]
pub fn documentation_actor_registry<F>(
    prepare_evidence: F,
    review: F,
    evaluate_evidence_request: F,
    expand_evidence: F,
    record_unable_to_verify: F,
    record_failure: F,
    record_candidates: F,
    schedule_finding_work: F,
    record_outcome: F,
) -> (r: Result<ActorRegistry<F>, ActorRegistryError>)
    ensures
        r is Ok,
        r->Ok_0.factories@.len() == 9,
        forall|i: int|
            0 <= i < 9 ==> (#[trigger] r->Ok_0.factories@[i]).actor_id@ == documentation_actor_ids()[i]
                && r->Ok_0.factories@[i].actor_version@ == DOCUMENTATION_ACTOR_VERSION@,
        r->Ok_0.factories@[0].factory == prepare_evidence,
        r->Ok_0.factories@[1].factory == review,
        r->Ok_0.factories@[2].factory == evaluate_evidence_request,
        r->Ok_0.factories@[3].factory == expand_evidence,
        r->Ok_0.factories@[4].factory == record_unable_to_verify,
        r->Ok_0.factories@[5].factory == record_failure,
        r->Ok_0.factories@[6].factory == record_candidates,
        r->Ok_0.factories@[7].factory == schedule_finding_work,
        r->Ok_0.factories@[8].factory == record_outcome,
{
    proof {
        reveal_strlit("1.0.0");
        reveal_strlit("argus.prepare-evidence");
        reveal_strlit("argus.review");
        reveal_strlit("argus.evaluate-evidence-request");
        reveal_strlit("argus.expand-evidence");
        reveal_strlit("argus.record-unable-to-verify");
        reveal_strlit("argus.record-failure");
        reveal_strlit("argus.record-candidates");
        reveal_strlit("argus.schedule-finding-work");
        reveal_strlit("argus.record-outcome");
    }
    let mut registry: ActorRegistry<F> = ActorRegistry::new();
    registry.register("argus.prepare-evidence".to_owned(), DOCUMENTATION_ACTOR_VERSION.to_owned(), prepare_evidence)?;
    registry.register("argus.review".to_owned(), DOCUMENTATION_ACTOR_VERSION.to_owned(), review)?;
    registry.register(
        "argus.evaluate-evidence-request".to_owned(),
        DOCUMENTATION_ACTOR_VERSION.to_owned(),
        evaluate_evidence_request,
    )?;
    registry.register("argus.expand-evidence".to_owned(), DOCUMENTATION_ACTOR_VERSION.to_owned(), expand_evidence)?;
    registry.register(
        "argus.record-unable-to-verify".to_owned(),
        DOCUMENTATION_ACTOR_VERSION.to_owned(),
        record_unable_to_verify,
    )?;
    registry.register("argus.record-failure".to_owned(), DOCUMENTATION_ACTOR_VERSION.to_owned(), record_failure)?;
    registry.register(
        "argus.record-candidates".to_owned(),
        DOCUMENTATION_ACTOR_VERSION.to_owned(),
        record_candidates,
    )?;
    registry.register(
        "argus.schedule-finding-work".to_owned(),
        DOCUMENTATION_ACTOR_VERSION.to_owned(),
        schedule_finding_work,
    )?;
    proof {
        assert("argus.record-outcome"@[13] != "argus.record-failure"@[13]);
        assert("argus.record-outcome"@ != "argus.record-failure"@);
    }
    registry.register("argus.record-outcome".to_owned(), DOCUMENTATION_ACTOR_VERSION.to_owned(), record_outcome)?;
    Ok(registry)
}

/// What the evidence-request evaluator of a run may grant.
#[derive(Debug)]
pub struct EvidenceExpansionPolicy {
    pub max_requests: u32,
    pub cumulative_budget: EvidenceBudget,
    pub allowed_targets: Vec<String>,
    pub allowed_kinds: Vec<EvidenceKind>,
    pub maximum_classification: String,
}

/// The expansion policy of a documentation review: no request is granted
/// and the budget is zero; only the unit's own target, documentation and
/// source evidence, up to internal classification, could be asked for.
pub fn documentation_expansion_policy(unit: &DocumentationReviewUnit) -> (r: EvidenceExpansionPolicy)
    ensures
        r.max_requests == 0,
        r.cumulative_budget.max_bytes == 0,
        r.cumulative_budget.max_tokens == 0,
        r.cumulative_budget.max_items == 0,
        r.cumulative_budget.max_relation_depth == 0,
        r.allowed_targets@.len() == 1,
        r.allowed_targets@[0]@ == unit.target.target@,
        r.allowed_kinds@ == seq![EvidenceKind::Documentation, EvidenceKind::Source],
        r.maximum_classification@ == "internal"@,
{
    let mut allowed_kinds: Vec<EvidenceKind> = Vec::new();
    allowed_kinds.push(EvidenceKind::Documentation);
    allowed_kinds.push(EvidenceKind::Source);
    let mut allowed_targets: Vec<String> = Vec::new();
    allowed_targets.push(unit.target.target.clone());
    EvidenceExpansionPolicy {
        max_requests: 0,
        cumulative_budget: EvidenceBudget { max_bytes: 0, max_tokens: 0, max_items: 0, max_relation_depth: 0 },
        allowed_targets,
        allowed_kinds,
        maximum_classification: "internal".to_owned(),
    }
}

/// The workflow data belongs to the materialized unit: its work item and
/// policy, and the package and revision it reviews.
pub open spec fn prepared_for(
    d: ReviewWorkflowData,
    unit: DocumentationReviewUnit,
    package_hash: Seq<char>,
    package_revision: u32,
) -> bool {
    &&& d.work_id@ == unit.work_item@
    &&& d.policy_id@ == unit.policy@
    &&& d.evidence_package_ref@ == package_hash
    &&& d.evidence_revision == package_revision
}

/// The event of prepared evidence: `evidence.prepared` with the context and
/// package hashes, once the run's data is checked to belong to the
/// materialized unit.
pub fn prepared_evidence_event(
    d: &ReviewWorkflowData,
    unit: &DocumentationReviewUnit,
    package_hash: &str,
    package_revision: u32,
    context_hash: &str,
) -> (r: Result<OutputEvent, String>)
    ensures
        r is Ok <==> prepared_for(*d, *unit, package_hash@, package_revision),
        r is Ok ==> r->Ok_0.event_type@ == "evidence.prepared"@ && fits(
            r->Ok_0.payload,
            Shape::Object(
                seq![("context_hash"@, Shape::Str(context_hash@)), ("package_hash"@, Shape::Str(package_hash@))],
            ),
        ),
{
    if !text_eq(d.work_id.as_str(), unit.work_item.as_str()) || !text_eq(d.policy_id.as_str(), unit.policy.as_str())
        || !text_eq(d.evidence_package_ref.as_str(), package_hash) || d.evidence_revision != package_revision {
        return Err("prepared documentation evidence identity mismatch".to_owned());
    }
    let ghost s = seq![("context_hash"@, Shape::Str(context_hash@)), ("package_hash"@, Shape::Str(package_hash@))];
    let mut m: Vec<JsonMember> = Vec::new();
    m.push(member("context_hash", text(context_hash), Ghost(s[0].1)));
    m.push(member("package_hash", text(package_hash), Ghost(s[1].1)));
    Ok(OutputEvent { event_type: "evidence.prepared".to_owned(), payload: object_of(m, Ghost(s)) })
}

/// The reason a decision gives, or null.
pub open spec fn reason_or_null(payload: Json) -> Json {
    match field(payload, "reason"@) {
        Some(v) => v,
        None => Json::Null,
    }
}

/// The event a terminal actor relays for the current decision, which must be
/// the decision it expects: the event it emits, with the decision's reason.
pub fn relay_event(d: &ReviewWorkflowData, expected_decision: &str, emitted_event: &str) -> (r: Result<
    OutputEvent,
    String,
>)
    ensures
        r is Ok <==> (current_decision_pos(*d) >= 0 && d.primary_decisions@[current_decision_pos(
            *d,
        )].event_type@ == expected_decision@),
        r is Ok ==> r->Ok_0.event_type@ == emitted_event@ && fits(
            r->Ok_0.payload,
            Shape::Object(
                seq![
                    (
                        "reason"@,
                        Shape::Exactly(reason_or_null(d.primary_decisions@[current_decision_pos(*d)].payload)),
                    ),
                ],
            ),
        ),
{
    let i = match current_decision(d) {
        Some(i) => i,
        None => {
            return Err("current primary decision is missing".to_owned());
        },
    };
    let decision = &d.primary_decisions[i];
    if !text_eq(decision.event_type.as_str(), expected_decision) {
        return Err("review decision reached the wrong terminal actor".to_owned());
    }
    let reason = match get_field(&decision.payload, "reason") {
        Some(v) => v.deep_clone(),
        None => Json::Null,
    };
    proof {
        crate::json::lemma_same_sym(reason_or_null(decision.payload), reason);
    }
    let ghost s = seq![("reason"@, Shape::Exactly(reason_or_null(decision.payload)))];
    let mut m: Vec<JsonMember> = Vec::new();
    m.push(member("reason", reason, Ghost(s[0].1)));
    Ok(OutputEvent { event_type: emitted_event.to_owned(), payload: object_of(m, Ghost(s)) })
}

} // verus!
