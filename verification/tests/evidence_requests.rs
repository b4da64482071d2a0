use argus_workflow::evidence::{
    AuthorizedEvidenceExpansion, EvidenceBudget, EvidenceRequest, EvidenceRequestDecision,
    EvidenceRequestDisposition, ExpansionDenial, ExpansionDenialReason, ExpansionUsage,
    is_budget_exhaustion, parse_evidence_request_draft,
};
use argus_workflow::evidence_flow::{
    current_request_decision, current_usage, evidence_request_for, record_request_decision,
    request_decision_event,
};
use argus_workflow::json::{Json, JsonMember};
use argus_workflow::workflow_data::{PrimaryReviewDecision, ProviderIdentity, ReviewWorkflowData};

fn s(text: &str) -> Json {
    Json::Str(text.to_owned())
}

fn obj(members: Vec<(&str, Json)>) -> Json {
    Json::Object(
        members
            .into_iter()
            .map(|(key, value)| JsonMember { key: key.to_owned(), value })
            .collect(),
    )
}

fn draft(targets: Vec<&str>, max_bytes: u64) -> Json {
    obj(vec![
        ("requested_targets", Json::Array(targets.into_iter().map(s).collect())),
        ("requested_kinds", Json::Array(vec![s("test"), s("source"), s("test")])),
        (
            "additional_budget",
            obj(vec![
                ("max_bytes", Json::UInt(max_bytes)),
                ("max_tokens", Json::UInt(50)),
                ("max_items", Json::UInt(1)),
                ("max_relation_depth", Json::UInt(2)),
            ]),
        ),
        ("rationale", s("inspect tests")),
    ])
}

fn budget(max_bytes: usize) -> EvidenceBudget {
    EvidenceBudget { max_bytes, max_tokens: 50, max_items: 1, max_relation_depth: 2 }
}

fn request(sequence: u32) -> EvidenceRequest {
    EvidenceRequest {
        sequence,
        base_package: "package:1".to_owned(),
        requested_targets: vec!["t".to_owned()],
        requested_kinds: vec!["test".to_owned()],
        additional_budget: budget(100),
        rationale: "inspect tests".to_owned(),
    }
}

fn allowed(sequence: u32, hash: &str, usage: ExpansionUsage) -> EvidenceRequestDisposition {
    EvidenceRequestDisposition::Allowed {
        authorization: AuthorizedEvidenceExpansion {
            request: request(sequence),
            maximum_classification: "internal".to_owned(),
            next_usage: usage,
            authorization_hash: hash.to_owned(),
        },
    }
}

fn denied(reason: ExpansionDenialReason) -> EvidenceRequestDisposition {
    EvidenceRequestDisposition::Denied { denial: ExpansionDenial { reason, detail: "no".to_owned() } }
}

fn data(event_type: &str, payload: Json) -> ReviewWorkflowData {
    ReviewWorkflowData {
        work_id: "work:1".to_owned(),
        review_unit_id: "target".to_owned(),
        policy_id: "policy".to_owned(),
        evidence_package_ref: "package:1".to_owned(),
        evidence_revision: 1,
        primary_decisions: vec![PrimaryReviewDecision {
            evidence_revision: 1,
            event_type: event_type.to_owned(),
            payload,
            provider: ProviderIdentity {
                provider: "fixture".to_owned(),
                provider_version: "1".to_owned(),
                model: "m".to_owned(),
                model_version: "1".to_owned(),
            },
            request_id: "request-1".to_owned(),
            attempt: 0,
        }],
        candidate_findings: Vec::new(),
        scheduled_verification_work: Vec::new(),
        verification_results: Vec::new(),
        evidence_request_decisions: Vec::new(),
        evidence_expansions: Vec::new(),
        escalation_count: 0,
        evidence_expansion_count: 0,
        adjudication: None,
    }
}

fn declared(events: &[&str]) -> Vec<String> {
    events.iter().map(|e| (*e).to_owned()).collect()
}

#[test]
fn drafts_need_their_four_fields_and_positive_limits() {
    let parsed = parse_evidence_request_draft(&draft(vec!["b", "a"], 100)).unwrap();
    assert_eq!(parsed.requested_targets, vec!["b".to_owned(), "a".to_owned()]);
    assert_eq!(parsed.additional_budget.max_bytes, 100);
    assert_eq!(parsed.additional_budget.max_relation_depth, 2);
    assert_eq!(parsed.rationale, "inspect tests");
    assert!(parse_evidence_request_draft(&draft(vec!["a"], 0)).is_err());
    assert!(parse_evidence_request_draft(&draft(vec![], 100)).is_err());
    let mut extra = draft(vec!["a"], 100);
    if let Json::Object(members) = &mut extra {
        members.push(JsonMember { key: "authorize_online_transmission".to_owned(), value: Json::Bool(true) });
    }
    assert!(parse_evidence_request_draft(&extra).is_err());
}

#[test]
fn usage_accumulates_and_saturates() {
    let usage = ExpansionUsage::none().after_request(&budget(100));
    assert_eq!(usage.approved_requests, 1);
    assert_eq!(usage.used_bytes, 100);
    assert_eq!(usage.maximum_relation_depth, 2);
    let full = ExpansionUsage { approved_requests: u32::MAX, used_bytes: usize::MAX, used_tokens: 0, used_items: 0, maximum_relation_depth: 5 };
    let next = full.after_request(&budget(100));
    assert_eq!(next.approved_requests, u32::MAX);
    assert_eq!(next.used_bytes, usize::MAX);
    assert_eq!(next.maximum_relation_depth, 5);
}

#[test]
fn scope_and_budget_denials_map_to_distinct_workflow_events() {
    assert!(is_budget_exhaustion(ExpansionDenialReason::ByteBudgetExhausted));
    assert!(!is_budget_exhaustion(ExpansionDenialReason::TargetOutOfScope));
    let events = declared(&["request.allowed", "request.denied", "budget.exhausted"]);
    let budget_event = request_decision_event(
        &EvidenceRequestDecision { evidence_revision: 1, request: request(1), disposition: denied(ExpansionDenialReason::TokenBudgetExhausted) },
        &events,
    )
    .unwrap();
    assert_eq!(budget_event.event_type, "budget.exhausted");
    assert_eq!(budget_event.payload, obj(vec![("detail", s("no")), ("reason", s("token_budget_exhausted"))]));
    let scope_event = request_decision_event(
        &EvidenceRequestDecision { evidence_revision: 1, request: request(1), disposition: denied(ExpansionDenialReason::TargetOutOfScope) },
        &events,
    )
    .unwrap();
    assert_eq!(scope_event.event_type, "request.denied");
    let allowed_event = request_decision_event(
        &EvidenceRequestDecision { evidence_revision: 1, request: request(1), disposition: allowed(1, "hash:1", ExpansionUsage::none()) },
        &events,
    )
    .unwrap();
    assert_eq!(allowed_event.payload, obj(vec![("authorization_hash", s("hash:1"))]));
    assert!(request_decision_event(
        &EvidenceRequestDecision { evidence_revision: 1, request: request(1), disposition: allowed(1, "hash:1", ExpansionUsage::none()) },
        &declared(&["request.denied"]),
    )
    .is_err());
}

#[test]
fn requests_are_numbered_after_the_approved_ones_and_deduplicated() {
    let payload = obj(vec![("reason", s("need tests")), ("requested_evidence", draft(vec!["b", "a", "b"], 100))]);
    let mut d = data("review.unable_to_verify", payload);
    let first = evidence_request_for(&d, "package:1").unwrap();
    assert_eq!(first.sequence, 1);
    assert_eq!(first.requested_targets, vec!["a".to_owned(), "b".to_owned()]);
    assert_eq!(first.requested_kinds, vec!["source".to_owned(), "test".to_owned()]);
    assert_eq!(first.base_package, "package:1");

    let used = ExpansionUsage::none().after_request(&budget(100));
    record_request_decision(&mut d, first, allowed(1, "hash:1", used));
    assert_eq!(current_request_decision(&d), Some(0));
    assert_eq!(current_usage(&d), used);
    let second = evidence_request_for(&d, "package:2").unwrap();
    assert_eq!(second.sequence, 2);

    let pass = data("review.pass", obj(vec![("assessment", obj(vec![]))]));
    assert!(evidence_request_for(&pass, "package:1").is_err());
    assert_eq!(current_usage(&pass), ExpansionUsage::none());
}
