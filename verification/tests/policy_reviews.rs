use argus_workflow::decision_schema::review_decision_schema_for;
use argus_workflow::json::{Json, JsonMember};
use argus_workflow::primary_review::{
    PolicyAssessmentContract, PolicyReviewDecisionValidator, REVIEW_ENVELOPE_HEADER, ReviewStep,
    append_decision, committed_decision_event, estimated_input_tokens, frame_prompt, plain_payload,
    policy_assessment, policy_payload, precheck_policy_decision, response_decision, review_step, small_window_decision,
    validate_untrusted_policy_output,
};
use argus_workflow::workflow_data::{
    ProviderIdentity, ReviewWorkflowData, WORKFLOW_DATA_SCHEMA_VERSION, WorkflowDataRecord,
    WorkflowDataWrite,
};

fn s(text: &str) -> Json {
    Json::Str(text.to_owned())
}

fn obj(members: Vec<(&str, Json)>) -> Json {
    Json::Object(
        members
            .into_iter()
            .map(|(key, value)| JsonMember { key: key.to_owned(), value })
            .collect(),
    )
}

fn at<'a>(value: &'a Json, key: &str) -> Option<&'a Json> {
    match value {
        Json::Object(members) => members.iter().find(|m| m.key == key).map(|m| &m.value),
        _ => None,
    }
}

fn candidate() -> Json {
    obj(vec![
        ("title", s("Missing contract")),
        ("description", s("Public behavior is not documented.")),
        ("severity", s("medium")),
        ("confidence_basis_points", Json::UInt(8500)),
    ])
}

/// A policy whose assessments pass when they carry `"passed": true` and find
/// one candidate otherwise.
struct FixturePolicy;

impl PolicyAssessmentContract for FixturePolicy {
    fn schema(&self) -> Json {
        obj(vec![("type", s("object"))])
    }

    fn validate(&self, event_type: &str, assessment: &Json) -> Result<(), String> {
        let passed = at(assessment, "passed") == Some(&Json::Bool(true));
        if passed == (event_type != "review.candidate_found") {
            Ok(())
        } else {
            Err("assessment does not match the event".to_owned())
        }
    }

    fn candidates(&self, assessment: &Json) -> Result<Vec<Json>, String> {
        if at(assessment, "passed") == Some(&Json::Bool(true)) { Ok(Vec::new()) } else { Ok(vec![candidate()]) }
    }

    fn instructions(&self) -> String {
        "assess".to_owned()
    }
}

fn decision(event_type: &str, payload: Json) -> Json {
    obj(vec![("event_type", s(event_type)), ("payload", payload)])
}

fn provider() -> ProviderIdentity {
    ProviderIdentity {
        provider: "fixture-local".to_owned(),
        provider_version: "1".to_owned(),
        model: "fixture-model".to_owned(),
        model_version: "pinned".to_owned(),
    }
}

fn empty_data() -> ReviewWorkflowData {
    ReviewWorkflowData {
        work_id: "work:1".to_owned(),
        review_unit_id: "target".to_owned(),
        policy_id: "policy".to_owned(),
        evidence_package_ref: "evidence:1".to_owned(),
        evidence_revision: 1,
        primary_decisions: Vec::new(),
        candidate_findings: Vec::new(),
        scheduled_verification_work: Vec::new(),
        verification_results: Vec::new(),
        evidence_request_decisions: Vec::new(),
        evidence_expansions: Vec::new(),
        escalation_count: 0,
        evidence_expansion_count: 0,
        adjudication: None,
    }
}

#[test]
fn documentation_adapter_plugs_into_the_generic_review_envelope() {
    let validator = PolicyReviewDecisionValidator::new(FixturePolicy);
    let schema = review_decision_schema_for(&FixturePolicy.schema());
    let pass = decision("review.pass", obj(vec![("assessment", obj(vec![("passed", Json::Bool(true))]))]));
    assert!(validator.validate(&schema, &pass).is_ok());
    let found = decision("review.candidate_found", obj(vec![("assessment", obj(vec![("passed", Json::Bool(false))]))]));
    assert!(validator.validate(&schema, &found).is_ok());
    let forged = decision(
        "review.pass",
        obj(vec![("assessment", obj(vec![("passed", Json::Bool(true))])), ("result_ref", s("model-authored-reference"))]),
    );
    assert!(validator.validate(&schema, &forged).is_err());
    let mismatched = decision("review.pass", obj(vec![("assessment", obj(vec![("passed", Json::Bool(false))]))]));
    assert_eq!(validator.validate(&schema, &mismatched), Err("assessment does not match the event".to_owned()));
    let wrong_schema = review_decision_schema_for(&obj(vec![("type", s("array"))]));
    assert_eq!(
        validator.validate(&wrong_schema, &pass),
        Err("policy review decision schema identity mismatch".to_owned())
    );
}

#[test]
fn candidates_written_by_the_provider_are_refused() {
    let self_written = decision(
        "review.candidate_found",
        obj(vec![("assessment", obj(vec![])), ("candidates", Json::Array(vec![candidate()]))]),
    );
    assert!(policy_assessment(&self_written).is_err());
    assert!(validate_untrusted_policy_output(&FixturePolicy, &self_written).is_err());
    let failed = decision("review.failed", obj(vec![("reason", s("crashed"))]));
    assert!(matches!(policy_assessment(&failed), Ok(None)));
    assert!(validate_untrusted_policy_output(&FixturePolicy, &failed).is_ok());
}

#[test]
fn generic_candidates_are_derived_from_the_validated_assessment() {
    let payload = obj(vec![("assessment", obj(vec![("passed", Json::Bool(false))]))]);
    let completed = policy_payload("review.candidate_found", &payload, Ok(vec![candidate()])).unwrap();
    assert_eq!(at(&completed, "candidates"), Some(&Json::Array(vec![candidate()])));
    assert_eq!(at(&completed, "assessment"), at(&payload, "assessment"));
    assert!(policy_payload("review.candidate_found", &payload, Ok(Vec::new())).is_err());
    assert!(policy_payload("review.candidate_found", &payload, Err("bad".to_owned())).is_err());
    assert_eq!(policy_payload("review.pass", &payload, Err("ignored".to_owned())), Ok(obj(vec![("assessment", obj(vec![("passed", Json::Bool(false))]))])));
    assert!(plain_payload("review.candidate_found", &payload).is_err());
    assert!(plain_payload("review.pass", &payload).is_ok());
}

#[test]
fn recorded_decisions_carry_the_response_identity_and_are_emitted_once_durable() {
    let output = decision("review.pass", obj(vec![("assessment", obj(vec![("passed", Json::Bool(true))]))]));
    let recorded = response_decision(&Some(FixturePolicy), &output, &provider(), "run-1:review:evidence-1", 2, 1).unwrap();
    assert_eq!(recorded.event_type, "review.pass");
    assert_eq!(recorded.request_id, "run-1:review:evidence-1");
    assert_eq!(recorded.attempt, 2);
    assert_eq!(recorded.evidence_revision, 1);
    assert!(response_decision(&None::<FixturePolicy>, &s("not a decision"), &provider(), "r", 0, 1).is_err());

    let mut data = empty_data();
    append_decision(&mut data, recorded);
    let record = WorkflowDataRecord {
        schema_version: WORKFLOW_DATA_SCHEMA_VERSION,
        langchart_run_id: "run-1".to_owned(),
        revision: 1,
        content_hash: "hash".to_owned(),
        data,
    };
    let declared = vec!["review.pass".to_owned(), "review.failed".to_owned()];
    let event = committed_decision_event(&WorkflowDataWrite::Updated(record), &declared).unwrap();
    assert_eq!(event.event_type, "review.pass");
    let inserted = WorkflowDataRecord {
        schema_version: WORKFLOW_DATA_SCHEMA_VERSION,
        langchart_run_id: "run-1".to_owned(),
        revision: 0,
        content_hash: "hash".to_owned(),
        data: empty_data(),
    };
    assert!(committed_decision_event(&WorkflowDataWrite::Inserted(inserted), &declared).is_err());
}

#[test]
fn a_too_small_context_window_is_recorded_as_unable_to_verify() {
    let d = small_window_decision(4_096, 4_000, &provider(), "request-1".to_owned(), 3);
    assert_eq!(d.event_type, "review.unable_to_verify");
    assert_eq!(d.attempt, 0);
    assert_eq!(d.evidence_revision, 3);
    assert_eq!(
        at(&d.payload, "reason"),
        Some(&s("model context window (4096 tokens) is too small to accommodate the review framing and max output (4000 tokens)"))
    );
    assert_eq!(at(&d.payload, "requested_evidence"), Some(&Json::Array(Vec::new())));
}

#[test]
fn the_review_replays_asks_or_records_a_small_window() {
    let declared = vec!["review.pass".to_owned(), "review.unable_to_verify".to_owned()];
    match review_step(&empty_data(), &declared, "run-1", "review", 128_000, 4_000, 100_000, &provider()).unwrap() {
        ReviewStep::AskProvider { request_id, input_budget } => {
            assert_eq!(request_id, "run-1:review:evidence-1");
            assert_eq!(input_budget, 100_000);
        },
        other => panic!("expected a provider call, got {other:?}"),
    }
    match review_step(&empty_data(), &declared, "run-1", "review", 4_096, 2_000, 100_000, &provider()).unwrap() {
        ReviewStep::RecordSmallWindow(decision) => {
            assert_eq!(decision.event_type, "review.unable_to_verify");
            assert_eq!(decision.request_id, "run-1:review:evidence-1");
        },
        other => panic!("expected a small-window decision, got {other:?}"),
    }
    let mut reviewed = empty_data();
    let output = decision("review.pass", obj(vec![("assessment", obj(vec![("passed", Json::Bool(true))]))]));
    append_decision(&mut reviewed, response_decision(&None::<FixturePolicy>, &output, &provider(), "r", 0, 1).unwrap());
    assert!(matches!(
        review_step(&reviewed, &declared, "run-1", "review", 128_000, 4_000, 100_000, &provider()).unwrap(),
        ReviewStep::Replay(_)
    ));
    assert!(review_step(&reviewed, &vec!["review.failed".to_owned()], "run-1", "review", 128_000, 4_000, 100_000, &provider()).is_err());
}

#[test]
fn prompts_start_with_the_envelope_header_and_estimate_tokens() {
    let prompt = frame_prompt("{\"evidence\":[]}");
    assert!(prompt.starts_with("ARGUS_REVIEW_ENVELOPE_V1\n"));
    assert_eq!(prompt, format!("{REVIEW_ENVELOPE_HEADER}{{\"evidence\":[]}}"));
    assert_eq!(estimated_input_tokens(0), 1);
    assert_eq!(estimated_input_tokens(3), 1);
    assert_eq!(estimated_input_tokens(4), 2);
}

#[test]
fn decisions_are_prechecked_against_the_declared_schema() {
    let declared = FixturePolicy.schema();
    let schema = review_decision_schema_for(&declared);
    let assessment = obj(vec![("passed", Json::Bool(true))]);
    let pass = decision("review.pass", obj(vec![("assessment", assessment.deep_clone())]));
    let target = precheck_policy_decision(&declared, &schema, &pass).unwrap();
    assert_eq!(target, Some(("review.pass", &assessment)));
    let other = obj(vec![("type", s("array"))]);
    assert!(precheck_policy_decision(&other, &schema, &pass).is_err());
    let missing = decision("review.pass", obj(vec![]));
    assert!(precheck_policy_decision(&declared, &schema, &missing).is_err());
    let failed = decision("review.failed", obj(vec![("reason", s("provider timed out"))]));
    assert_eq!(precheck_policy_decision(&declared, &schema, &failed).unwrap(), None);
}
