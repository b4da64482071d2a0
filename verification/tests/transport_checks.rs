use argus_workflow::decision_schema::{review_decision_schema, review_decision_schema_for};
use argus_workflow::documentation_schema::documentation_assessment_draft_schema;
use argus_workflow::json::{Json, JsonMember};
use argus_workflow::transport::{DocumentationReviewTransportValidator, state_outcome_field};

fn s(text: &str) -> Json {
    Json::Str(text.to_owned())
}

fn obj(members: Vec<(&str, Json)>) -> Json {
    Json::Object(
        members
            .into_iter()
            .map(|(key, value)| JsonMember { key: key.to_owned(), value })
            .collect(),
    )
}

fn draft(state: &str) -> Json {
    obj(vec![("claims", Json::Array(Vec::new())), ("dimensions", Json::Array(Vec::new())), ("result", obj(vec![("state", s(state))]))])
}

fn decision(event_type: &str, payload: Json) -> Json {
    obj(vec![("event_type", s(event_type)), ("payload", payload)])
}

#[test]
fn transport_validation_is_reusable_while_actor_validation_remains_evidence_bound() {
    let schema = review_decision_schema_for(&documentation_assessment_draft_schema());
    let output = decision("review.pass", obj(vec![("assessment", draft("passed"))]));
    let validator = DocumentationReviewTransportValidator;
    validator.validate(&schema, &output, &Ok(())).unwrap();
    let misrouted = decision("review.candidate_found", obj(vec![("assessment", draft("passed"))]));
    assert_eq!(
        validator.validate(&schema, &misrouted, &Ok(())),
        Err("documentation result does not match the review event".to_owned())
    );
    let found = decision("review.candidate_found", obj(vec![("assessment", draft("candidate_findings"))]));
    assert!(validator.validate(&schema, &found, &Ok(())).is_ok());
}

#[test]
fn transport_refuses_other_schemas_unparsed_drafts_and_provider_candidates() {
    let validator = DocumentationReviewTransportValidator;
    let schema = review_decision_schema_for(&documentation_assessment_draft_schema());
    let output = decision("review.pass", obj(vec![("assessment", draft("passed"))]));
    assert_eq!(
        validator.validate(&review_decision_schema(), &output, &Ok(())),
        Err("documentation review schema identity mismatch".to_owned())
    );
    assert_eq!(
        validator.validate(&schema, &output, &Err("missing field `claims`".to_owned())),
        Err("missing field `claims`".to_owned())
    );
    let with_candidates = decision(
        "review.candidate_found",
        obj(vec![("assessment", draft("candidate_findings")), ("candidates", Json::Array(vec![obj(vec![
            ("title", s("Finding")),
            ("description", s("Description")),
            ("severity", s("medium")),
            ("confidence_basis_points", Json::UInt(8000)),
        ])]))]),
    );
    assert_eq!(
        validator.validate(&schema, &with_candidates, &Ok(())),
        Err("documentation candidates must be derived from the assessment".to_owned())
    );
    let failed = decision("review.failed", obj(vec![("reason", s("crashed"))]));
    assert!(validator.validate(&schema, &failed, &Err("not consulted".to_owned())).is_ok());
    let field = state_outcome_field();
    assert_eq!((field.key, field.passed, field.found), ("state", "passed", "candidate_findings"));
}
