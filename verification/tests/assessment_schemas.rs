use argus_workflow::architecture_schema::{ArchitectureReviewTransportValidator, architecture_assessment_draft_schema};
use argus_workflow::conformance_schema::{ConformanceReviewTransportValidator, conformance_assessment_draft_schema};
use argus_workflow::correctness_schema::{CorrectnessReviewTransportValidator, correctness_assessment_draft_schema};
use argus_workflow::decision_schema::review_decision_schema_for;
use argus_workflow::json::{Json, JsonMember};
use argus_workflow::maintainability_schema::{
    MaintainabilityReviewTransportValidator, maintainability_assessment_draft_schema,
};
use argus_workflow::optimization_schema::{OptimizationReviewTransportValidator, optimization_assessment_draft_schema};

fn s(text: &str) -> Json {
    Json::Str(text.to_owned())
}

fn obj(members: Vec<(&str, Json)>) -> Json {
    Json::Object(
        members
            .into_iter()
            .map(|(key, value)| JsonMember { key: key.to_owned(), value })
            .collect(),
    )
}

fn at<'a>(value: &'a Json, key: &str) -> &'a Json {
    match value {
        Json::Object(members) => &members.iter().find(|m| m.key == key).unwrap().value,
        _ => panic!("not an object"),
    }
}

fn render(value: &Json, out: &mut String) {
    match value {
        Json::Null => out.push_str("null"),
        Json::Bool(b) => out.push_str(if *b { "true" } else { "false" }),
        Json::UInt(n) => out.push_str(&n.to_string()),
        Json::NegInt(n) => out.push_str(&n.to_string()),
        Json::Float(text) => out.push_str(text),
        Json::Str(text) => {
            out.push('"');
            out.push_str(text);
            out.push('"');
        },
        Json::Array(items) => {
            out.push('[');
            for (i, item) in items.iter().enumerate() {
                if i > 0 {
                    out.push(',');
                }
                render(item, out);
            }
            out.push(']');
        },
        Json::Object(members) => {
            out.push('{');
            for (i, member) in members.iter().enumerate() {
                if i > 0 {
                    out.push(',');
                }
                out.push('"');
                out.push_str(&member.key);
                out.push_str("\":");
                render(&member.value, out);
            }
            out.push('}');
        },
    }
}

fn serialized(value: &Json) -> String {
    let mut out = String::new();
    render(value, &mut out);
    out
}

fn decision(event_type: &str, assessment: Json) -> Json {
    obj(vec![("event_type", s(event_type)), ("payload", obj(vec![("assessment", assessment)]))])
}

#[test]
fn architecture_review_transport_schema_excludes_trusted_assessment_identity() {
    let text = serialized(&architecture_assessment_draft_schema());
    for forbidden in [
        "\"work_item\"",
        "\"work_item_id\"",
        "\"policy_id\"",
        "\"policy_version\"",
        "\"evidence_revision\"",
        "\"applicability\"",
        "\"target\":",
    ] {
        assert!(!text.contains(forbidden), "schema contains forbidden key: {forbidden}");
    }
}

#[test]
fn correctness_review_transport_schema_excludes_trusted_assessment_identity() {
    let text = serialized(&correctness_assessment_draft_schema());
    for forbidden in ["work_item", "target", "policy_version", "evidence_revision", "applicability"] {
        assert!(!text.contains(forbidden));
    }
}

#[test]
fn draft_schemas_are_closed_objects_with_their_results() {
    let architecture = architecture_assessment_draft_schema();
    assert_eq!(at(&architecture, "additionalProperties"), &Json::Bool(false));
    assert_eq!(at(&architecture, "required"), &Json::Array(vec![s("result")]));
    let status = at(at(at(at(&architecture, "properties"), "result"), "properties"), "status");
    assert_eq!(at(status, "enum"), &Json::Array(vec![s("pass"), s("deficient"), s("unable_to_verify")]));
    let correctness = correctness_assessment_draft_schema();
    assert_eq!(at(&correctness, "required"), &Json::Array(vec![s("dimensions"), s("result")]));
    let conformance = conformance_assessment_draft_schema();
    assert!(matches!(conformance, Json::Object(ref m) if m.iter().all(|x| x.key != "additionalProperties")));
    let maintainability = maintainability_assessment_draft_schema();
    let dimensions = at(at(&maintainability, "properties"), "dimensions");
    assert_eq!(at(dimensions, "minItems"), &Json::UInt(8));
    assert_eq!(at(dimensions, "maxItems"), &Json::UInt(8));
    let optimization = optimization_assessment_draft_schema();
    let dimensions = at(at(&optimization, "properties"), "dimensions");
    assert_eq!(at(dimensions, "minItems"), &Json::UInt(7));
    assert_eq!(at(dimensions, "description"), &s("All 7 standard optimization dimensions must be evaluated."));
}

#[test]
fn each_policy_transport_checks_its_own_schema_and_outcome() {
    let result = |key: &str, value: &str| obj(vec![("result", obj(vec![(key, s(value))]))]);
    let architecture = review_decision_schema_for(&architecture_assessment_draft_schema());
    let v = ArchitectureReviewTransportValidator;
    assert!(v.validate(&architecture, &decision("review.pass", result("status", "pass")), &Ok(())).is_ok());
    assert!(v.validate(&architecture, &decision("review.candidate_found", result("status", "deficient")), &Ok(())).is_ok());
    assert_eq!(
        v.validate(&architecture, &decision("review.pass", result("status", "deficient")), &Ok(())),
        Err("architecture result does not match the review event".to_owned())
    );
    let correctness = review_decision_schema_for(&correctness_assessment_draft_schema());
    assert_eq!(
        v.validate(&correctness, &decision("review.pass", result("status", "pass")), &Ok(())),
        Err("architecture review schema identity mismatch".to_owned())
    );
    let c = CorrectnessReviewTransportValidator;
    assert!(c.validate(&correctness, &decision("review.pass", result("state", "passed")), &Ok(())).is_ok());
    assert!(c.validate(&correctness, &decision("review.pass", result("state", "candidate_findings")), &Ok(())).is_err());
    let conformance = review_decision_schema_for(&conformance_assessment_draft_schema());
    assert!(ConformanceReviewTransportValidator
        .validate(&conformance, &decision("review.candidate_found", result("state", "candidate_findings")), &Ok(()))
        .is_ok());
    let maintainability = review_decision_schema_for(&maintainability_assessment_draft_schema());
    assert_eq!(
        MaintainabilityReviewTransportValidator
            .validate(&maintainability, &decision("review.candidate_found", result("state", "passed")), &Ok(())),
        Err("maintainability result does not match the review event".to_owned())
    );
    let optimization = review_decision_schema_for(&optimization_assessment_draft_schema());
    assert!(OptimizationReviewTransportValidator
        .validate(&optimization, &decision("review.pass", result("state", "passed")), &Ok(()))
        .is_ok());
    assert!(OptimizationReviewTransportValidator
        .validate(&optimization, &decision("review.pass", result("state", "passed")), &Err("bad draft".to_owned()))
        .is_err());
}
