use argus_workflow::decision_schema::{
    ReviewDecisionValidator, any_object_json, review_decision_schema, review_decision_schema_for,
};
use argus_workflow::json::{Json, JsonMember};
use argus_workflow::review::{
    validate_candidate_draft, validate_exact_keys, validate_review_output, validate_review_payload,
};

fn s(text: &str) -> Json {
    Json::Str(text.to_owned())
}

fn obj(members: Vec<(&str, Json)>) -> Json {
    Json::Object(
        members
            .into_iter()
            .map(|(key, value)| JsonMember { key: key.to_owned(), value })
            .collect(),
    )
}

fn at<'a>(value: &'a Json, key: &str) -> &'a Json {
    match value {
        Json::Object(members) => &members.iter().find(|m| m.key == key).unwrap().value,
        _ => panic!("not an object"),
    }
}

fn items(value: &Json) -> &Vec<Json> {
    match value {
        Json::Array(items) => items,
        _ => panic!("not an array"),
    }
}

fn text_of(value: &Json) -> &str {
    match value {
        Json::Str(text) => text.as_str(),
        _ => panic!("not a string"),
    }
}

fn decision(event_type: &str, payload: Json) -> Json {
    obj(vec![("event_type", s(event_type)), ("payload", payload)])
}

fn request(extra: Option<(&str, Json)>) -> Json {
    let mut requested = vec![
        ("requested_targets", Json::Array(vec![s("target:requested")])),
        ("requested_kinds", Json::Array(vec![s("test")])),
        (
            "additional_budget",
            obj(vec![
                ("max_bytes", Json::UInt(100)),
                ("max_tokens", Json::UInt(50)),
                ("max_items", Json::UInt(1)),
                ("max_relation_depth", Json::UInt(1)),
            ]),
        ),
        ("rationale", s("inspect tests")),
    ];
    if let Some(member) = extra {
        requested.push(member);
    }
    decision(
        "review.unable_to_verify",
        obj(vec![("reason", s("tests are required")), ("requested_evidence", obj(requested))]),
    )
}

#[test]
fn validator_accepts_declared_shapes_and_rejects_capability_fields() {
    let validator = ReviewDecisionValidator;
    let schema = review_decision_schema();
    let variants = items(at(&schema, "oneOf"));
    assert_eq!(variants.len(), 5);
    let failed = variants
        .iter()
        .find(|variant| {
            text_of(&items(at(at(at(variant, "properties"), "event_type"), "enum"))[0]) == "review.failed"
        })
        .unwrap();
    assert_eq!(
        at(at(at(failed, "properties"), "payload"), "required"),
        &Json::Array(vec![s("reason")])
    );
    assert!(
        validator
            .validate(&schema, &decision("review.pass", obj(vec![("assessment", obj(vec![]))])))
            .is_ok()
    );
    assert!(
        validator
            .validate(
                &review_decision_schema(),
                &decision(
                    "review.pass",
                    obj(vec![
                        ("assessment", obj(vec![])),
                        ("authorize_online_transmission", Json::Bool(true)),
                    ]),
                ),
            )
            .is_err()
    );
    let error = validator
        .validate(
            &review_decision_schema(),
            &decision(
                "review.pass",
                obj(vec![("assessment", obj(vec![])), ("publish", Json::Bool(true))]),
            ),
        )
        .unwrap_err();
    assert!(error.contains("exactly [\"assessment\"]"));
    assert!(error.contains("received [\"assessment\", \"publish\"]"));
    assert!(validator.validate(&review_decision_schema(), &request(None)).is_ok());
    let malicious = request(Some(("authorize_online_transmission", Json::Bool(true))));
    assert!(validator.validate(&review_decision_schema(), &malicious).is_err());
}

#[test]
fn validator_refuses_a_substituted_schema() {
    let validator = ReviewDecisionValidator;
    let other = review_decision_schema_for(&obj(vec![("type", s("array"))]));
    let error = validator
        .validate(&other, &decision("review.pass", obj(vec![("assessment", obj(vec![]))])))
        .unwrap_err();
    assert_eq!(error, "review decision schema identity mismatch");
}

#[test]
fn decision_schema_for_any_object_wraps_the_object_schema() {
    let any = any_object_json();
    assert_eq!(review_decision_schema_for(&any), review_decision_schema());
    assert_eq!(text_of(at(&review_decision_schema(), "type")), "object");
}

#[test]
fn envelope_must_hold_exactly_event_type_and_payload() {
    assert!(validate_review_output(&s("review.pass")).is_err());
    let extra = obj(vec![
        ("event_type", s("review.pass")),
        ("payload", obj(vec![("assessment", obj(vec![]))])),
        ("note", s("x")),
    ]);
    assert_eq!(
        validate_review_output(&extra).unwrap_err(),
        "review output must contain only `event_type` and `payload`"
    );
    assert!(validate_review_output(&decision("review.pass", s("x"))).is_err());
}

#[test]
fn each_event_type_has_its_own_payload_keys() {
    let assessment = || ("assessment", obj(vec![]));
    assert!(validate_review_payload("review.pass", &obj(vec![assessment()])).is_ok());
    assert!(
        validate_review_payload(
            "review.suggestion",
            &obj(vec![assessment(), ("suggestions", Json::Array(vec![s("tighten wording")]))]),
        )
        .is_ok()
    );
    assert!(
        validate_review_payload(
            "review.suggestion",
            &obj(vec![assessment(), ("suggestions", Json::Array(vec![]))]),
        )
        .is_err()
    );
    assert!(validate_review_payload("review.failed", &obj(vec![("reason", s("provider crashed"))])).is_ok());
    assert!(validate_review_payload("review.failed", &obj(vec![("reason", s(" padded"))])).is_err());
    assert!(validate_review_payload("review.candidate_found", &obj(vec![assessment()])).is_ok());
    assert!(validate_review_payload("review.unknown", &obj(vec![assessment()])).is_err());
}

#[test]
fn exact_keys_reports_expected_and_received_names() {
    let allowed = vec!["reason"];
    assert!(validate_exact_keys(&obj(vec![("reason", s("x"))]), &allowed).is_ok());
    let error = validate_exact_keys(&obj(vec![("cause", s("x"))]), &allowed).unwrap_err();
    assert_eq!(error, "review payload must contain exactly [\"reason\"]; received [\"cause\"]");
    assert_eq!(
        validate_exact_keys(&s("x"), &allowed).unwrap_err(),
        "review payload must be an object"
    );
}

#[test]
fn candidate_confidence_is_bounded_by_ten_thousand_basis_points() {
    let candidate = |confidence: u64| {
        obj(vec![
            ("title", s("Finding")),
            ("description", s("Description")),
            ("severity", s("medium")),
            ("confidence_basis_points", Json::UInt(confidence)),
        ])
    };
    assert!(validate_candidate_draft(&candidate(8000)).is_ok());
    assert!(validate_candidate_draft(&candidate(10_000)).is_ok());
    assert_eq!(
        validate_candidate_draft(&candidate(10_001)).unwrap_err(),
        "candidate confidence exceeds 10,000 basis points"
    );
}
