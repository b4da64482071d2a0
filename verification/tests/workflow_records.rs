use argus_workflow::json::{Json, JsonMember};
use argus_workflow::workflow_data::{
    CandidateFindingRecord, DerivedIdentities, PrimaryReviewDecision, ProviderIdentity,
    ReviewWorkflowData, StoredRecord, WORKFLOW_DATA_SCHEMA_VERSION, WorkflowDataError,
    WorkflowDataRecord, WorkflowDataWrite, compare_and_swap, create, hash_data, validate_record,
    validate_text, validate_transition,
};

fn s(text: &str) -> Json {
    Json::Str(text.to_owned())
}

fn obj(members: Vec<(&str, Json)>) -> Json {
    Json::Object(
        members
            .into_iter()
            .map(|(key, value)| JsonMember { key: key.to_owned(), value })
            .collect(),
    )
}

fn initial() -> ReviewWorkflowData {
    ReviewWorkflowData {
        work_id: "work:workflow-data".to_owned(),
        review_unit_id: "crate:argus-workflow".to_owned(),
        policy_id: "policy:documentation".to_owned(),
        evidence_package_ref: "evidence:1".to_owned(),
        evidence_revision: 1,
        primary_decisions: Vec::new(),
        candidate_findings: Vec::new(),
        scheduled_verification_work: Vec::new(),
        verification_results: Vec::new(),
        evidence_request_decisions: Vec::new(),
        evidence_expansions: Vec::new(),
        escalation_count: 0,
        evidence_expansion_count: 0,
        adjudication: None,
    }
}

fn decision(evidence_revision: u32, request_id: &str) -> PrimaryReviewDecision {
    PrimaryReviewDecision {
        evidence_revision,
        event_type: "review.pass".to_owned(),
        payload: obj(vec![("assessment", obj(vec![]))]),
        provider: ProviderIdentity {
            provider: "fixture-local".to_owned(),
            provider_version: "1".to_owned(),
            model: "fixture-model".to_owned(),
            model_version: "pinned".to_owned(),
        },
        request_id: request_id.to_owned(),
        attempt: 0,
    }
}

fn no_identities() -> DerivedIdentities {
    DerivedIdentities { candidate_ids: Vec::new(), verification_ids: Vec::new(), authorization_hashes: Vec::new() }
}

fn hash_of(label: &str) -> String {
    hash_data(label.as_bytes())
}

fn stored(record: WorkflowDataRecord, derived: DerivedIdentities, computed_hash: String) -> StoredRecord {
    StoredRecord { record, derived, computed_hash }
}

fn inserted(data: ReviewWorkflowData, hash: &str) -> WorkflowDataRecord {
    match create("run-1", data, &no_identities(), hash.to_owned(), None).unwrap() {
        WorkflowDataWrite::Inserted(record) => record,
        _ => panic!("a new run must be inserted"),
    }
}

#[test]
fn compare_and_swap_survives_reopen_and_recognizes_commit_replay() {
    let first_hash = hash_of("initial");
    let record = inserted(initial(), &first_hash);
    assert_eq!(record.revision, 0);
    assert_eq!(record.schema_version, WORKFLOW_DATA_SCHEMA_VERSION);
    let mut reviewed = initial();
    reviewed.primary_decisions.push(decision(1, "request-1"));
    let reviewed_hash = hash_of("reviewed");
    let updated = match compare_and_swap(
        "run-1",
        0,
        reviewed,
        &no_identities(),
        reviewed_hash.clone(),
        Some(stored(record, no_identities(), first_hash)),
    )
    .unwrap()
    {
        WorkflowDataWrite::Updated(record) => record,
        _ => panic!("the transition must be applied"),
    };
    assert_eq!(updated.revision, 1);

    let mut replayed = initial();
    replayed.primary_decisions.push(decision(1, "request-1"));
    match compare_and_swap(
        "run-1",
        0,
        replayed,
        &no_identities(),
        reviewed_hash.clone(),
        Some(stored(updated, no_identities(), reviewed_hash)),
    )
    .unwrap()
    {
        WorkflowDataWrite::Existing(WorkflowDataRecord { revision: 1, .. }) => {},
        _ => panic!("the committed transition must be recognized"),
    }
}

#[test]
fn stale_or_regressive_updates_fail_closed() {
    let first_hash = hash_of("initial");
    let record = inserted(initial(), &first_hash);
    let mut reviewed = initial();
    reviewed.candidate_findings.push(CandidateFindingRecord {
        id: "finding:1".to_owned(),
        evidence_revision: 1,
        draft: obj(vec![
            ("title", s("Finding")),
            ("description", s("Description")),
            ("severity", s("medium")),
            ("confidence_basis_points", Json::UInt(8000)),
        ]),
    });
    let reviewed_identities = DerivedIdentities {
        candidate_ids: vec!["finding:1".to_owned()],
        verification_ids: vec!["work:verify-1".to_owned()],
        authorization_hashes: Vec::new(),
    };
    let reviewed_hash = hash_of("reviewed");
    let updated = match compare_and_swap(
        "run-1",
        0,
        reviewed,
        &reviewed_identities,
        reviewed_hash.clone(),
        Some(stored(record, no_identities(), first_hash)),
    )
    .unwrap()
    {
        WorkflowDataWrite::Updated(record) => record,
        _ => panic!("the transition must be applied"),
    };

    let mut stale = initial();
    stale.primary_decisions.push(decision(1, "different"));
    let current = || {
        Some(stored(
            WorkflowDataRecord {
                schema_version: updated.schema_version,
                langchart_run_id: updated.langchart_run_id.clone(),
                revision: updated.revision,
                content_hash: updated.content_hash.clone(),
                data: {
                    let mut data = initial();
                    data.candidate_findings.push(CandidateFindingRecord {
                        id: "finding:1".to_owned(),
                        evidence_revision: 1,
                        draft: obj(vec![
                            ("title", s("Finding")),
                            ("description", s("Description")),
                            ("severity", s("medium")),
                            ("confidence_basis_points", Json::UInt(8000)),
                        ]),
                    });
                    data
                },
            },
            DerivedIdentities {
                candidate_ids: vec!["finding:1".to_owned()],
                verification_ids: vec!["work:verify-1".to_owned()],
                authorization_hashes: Vec::new(),
            },
            reviewed_hash.clone(),
        ))
    };
    assert!(matches!(
        compare_and_swap("run-1", 0, stale, &no_identities(), hash_of("stale"), current()),
        Err(WorkflowDataError::Conflict { expected_revision: Some(0), actual_revision: 1 })
    ));

    let mut regressive = initial();
    regressive.primary_decisions.push(decision(1, "later"));
    assert!(matches!(
        compare_and_swap("run-1", 1, regressive, &no_identities(), hash_of("regressive"), current()),
        Err(WorkflowDataError::Invalid(_))
    ));
}

#[test]
fn altered_record_is_rejected_by_content_hash() {
    let first_hash = hash_of("initial");
    let mut record = inserted(initial(), &first_hash);
    record.data.primary_decisions.push(decision(1, "altered"));
    let recomputed = hash_of("altered");
    match validate_record(&stored(record, no_identities(), recomputed), "run-1") {
        Err(WorkflowDataError::Invalid(message)) => assert!(message.contains("hash mismatch")),
        _ => panic!("an altered record must be rejected"),
    }
}

#[test]
fn creating_twice_finds_the_first_record() {
    let hash = hash_of("initial");
    let record = inserted(initial(), &hash);
    match create("run-1", initial(), &no_identities(), hash.clone(), Some(stored(record, no_identities(), hash.clone())))
        .unwrap()
    {
        WorkflowDataWrite::Existing(existing) => assert_eq!(existing.revision, 0),
        _ => panic!("the existing record must be returned"),
    }
    let other = inserted(initial(), &hash);
    let mut different = initial();
    different.review_unit_id = "crate:other".to_owned();
    assert!(matches!(
        create("run-1", different, &no_identities(), hash.clone(), Some(stored(other, no_identities(), hash))),
        Err(WorkflowDataError::Conflict { expected_revision: None, actual_revision: 0 })
    ));
}

#[test]
fn updates_of_a_missing_run_and_of_unnormalized_runs_are_refused() {
    assert!(matches!(
        compare_and_swap("run-1", 0, initial(), &no_identities(), hash_of("x"), None),
        Err(WorkflowDataError::Missing)
    ));
    assert!(matches!(
        create(" run-1", initial(), &no_identities(), hash_of("x"), None),
        Err(WorkflowDataError::Invalid(_))
    ));
    assert!(validate_text("name", "value").is_ok());
    assert!(validate_text("name", "").is_err());
    assert_eq!(
        validate_text("Langchart run ID", "run ").unwrap_err().message(),
        "invalid workflow data: Langchart run ID must be non-empty and normalized"
    );
}

#[test]
fn transitions_keep_identity_and_history() {
    let mut reviewed = initial();
    reviewed.primary_decisions.push(decision(1, "request-1"));
    assert!(validate_transition(&initial(), &reviewed).is_ok());
    assert!(validate_transition(&reviewed, &initial()).is_err());
    let mut moved = initial();
    moved.work_id = "work:other".to_owned();
    assert!(validate_transition(&initial(), &moved).is_err());
}

#[test]
fn content_hashes_are_domain_separated_hex_digests() {
    let hash = hash_data(b"{}");
    assert_eq!(hash.len(), 64);
    assert!(hash.chars().all(|c| c.is_ascii_hexdigit() && !c.is_ascii_uppercase()));
    assert_ne!(hash, hash_data(b"{ }"));
}
