use argus_workflow::actor_registry::{ActorRegistry, ActorRegistryError, validate_identity};
use argus_workflow::admission::{AdmissionMode, TargetAdmissionDecision, WorkAdmissionPlanner};
use argus_workflow::diagnostics::WorkflowFailureDiagnostics;
use argus_workflow::documentation_runtime::{
    DOCUMENTATION_ACTOR_VERSION, documentation_actor_registry, documentation_expansion_policy, prepared_evidence_event, relay_event,
};
use argus_workflow::architecture::{ApplicabilityState, InventoryState, TargetVisibility};
use argus_workflow::documentation_plan::{
    DocumentationApplicabilityDecision, DocumentationReviewUnit, DocumentationTargetProfile,
};
use argus_workflow::json::{Json, JsonMember};
use argus_workflow::outcome::{
    AssessmentResult, EffectiveOutcome, LogicalOutcomeKey, OutcomeDisposition, OutcomeError,
    OutcomeKind, OutcomeProvenance, accept_recorded, check_assessment_identity, outcome_kind,
    outcome_recorded_event, prepare_record,
};
use argus_workflow::recovery::{
    ActorIdentity, AgentReference, ImmutableWrite, RecoveryError, RecoveryStore,
    WorkflowDocument, WorkflowRegion, WorkflowState, immutable_write, manifest_file_name,
    sorted_actor_identities, validate_digest, workflow_file_name,
};
use argus_workflow::worker::{
    CheckpointStatus, DocumentationWorkerResult, QueueState, RunAction, checkpoint_action,
    failed_attempt_result, heartbeat_interval_millis, require_durable_outcome,
    require_terminal_decision,
};
use argus_workflow::workflow_data::{PrimaryReviewDecision, ProviderIdentity, ReviewWorkflowData};

const HASH: &str = "0123456789abcdef0123456789abcdef0123456789abcdef0123456789abcdef";

fn provider() -> ProviderIdentity {
    ProviderIdentity {
        provider: "fixture-local".to_owned(),
        provider_version: "1".to_owned(),
        model: "fixture-model".to_owned(),
        model_version: "pinned".to_owned(),
    }
}

fn key(work_id: &str, workflow_hash: &str) -> LogicalOutcomeKey {
    LogicalOutcomeKey {
        audit_snapshot: "snapshot:1".to_owned(),
        audit_run: "run:1".to_owned(),
        work_id: work_id.to_owned(),
        policy_version: "documentation@1".to_owned(),
        evidence_revision: 1,
        workflow_hash: workflow_hash.to_owned(),
    }
}

fn outcome(work_id: &str, workflow_hash: &str, result_ref: &str) -> EffectiveOutcome {
    EffectiveOutcome {
        logical_key: key(work_id, workflow_hash),
        result_ref: result_ref.to_owned(),
        kind: OutcomeKind::Passed,
        provenance: OutcomeProvenance {
            prompt_version: "prompt@1".to_owned(),
            actor_id: "argus.record-outcome".to_owned(),
            actor_version: "1.0.0".to_owned(),
            workflow_id: "target-review".to_owned(),
            workflow_version: "1".to_owned(),
            provider: provider(),
        },
    }
}

fn agentic(id: &str, actor: &str) -> WorkflowState {
    WorkflowState {
        id: id.to_owned(),
        agentic: true,
        agent: Some(AgentReference { id: actor.to_owned(), version: "1.0.0".to_owned() }),
        states: Vec::new(),
        regions: Vec::new(),
    }
}

fn plain(id: &str, states: Vec<WorkflowState>, regions: Vec<WorkflowRegion>) -> WorkflowState {
    WorkflowState { id: id.to_owned(), agentic: false, agent: None, states, regions }
}

fn data_with(event_type: &str, payload: Json) -> ReviewWorkflowData {
    ReviewWorkflowData {
        work_id: "work:1".to_owned(),
        review_unit_id: "target".to_owned(),
        policy_id: "policy".to_owned(),
        evidence_package_ref: "evidence:1".to_owned(),
        evidence_revision: 1,
        primary_decisions: vec![PrimaryReviewDecision {
            evidence_revision: 1,
            event_type: event_type.to_owned(),
            payload,
            provider: provider(),
            request_id: "request-1".to_owned(),
            attempt: 0,
        }],
        candidate_findings: Vec::new(),
        scheduled_verification_work: Vec::new(),
        verification_results: Vec::new(),
        evidence_request_decisions: Vec::new(),
        evidence_expansions: Vec::new(),
        escalation_count: 0,
        evidence_expansion_count: 0,
        adjudication: None,
    }
}

#[test]
fn ci_lite_admits_only_affected_targets_and_counts_them() {
    let planner = WorkAdmissionPlanner::ci_lite(vec!["a".to_owned()], vec!["b".to_owned()]);
    assert!(planner.is_ci_lite());
    assert_eq!(planner.evaluate_target("a"), TargetAdmissionDecision::AdmittedDirectlyChanged);
    assert_eq!(planner.evaluate_target("b"), TargetAdmissionDecision::AdmittedTransitivelyImpacted);
    assert_eq!(planner.evaluate_target("c"), TargetAdmissionDecision::FilteredUnaffectedCiLite);
    let (admitted, stats) =
        planner.filter_target_ids(&vec!["c".to_owned(), "b".to_owned(), "a".to_owned(), "a".to_owned()]);
    assert_eq!(admitted, vec!["b".to_owned(), "a".to_owned(), "a".to_owned()]);
    assert_eq!(stats.total_evaluated, 4);
    assert_eq!(stats.admitted, 3);
    assert_eq!(stats.filtered_out, 1);
    assert_eq!(stats.directly_changed, 2);
    assert_eq!(stats.transitively_impacted, 1);
}

#[test]
fn full_and_targeted_modes_admit_as_documented() {
    let full = WorkAdmissionPlanner::full();
    assert_eq!(full.evaluate_target("x"), TargetAdmissionDecision::AdmittedFull);
    assert!(full.should_admit_target("anything"));
    let targeted = WorkAdmissionPlanner::targeted(vec!["x".to_owned()]);
    assert_eq!(targeted.evaluate_target("x"), TargetAdmissionDecision::AdmittedTargeted);
    assert_eq!(targeted.evaluate_target("y"), TargetAdmissionDecision::FilteredNotInTargetedSet);
    assert!(!TargetAdmissionDecision::FilteredNotInTargetedSet.is_admitted());
    let affected = WorkAdmissionPlanner::from_affected(AdmissionMode::Full, vec!["d".to_owned()], Vec::new());
    assert_eq!(affected.evaluate_target("d"), TargetAdmissionDecision::AdmittedDirectlyChanged);
    assert_eq!(affected.evaluate_target("e"), TargetAdmissionDecision::AdmittedFull);
}

#[test]
fn outcome_storage_keys_ignore_hash_case_and_refuse_bad_identities() {
    let lower = key("work:1", HASH).storage_key().unwrap();
    let upper = key("work:1", &HASH.to_uppercase()).storage_key().unwrap();
    assert_eq!(lower, upper);
    assert_eq!(lower.len(), 64);
    assert_ne!(lower, key("work:2", HASH).storage_key().unwrap());
    assert!(matches!(key("work:1", "short").storage_key(), Err(OutcomeError::InvalidIdentity(_))));
    let mut zero = key("work:1", HASH);
    zero.evidence_revision = 0;
    assert!(zero.validate().is_err());
}

#[test]
fn recording_an_outcome_names_its_artifacts_and_checks_what_is_stored() {
    let proposed = outcome("work:1", HASH, "artifact:assessment-1");
    let (storage_key, artifacts) = prepare_record(&proposed).unwrap();
    assert_eq!(artifacts, vec!["artifact:assessment-1".to_owned()]);
    let (_, inline) = prepare_record(&outcome("work:1", HASH, "inline-result")).unwrap();
    assert!(inline.is_empty());
    assert!(prepare_record(&outcome("work:1", HASH, "   ")).is_err());

    let receipt = accept_recorded(
        &proposed,
        storage_key.clone(),
        OutcomeDisposition::Existing,
        outcome("work:1", HASH, "artifact:assessment-1"),
    )
    .unwrap();
    assert_eq!(receipt.disposition, OutcomeDisposition::Existing);
    assert_eq!(receipt.storage_key, storage_key);
    assert!(accept_recorded(&proposed, storage_key, OutcomeDisposition::Inserted, outcome("work:2", HASH, "r")).is_err());
}

#[test]
fn recovery_lists_actors_by_state_and_refuses_incomplete_workflows() {
    let states = vec![
        plain(
            "root",
            vec![agentic("review", "argus.review"), agentic("evidence", "argus.prepare-evidence")],
            vec![WorkflowRegion { states: vec![agentic("outcome", "argus.record-outcome")] }],
        ),
        plain("done", Vec::new(), Vec::new()),
    ];
    let actors = sorted_actor_identities(&states).unwrap();
    let listed = actors.iter().map(|a| (a.state_id.as_str(), a.actor_id.as_str())).collect::<Vec<_>>();
    assert_eq!(
        listed,
        vec![("evidence", "argus.prepare-evidence"), ("outcome", "argus.record-outcome"), ("review", "argus.review")]
    );
    let repeated = vec![agentic("review", "a"), agentic("review", "b")];
    assert!(matches!(sorted_actor_identities(&repeated), Err(RecoveryError::Invalid(_))));
    let missing = vec![WorkflowState { id: "x".to_owned(), agentic: true, agent: None, states: Vec::new(), regions: Vec::new() }];
    assert!(sorted_actor_identities(&missing).is_err());
}

#[test]
fn recovery_files_are_named_by_digest() {
    assert_eq!(workflow_file_name(HASH), format!("{HASH}.json"));
    let manifest = manifest_file_name("documentation-run");
    assert!(manifest.ends_with(".json"));
    assert_eq!(manifest.len(), 64 + 5);
    assert_ne!(manifest, "documentation-run.json");
    assert!(validate_digest(HASH).is_ok());
    assert!(validate_digest("not-a-digest").is_err());
    let store = RecoveryStore::at("/state".to_owned());
    assert_eq!(store.workflow_path(HASH), format!("/state/workflows/{HASH}.json"));
    assert!(store.manifest_path("documentation-run").starts_with("/state/recovery/"));
    let document = WorkflowDocument { id: "target-review".to_owned(), version: "1".to_owned(), states: Vec::new() };
    let (identity, path) = store.store_workflow(b"{\"id\":\"target-review\"}", &Ok(document)).unwrap();
    let document = WorkflowDocument { id: "target-review".to_owned(), version: "1".to_owned(), states: Vec::new() };
    assert_eq!(identity.workflow_id, "target-review");
    assert_eq!(identity.content_hash.len(), 64);
    assert_eq!(path, format!("/state/workflows/{}.json", identity.content_hash));
    let parsed = Ok(document);
    let actors: Vec<ActorIdentity> = store.actor_identities(&identity, b"{\"id\":\"target-review\"}", &parsed).unwrap();
    assert!(actors.is_empty());
    assert!(matches!(store.actor_identities(&identity, b"{}", &parsed), Err(RecoveryError::Invalid(_))));
    let unparsed: Result<WorkflowDocument, String> = Err("expected value".to_owned());
    assert!(matches!(
        store.actor_identities(&identity, b"{\"id\":\"target-review\"}", &unparsed),
        Err(RecoveryError::Json(m)) if m == "expected value"
    ));
    assert!(matches!(store.store_workflow(b"not json", &unparsed), Err(RecoveryError::Json(_))));
}

#[test]
fn immutable_records_are_written_once() {
    assert!(matches!(immutable_write(None, b"a"), ImmutableWrite::Write));
    assert!(matches!(immutable_write(Some(b"a"), b"a"), ImmutableWrite::Unchanged));
    assert!(matches!(immutable_write(Some(b"a"), b"b"), ImmutableWrite::Conflict));
    assert!(matches!(immutable_write(Some(b"a"), b"ab"), ImmutableWrite::Conflict));
}

#[test]
fn diagnostics_return_the_latest_failure_of_a_run() {
    let mut diagnostics = WorkflowFailureDiagnostics::new();
    assert_eq!(diagnostics.get("run-1"), None);
    diagnostics.record("run-1", "first".to_owned());
    diagnostics.record("run-2", "other".to_owned());
    diagnostics.record("run-1", "second".to_owned());
    assert_eq!(diagnostics.get("run-1"), Some("second".to_owned()));
    assert_eq!(diagnostics.get("run-2"), Some("other".to_owned()));
}

#[test]
fn registry_refuses_duplicates_and_rebuilds_in_manifest_order() {
    let mut registry: ActorRegistry<u32> = ActorRegistry::new();
    assert!(registry.register("argus.review".to_owned(), "1.0.0".to_owned(), 7).is_ok());
    assert!(matches!(
        registry.register("argus.review".to_owned(), "1.0.0".to_owned(), 8),
        Err(ActorRegistryError::Duplicate { .. })
    ));
    assert!(matches!(
        registry.register(" argus.review".to_owned(), "1.0.0".to_owned(), 8),
        Err(ActorRegistryError::Invalid(_))
    ));
    assert!(validate_identity("argus.review", "actor ID").is_ok());
    let build = |factory: &u32, state: &String| Ok::<String, String>(format!("{state}:{factory}"));
    let actors = vec![ActorIdentity {
        state_id: "review".to_owned(),
        actor_id: "argus.review".to_owned(),
        actor_version: "1.0.0".to_owned(),
    }];
    let rebuilt = registry.reconstruct(&actors, &build).unwrap();
    assert_eq!(rebuilt, vec![("review".to_owned(), "review:7".to_owned())]);
    let unknown = vec![ActorIdentity {
        state_id: "review".to_owned(),
        actor_id: "argus.review".to_owned(),
        actor_version: "2.0.0".to_owned(),
    }];
    assert!(matches!(registry.reconstruct(&unknown, &build), Err(ActorRegistryError::MissingFactory { .. })));
}

#[test]
fn documentation_registry_registers_all_nine_actors() {
    let registry = documentation_actor_registry(1, 2, 3, 4, 5, 6, 7, 8, 9).unwrap();
    assert_eq!(registry.factories.len(), 9);
    assert!(registry.factories.iter().all(|f| f.actor_version == DOCUMENTATION_ACTOR_VERSION));
    assert_eq!(registry.factories[1].actor_id, "argus.review");
    assert_eq!(registry.factories[8].factory, 9);
}

#[test]
fn heartbeats_renew_a_third_of_the_lease_within_bounds() {
    assert_eq!(heartbeat_interval_millis(30_000), 10_000);
    assert_eq!(heartbeat_interval_millis(3_000), 1_000);
    assert_eq!(heartbeat_interval_millis(30), 25);
    assert_eq!(heartbeat_interval_millis(600_000), 10_000);
}

#[test]
fn worker_turns_map_queue_and_checkpoint_states() {
    assert!(matches!(
        failed_attempt_result("w".to_owned(), "e".to_owned(), QueueState::Pending),
        Ok(DocumentationWorkerResult::RetryScheduled { .. })
    ));
    assert!(matches!(
        failed_attempt_result("w".to_owned(), "e".to_owned(), QueueState::Failed),
        Ok(DocumentationWorkerResult::Failed { .. })
    ));
    assert!(failed_attempt_result("w".to_owned(), "e".to_owned(), QueueState::Leased).is_err());
    assert_eq!(checkpoint_action(None), Ok(RunAction::Start));
    assert_eq!(checkpoint_action(Some(CheckpointStatus::Suspended)), Ok(RunAction::Resume));
    assert_eq!(checkpoint_action(Some(CheckpointStatus::Completed)), Ok(RunAction::RequireResult));
    assert!(checkpoint_action(Some(CheckpointStatus::Running)).is_err());
    assert!(require_durable_outcome(Some(QueueState::Succeeded)).is_ok());
    assert!(require_durable_outcome(None).is_err());
    assert!(require_durable_outcome(Some(QueueState::Pending)).is_err());
}

#[test]
fn a_declared_review_failure_fails_the_work() {
    let reason = Json::Object(vec![JsonMember { key: "reason".to_owned(), value: Json::Str("model refused".to_owned()) }]);
    assert_eq!(
        require_terminal_decision(&data_with("review.failed", reason)),
        Err("documentation review declared failure: model refused".to_owned())
    );
    let pass = Json::Object(vec![JsonMember { key: "assessment".to_owned(), value: Json::Object(Vec::new()) }]);
    assert!(require_terminal_decision(&data_with("review.pass", pass)).is_ok());
}

fn unit() -> DocumentationReviewUnit {
    DocumentationReviewUnit {
        schema_version: 1,
        work_item: "work:1".to_owned(),
        target: DocumentationTargetProfile {
            target: "target".to_owned(),
            name: "target".to_owned(),
            visibility: TargetVisibility::Public,
            inventory: InventoryState::Represented,
        },
        policy: "policy".to_owned(),
        policy_version: "documentation@1".to_owned(),
        applicability: DocumentationApplicabilityDecision { state: ApplicabilityState::Applicable, rationale: "r".to_owned() },
        evidence: Vec::new(),
    }
}

#[test]
fn recorded_outcomes_are_announced_with_their_storage() {
    let receipt = accept_recorded(
        &outcome("work:1", HASH, "artifact:a"),
        key("work:1", HASH).storage_key().unwrap(),
        OutcomeDisposition::Inserted,
        outcome("work:1", HASH, "artifact:a"),
    )
    .unwrap();
    let event = outcome_recorded_event(&receipt);
    assert_eq!(event.event_type, "outcome.recorded");
    let storage_key = key("work:1", HASH).storage_key().unwrap();
    assert_eq!(
        event.payload,
        Json::Object(vec![
            JsonMember { key: "disposition".to_owned(), value: Json::Str("inserted".to_owned()) },
            JsonMember { key: "result_ref".to_owned(), value: Json::Str("artifact:a".to_owned()) },
            JsonMember { key: "storage_key".to_owned(), value: Json::Str(storage_key) },
        ])
    );
    assert_eq!(outcome_kind(AssessmentResult::CandidateFindings), OutcomeKind::CandidateFindings);
    assert_eq!(outcome_kind(AssessmentResult::UnableToVerify), OutcomeKind::UnableToVerify);
    assert!(check_assessment_identity("work:1", "documentation@1", 1, &key("work:1", HASH)).is_ok());
    assert!(check_assessment_identity("work:2", "documentation@1", 1, &key("work:1", HASH)).is_err());
    assert!(check_assessment_identity("work:1", "documentation@1", 2, &key("work:1", HASH)).is_err());
}

#[test]
fn prepared_evidence_must_belong_to_the_run() {
    let reason = Json::Object(vec![JsonMember { key: "reason".to_owned(), value: Json::Str("x".to_owned()) }]);
    let d = data_with("review.failed", reason);
    let event = prepared_evidence_event(&d, &unit(), "evidence:1", 1, "context:1").unwrap();
    assert_eq!(event.event_type, "evidence.prepared");
    assert_eq!(
        event.payload,
        Json::Object(vec![
            JsonMember { key: "context_hash".to_owned(), value: Json::Str("context:1".to_owned()) },
            JsonMember { key: "package_hash".to_owned(), value: Json::Str("evidence:1".to_owned()) },
        ])
    );
    assert!(prepared_evidence_event(&d, &unit(), "evidence:2", 1, "context:1").is_err());
    assert!(prepared_evidence_event(&d, &unit(), "evidence:1", 2, "context:1").is_err());
}

#[test]
fn terminal_actors_relay_only_their_decision_with_its_reason() {
    let reason = Json::Object(vec![JsonMember { key: "reason".to_owned(), value: Json::Str("model refused".to_owned()) }]);
    let d = data_with("review.failed", reason);
    let event = relay_event(&d, "review.failed", "review.failed.recorded").unwrap();
    assert_eq!(event.event_type, "review.failed.recorded");
    assert_eq!(
        event.payload,
        Json::Object(vec![JsonMember { key: "reason".to_owned(), value: Json::Str("model refused".to_owned()) }])
    );
    assert_eq!(
        relay_event(&d, "review.unable_to_verify", "x").unwrap_err(),
        "review decision reached the wrong terminal actor"
    );
    let pass = Json::Object(vec![JsonMember { key: "assessment".to_owned(), value: Json::Object(Vec::new()) }]);
    let relayed = relay_event(&data_with("review.pass", pass), "review.pass", "relayed").unwrap();
    assert_eq!(relayed.payload, Json::Object(vec![JsonMember { key: "reason".to_owned(), value: Json::Null }]));
}

#[test]
fn documentation_runs_grant_no_evidence_expansion() {
    let policy = documentation_expansion_policy(&unit());
    assert_eq!(policy.max_requests, 0);
    assert_eq!(policy.cumulative_budget.max_bytes, 0);
    assert_eq!(policy.allowed_targets, vec![unit().target.target.clone()]);
    assert_eq!(
        policy.allowed_kinds,
        vec![argus_workflow::architecture_plan::EvidenceKind::Documentation, argus_workflow::architecture_plan::EvidenceKind::Source]
    );
    assert_eq!(policy.maximum_classification, "internal");
}
