use argus_workflow::actor_registry::{ActorRegistry, ActorRegistryError};
use argus_workflow::outcome::OutcomeError;
use argus_workflow::evidence::{AuthorizedEvidenceExpansion, EvidenceBudget, EvidenceRequest, ExpansionUsage};
use argus_workflow::evidence_flow::apply_expansion;
use argus_workflow::json::Json;
use argus_workflow::recovery::{
    ActorIdentity, AgentReference, RECOVERY_MANIFEST_SCHEMA_VERSION, RecoveryError, RecoveryManifest, WorkflowArtifactIdentity,
    WorkflowDocument, WorkflowRegion, WorkflowState, sorted_actor_identities, validate_manifest,
};
use argus_workflow::workflow_data::{
    ProviderIdentity, ReviewWorkflowData, WORKFLOW_DATA_SCHEMA_VERSION, WorkflowDataError,
    validate_transition,
};

const HASH: &str = "0123456789abcdef0123456789abcdef0123456789abcdef0123456789abcdef";

fn provider() -> ProviderIdentity {
    ProviderIdentity {
        provider: "fixture-local".to_owned(),
        provider_version: "1".to_owned(),
        model: "fixture-model".to_owned(),
        model_version: "pinned".to_owned(),
    }
}

fn data(revision: u32) -> ReviewWorkflowData {
    ReviewWorkflowData {
        work_id: "work:1".to_owned(),
        review_unit_id: "target".to_owned(),
        policy_id: "policy".to_owned(),
        evidence_package_ref: "package:1".to_owned(),
        evidence_revision: revision,
        primary_decisions: Vec::new(),
        candidate_findings: Vec::new(),
        scheduled_verification_work: Vec::new(),
        verification_results: Vec::new(),
        evidence_request_decisions: Vec::new(),
        evidence_expansions: Vec::new(),
        escalation_count: 0,
        evidence_expansion_count: 0,
        adjudication: None,
    }
}

fn authorization() -> AuthorizedEvidenceExpansion {
    AuthorizedEvidenceExpansion {
        request: EvidenceRequest {
            sequence: 1,
            base_package: "package:1".to_owned(),
            requested_targets: vec!["t".to_owned()],
            requested_kinds: vec!["test".to_owned()],
            additional_budget: EvidenceBudget { max_bytes: 100, max_tokens: 50, max_items: 1, max_relation_depth: 2 },
            rationale: "inspect tests".to_owned(),
        },
        maximum_classification: "internal".to_owned(),
        next_usage: ExpansionUsage::none(),
        authorization_hash: "authorization:1".to_owned(),
    }
}

#[test]
fn an_expansion_is_a_transition_the_workflow_data_accepts() {
    let expanded = apply_expansion(data(1), &authorization(), "package:1", "package:2").unwrap();
    assert_eq!(expanded.evidence_revision, 2);
    assert_eq!(expanded.evidence_package_ref, "package:2");
    assert_eq!(expanded.evidence_expansion_count, 1);
    assert_eq!(expanded.evidence_expansions.len(), 1);
    assert_eq!(expanded.evidence_expansions[0].from_revision, 1);
    assert_eq!(expanded.evidence_expansions[0].to_revision, 2);
    assert_eq!(expanded.evidence_expansions[0].previous_package, "package:1");
    assert_eq!(expanded.evidence_expansions[0].authorization_hash, "authorization:1");
    assert!(validate_transition(&data(1), &expanded).is_ok());
    assert!(apply_expansion(data(u32::MAX), &authorization(), "package:1", "package:2").is_err());
}

fn agentic(id: &str, actor: &str) -> WorkflowState {
    WorkflowState {
        id: id.to_owned(),
        agentic: true,
        agent: Some(AgentReference { id: actor.to_owned(), version: "1.0.0".to_owned() }),
        states: Vec::new(),
        regions: Vec::new(),
    }
}

fn document() -> WorkflowDocument {
    WorkflowDocument {
        id: "argus.target-review".to_owned(),
        version: "1.0.0".to_owned(),
        states: vec![WorkflowState {
            id: "root".to_owned(),
            agentic: false,
            agent: None,
            states: vec![agentic("review", "argus.review"), agentic("evidence", "argus.prepare-evidence")],
            regions: vec![WorkflowRegion { states: vec![agentic("outcome", "argus.record-outcome")] }],
        }],
    }
}

fn manifest(actors_from: &WorkflowDocument) -> RecoveryManifest {
    RecoveryManifest {
        schema_version: RECOVERY_MANIFEST_SCHEMA_VERSION,
        workflow_data_schema_version: WORKFLOW_DATA_SCHEMA_VERSION,
        langchart_run_id: "run-1".to_owned(),
        audit_snapshot: "snapshot:1".to_owned(),
        audit_run: "run:1".to_owned(),
        work_id: "work:1".to_owned(),
        workflow: WorkflowArtifactIdentity {
            workflow_id: "argus.target-review".to_owned(),
            workflow_version: "1.0.0".to_owned(),
            content_hash: HASH.to_owned(),
        },
        actors: sorted_actor_identities(&actors_from.states).unwrap(),
        provider: provider(),
        provider_policy: Json::Null,
        policy_version: "documentation@1".to_owned(),
        prompt_version: "documentation-review@1".to_owned(),
        evidence_revision: 1,
        langchart_runtime_version: "0.1.0".to_owned(),
    }
}

#[test]
fn a_manifest_of_the_sorted_actors_validates_against_its_workflow() {
    let document = document();
    assert!(validate_manifest(&manifest(&document), &document).is_ok());

    let mut missing = manifest(&document);
    missing.actors.pop();
    assert!(validate_manifest(&missing, &document).is_err());

    let mut unnormalized = manifest(&document);
    unnormalized.prompt_version = " documentation-review@1".to_owned();
    assert!(validate_manifest(&unnormalized, &document).is_err());

    let mut stale = manifest(&document);
    stale.evidence_revision = 0;
    assert!(validate_manifest(&stale, &document).is_err());
}

#[test]
fn errors_describe_themselves() {
    assert_eq!(
        ActorRegistryError::Duplicate { actor_id: "argus.review".to_owned(), actor_version: "1.0.0".to_owned() }.message(),
        "actor factory `argus.review@1.0.0` is already registered"
    );
    assert_eq!(
        ActorRegistryError::MissingFactory { actor_id: "argus.review".to_owned(), actor_version: "2.0.0".to_owned() }
            .message(),
        "no actor factory is registered for `argus.review@2.0.0`"
    );
    assert_eq!(
        ActorRegistryError::Build {
            identity: ActorIdentity {
                state_id: "review".to_owned(),
                actor_id: "argus.review".to_owned(),
                actor_version: "1.0.0".to_owned(),
            },
            message: "boom".to_owned(),
        }
        .message(),
        "cannot reconstruct actor `argus.review` for state `review`: boom"
    );
    assert_eq!(OutcomeError::InvalidIdentity("x".to_owned()).message(), "invalid outcome identity: x");
    assert_eq!(RecoveryError::Invalid("x".to_owned()).message(), "invalid recovery state: x");
    assert_eq!(WorkflowDataError::Missing.message(), "workflow data record does not exist");
    assert_eq!(WorkflowDataError::Invalid("x".to_owned()).message(), "invalid workflow data: x");
}

#[test]
fn reconstruction_names_the_first_identity_that_fails() {
    let identity = |state: &str, actor: &str| ActorIdentity {
        state_id: state.to_owned(),
        actor_id: actor.to_owned(),
        actor_version: "1.0.0".to_owned(),
    };
    let mut registry: ActorRegistry<u32> = ActorRegistry::new();
    assert!(registry.register("argus.review".to_owned(), "1.0.0".to_owned(), 7).is_ok());
    assert!(registry.register("argus.failing".to_owned(), "1.0.0".to_owned(), 0).is_ok());
    assert!(matches!(
        registry.register("argus.review".to_owned(), "1.0.0".to_owned(), 8),
        Err(ActorRegistryError::Duplicate { .. })
    ));
    assert!(matches!(registry.register("".to_owned(), "1.0.0".to_owned(), 8), Err(ActorRegistryError::Invalid(_))));
    let build = |factory: &u32, state: &String| {
        if *factory == 0 { Err(format!("cannot build {state}")) } else { Ok(format!("{state}:{factory}")) }
    };
    assert!(registry.reconstruct(&Vec::new(), &build).unwrap().is_empty());
    let failing = vec![identity("review", "argus.review"), identity("outcome", "argus.failing"), identity("x", "argus.none")];
    match registry.reconstruct(&failing, &build) {
        Err(ActorRegistryError::Build { identity, message }) => {
            assert_eq!(identity.state_id, "outcome");
            assert_eq!(message, "cannot build outcome");
        },
        other => panic!("unexpected {other:?}"),
    }
    let repeated = vec![identity("review", "argus.review"), identity("review", "argus.review")];
    assert!(matches!(
        registry.reconstruct(&repeated, &build),
        Err(ActorRegistryError::DuplicateState(s)) if s == "review"
    ));
    let missing = vec![identity("review", "argus.review"), identity("x", "argus.none"), identity("y", "argus.failing")];
    assert!(matches!(
        registry.reconstruct(&missing, &build),
        Err(ActorRegistryError::MissingFactory { actor_id, .. }) if actor_id == "argus.none"
    ));
}
