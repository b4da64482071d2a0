use argus_workflow::architecture::{
    ApplicabilityState, ArchitectureTarget, InventoryState, TargetForm, TargetVisibility,
};
use argus_workflow::documentation_contract::{BindingError, ContextEvidenceItem, TrustedControl, bind_context};
use argus_workflow::documentation_plan::{
    DOCUMENTATION_EVIDENCE_PACKAGE_ARTIFACT_KIND, DOCUMENTATION_REVIEW_CONTEXT_ARTIFACT_KIND,
    DOCUMENTATION_REVIEW_PLAN_SCHEMA_VERSION, DocumentationApplicabilityDecision,
    DocumentationEvidence, DocumentationEvidenceCatalog, DocumentationEvidenceKind,
    DocumentationPlanError, DocumentationReviewPlanner, DocumentationTargetProfile, RestoredContext,
    RestoredPackage, admission_for, check_adapter, check_loaded_artifact, check_stored_identity,
    evidence_candidate, initial_workflow_data, validate_restored_identity,
};
use argus_workflow::documentation_schema::documentation_assessment_draft_schema;
use argus_workflow::json::Json;
use argus_workflow::worker::langchart_run_id;

fn target(
    id: &str,
    visibility: TargetVisibility,
    parent: Option<&str>,
    inventory: InventoryState,
) -> ArchitectureTarget {
    ArchitectureTarget {
        id: id.to_owned(),
        name: id.to_owned(),
        form: TargetForm::Other,
        visibility,
        inventory,
        parent: parent.map(str::to_owned),
    }
}

fn evidence_for(target: &str) -> DocumentationEvidence {
    DocumentationEvidence { id: format!("evidence:{target}"), target: Some(target.to_owned()) }
}

/// The fixture policy: public types and callables need documentation,
/// private callables do not, and an inventory that failed stays pending.
fn fixture_policy(profile: &DocumentationTargetProfile) -> DocumentationApplicabilityDecision {
    let state = if profile.inventory != InventoryState::Represented {
        ApplicabilityState::Pending
    } else if profile.visibility == TargetVisibility::Public {
        ApplicabilityState::Applicable
    } else {
        ApplicabilityState::NotApplicable
    };
    DocumentationApplicabilityDecision { state, rationale: "fixture".to_owned() }
}

fn fixture_targets() -> Vec<ArchitectureTarget> {
    vec![
        target("PublicTrait", TargetVisibility::Public, None, InventoryState::Represented),
        target("required_method", TargetVisibility::Inherited, Some("PublicTrait"), InventoryState::Represented),
        target("private_helper", TargetVisibility::Private, None, InventoryState::Represented),
        target("FailedType", TargetVisibility::Public, None, InventoryState::Failed),
    ]
}

fn render(value: &Json, out: &mut String) {
    match value {
        Json::Null => out.push_str("null"),
        Json::Bool(b) => out.push_str(if *b { "true" } else { "false" }),
        Json::UInt(n) => out.push_str(&n.to_string()),
        Json::NegInt(n) => out.push_str(&n.to_string()),
        Json::Float(text) => out.push_str(text),
        Json::Str(text) => {
            out.push('"');
            out.push_str(text);
            out.push('"');
        },
        Json::Array(items) => {
            out.push('[');
            for item in items {
                render(item, out);
                out.push(',');
            }
            out.push(']');
        },
        Json::Object(members) => {
            out.push('{');
            for member in members {
                out.push('"');
                out.push_str(&member.key);
                out.push_str("\":");
                render(&member.value, out);
                out.push(',');
            }
            out.push('}');
        },
    }
}

#[test]
fn plans_all_targets_and_admits_only_applicable_units() {
    let targets = fixture_targets();
    let evidence = targets.iter().map(|t| evidence_for(&t.id)).collect::<Vec<_>>();
    let planner = DocumentationReviewPlanner::new("policy:documentation".to_owned(), "documentation@1".to_owned()).unwrap();
    let plan = planner
        .plan(&targets, &evidence, fixture_policy, |target: &String| format!("work:{target}"))
        .unwrap();

    assert_eq!(plan.units.len(), 4);
    let ids = plan.units.iter().map(|u| u.target.target.as_str()).collect::<Vec<_>>();
    assert_eq!(ids, vec!["FailedType", "PublicTrait", "private_helper", "required_method"]);
    let child = plan.units.iter().find(|unit| unit.target.target == targets[1].id).unwrap();
    assert_eq!(child.target.visibility, TargetVisibility::Public);
    assert_eq!(child.applicability.state, ApplicabilityState::Applicable);
    assert_eq!(child.evidence, vec!["evidence:required_method".to_owned()]);
    assert_eq!(child.work_item, "work:required_method");
    assert_eq!(child.schema_version, DOCUMENTATION_REVIEW_PLAN_SCHEMA_VERSION);
    let failed = plan.units.iter().find(|unit| unit.target.target == targets[3].id).unwrap();
    assert_eq!(failed.applicability.state, ApplicabilityState::Pending);

    let admissible = plan.admissible();
    assert_eq!(admissible.len(), 2);
    for position in &admissible {
        let unit = &plan.units[*position];
        assert!(unit.check_materializable().is_ok());
        let admission = admission_for(unit, "artifact:package".to_owned(), "artifact:context".to_owned());
        assert!(admission.check().is_ok());
        assert_eq!(admission.unit.work_item, unit.work_item);
    }
    assert_eq!(plan.units[2].check_materializable(), Err(DocumentationPlanError::NotApplicable));
}

#[test]
fn planning_refuses_repeated_targets_and_unknown_evidence_targets() {
    let planner = DocumentationReviewPlanner::new("policy".to_owned(), "v1".to_owned()).unwrap();
    let mut repeated = fixture_targets();
    repeated.push(target("PublicTrait", TargetVisibility::Private, None, InventoryState::Represented));
    let work = |target: &String| target.clone();
    assert_eq!(
        planner.plan(&repeated, &Vec::new(), fixture_policy, work).err(),
        Some(DocumentationPlanError::DuplicateTargets)
    );
    let stray = vec![evidence_for("Elsewhere")];
    assert_eq!(
        planner.plan(&fixture_targets(), &stray, fixture_policy, work).err(),
        Some(DocumentationPlanError::UnknownEvidenceTarget)
    );
    let untargeted = vec![DocumentationEvidence { id: "evidence:global".to_owned(), target: None }];
    let plan = planner.plan(&fixture_targets(), &untargeted, fixture_policy, work).unwrap();
    assert!(plan.units.iter().all(|u| u.evidence.is_empty()));
}

#[test]
fn evidence_of_a_target_is_sorted_and_deduplicated() {
    let planner = DocumentationReviewPlanner::new("policy".to_owned(), "v1".to_owned()).unwrap();
    let targets = vec![target("T", TargetVisibility::Public, None, InventoryState::Represented)];
    let evidence = vec![
        DocumentationEvidence { id: "e:2".to_owned(), target: Some("T".to_owned()) },
        DocumentationEvidence { id: "e:1".to_owned(), target: Some("T".to_owned()) },
        DocumentationEvidence { id: "e:2".to_owned(), target: Some("T".to_owned()) },
    ];
    let plan = planner.plan(&targets, &evidence, fixture_policy, |t: &String| t.clone()).unwrap();
    assert_eq!(plan.units[0].evidence, vec!["e:1".to_owned(), "e:2".to_owned()]);
    assert_eq!(plan.units[0].policy, "policy");
    assert_eq!(plan.units[0].policy_version, "v1");
}

#[test]
fn planner_requires_a_normalized_policy_version() {
    assert!(DocumentationReviewPlanner::new("policy".to_owned(), "".to_owned()).is_err());
    assert_eq!(
        DocumentationReviewPlanner::new("policy".to_owned(), " v1".to_owned()).err(),
        Some(DocumentationPlanError::UnnormalizedPolicyVersion)
    );
    assert_eq!(
        DocumentationPlanError::UnnormalizedPolicyVersion.message(),
        "documentation policy version must be normalized"
    );
}

#[test]
fn catalog_refuses_repeated_identifiers_and_looks_up_hashes() {
    let stored = vec![("e:1".to_owned(), "hash:1".to_owned()), ("e:2".to_owned(), "hash:2".to_owned())];
    let catalog = DocumentationEvidenceCatalog::ingest(&stored).unwrap();
    assert_eq!(catalog.hash_of("e:2"), Some("hash:2".to_owned()));
    assert_eq!(catalog.hash_of("e:3"), None);
    let repeated = vec![("e:1".to_owned(), "hash:1".to_owned()), ("e:1".to_owned(), "hash:9".to_owned())];
    assert_eq!(
        DocumentationEvidenceCatalog::ingest(&repeated).err(),
        Some(DocumentationPlanError::DuplicateEvidence)
    );

    let planner = DocumentationReviewPlanner::new("policy".to_owned(), "v1".to_owned()).unwrap();
    let targets = vec![target("T", TargetVisibility::Public, None, InventoryState::Represented)];
    let evidence = vec![
        DocumentationEvidence { id: "e:1".to_owned(), target: Some("T".to_owned()) },
        DocumentationEvidence { id: "e:3".to_owned(), target: Some("T".to_owned()) },
    ];
    let plan = planner.plan(&targets, &evidence, fixture_policy, |t: &String| t.clone()).unwrap();
    assert_eq!(plan.units[0].catalogued_hashes(&catalog), Err(DocumentationPlanError::UncataloguedEvidence));
    let known = planner.plan(&targets, &vec![evidence_for_id("e:2")], fixture_policy, |t: &String| t.clone()).unwrap();
    assert_eq!(known.units[0].catalogued_hashes(&catalog), Ok(vec!["hash:2".to_owned()]));
}

fn evidence_for_id(id: &str) -> DocumentationEvidence {
    DocumentationEvidence { id: id.to_owned(), target: Some("T".to_owned()) }
}

#[test]
fn candidates_rank_documentation_first_and_estimate_tokens() {
    let documentation =
        evidence_candidate("e:1", "e:1", "hash:1".to_owned(), DocumentationEvidenceKind::Documentation, 10).unwrap();
    assert_eq!(documentation.priority, 100);
    assert_eq!(documentation.estimated_tokens, 3);
    assert_eq!(documentation.relation_depth, 0);
    let source = evidence_candidate("e:2", "e:2", "hash:2".to_owned(), DocumentationEvidenceKind::Source, 8).unwrap();
    assert_eq!(source.priority, 10);
    assert_eq!(source.estimated_tokens, 2);
    let zero = evidence_candidate("e:3", "e:3", "hash:3".to_owned(), DocumentationEvidenceKind::Other, 0).unwrap();
    assert_eq!(zero.estimated_tokens, 0);
    assert_eq!(
        evidence_candidate("e:1", "e:9", "hash:1".to_owned(), DocumentationEvidenceKind::Source, 1).err().map(|e| e.message()),
        Some("documentation evidence catalog identity mismatch".to_owned())
    );
}

#[test]
fn restored_package_and_context_must_belong_to_the_unit() {
    let planner = DocumentationReviewPlanner::new("policy".to_owned(), "v1".to_owned()).unwrap();
    let targets = vec![target("T", TargetVisibility::Public, None, InventoryState::Represented)];
    let plan = planner.plan(&targets, &vec![evidence_for_id("e:1")], fixture_policy, |t: &String| format!("work:{t}")).unwrap();
    let unit = &plan.units[0];
    let package = RestoredPackage {
        hash: "hash:package".to_owned(),
        revision: 1,
        snapshot: "snapshot:1".to_owned(),
        target: "T".to_owned(),
        policy: "policy".to_owned(),
        policy_version: "v1".to_owned(),
    };
    let context = |evidence: Vec<&str>, hash: &str| RestoredContext {
        hash: hash.to_owned(),
        snapshot: "snapshot:1".to_owned(),
        target: "T".to_owned(),
        policy: "policy".to_owned(),
        policy_version: "v1".to_owned(),
        package_hash: "hash:package".to_owned(),
        package_revision: 1,
        evidence: evidence.into_iter().map(str::to_owned).collect(),
    };
    assert!(validate_restored_identity(unit, &package, &context(vec!["e:1"], "hash:context"), "hash:context").is_ok());
    assert_eq!(
        validate_restored_identity(unit, &package, &context(vec!["e:2"], "hash:context"), "hash:context"),
        Err(DocumentationPlanError::IdentityMismatch)
    );
    assert_eq!(
        validate_restored_identity(unit, &package, &context(vec![], "hash:other"), "hash:context"),
        Err(DocumentationPlanError::IdentityMismatch)
    );
    let data = initial_workflow_data(unit, &package);
    assert_eq!(data.work_id, "work:T");
    assert_eq!(data.review_unit_id, "T");
    assert_eq!(data.evidence_package_ref, "hash:package");
    assert_eq!(data.evidence_revision, 1);
    assert!(data.primary_decisions.is_empty() && data.adjudication.is_none());
}

#[test]
fn artifacts_must_exist_with_their_kind_and_hash() {
    assert_eq!(check_loaded_artifact(None, DOCUMENTATION_EVIDENCE_PACKAGE_ARTIFACT_KIND), Err(DocumentationPlanError::MissingArtifact));
    assert_eq!(
        check_loaded_artifact(Some("review-context"), DOCUMENTATION_EVIDENCE_PACKAGE_ARTIFACT_KIND),
        Err(DocumentationPlanError::ArtifactKindMismatch)
    );
    assert!(check_loaded_artifact(Some("review-context"), DOCUMENTATION_REVIEW_CONTEXT_ARTIFACT_KIND).is_ok());
    assert!(check_stored_identity("h", "h").is_ok());
    assert_eq!(check_stored_identity("h", "g"), Err(DocumentationPlanError::StoredIdentityMismatch));
    assert!(check_adapter("rust").is_ok());
    assert_eq!(check_adapter(" rust"), Err(DocumentationPlanError::UnnormalizedAdapter));
}

#[test]
fn documentation_review_transport_schema_excludes_trusted_assessment_identity() {
    let mut serialized = String::new();
    render(&documentation_assessment_draft_schema(), &mut serialized);
    for forbidden in ["work_item", "target", "policy_version", "evidence_revision", "applicability"] {
        assert!(!serialized.contains(forbidden), "{forbidden}");
    }
    assert!(serialized.contains("\"dimensions\""));
}

#[test]
fn retry_generation_gets_a_fresh_workflow_run_without_changing_initial_identity() {
    let initial = langchart_run_id("audit-run", "work", 0);
    let retry = langchart_run_id("audit-run", "work", 1);
    assert_eq!(initial, langchart_run_id("audit-run", "work", 0));
    assert_ne!(initial, retry);
    assert_ne!(retry, langchart_run_id("audit-run", "work", 2));
    assert!(initial.starts_with("argus-documentation-"));
    assert_eq!(initial.len(), "argus-documentation-".len() + 64);
}

fn item(id: &str, target: Option<&str>, kind: DocumentationEvidenceKind) -> ContextEvidenceItem {
    ContextEvidenceItem { id: id.to_owned(), target: target.map(str::to_owned), kind }
}

fn profile(target: &str) -> DocumentationTargetProfile {
    DocumentationTargetProfile {
        target: target.to_owned(),
        name: target.to_owned(),
        visibility: TargetVisibility::Public,
        inventory: InventoryState::Represented,
    }
}

fn control(target: &str) -> TrustedControl {
    TrustedControl {
        target: target.to_owned(),
        policy: "policy:documentation".to_owned(),
        policy_version: "documentation@1".to_owned(),
        package_revision: 3,
    }
}

#[test]
fn trusted_context_builds_the_documentation_binding() {
    let items = vec![
        item("evidence:source", Some("T"), DocumentationEvidenceKind::Source),
        item("evidence:unscoped", None, DocumentationEvidenceKind::Other),
        item("evidence:doc", Some("T"), DocumentationEvidenceKind::Documentation),
    ];
    let binding = bind_context("work:T".to_owned(), profile("T"), ApplicabilityState::Applicable, &control("T"), &items)
        .unwrap();
    assert_eq!(binding.work_item, "work:T");
    assert_eq!(binding.policy_version, "documentation@1");
    assert_eq!(binding.evidence_revision, 3);
    let bound = binding.evidence.iter().map(|b| (b.id.as_str(), b.kind)).collect::<Vec<_>>();
    assert_eq!(
        bound,
        vec![("evidence:doc", DocumentationEvidenceKind::Documentation), ("evidence:source", DocumentationEvidenceKind::Source)]
    );
    assert_eq!(
        bind_context("work:T".to_owned(), profile("T"), ApplicabilityState::Applicable, &control("U"), &items).err(),
        Some(BindingError::TargetMismatch)
    );
    let repeated = vec![
        item("evidence:doc", Some("T"), DocumentationEvidenceKind::Documentation),
        item("evidence:doc", Some("T"), DocumentationEvidenceKind::Source),
    ];
    assert_eq!(
        bind_context("work:T".to_owned(), profile("T"), ApplicabilityState::Applicable, &control("T"), &repeated).err(),
        Some(BindingError::RepeatedEvidence)
    );
    assert_eq!(BindingError::RepeatedEvidence.message(), "trusted review context repeats an evidence identity");
}
