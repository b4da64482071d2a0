use argus_workflow::architecture::{
    ApplicabilityState, ArchitectureError, ArchitectureRelation, ArchitectureReviewUnit,
    ArchitectureScope, ArchitectureScopeEvidence, ArchitectureTarget, ArchitectureTargetFact,
    ConstituentHealthSummary, InventoryState, MAX_SCOPE_EVIDENCE_BYTES, TargetForm, TargetVisibility,
    assign_progressive_prerequisites, bounded, dependency_cycles, effective_visibility,
    normalize_architecture_targets, prepare_architecture_inventory, scope_for, scope_structure,
    scope_target_ids, trim_scope_evidence, assemble_scope_evidence,
};
use argus_workflow::architecture_plan::{
    ArchitectureTargetProfile, EvidenceKind, EvidenceOrigin, enforce_scope_byte_budget,
    plan_architecture_units, scope_evidence_record,
};
use argus_workflow::documentation_plan::DocumentationEvidence;

fn target(
    id: &str,
    form: TargetForm,
    visibility: TargetVisibility,
    parent: Option<&str>,
    inventory: InventoryState,
) -> ArchitectureTarget {
    ArchitectureTarget {
        id: id.to_owned(),
        name: id.rsplit("::").next().unwrap().to_owned(),
        form,
        visibility,
        inventory,
        parent: parent.map(str::to_owned),
    }
}

fn relation(id: &str, source: &str, target: &str, kind: &str) -> ArchitectureRelation {
    ArchitectureRelation {
        id: id.to_owned(),
        source: source.to_owned(),
        target: target.to_owned(),
        kind: kind.to_owned(),
    }
}

fn crate_targets() -> Vec<ArchitectureTarget> {
    vec![
        target("crate", TargetForm::Package, TargetVisibility::NotApplicable, None, InventoryState::Represented),
        target("crate::mod_a", TargetForm::Other, TargetVisibility::Public, Some("crate"), InventoryState::Represented),
        target("crate::mod_b", TargetForm::Other, TargetVisibility::Private, Some("crate"), InventoryState::Represented),
        target(
            "crate::mod_a::func",
            TargetForm::Other,
            TargetVisibility::Public,
            Some("crate::mod_a"),
            InventoryState::Represented,
        ),
    ]
}

fn crate_relations() -> Vec<ArchitectureRelation> {
    vec![
        relation("a-to-b", "crate::mod_a", "crate::mod_b", "rust:depends_on"),
        relation("b-to-a", "crate::mod_b", "crate::mod_a", "rust:depends_on"),
    ]
}

fn unit(target: &str, scope: ArchitectureScope, applicability: ApplicabilityState) -> ArchitectureReviewUnit {
    ArchitectureReviewUnit {
        schema_version: 1,
        work_item: format!("work:{target}"),
        target: target.to_owned(),
        scope,
        policy: "policy:architecture".to_owned(),
        policy_version: "architecture-code-derived@1".to_owned(),
        applicability,
        evidence: Vec::new(),
        prerequisite_work: Vec::new(),
    }
}

#[test]
fn planner_creates_units_for_modules_packages_and_workspace() {
    let inventory = prepare_architecture_inventory(&crate_targets(), "workspace", &crate_relations()).unwrap();
    assert_eq!(inventory.targets.len(), 5);
    let workspace = inventory.targets.iter().find(|t| t.form == TargetForm::Workspace).unwrap();
    assert_eq!(workspace.id, "workspace");
    assert_eq!(scope_for(workspace), ArchitectureScope::Workspace);
    let package = inventory.targets.iter().find(|t| t.id == "crate").unwrap();
    assert_eq!(package.parent.as_deref(), Some("workspace"));
    assert_eq!(scope_for(package), ArchitectureScope::Package);

    let structure = scope_structure("crate", &inventory.targets, &inventory.relations);
    assert_eq!(structure.scope_targets, vec!["crate", "crate::mod_a", "crate::mod_a::func", "crate::mod_b"]);
    assert_eq!(structure.constituents.len(), 3);
    assert_eq!(structure.internal_relations.len(), 2);
    assert!(structure.boundary_relations.is_empty());
    assert_eq!(structure.dependency_cycles, vec![vec!["crate::mod_a".to_owned(), "crate::mod_b".to_owned()]]);
    assert_eq!(structure.constituent_health.total_constituents, 3);

    let evaluate = |p: &ArchitectureTargetProfile| {
        if p.name == "func" { ApplicabilityState::NotApplicable } else { ApplicabilityState::Applicable }
    };
    let work_item_for = |t: &String| format!("work:{t}");
    let scope_evidence = |t: &String, _scope: ArchitectureScope| Ok::<String, ArchitectureError>(format!("scope:{t}"));
    let plan = plan_architecture_units(
        &inventory,
        &Vec::new(),
        "policy:architecture",
        "architecture-code-derived@1",
        evaluate,
        work_item_for,
        scope_evidence,
    )
    .unwrap();
    let units = &plan.units;
    assert_eq!(units.len(), 5);
    let targets: Vec<&str> = units.iter().map(|u| u.target.as_str()).collect();
    assert_eq!(targets, vec!["crate", "crate::mod_a", "crate::mod_a::func", "crate::mod_b", "workspace"]);
    assert_eq!(units.iter().filter(|u| u.applicability == ApplicabilityState::Applicable).count(), 4);
    assert_eq!(plan.evidence.len(), 4);
    assert_eq!(units[0].scope, ArchitectureScope::Package);
    assert_eq!(units[0].evidence, vec!["scope:crate".to_owned()]);
    assert!(units[2].evidence.is_empty());
    assert_eq!(units[0].work_item, "work:crate");
    let mut package_prerequisites = units[0].prerequisite_work.clone();
    package_prerequisites.sort();
    assert_eq!(package_prerequisites, vec!["work:crate::mod_a", "work:crate::mod_b"]);
    assert_eq!(units[4].prerequisite_work, vec!["work:crate".to_owned()]);
    assert!(units[1..4].iter().all(|u| u.prerequisite_work.is_empty()));

    let mut manual = vec![
        unit("workspace", ArchitectureScope::Workspace, ApplicabilityState::Applicable),
        unit("crate", ArchitectureScope::Package, ApplicabilityState::Applicable),
        unit("crate::mod_a", ArchitectureScope::Module, ApplicabilityState::Applicable),
        unit("crate::mod_a::func", ArchitectureScope::Module, ApplicabilityState::NotApplicable),
        unit("crate::mod_b", ArchitectureScope::Module, ApplicabilityState::Applicable),
    ];
    assign_progressive_prerequisites(&mut manual, &inventory.targets, &inventory.relations);
    assert_eq!(manual[0].prerequisite_work, vec!["work:crate".to_owned()]);
}

#[test]
fn architecture_plan_refuses_unknown_and_duplicate_evidence() {
    let inventory = prepare_architecture_inventory(&crate_targets(), "workspace", &crate_relations()).unwrap();
    let evaluate = |_p: &ArchitectureTargetProfile| ApplicabilityState::Applicable;
    let work_item_for = |t: &String| format!("work:{t}");
    let scope_evidence = |t: &String, _scope: ArchitectureScope| Ok::<String, ArchitectureError>(format!("scope:{t}"));
    let record = |id: &str, target: Option<&str>| DocumentationEvidence { id: id.to_owned(), target: target.map(str::to_owned) };
    let unknown = vec![record("e1", Some("elsewhere"))];
    assert!(matches!(
        plan_architecture_units(&inventory, &unknown, "p", "p@1", evaluate, work_item_for, scope_evidence),
        Err(ArchitectureError::UnknownEvidenceTarget)
    ));
    let repeated = vec![record("e1", Some("crate")), record("e1", None)];
    assert!(matches!(
        plan_architecture_units(&inventory, &repeated, "p", "p@1", evaluate, work_item_for, scope_evidence),
        Err(ArchitectureError::DuplicateEvidence)
    ));
    let known = vec![record("e2", Some("crate")), record("e1", Some("crate")), record("e0", None)];
    let plan = plan_architecture_units(&inventory, &known, "p", "p@1", evaluate, work_item_for, scope_evidence).unwrap();
    assert_eq!(plan.units[0].evidence, vec!["e1".to_owned(), "e2".to_owned(), "scope:crate".to_owned()]);
    assert_eq!(plan.evidence.len(), 3 + 5);
    assert_eq!(plan.evidence[0], "e0");
    let failing = |_t: &String, _scope: ArchitectureScope| Err::<String, ArchitectureError>(ArchitectureError::ScopeBudgetExceeded);
    assert!(matches!(
        plan_architecture_units(&inventory, &known, "p", "p@1", evaluate, work_item_for, failing),
        Err(ArchitectureError::ScopeBudgetExceeded)
    ));
}

/// A JSON rendering of scope evidence, written out by hand.
fn render(e: &ArchitectureScopeEvidence) -> Result<Vec<u8>, ArchitectureError> {
    let facts = |v: &Vec<ArchitectureTargetFact>| {
        v.iter().map(|t| format!("{{\"id\":\"{}\",\"name\":\"{}\"}}", t.id, t.name)).collect::<Vec<_>>().join(",")
    };
    let text = format!(
        "{{\"target\":\"{}\",\"constituents\":[{}],\"omitted_constituents\":{},\"boundary_targets\":[{}],\"omitted_boundary_targets\":{}}}",
        e.target,
        facts(&e.constituents),
        e.omitted_constituents,
        facts(&e.boundary_targets),
        e.omitted_boundary_targets
    );
    Ok(text.into_bytes())
}

#[test]
fn scope_evidence_record_is_an_inferred_architecture_graph_within_budget() {
    let inventory = prepare_architecture_inventory(&crate_targets(), "workspace", &crate_relations()).unwrap();
    let structure = scope_structure("crate", &inventory.targets, &inventory.relations);
    let mut evidence = assemble_scope_evidence(
        "crate",
        ArchitectureScope::Package,
        structure,
        &inventory.targets,
        &inventory.relations,
        "fingerprint:crate".to_owned(),
    );
    assert_eq!(evidence.constituents.len(), 3);
    assert_eq!(evidence.internal_relations.len(), 2);
    assert!(evidence.boundary_relations.is_empty());
    let bytes = enforce_scope_byte_budget(&mut evidence, &render).unwrap();
    assert!(bytes.len() <= MAX_SCOPE_EVIDENCE_BYTES);
    assert_eq!(evidence.omitted_constituents, 0);
    let package = inventory.targets.iter().find(|t| t.id == "crate").unwrap();
    let detail = String::from_utf8(bytes).unwrap();
    let record =
        scope_evidence_record(package, ArchitectureScope::Package, "config:1", "scope:crate".to_owned(), detail.clone())
            .unwrap();
    assert_eq!(record.kind, EvidenceKind::ArchitectureGraph);
    assert_eq!(record.origin, EvidenceOrigin::Inference);
    assert_eq!(record.target.as_deref(), Some("crate"));
    assert_eq!(record.summary, "Deterministic Package architecture graph for crate");
    assert_eq!(record.detail, detail);
    assert_eq!(record.provider, "argus-architecture-synthesis");
    assert_eq!(record.configuration, "config:1");
    let too_long = "x".repeat(MAX_SCOPE_EVIDENCE_BYTES + 1);
    assert!(matches!(
        scope_evidence_record(package, ArchitectureScope::Package, "config:1", "id".to_owned(), too_long),
        Err(ArchitectureError::ScopeBudgetExceeded)
    ));
}

#[test]
fn serialized_scope_evidence_is_trimmed_to_the_hard_byte_budget() {
    let mut evidence = ArchitectureScopeEvidence {
        schema_version: 1,
        fingerprint: "fingerprint:large-scope".to_owned(),
        target: "large-scope".to_owned(),
        scope: ArchitectureScope::Workspace,
        constituents: Vec::new(),
        omitted_constituents: 0,
        boundary_targets: (0..400)
            .map(|index| ArchitectureTargetFact {
                id: format!("target-{index}"),
                name: "x".repeat(4_096),
                visibility: TargetVisibility::Private,
                inventory: InventoryState::Represented,
                parent: Some("large-scope".to_owned()),
            })
            .collect(),
        omitted_boundary_targets: 0,
        internal_relations: Vec::new(),
        omitted_internal_relations: 0,
        boundary_relations: Vec::new(),
        omitted_boundary_relations: 0,
        dependency_cycles: Vec::new(),
        omitted_dependency_cycles: 0,
        constituent_health: ConstituentHealthSummary {
            total_constituents: 0,
            succeeded_constituents: 0,
            failed_constituents: 0,
            unable_to_verify_constituents: 0,
        },
    };
    let bytes = enforce_scope_byte_budget(&mut evidence, &render).unwrap();
    assert!(bytes.len() <= MAX_SCOPE_EVIDENCE_BYTES);
    assert_eq!(bytes, render(&evidence).unwrap());
    assert!(evidence.omitted_boundary_targets > 0);
    assert_eq!(evidence.boundary_targets.len() + evidence.omitted_boundary_targets, 400);
    let mut smaller = evidence;
    let boundary = smaller.boundary_targets.len();
    assert!(trim_scope_evidence(&mut smaller));
    assert_eq!(smaller.boundary_targets.len(), boundary - 1);
}

#[test]
fn trimming_takes_boundary_targets_before_anything_else_and_stops_when_empty() {
    let fact = |id: &str| ArchitectureTargetFact {
        id: id.to_owned(),
        name: id.to_owned(),
        visibility: TargetVisibility::Public,
        inventory: InventoryState::Represented,
        parent: None,
    };
    let mut evidence = ArchitectureScopeEvidence {
        schema_version: 1,
        fingerprint: "f".to_owned(),
        target: "t".to_owned(),
        scope: ArchitectureScope::Module,
        constituents: vec![fact("c")],
        omitted_constituents: 0,
        boundary_targets: vec![fact("b")],
        omitted_boundary_targets: 0,
        internal_relations: Vec::new(),
        omitted_internal_relations: 0,
        boundary_relations: Vec::new(),
        omitted_boundary_relations: 0,
        dependency_cycles: vec![vec!["x".to_owned(), "y".to_owned()]],
        omitted_dependency_cycles: 0,
        constituent_health: ConstituentHealthSummary {
            total_constituents: 1,
            succeeded_constituents: 1,
            failed_constituents: 0,
            unable_to_verify_constituents: 0,
        },
    };
    assert!(trim_scope_evidence(&mut evidence));
    assert_eq!((evidence.boundary_targets.len(), evidence.omitted_boundary_targets), (0, 1));
    assert_eq!(evidence.constituents.len(), 1);
    assert!(trim_scope_evidence(&mut evidence));
    assert_eq!((evidence.constituents.len(), evidence.omitted_constituents), (0, 1));
    assert!(trim_scope_evidence(&mut evidence));
    assert_eq!(evidence.omitted_dependency_cycles, 1);
    assert!(!trim_scope_evidence(&mut evidence));
    assert_eq!(evidence.constituent_health.total_constituents, 1);
}

#[test]
fn cycles_are_the_strongly_connected_dependency_groups() {
    let scope = vec!["a".to_owned(), "b".to_owned(), "c".to_owned(), "d".to_owned()];
    let relations = vec![
        relation("1", "a", "b", "rust:depends_on"),
        relation("2", "b", "a", "rust:depends_on"),
        relation("3", "c", "c", "rust:depends_on"),
        relation("4", "c", "d", "core:contains"),
        relation("5", "d", "c", "rust:depends_on"),
        relation("6", "a", "outside", "rust:depends_on"),
    ];
    let cycles = dependency_cycles(&scope, &relations);
    assert_eq!(cycles, vec![vec!["a".to_owned(), "b".to_owned()], vec!["c".to_owned()]]);
    assert!(dependency_cycles(&scope, &Vec::new()).is_empty());
}

#[test]
fn inherited_visibility_follows_parents_and_stops_on_loops() {
    let targets = vec![
        target("root", TargetForm::Other, TargetVisibility::Public, None, InventoryState::Represented),
        target("child", TargetForm::Other, TargetVisibility::Inherited, Some("root"), InventoryState::Represented),
        target("grandchild", TargetForm::Other, TargetVisibility::Inherited, Some("child"), InventoryState::Represented),
        target("loop-a", TargetForm::Other, TargetVisibility::Inherited, Some("loop-b"), InventoryState::Represented),
        target("loop-b", TargetForm::Other, TargetVisibility::Inherited, Some("loop-a"), InventoryState::Represented),
        target("orphan", TargetForm::Other, TargetVisibility::Inherited, Some("missing"), InventoryState::Represented),
    ];
    assert_eq!(effective_visibility(&targets[2], &targets), TargetVisibility::Public);
    assert_eq!(effective_visibility(&targets[3], &targets), TargetVisibility::Unknown);
    assert_eq!(effective_visibility(&targets[5], &targets), TargetVisibility::Unknown);
    assert_eq!(effective_visibility(&targets[0], &targets), TargetVisibility::Public);
}

#[test]
fn inventories_with_two_workspaces_or_repeated_identities_are_refused() {
    let mut two = crate_targets();
    two.push(target("ws-1", TargetForm::Workspace, TargetVisibility::Unknown, None, InventoryState::Represented));
    two.push(target("ws-2", TargetForm::Workspace, TargetVisibility::Unknown, None, InventoryState::Represented));
    assert!(matches!(normalize_architecture_targets(&two, "workspace"), Err(ArchitectureError::MultipleWorkspaces)));
    assert!(matches!(
        prepare_architecture_inventory(&two, "workspace", &crate_relations()),
        Err(ArchitectureError::MultipleWorkspaces)
    ));
    let mut repeated = crate_targets();
    repeated.push(target("crate::mod_b", TargetForm::Other, TargetVisibility::Public, None, InventoryState::Represented));
    assert!(matches!(
        prepare_architecture_inventory(&repeated, "workspace", &crate_relations()),
        Err(ArchitectureError::DuplicateTargets)
    ));
    let mut relations = crate_relations();
    relations.push(relation("a-to-b", "crate", "crate::mod_a", "core:contains"));
    assert!(matches!(
        prepare_architecture_inventory(&crate_targets(), "workspace", &relations),
        Err(ArchitectureError::DuplicateRelations)
    ));
    relations.pop();
    relations.push(relation("dangling", "crate", "elsewhere", "core:contains"));
    assert!(matches!(
        prepare_architecture_inventory(&crate_targets(), "workspace", &relations),
        Err(ArchitectureError::UnknownRelationTarget)
    ));
    assert_eq!(
        ArchitectureError::MultipleWorkspaces.message(),
        "architecture inventory contains multiple workspace targets"
    );
}

#[test]
fn scope_membership_follows_parents_and_containment() {
    let mut targets = crate_targets();
    targets.push(target("extra", TargetForm::Other, TargetVisibility::Public, Some("elsewhere"), InventoryState::Represented));
    let relations = vec![relation("contains", "crate::mod_b", "extra", "core:contains")];
    let scope = scope_target_ids("crate", &targets, &relations);
    assert_eq!(scope, vec!["crate", "crate::mod_a", "crate::mod_a::func", "crate::mod_b", "extra"]);
    assert_eq!(scope_target_ids("crate::mod_a::func", &targets, &relations), vec!["crate::mod_a::func"]);
}

#[test]
fn bounded_keeps_a_prefix_and_counts_the_rest() {
    assert_eq!(bounded(vec![1, 2, 3, 4], 2), (vec![1, 2], 2));
    assert_eq!(bounded(vec![1, 2], 5), (vec![1, 2], 0));
}
