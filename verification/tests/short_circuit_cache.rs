use argus_workflow::outcome::{OutcomeDisposition, OutcomeKind, OutcomeReceipt};
use argus_workflow::short_circuit::{
    CachedAssessment, ShortCircuitCacheWorkerResult, ShortCircuitSummary, cache_hit_outcome,
    cached_outcome_kind, reusable_artifact,
};

const HASH: &str = "0123456789abcdef0123456789abcdef0123456789abcdef0123456789abcdef";

fn cached(kind: &str, model: Option<&str>, references: &[&str]) -> CachedAssessment {
    CachedAssessment {
        outcome_kind: kind.to_owned(),
        prompt_version: "documentation-review@1".to_owned(),
        model_reuse_class: model.map(str::to_owned),
        artifact_references: references.iter().map(|r| (*r).to_owned()).collect(),
    }
}

#[test]
fn cached_labels_name_outcome_kinds_without_regard_to_case() {
    assert_eq!(cached_outcome_kind("passed"), OutcomeKind::Passed);
    assert_eq!(cached_outcome_kind("PASSED"), OutcomeKind::Passed);
    assert_eq!(cached_outcome_kind("Candidate_Findings"), OutcomeKind::CandidateFindings);
    assert_eq!(cached_outcome_kind("candidate-findings"), OutcomeKind::CandidateFindings);
    assert_eq!(cached_outcome_kind("Findings"), OutcomeKind::CandidateFindings);
    assert_eq!(cached_outcome_kind("UNABLE_TO_VERIFY"), OutcomeKind::UnableToVerify);
    assert_eq!(cached_outcome_kind("unable-to-verify"), OutcomeKind::UnableToVerify);
    assert_eq!(cached_outcome_kind("Suggestion"), OutcomeKind::Suggestion);
}

#[test]
fn unknown_cached_labels_record_a_failure() {
    assert_eq!(cached_outcome_kind("passed "), OutcomeKind::Failed);
    assert_eq!(cached_outcome_kind(""), OutcomeKind::Failed);
    assert_eq!(cached_outcome_kind("pass"), OutcomeKind::Failed);
    assert_eq!(cached_outcome_kind("unable to verify"), OutcomeKind::Failed);
}

#[test]
fn cache_hit_outcome_is_attributed_to_the_cache() {
    let o = cache_hit_outcome(
        "snapshot:1",
        "run:1",
        "work:1",
        "documentation@1",
        HASH,
        "artifact:1",
        &cached("Findings", Some("gpt-class"), &["artifact:1"]),
    );
    assert_eq!(o.logical_key.audit_snapshot, "snapshot:1");
    assert_eq!(o.logical_key.audit_run, "run:1");
    assert_eq!(o.logical_key.work_id, "work:1");
    assert_eq!(o.logical_key.policy_version, "documentation@1");
    assert_eq!(o.logical_key.evidence_revision, 1);
    assert_eq!(o.logical_key.workflow_hash, HASH);
    assert_eq!(o.result_ref, "artifact:1");
    assert_eq!(o.kind, OutcomeKind::CandidateFindings);
    assert_eq!(o.provenance.prompt_version, "documentation-review@1");
    assert_eq!(o.provenance.actor_id, "argus.cache-short-circuit");
    assert_eq!(o.provenance.actor_version, "1.0.0");
    assert_eq!(o.provenance.workflow_id, "argus.target-review");
    assert_eq!(o.provenance.workflow_version, "1.0.0");
    assert_eq!(o.provenance.provider.provider, "cached");
    assert_eq!(o.provenance.provider.provider_version, "1");
    assert_eq!(o.provenance.provider.model, "gpt-class");
    assert_eq!(o.provenance.provider.model_version, "cached");
    assert!(o.validate().is_ok());

    let o = cache_hit_outcome("s", "r", "w", "p@1", HASH, "a", &cached("passed", None, &[]));
    assert_eq!(o.provenance.provider.model, "cached");
    assert_eq!(o.kind, OutcomeKind::Passed);
}

#[test]
fn cache_hit_reuses_the_first_stored_artifact() {
    assert_eq!(reusable_artifact(&cached("passed", None, &[])), None);
    assert_eq!(
        reusable_artifact(&cached("passed", None, &["artifact:1", "artifact:2"])),
        Some("artifact:1".to_owned())
    );
}

fn receipt() -> OutcomeReceipt {
    let outcome = cache_hit_outcome("s", "r", "w", "p@1", HASH, "a", &cached("passed", None, &["a"]));
    OutcomeReceipt { disposition: OutcomeDisposition::Inserted, storage_key: "key".to_owned(), outcome }
}

#[test]
fn sweep_tallies_hits_and_misses_until_idle_or_full() {
    let mut summary = ShortCircuitSummary::new();
    assert!(summary.continues(2));
    assert!(!summary.continues(0));
    assert!(summary.tally(ShortCircuitCacheWorkerResult::Hit {
        work_id: "work:1".to_owned(),
        target: "target:1".to_owned(),
        policy: "policy:1".to_owned(),
        outcome_receipt: receipt(),
    }));
    assert!(summary.tally(ShortCircuitCacheWorkerResult::Miss {
        work_id: "work:2".to_owned(),
        target: "target:2".to_owned(),
        policy: "policy:1".to_owned(),
        reason: "no matching unexpired assessment in cache".to_owned(),
    }));
    assert_eq!(summary.hits, 1);
    assert_eq!(summary.misses, 1);
    assert_eq!(summary.hit_work_ids, vec!["work:1".to_owned()]);
    assert_eq!(summary.miss_work_ids, vec!["work:2".to_owned()]);
    assert!(!summary.continues(2));
    assert!(summary.continues(3));
    assert!(!summary.tally(ShortCircuitCacheWorkerResult::Idle));
    assert_eq!(summary.hits + summary.misses, 2);
}
