use argus_workflow::finding_work::{
    CandidateStep, candidate_step, candidates_recorded_event, record_candidates, record_scheduled,
    scheduled_event, unscheduled_candidates,
};
use argus_workflow::json::{Json, JsonMember};
use argus_workflow::workflow_data::{PrimaryReviewDecision, ProviderIdentity, ReviewWorkflowData};

fn s(text: &str) -> Json {
    Json::Str(text.to_owned())
}

fn obj(members: Vec<(&str, Json)>) -> Json {
    Json::Object(
        members
            .into_iter()
            .map(|(key, value)| JsonMember { key: key.to_owned(), value })
            .collect(),
    )
}

fn candidate(confidence: u64) -> Json {
    obj(vec![
        ("title", s("Missing contract")),
        ("description", s("Public behavior is not documented.")),
        ("severity", s("medium")),
        ("confidence_basis_points", Json::UInt(confidence)),
    ])
}

fn data(candidates: Vec<Json>) -> ReviewWorkflowData {
    ReviewWorkflowData {
        work_id: "work:candidate-parent".to_owned(),
        review_unit_id: "crate:fixture".to_owned(),
        policy_id: "policy:documentation".to_owned(),
        evidence_package_ref: "evidence:1".to_owned(),
        evidence_revision: 1,
        primary_decisions: vec![PrimaryReviewDecision {
            evidence_revision: 1,
            event_type: "review.candidate_found".to_owned(),
            payload: obj(vec![("assessment", obj(vec![])), ("candidates", Json::Array(candidates))]),
            provider: ProviderIdentity {
                provider: "fixture-local".to_owned(),
                provider_version: "1".to_owned(),
                model: "fixture-model".to_owned(),
                model_version: "pinned".to_owned(),
            },
            request_id: "run-1:primary_review:evidence-1".to_owned(),
            attempt: 0,
        }],
        candidate_findings: Vec::new(),
        scheduled_verification_work: Vec::new(),
        verification_results: Vec::new(),
        evidence_request_decisions: Vec::new(),
        evidence_expansions: Vec::new(),
        escalation_count: 0,
        evidence_expansion_count: 0,
        adjudication: None,
    }
}

fn record_once(d: &mut ReviewWorkflowData) {
    match candidate_step(d).unwrap() {
        CandidateStep::AlreadyRecorded => {},
        CandidateStep::Record(drafts) => {
            let ids = (0..drafts.len()).map(|i| format!("finding:{i}")).collect::<Vec<_>>();
            record_candidates(d, &drafts, &ids).unwrap();
        },
    }
}

fn schedule_once(d: &mut ReviewWorkflowData) {
    let work_ids = d.candidate_findings.iter().map(|c| format!("verify:{}", c.id)).collect::<Vec<_>>();
    let pending = unscheduled_candidates(d, &work_ids);
    let new_work = pending.iter().map(|k| work_ids[*k].clone()).collect::<Vec<_>>();
    record_scheduled(d, &new_work);
}

#[test]
fn candidate_recording_and_scheduling_are_replay_safe() {
    let mut d = data(vec![candidate(8500)]);
    record_once(&mut d);
    record_once(&mut d);
    assert_eq!(d.candidate_findings.len(), 1);
    assert_eq!(d.candidate_findings[0].evidence_revision, 1);
    assert_eq!(d.candidate_findings[0].draft, candidate(8500));

    schedule_once(&mut d);
    schedule_once(&mut d);
    assert_eq!(d.scheduled_verification_work, vec!["verify:finding:0".to_owned()]);
    let event = scheduled_event(&d);
    assert_eq!(event.event_type, "finding_work.scheduled");
    assert_eq!(event.payload, obj(vec![("work_ids", Json::Array(vec![s("verify:finding:0")]))]));
    let recorded = candidates_recorded_event(&d);
    assert_eq!(recorded.event_type, "candidates.recorded");
    assert_eq!(recorded.payload, obj(vec![("candidate_ids", Json::Array(vec![s("finding:0")]))]));
}

#[test]
fn invalid_drafts_leave_the_candidates_unchanged() {
    let mut d = data(vec![candidate(8500), candidate(20_000)]);
    let drafts = match candidate_step(&d).unwrap() {
        CandidateStep::Record(drafts) => drafts,
        CandidateStep::AlreadyRecorded => panic!("nothing is recorded yet"),
    };
    assert!(record_candidates(&mut d, &drafts, &vec!["a".to_owned(), "b".to_owned()]).is_err());
    assert!(d.candidate_findings.is_empty());
}

#[test]
fn only_a_found_candidate_decision_yields_drafts() {
    let mut d = data(vec![candidate(8500)]);
    d.primary_decisions[0].event_type = "review.pass".to_owned();
    assert!(candidate_step(&d).is_err());
}
