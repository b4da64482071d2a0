//! Recording candidate findings from the current decision, and scheduling
//! their verification work, so that replaying either step changes nothing.
use crate::actors::{OutputEvent, current_decision, current_decision_pos};
use crate::decision_schema::{member, object_of};
use crate::json::{Json, JsonMember, field, get_field, same, text_eq};
use crate::review::{candidate_ok, validate_candidate_draft};
use crate::shape::{Shape, fits};
use crate::textset::{lemma_views_push, set_contains, views};
use crate::workflow_data::{CandidateFindingRecord, ReviewWorkflowData};
use vstd::prelude::*;
use vstd::string::*;

verus! {

/// The positions of the candidates recorded for the current evidence
/// revision, in order.
pub open spec fn current_candidates(d: ReviewWorkflowData) -> Seq<int>
    decreases d.candidate_findings@.len(),
{
    current_candidates_upto(d, d.candidate_findings@.len() as int)
}

/// The positions below `n` of candidates of the current revision.
pub open spec fn current_candidates_upto(d: ReviewWorkflowData, n: int) -> Seq<int>
    decreases n,
{
    if n <= 0 {
        seq![]
    } else if d.candidate_findings@[n - 1].evidence_revision == d.evidence_revision {
        current_candidates_upto(d, n - 1).push(n - 1)
    } else {
        current_candidates_upto(d, n - 1)
    }
}

/// What recording candidates has to do.
#[derive(Debug)]
pub enum CandidateStep {
    /// Candidates of the current revision are already recorded.
    AlreadyRecorded,
    /// These drafts, from the current decision, are to be recorded.
    Record(Vec<Json>),
}

/// The drafts of the current decision, when it is a found candidate whose
/// payload lists them.
pub open spec fn current_drafts(d: ReviewWorkflowData) -> Option<Seq<Json>> {
    let p = current_decision_pos(d);
    if p < 0 {
        None
    } else {
        let decision = d.primary_decisions@[p];
        if decision.event_type@ != "review.candidate_found"@ {
            None
        } else {
            match field(decision.payload, "candidates"@) {
                Some(Json::Array(items)) => Some(items@),
                _ => None,
            }
        }
    }
}

/// Decides what recording candidates does: nothing when candidates of the
/// current revision exist; otherwise the drafts of the current decision,
/// which must be a found candidate listing them.
pub fn candidate_step(d: &ReviewWorkflowData) -> (r: Result<CandidateStep, String>)
    ensures
        current_candidates(*d).len() > 0 ==> r matches Ok(CandidateStep::AlreadyRecorded),
        current_candidates(*d).len() == 0 ==> (r is Ok <==> current_drafts(*d) is Some),
        r matches Ok(CandidateStep::Record(v)) ==> current_candidates(*d).len() == 0
            && v@.len() == current_drafts(*d).unwrap().len() && forall|i: int|
            0 <= i < v@.len() ==> same(#[trigger] v@[i], current_drafts(*d).unwrap()[i]),
{
    let mut i: usize = 0;
    while i < d.candidate_findings.len()
        invariant
            i <= d.candidate_findings@.len(),
            current_candidates_upto(*d, i as int).len() == 0,
        decreases d.candidate_findings.len() - i,
    {
        if d.candidate_findings[i].evidence_revision == d.evidence_revision {
            proof {
                assert(current_candidates_upto(*d, i + 1).len() > 0);
                lemma_current_grows(*d, i + 1, d.candidate_findings@.len() as int);
            }
            return Ok(CandidateStep::AlreadyRecorded);
        }
        i += 1;
    }
    let p = match current_decision(d) {
        Some(p) => p,
        None => {
            return Err("current primary decision is missing".to_owned());
        },
    };
    let decision = &d.primary_decisions[p];
    if !text_eq(decision.event_type.as_str(), "review.candidate_found") {
        return Err("candidate recorder requires a candidate-found decision".to_owned());
    }
    match get_field(&decision.payload, "candidates") {
        Some(Json::Array(items)) => {
            let mut drafts: Vec<Json> = Vec::new();
            let mut k: usize = 0;
            while k < items.len()
                invariant
                    k <= items@.len(),
                    drafts@.len() == k,
                    forall|j: int| 0 <= j < k ==> same(#[trigger] drafts@[j], items@[j]),
                decreases items.len() - k,
            {
                let copy = items[k].deep_clone();
                proof {
                    crate::json::lemma_same_sym(items@[k as int], copy);
                }
                drafts.push(copy);
                k += 1;
            }
            Ok(CandidateStep::Record(drafts))
        },
        _ => Err("candidate decision payload is invalid".to_owned()),
    }
}

proof fn lemma_current_grows(d: ReviewWorkflowData, m: int, n: int)
    requires
        0 <= m <= n,
        current_candidates_upto(d, m).len() > 0,
    ensures
        current_candidates_upto(d, n).len() > 0,
    decreases n - m,
{
    if m < n {
        lemma_current_grows(d, m + 1, n);
    }
}

/// Appends a candidate finding record for each draft of the current
/// revision, under the identity derived for it; refused, leaving the data
/// as it was, when a draft is not a valid candidate.
pub fn record_candidates(d: &mut ReviewWorkflowData, drafts: &Vec<Json>, ids: &Vec<String>) -> (r:
    Result<(), String>)
    requires
        ids@.len() == drafts@.len(),
    ensures
        r is Ok <==> forall|i: int| 0 <= i < drafts@.len() ==> candidate_ok(#[trigger] drafts@[i]),
        r is Err ==> final(d).candidate_findings@ == old(d).candidate_findings@,
        r is Ok ==> final(d).candidate_findings@.len() == old(d).candidate_findings@.len()
            + drafts@.len() && forall|i: int|
            0 <= i < old(d).candidate_findings@.len() ==> final(d).candidate_findings@[i]
                == old(d).candidate_findings@[i],
        r is Ok ==> forall|i: int|
            0 <= i < drafts@.len() ==> {
                let c = #[trigger] final(d).candidate_findings@[old(d).candidate_findings@.len() + i];
                &&& c.id@ == ids@[i]@
                &&& c.evidence_revision == old(d).evidence_revision
                &&& same(c.draft, drafts@[i])
            },
        final(d).evidence_revision == old(d).evidence_revision,
        final(d).primary_decisions@ == old(d).primary_decisions@,
        final(d).scheduled_verification_work@ == old(d).scheduled_verification_work@,
{
    let mut k: usize = 0;
    while k < drafts.len()
        invariant
            k <= drafts@.len(),
            forall|i: int| 0 <= i < k ==> candidate_ok(#[trigger] drafts@[i]),
        decreases drafts.len() - k,
    {
        match validate_candidate_draft(&drafts[k]) {
            Ok(()) => {},
            Err(message) => {
                let mut m = "invalid candidate finding: ".to_owned();
                m.append(message.as_str());
                return Err(m);
            },
        }
        k += 1;
    }
    let ghost start = d.candidate_findings@;
    let mut k: usize = 0;
    while k < drafts.len()
        invariant
            k <= drafts@.len(),
            ids@.len() == drafts@.len(),
            d.candidate_findings@.len() == start.len() + k,
            forall|i: int| 0 <= i < start.len() ==> d.candidate_findings@[i] == start[i],
            forall|i: int|
                0 <= i < k ==> {
                    let c = #[trigger] d.candidate_findings@[start.len() + i];
                    &&& c.id@ == ids@[i]@
                    &&& c.evidence_revision == d.evidence_revision
                    &&& same(c.draft, drafts@[i])
                },
            d.evidence_revision == old(d).evidence_revision,
            d.primary_decisions@ == old(d).primary_decisions@,
            d.scheduled_verification_work@ == old(d).scheduled_verification_work@,
            start == old(d).candidate_findings@,
        decreases drafts.len() - k,
    {
        let draft = drafts[k].deep_clone();
        proof {
            crate::json::lemma_same_sym(drafts@[k as int], draft);
        }
        let revision = d.evidence_revision;
        d.candidate_findings.push(
            CandidateFindingRecord { id: ids[k].clone(), evidence_revision: revision, draft },
        );
        k += 1;
    }
    Ok(())
}

/// The identifiers of the candidates of the current revision, in order.
pub open spec fn current_candidate_ids(d: ReviewWorkflowData) -> Seq<Seq<char>> {
    current_candidates(d).map_values(|k: int| d.candidate_findings@[k].id@)
}

/// `{"candidate_ids": [...]}` for the given texts.
pub open spec fn ids_payload(key: Seq<char>, ids: Seq<Seq<char>>) -> Shape {
    Shape::Object(seq![(key, Shape::Array(ids.map_values(|t: Seq<char>| Shape::Str(t))))])
}

fn texts_json(texts: &Vec<String>) -> (r: Json)
    ensures
        fits(r, Shape::Array(views(texts@).map_values(|t: Seq<char>| Shape::Str(t)))),
{
    let ghost shapes = views(texts@).map_values(|t: Seq<char>| Shape::Str(t));
    let mut items: Vec<Json> = Vec::new();
    let mut i: usize = 0;
    while i < texts.len()
        invariant
            i <= texts@.len(),
            items@.len() == i,
            shapes == views(texts@).map_values(|t: Seq<char>| Shape::Str(t)),
            forall|k: int| 0 <= k < i ==> fits(#[trigger] items@[k], shapes[k]),
        decreases texts.len() - i,
    {
        items.push(Json::Str(texts[i].clone()));
        i += 1;
    }
    Json::Array(items)
}

/// The event announcing the recorded candidates: `candidates.recorded` with
/// the identifiers of the current revision's candidates.
pub fn candidates_recorded_event(d: &ReviewWorkflowData) -> (r: OutputEvent)
    ensures
        r.event_type@ == "candidates.recorded"@,
        fits(r.payload, ids_payload("candidate_ids"@, current_candidate_ids(*d))),
{
    let mut ids: Vec<String> = Vec::new();
    let mut i: usize = 0;
    while i < d.candidate_findings.len()
        invariant
            i <= d.candidate_findings@.len(),
            views(ids@) == current_candidates_upto(*d, i as int).map_values(
                |k: int| d.candidate_findings@[k].id@,
            ),
        decreases d.candidate_findings.len() - i,
    {
        if d.candidate_findings[i].evidence_revision == d.evidence_revision {
            let ghost before = ids@;
            ids.push(d.candidate_findings[i].id.clone());
            proof {
                lemma_views_push(before, d.candidate_findings@[i as int].id);
                let f = |k: int| d.candidate_findings@[k].id@;
                let prev = current_candidates_upto(*d, i as int);
                assert(current_candidates_upto(*d, i + 1) == prev.push(i as int));
                assert(prev.push(i as int).map_values(f) =~= prev.map_values(f).push(f(i as int)));
            }
        } else {
            proof {
                assert(current_candidates_upto(*d, i + 1) == current_candidates_upto(*d, i as int));
            }
        }
        i += 1;
    }
    let ghost s = ids_payload("candidate_ids"@, current_candidate_ids(*d))->Object_0;
    let mut m: Vec<JsonMember> = Vec::new();
    m.push(member("candidate_ids", texts_json(&ids), Ghost(s[0].1)));
    OutputEvent { event_type: "candidates.recorded".to_owned(), payload: object_of(m, Ghost(s)) }
}

/// The positions of the candidates whose verification work (`work_ids`,
/// derived one per candidate) is not scheduled yet, in order.
pub fn unscheduled_candidates(d: &ReviewWorkflowData, work_ids: &Vec<String>) -> (r: Vec<usize>)
    requires
        work_ids@.len() == d.candidate_findings@.len(),
    ensures
        forall|a: int, b: int| 0 <= a < b < r@.len() ==> #[trigger] r@[a] < #[trigger] r@[b],
        forall|a: int| 0 <= a < r@.len() ==> (#[trigger] r@[a]) < work_ids@.len() && !views(
            d.scheduled_verification_work@,
        ).contains(work_ids@[r@[a] as int]@),
        forall|k: int|
            0 <= k < work_ids@.len() && !views(d.scheduled_verification_work@).contains(
                #[trigger] work_ids@[k]@,
            ) ==> r@.contains(k as usize),
{
    let mut r: Vec<usize> = Vec::new();
    let mut k: usize = 0;
    while k < work_ids.len()
        invariant
            k <= work_ids@.len(),
            forall|a: int, b: int| 0 <= a < b < r@.len() ==> #[trigger] r@[a] < #[trigger] r@[b],
            forall|a: int| 0 <= a < r@.len() ==> (#[trigger] r@[a]) < k && !views(
                d.scheduled_verification_work@,
            ).contains(work_ids@[r@[a] as int]@),
            forall|q: int|
                0 <= q < k && !views(d.scheduled_verification_work@).contains(
                    #[trigger] work_ids@[q]@,
                ) ==> r@.contains(q as usize),
        decreases work_ids.len() - k,
    {
        if !set_contains(&d.scheduled_verification_work, work_ids[k].as_str()) {
            let ghost before = r@;
            r.push(k);
            proof {
                assert forall|q: int|
                    0 <= q < k + 1 && !views(d.scheduled_verification_work@).contains(
                        #[trigger] work_ids@[q]@,
                    ) implies r@.contains(q as usize) by {
                    if q < k {
                        assert(before.contains(q as usize));
                        let m = choose|m: int| 0 <= m < before.len() && before[m] == q as usize;
                        assert(r@[m] == q as usize);
                    } else {
                        assert(r@[r@.len() - 1] == q as usize);
                    }
                }
            }
        }
        k += 1;
    }
    r
}

/// Records verification work as scheduled, in order.
pub fn record_scheduled(d: &mut ReviewWorkflowData, work_ids: &Vec<String>)
    ensures
        views(final(d).scheduled_verification_work@) == views(old(d).scheduled_verification_work@)
            + views(work_ids@),
        final(d).candidate_findings@ == old(d).candidate_findings@,
        final(d).primary_decisions@ == old(d).primary_decisions@,
        final(d).evidence_revision == old(d).evidence_revision,
{
    let ghost start = views(d.scheduled_verification_work@);
    let mut k: usize = 0;
    while k < work_ids.len()
        invariant
            k <= work_ids@.len(),
            views(d.scheduled_verification_work@) == start + views(work_ids@).subrange(0, k as int),
            start == views(old(d).scheduled_verification_work@),
            d.candidate_findings@ == old(d).candidate_findings@,
            d.primary_decisions@ == old(d).primary_decisions@,
            d.evidence_revision == old(d).evidence_revision,
        decreases work_ids.len() - k,
    {
        let ghost before = d.scheduled_verification_work@;
        d.scheduled_verification_work.push(work_ids[k].clone());
        proof {
            lemma_views_push(before, work_ids@[k as int]);
            assert(views(work_ids@).subrange(0, k + 1) =~= views(work_ids@).subrange(0, k as int).push(
                work_ids@[k as int]@,
            ));
            assert(views(d.scheduled_verification_work@) =~= start + views(work_ids@).subrange(
                0,
                k + 1,
            ));
        }
        k += 1;
    }
    proof {
        assert(views(work_ids@).subrange(0, work_ids@.len() as int) =~= views(work_ids@));
    }
}

/// The event announcing scheduled verification work:
/// `finding_work.scheduled` with every scheduled work item.
pub fn scheduled_event(d: &ReviewWorkflowData) -> (r: OutputEvent)
    ensures
        r.event_type@ == "finding_work.scheduled"@,
        fits(r.payload, ids_payload("work_ids"@, views(d.scheduled_verification_work@))),
{
    let ghost s = ids_payload("work_ids"@, views(d.scheduled_verification_work@))->Object_0;
    let mut m: Vec<JsonMember> = Vec::new();
    m.push(member("work_ids", texts_json(&d.scheduled_verification_work), Ghost(s[0].1)));
    OutputEvent { event_type: "finding_work.scheduled".to_owned(), payload: object_of(m, Ghost(s)) }
}

proof fn lemma_current_includes_last(d: ReviewWorkflowData, n: int)
    requires
        0 < n <= d.candidate_findings@.len(),
        d.candidate_findings@[n - 1].evidence_revision == d.evidence_revision,
    ensures
        current_candidates_upto(d, d.candidate_findings@.len() as int).len() > 0,
{
    assert(current_candidates_upto(d, n).len() > 0);
    lemma_current_grows(d, n, d.candidate_findings@.len() as int);
}

/// Recording candidates is safe to replay: once at least one candidate of
/// the current revision is recorded, the next attempt finds them and records
/// nothing.
pub proof fn law_recording_candidates_is_replay_safe(
    before: ReviewWorkflowData,
    after: ReviewWorkflowData,
    added: int,
)
    requires
        added > 0,
        after.evidence_revision == before.evidence_revision,
        after.candidate_findings@.len() == before.candidate_findings@.len() + added,
        forall|i: int|
            before.candidate_findings@.len() <= i < after.candidate_findings@.len()
                ==> (#[trigger] after.candidate_findings@[i]).evidence_revision
                == before.evidence_revision,
    ensures
        current_candidates(after).len() > 0,
{
    lemma_current_includes_last(after, after.candidate_findings@.len() as int);
}

/// Scheduling verification work is safe to replay: once the work of every
/// unscheduled candidate has been recorded as scheduled, every candidate's
/// work is scheduled, so the next attempt finds nothing to schedule.
pub proof fn law_scheduling_is_replay_safe(
    scheduled_before: Seq<Seq<char>>,
    work_ids: Seq<Seq<char>>,
    picked: Seq<usize>,
    scheduled_after: Seq<Seq<char>>,
)
    requires
        work_ids.len() <= usize::MAX,
        forall|a: int| 0 <= a < picked.len() ==> (#[trigger] picked[a]) < work_ids.len(),
        forall|k: int|
            0 <= k < work_ids.len() && !scheduled_before.contains(#[trigger] work_ids[k])
                ==> picked.contains(k as usize),
        scheduled_after == scheduled_before + picked.map_values(|k: usize| work_ids[k as int]),
    ensures
        forall|k: int| 0 <= k < work_ids.len() ==> scheduled_after.contains(#[trigger] work_ids[k]),
{
    assert forall|k: int| 0 <= k < work_ids.len() implies scheduled_after.contains(
        #[trigger] work_ids[k],
    ) by {
        if scheduled_before.contains(work_ids[k]) {
            let i = choose|i: int| 0 <= i < scheduled_before.len() && scheduled_before[i] == work_ids[k];
            assert(scheduled_after[i] == work_ids[k]);
        } else {
            assert(picked.contains(k as usize));
            let a = choose|a: int| 0 <= a < picked.len() && picked[a] == k as usize;
            assert(picked[a] as int == k);
            assert(picked.map_values(|k: usize| work_ids[k as int])[a] == work_ids[k]);
            assert(scheduled_after[scheduled_before.len() + a] == work_ids[k]);
        }
    }
}

} // verus!
