//! The durable data of one target-review workflow run: its records, their
//! validity, the transitions an actor may apply, and compare-and-swap.
use crate::equiv::{Same, starts_with, vec_starts_with};
use crate::evidence::{
    EvidenceExpansionRecord, EvidenceRequestDecision, EvidenceRequestDisposition, ExpansionUsage,
    no_usage, usage_after_request,
};
use crate::hashing::{append_bytes, blake3_hex, blake3_hex_of};
use crate::json::{Json, lemma_same_refl, text_eq};
use crate::review::{candidate_ok, payload_ok, validate_candidate_draft, validate_review_payload};
use crate::text::{is_normalized, is_normalized_text};
use vstd::prelude::*;
use vstd::string::*;

verus! {

/// The schema version of stored workflow data records.
pub const WORKFLOW_DATA_SCHEMA_VERSION: u32 = 1;

/// The model provider and model that produced a decision.
#[derive(Debug)]
pub struct ProviderIdentity {
    pub provider: String,
    pub provider_version: String,
    pub model: String,
    pub model_version: String,
}

impl ProviderIdentity {
    /// Every part of the identity is a non-empty normalized text.
    pub open spec fn valid(&self) -> bool {
        &&& is_normalized(self.provider@)
        &&& is_normalized(self.provider_version@)
        &&& is_normalized(self.model@)
        &&& is_normalized(self.model_version@)
    }

    /// Checks that every part of the identity is a non-empty normalized text.
    pub fn validate(&self) -> (r: Result<(), String>)
        ensures
            r is Ok <==> self.valid(),
    {
        if is_normalized_text(self.provider.as_str()) && is_normalized_text(
            self.provider_version.as_str(),
        ) && is_normalized_text(self.model.as_str()) && is_normalized_text(
            self.model_version.as_str(),
        ) {
            Ok(())
        } else {
            Err("provider and model identities must be non-empty and normalized".to_owned())
        }
    }
}

impl Same for ProviderIdentity {
    open spec fn same_as(&self, other: &Self) -> bool {
        &&& self.provider@ == other.provider@
        &&& self.provider_version@ == other.provider_version@
        &&& self.model@ == other.model@
        &&& self.model_version@ == other.model_version@
    }

    fn eq_to(&self, other: &Self) -> (r: bool) {
        self.provider.eq_to(&other.provider) && self.provider_version.eq_to(
            &other.provider_version,
        ) && self.model.eq_to(&other.model) && self.model_version.eq_to(&other.model_version)
    }
}

/// A candidate finding derived from the model's draft.
#[derive(Debug)]
pub struct CandidateFindingRecord {
    pub id: String,
    pub evidence_revision: u32,
    pub draft: Json,
}

impl Same for CandidateFindingRecord {
    open spec fn same_as(&self, other: &Self) -> bool {
        &&& self.id@ == other.id@
        &&& self.evidence_revision == other.evidence_revision
        &&& self.draft.same_as(&other.draft)
    }

    fn eq_to(&self, other: &Self) -> (r: bool) {
        self.id.eq_to(&other.id) && self.evidence_revision == other.evidence_revision
            && self.draft.eq_to(&other.draft)
    }
}

/// The primary review decision taken for one evidence revision.
#[derive(Debug)]
pub struct PrimaryReviewDecision {
    pub evidence_revision: u32,
    pub event_type: String,
    pub payload: Json,
    pub provider: ProviderIdentity,
    pub request_id: String,
    pub attempt: u32,
}

impl Same for PrimaryReviewDecision {
    open spec fn same_as(&self, other: &Self) -> bool {
        &&& self.evidence_revision == other.evidence_revision
        &&& self.event_type@ == other.event_type@
        &&& self.payload.same_as(&other.payload)
        &&& self.provider.same_as(&other.provider)
        &&& self.request_id@ == other.request_id@
        &&& self.attempt == other.attempt
    }

    fn eq_to(&self, other: &Self) -> (r: bool) {
        self.evidence_revision == other.evidence_revision && self.event_type.eq_to(
            &other.event_type,
        ) && self.payload.eq_to(&other.payload) && self.provider.eq_to(&other.provider)
            && self.request_id.eq_to(&other.request_id) && self.attempt == other.attempt
    }
}

/// Everything the actors of one review run have decided so far.
#[derive(Debug)]
pub struct ReviewWorkflowData {
    pub work_id: String,
    pub review_unit_id: String,
    pub policy_id: String,
    pub evidence_package_ref: String,
    pub evidence_revision: u32,
    pub primary_decisions: Vec<PrimaryReviewDecision>,
    pub candidate_findings: Vec<CandidateFindingRecord>,
    pub scheduled_verification_work: Vec<String>,
    pub verification_results: Vec<String>,
    pub evidence_request_decisions: Vec<EvidenceRequestDecision>,
    pub evidence_expansions: Vec<EvidenceExpansionRecord>,
    pub escalation_count: u32,
    pub evidence_expansion_count: u32,
    pub adjudication: Option<String>,
}

impl Same for ReviewWorkflowData {
    open spec fn same_as(&self, other: &Self) -> bool {
        &&& self.work_id@ == other.work_id@
        &&& self.review_unit_id@ == other.review_unit_id@
        &&& self.policy_id@ == other.policy_id@
        &&& self.evidence_package_ref@ == other.evidence_package_ref@
        &&& self.evidence_revision == other.evidence_revision
        &&& crate::equiv::all_same(self.primary_decisions@, other.primary_decisions@)
        &&& crate::equiv::all_same(self.candidate_findings@, other.candidate_findings@)
        &&& crate::equiv::all_same(
            self.scheduled_verification_work@,
            other.scheduled_verification_work@,
        )
        &&& crate::equiv::all_same(self.verification_results@, other.verification_results@)
        &&& crate::equiv::all_same(
            self.evidence_request_decisions@,
            other.evidence_request_decisions@,
        )
        &&& crate::equiv::all_same(self.evidence_expansions@, other.evidence_expansions@)
        &&& self.escalation_count == other.escalation_count
        &&& self.evidence_expansion_count == other.evidence_expansion_count
        &&& self.adjudication.same_as(&other.adjudication)
    }

    fn eq_to(&self, other: &Self) -> (r: bool) {
        self.work_id.eq_to(&other.work_id) && self.review_unit_id.eq_to(&other.review_unit_id)
            && self.policy_id.eq_to(&other.policy_id) && self.evidence_package_ref.eq_to(
            &other.evidence_package_ref,
        ) && self.evidence_revision == other.evidence_revision && crate::equiv::vec_same(
            &self.primary_decisions,
            &other.primary_decisions,
        ) && crate::equiv::vec_same(&self.candidate_findings, &other.candidate_findings)
            && crate::equiv::vec_same(
            &self.scheduled_verification_work,
            &other.scheduled_verification_work,
        ) && crate::equiv::vec_same(&self.verification_results, &other.verification_results)
            && crate::equiv::vec_same(
            &self.evidence_request_decisions,
            &other.evidence_request_decisions,
        ) && crate::equiv::vec_same(&self.evidence_expansions, &other.evidence_expansions)
            && self.escalation_count == other.escalation_count && self.evidence_expansion_count
            == other.evidence_expansion_count && self.adjudication.eq_to(&other.adjudication)
    }
}

/// Identities that the workflow data cannot compute itself: for each
/// candidate finding its derived finding ID and verification work ID, and for
/// each evidence request decision the content hash of its authorization
/// (request, classification and next usage).
#[derive(Debug)]
pub struct DerivedIdentities {
    pub candidate_ids: Vec<String>,
    pub verification_ids: Vec<String>,
    pub authorization_hashes: Vec<String>,
}

/// The derived identities line up with the data they were derived from.
pub open spec fn derived_fits(d: ReviewWorkflowData, x: DerivedIdentities) -> bool {
    &&& x.candidate_ids@.len() == d.candidate_findings@.len()
    &&& x.verification_ids@.len() == d.candidate_findings@.len()
    &&& x.authorization_hashes@.len() == d.evidence_request_decisions@.len()
}

/// A list of non-empty normalized texts without repeats.
pub open spec fn unique_texts(v: Seq<String>) -> bool {
    &&& forall|i: int| 0 <= i < v.len() ==> is_normalized((#[trigger] v[i])@)
    &&& forall|i: int, j: int| 0 <= i < j < v.len() ==> (#[trigger] v[i])@ != (#[trigger] v[j])@
}

/// The approved-request usage after the first `k` decisions.
pub open spec fn usage_after(ds: Seq<EvidenceRequestDecision>, k: int) -> ExpansionUsage
    decreases k,
{
    if k <= 0 {
        no_usage()
    } else {
        let u = usage_after(ds, k - 1);
        if ds[k - 1].disposition is Allowed {
            usage_after_request(u, ds[k - 1].request.additional_budget)
        } else {
            u
        }
    }
}

/// Decision `k` of the request decisions is well formed: a later revision than
/// the previous decision, a request payload that is complete and numbered after
/// the requests approved so far, and, when approved, an authorization that
/// binds exactly this request, the usage it leads to and its content hash.
pub open spec fn request_decision_ok(
    d: ReviewWorkflowData,
    x: DerivedIdentities,
    k: int,
) -> bool {
    let ds = d.evidence_request_decisions@;
    let dk = ds[k];
    let req = dk.request;
    let u = usage_after(ds, k);
    &&& dk.evidence_revision > (if k == 0 {
        0
    } else {
        ds[k - 1].evidence_revision as int
    })
    &&& dk.evidence_revision <= d.evidence_revision
    &&& req.sequence as int == sat1(u.approved_requests)
    &&& is_normalized(req.rationale@)
    &&& req.requested_targets@.len() > 0
    &&& req.requested_kinds@.len() > 0
    &&& req.additional_budget.max_bytes != 0
    &&& req.additional_budget.max_tokens != 0
    &&& req.additional_budget.max_items != 0
    &&& (dk.disposition matches EvidenceRequestDisposition::Allowed { authorization } ==> {
        &&& authorization.request.same_as(&req)
        &&& authorization.next_usage == usage_after_request(u, req.additional_budget)
        &&& authorization.authorization_hash@ == x.authorization_hashes@[k]@
    })
}

/// `n + 1`, saturating at `u32::MAX`.
pub open spec fn sat1(n: u32) -> int {
    if n == u32::MAX {
        u32::MAX as int
    } else {
        n + 1
    }
}

/// All evidence request decisions are well formed.
pub open spec fn request_decisions_ok(d: ReviewWorkflowData, x: DerivedIdentities) -> bool {
    forall|k: int|
        0 <= k < d.evidence_request_decisions@.len() ==> #[trigger] request_decision_ok(d, x, k)
}

/// Position of the first request decision of revision `rev`, or -1.
pub open spec fn decision_pos_from(ds: Seq<EvidenceRequestDecision>, rev: u32, i: int) -> int
    decreases ds.len() - i,
{
    if i < 0 || i >= ds.len() {
        -1
    } else if ds[i].evidence_revision == rev {
        i
    } else {
        decision_pos_from(ds, rev, i + 1)
    }
}

pub open spec fn decision_pos(ds: Seq<EvidenceRequestDecision>, rev: u32) -> int {
    decision_pos_from(ds, rev, 0)
}

/// Expansion `k` is backed by the approved request of its source revision,
/// advances the revision by one from the request's base package, and continues
/// the chain of the previous expansion.
pub open spec fn expansion_ok(d: ReviewWorkflowData, k: int) -> bool {
    let es = d.evidence_expansions@;
    let e = es[k];
    let ds = d.evidence_request_decisions@;
    let p = decision_pos(ds, e.from_revision);
    &&& p >= 0
    &&& ds[p].disposition is Allowed
    &&& e.to_revision as int == sat1(e.from_revision)
    &&& e.to_revision <= d.evidence_revision
    &&& e.previous_package@ == ds[p].request.base_package@
    &&& e.authorization_hash@ == ds[p].disposition->Allowed_authorization.authorization_hash@
    &&& (k > 0 ==> {
        &&& es[k - 1].to_revision == e.from_revision
        &&& es[k - 1].package_ref@ == e.previous_package@
    })
}

/// The expansion chain is consistent with the count, the request decisions and
/// the active evidence package.
pub open spec fn expansions_ok(d: ReviewWorkflowData) -> bool {
    let es = d.evidence_expansions@;
    &&& d.evidence_expansion_count as int == es.len()
    &&& forall|k: int| 0 <= k < es.len() ==> #[trigger] expansion_ok(d, k)
    &&& forall|i: int, j: int|
        0 <= i < j < es.len() ==> (#[trigger] es[i]).authorization_hash@ != (
        #[trigger] es[j]).authorization_hash@
    &&& es.len() > 0 ==> {
        &&& es[es.len() - 1].to_revision == d.evidence_revision
        &&& es[es.len() - 1].package_ref@ == d.evidence_package_ref@
    }
}

/// Candidate `k` has a valid draft, a revision in `1..=evidence_revision` and the
/// identity derived for it.
pub open spec fn candidate_record_ok(
    d: ReviewWorkflowData,
    x: DerivedIdentities,
    k: int,
) -> bool {
    let c = d.candidate_findings@[k];
    &&& candidate_ok(c.draft)
    &&& c.evidence_revision != 0
    &&& c.evidence_revision <= d.evidence_revision
    &&& c.id@ == x.candidate_ids@[k]@
}

/// All candidates are valid and their IDs distinct.
pub open spec fn candidates_valid(d: ReviewWorkflowData, x: DerivedIdentities) -> bool {
    let cs = d.candidate_findings@;
    &&& forall|k: int| 0 <= k < cs.len() ==> #[trigger] candidate_record_ok(d, x, k)
    &&& forall|i: int, j: int|
        0 <= i < j < cs.len() ==> (#[trigger] cs[i]).id@ != (#[trigger] cs[j]).id@
}

/// The work item is the verification work of some candidate.
pub open spec fn known_work(x: DerivedIdentities, w: String) -> bool {
    exists|k: int| 0 <= k < x.verification_ids@.len() && (#[trigger] x.verification_ids@[k])@ == w@
}

/// Each scheduled verification work item is the verification work of some
/// candidate, and none is scheduled twice.
pub open spec fn scheduled_ok(d: ReviewWorkflowData, x: DerivedIdentities) -> bool {
    let w = d.scheduled_verification_work@;
    &&& forall|i: int| 0 <= i < w.len() ==> known_work(x, #[trigger] w[i])
    &&& forall|i: int, j: int| 0 <= i < j < w.len() ==> (#[trigger] w[i])@ != (#[trigger] w[j])@
}

/// Primary decision `k` follows the previous one in revision, does not run
/// ahead of the evidence, and is a well-formed decision of a valid provider.
pub open spec fn primary_decision_ok(d: ReviewWorkflowData, k: int) -> bool {
    let ps = d.primary_decisions@;
    let p = ps[k];
    &&& p.evidence_revision > (if k == 0 {
        0
    } else {
        ps[k - 1].evidence_revision as int
    })
    &&& p.evidence_revision <= d.evidence_revision
    &&& is_normalized(p.event_type@)
    &&& is_normalized(p.request_id@)
    &&& p.provider.valid()
    &&& payload_ok(p.event_type@, p.payload)
}

/// The workflow data is internally consistent.
pub open spec fn data_ok(d: ReviewWorkflowData, x: DerivedIdentities) -> bool {
    &&& is_normalized(d.review_unit_id@)
    &&& is_normalized(d.evidence_package_ref@)
    &&& d.evidence_revision != 0
    &&& unique_texts(d.verification_results@)
    &&& request_decisions_ok(d, x)
    &&& expansions_ok(d)
    &&& candidates_valid(d, x)
    &&& scheduled_ok(d, x)
    &&& (d.adjudication matches Some(a) ==> is_normalized(a@))
    &&& forall|k: int| 0 <= k < d.primary_decisions@.len() ==> #[trigger] primary_decision_ok(d, k)
}

/// The errors of the workflow data store.
#[derive(Debug)]
pub enum WorkflowDataError {
    Storage(String),
    Json(String),
    Invalid(String),
    Missing,
    Conflict { expected_revision: Option<u64>, actual_revision: u64 },
}

impl WorkflowDataError {
    /// The text of the error's message.
    pub open spec fn message_text(&self) -> Seq<char> {
        match self {
            WorkflowDataError::Storage(m) => "workflow data storage failed: "@ + m@,
            WorkflowDataError::Json(m) => "workflow data JSON is invalid: "@ + m@,
            WorkflowDataError::Invalid(m) => "invalid workflow data: "@ + m@,
            WorkflowDataError::Missing => "workflow data record does not exist"@,
            WorkflowDataError::Conflict { .. } => "workflow data revision conflict"@,
        }
    }

    /// The error's message.
    pub fn message(&self) -> (r: String)
        ensures
            r@ == self.message_text(),
    {
        match self {
            WorkflowDataError::Storage(m) => {
                let mut s = "workflow data storage failed: ".to_owned();
                s.append(m.as_str());
                s
            },
            WorkflowDataError::Json(m) => {
                let mut s = "workflow data JSON is invalid: ".to_owned();
                s.append(m.as_str());
                s
            },
            WorkflowDataError::Invalid(m) => {
                let mut s = "invalid workflow data: ".to_owned();
                s.append(m.as_str());
                s
            },
            WorkflowDataError::Missing => "workflow data record does not exist".to_owned(),
            WorkflowDataError::Conflict { .. } => "workflow data revision conflict".to_owned(),
        }
    }
}

fn invalid(message: &str) -> (e: WorkflowDataError)
    ensures
        e matches WorkflowDataError::Invalid(m) && m@ == message@,
{
    WorkflowDataError::Invalid(message.to_owned())
}

/// Checks that a named field is non-empty and normalized.
pub fn validate_text(name: &str, value: &str) -> (r: Result<(), WorkflowDataError>)
    ensures
        r is Ok <==> is_normalized(value@),
        r is Err ==> r->Err_0 is Invalid,
{
    if is_normalized_text(value) {
        Ok(())
    } else {
        let mut message = name.to_owned();
        message.append(" must be non-empty and normalized");
        Err(WorkflowDataError::Invalid(message))
    }
}

/// Whether `v[..upto]` holds `item`.
fn text_in_prefix(v: &Vec<String>, upto: usize, item: &str) -> (r: bool)
    requires
        upto <= v.len(),
    ensures
        r == exists|i: int| 0 <= i < upto && (#[trigger] v@[i])@ == item@,
{
    let mut i: usize = 0;
    while i < upto
        invariant
            i <= upto <= v.len(),
            forall|j: int| 0 <= j < i ==> (#[trigger] v@[j])@ != item@,
        decreases upto - i,
    {
        if text_eq(v[i].as_str(), item) {
            return true;
        }
        i += 1;
    }
    false
}

/// Index of the first request decision of revision `rev`.
fn find_decision(ds: &Vec<EvidenceRequestDecision>, rev: u32) -> (r: Option<usize>)
    ensures
        match r {
            Some(i) => i as int == decision_pos(ds@, rev) && i < ds.len(),
            None => decision_pos(ds@, rev) == -1,
        },
{
    let mut i: usize = 0;
    while i < ds.len()
        invariant
            i <= ds.len(),
            decision_pos(ds@, rev) == decision_pos_from(ds@, rev, i as int),
        decreases ds.len() - i,
    {
        if ds[i].evidence_revision == rev {
            return Some(i);
        }
        i += 1;
    }
    None
}

impl ReviewWorkflowData {
    /// Checks that the workflow data is internally consistent.
    #[verifier::loop_isolation(false)]
    pub fn validate(&self, x: &DerivedIdentities) -> (r: Result<(), WorkflowDataError>)
        requires
            derived_fits(*self, *x),
        ensures
            r is Ok <==> data_ok(*self, *x),
            r is Err ==> r->Err_0 is Invalid,
    {
        validate_text("review unit ID", self.review_unit_id.as_str())?;
        validate_text("evidence package reference", self.evidence_package_ref.as_str())?;
        if self.evidence_revision == 0 {
            return Err(invalid("evidence revision must be non-zero"));
        }
        let results = &self.verification_results;
        let mut i: usize = 0;
        while i < results.len()
            invariant
                i <= results.len(),
                forall|j: int| 0 <= j < i ==> is_normalized((#[trigger] results@[j])@),
                forall|a: int, b: int|
                    0 <= a < b < i ==> (#[trigger] results@[a])@ != (#[trigger] results@[b])@,
            decreases results.len() - i,
        {
            validate_text("verification results", results[i].as_str())?;
            if text_in_prefix(results, i, results[i].as_str()) {
                return Err(invalid("verification results contains a duplicate value"));
            }
            i += 1;
        }
        self.validate_evidence_request_decisions(x)?;
        self.validate_evidence_expansions()?;
        let cs = &self.candidate_findings;
        let mut k: usize = 0;
        while k < cs.len()
            invariant
                k <= cs.len(),
                cs == &self.candidate_findings,
                derived_fits(*self, *x),
                forall|j: int| 0 <= j < k ==> #[trigger] candidate_record_ok(*self, *x, j),
                forall|a: int, b: int|
                    0 <= a < b < k ==> (#[trigger] cs@[a]).id@ != (#[trigger] cs@[b]).id@,
            decreases cs.len() - k,
        {
            let candidate = &cs[k];
            if validate_candidate_draft(&candidate.draft).is_err() {
                proof {
                    assert(!candidate_record_ok(*self, *x, k as int));
                }
                return Err(invalid("invalid candidate finding"));
            }
            let mut repeated = false;
            let mut j: usize = 0;
            while j < k
                invariant
                    j <= k < cs.len(),
                    *candidate == cs@[k as int],
                    !repeated ==> forall|a: int| 0 <= a < j ==> (#[trigger] cs@[a]).id@ != cs@[k as int].id@,
                    repeated ==> exists|a: int| 0 <= a < k && (#[trigger] cs@[a]).id@ == cs@[k as int].id@,
                decreases k - j,
            {
                if text_eq(cs[j].id.as_str(), candidate.id.as_str()) {
                    repeated = true;
                }
                j += 1;
            }
            if candidate.evidence_revision == 0 || candidate.evidence_revision
                > self.evidence_revision || !text_eq(
                candidate.id.as_str(),
                x.candidate_ids[k].as_str(),
            ) || repeated {
                proof {
                    if repeated {
                        let a = choose|a: int| 0 <= a < k && (#[trigger] cs@[a]).id@ == cs@[k as int].id@;
                        assert(cs@[a].id@ == cs@[k as int].id@);
                        assert(!candidates_valid(*self, *x));
                    } else {
                        assert(!candidate_record_ok(*self, *x, k as int));
                    }
                }
                return Err(invalid("candidate finding identity or evidence revision is invalid"));
            }
            proof {
                assert(candidate_record_ok(*self, *x, k as int));
            }
            k += 1;
        }
        let work = &self.scheduled_verification_work;
        let mut i: usize = 0;
        while i < work.len()
            invariant
                i <= work.len(),
                work == &self.scheduled_verification_work,
                forall|a: int| 0 <= a < i ==> known_work(*x, #[trigger] work@[a]),
                forall|a: int, b: int|
                    0 <= a < b < i ==> (#[trigger] work@[a])@ != (#[trigger] work@[b])@,
            decreases work.len() - i,
        {
            let known = crate::equiv::contains_text(&x.verification_ids, work[i].as_str());
            if !known || text_in_prefix(work, i, work[i].as_str()) {
                return Err(
                    invalid("scheduled verification work must uniquely reference a candidate"),
                );
            }
            proof {
                assert(known_work(*x, work@[i as int]));
            }
            i += 1;
        }
        if let Some(value) = &self.adjudication {
            validate_text("adjudication", value.as_str())?;
        }
        let ps = &self.primary_decisions;
        let mut prior: u32 = 0;
        let mut k: usize = 0;
        while k < ps.len()
            invariant
                k <= ps.len(),
                ps == &self.primary_decisions,
                prior as int == (if k == 0 {
                    0
                } else {
                    ps@[k - 1].evidence_revision as int
                }),
                forall|j: int| 0 <= j < k ==> #[trigger] primary_decision_ok(*self, j),
            decreases ps.len() - k,
        {
            let decision = &ps[k];
            if decision.evidence_revision <= prior || decision.evidence_revision
                > self.evidence_revision {
                proof {
                    assert(!primary_decision_ok(*self, k as int));
                }
                return Err(
                    invalid(
                        "primary review decisions must have unique increasing evidence revisions",
                    ),
                );
            }
            let checked = validate_text("review event type", decision.event_type.as_str());
            if checked.is_err() {
                proof {
                    assert(!primary_decision_ok(*self, k as int));
                }
                return checked;
            }
            let checked = validate_text("provider request ID", decision.request_id.as_str());
            if checked.is_err() {
                proof {
                    assert(!primary_decision_ok(*self, k as int));
                }
                return checked;
            }
            if decision.provider.validate().is_err() {
                proof {
                    assert(!primary_decision_ok(*self, k as int));
                }
                return Err(invalid("invalid review provider identity"));
            }
            if validate_review_payload(decision.event_type.as_str(), &decision.payload).is_err() {
                proof {
                    assert(!primary_decision_ok(*self, k as int));
                }
                return Err(invalid("invalid primary review decision"));
            }
            proof {
                assert(primary_decision_ok(*self, k as int));
            }
            prior = decision.evidence_revision;
            k += 1;
        }
        proof {
            assert(unique_texts(self.verification_results@));
            assert(candidates_valid(*self, *x));
            assert(scheduled_ok(*self, *x));
        }
        Ok(())
    }

    /// Checks the evidence request decisions in order, replaying the usage of
    /// the approved ones.
    pub fn validate_evidence_request_decisions(&self, x: &DerivedIdentities) -> (r: Result<
        (),
        WorkflowDataError,
    >)
        requires
            derived_fits(*self, *x),
        ensures
            r is Ok <==> request_decisions_ok(*self, *x),
            r is Err ==> r->Err_0 is Invalid,
    {
        let ds = &self.evidence_request_decisions;
        let mut prior: u32 = 0;
        let mut usage = ExpansionUsage::none();
        let mut i: usize = 0;
        while i < ds.len()
            invariant
                i <= ds.len(),
                ds == &self.evidence_request_decisions,
                derived_fits(*self, *x),
                usage == usage_after(ds@, i as int),
                prior as int == (if i == 0 {
                    0
                } else {
                    ds@[i - 1].evidence_revision as int
                }),
                forall|k: int| 0 <= k < i ==> #[trigger] request_decision_ok(*self, *x, k),
            decreases ds.len() - i,
        {
            let decision = &ds[i];
            let request = &decision.request;
            let budget = &request.additional_budget;
            if decision.evidence_revision <= prior || decision.evidence_revision
                > self.evidence_revision || request.sequence != usage.approved_requests.saturating_add(
                1,
            ) || !is_normalized_text(request.rationale.as_str())
                || request.requested_targets.len() == 0 || request.requested_kinds.len() == 0
                || budget.max_bytes == 0 || budget.max_tokens == 0 || budget.max_items == 0 {
                proof {
                    assert(!request_decision_ok(*self, *x, i as int));
                }
                return Err(invalid("evidence request decision identity or payload is invalid"));
            }
            let mut next = usage;
            match &decision.disposition {
                EvidenceRequestDisposition::Allowed { authorization } => {
                    let expected = usage.after_request(budget);
                    if !authorization.request.eq_to(request) || authorization.next_usage != expected
                        || !text_eq(
                        authorization.authorization_hash.as_str(),
                        x.authorization_hashes[i].as_str(),
                    ) {
                        proof {
                            assert(!request_decision_ok(*self, *x, i as int));
                        }
                        return Err(invalid("evidence authorization identity or usage is invalid"));
                    }
                    next = expected;
                },
                EvidenceRequestDisposition::Denied { .. } => {},
            }
            proof {
                assert(request_decision_ok(*self, *x, i as int));
            }
            usage = next;
            prior = decision.evidence_revision;
            i += 1;
        }
        Ok(())
    }

    /// Checks the chain of evidence expansions against the request decisions
    /// and the active evidence package.
    pub fn validate_evidence_expansions(&self) -> (r: Result<(), WorkflowDataError>)
        ensures
            r is Ok <==> expansions_ok(*self),
            r is Err ==> r->Err_0 is Invalid,
    {
        let es = &self.evidence_expansions;
        if self.evidence_expansion_count as usize != es.len() {
            return Err(invalid("evidence expansion count must match its durable records"));
        }
        let mut k: usize = 0;
        while k < es.len()
            invariant
                k <= es.len(),
                es == &self.evidence_expansions,
                self.evidence_expansion_count as int == es@.len(),
                forall|j: int| 0 <= j < k ==> #[trigger] expansion_ok(*self, j),
                forall|i: int, j: int|
                    0 <= i < j < k ==> (#[trigger] es@[i]).authorization_hash@ != (
                    #[trigger] es@[j]).authorization_hash@,
            decreases es.len() - k,
        {
            let expansion = &es[k];
            let p = match find_decision(&self.evidence_request_decisions, expansion.from_revision) {
                Some(p) => p,
                None => {
                    proof {
                        assert(!expansion_ok(*self, k as int));
                    }
                    return Err(invalid("evidence expansion has no request decision"));
                },
            };
            let decision = &self.evidence_request_decisions[p];
            let authorization = match &decision.disposition {
                EvidenceRequestDisposition::Allowed { authorization } => authorization,
                EvidenceRequestDisposition::Denied { .. } => {
                    proof {
                        assert(!expansion_ok(*self, k as int));
                    }
                    return Err(invalid("evidence expansion requires an allowed request"));
                },
            };
            let mut repeated = false;
            let mut j: usize = 0;
            while j < k
                invariant
                    j <= k < es.len(),
                    *expansion == es@[k as int],
                    !repeated ==> forall|i: int|
                        0 <= i < j ==> (#[trigger] es@[i]).authorization_hash@
                            != es@[k as int].authorization_hash@,
                    repeated ==> exists|i: int|
                        0 <= i < k && (#[trigger] es@[i]).authorization_hash@
                            == es@[k as int].authorization_hash@,
                decreases k - j,
            {
                if text_eq(es[j].authorization_hash.as_str(), expansion.authorization_hash.as_str()) {
                    repeated = true;
                }
                j += 1;
            }
            if expansion.to_revision != expansion.from_revision.saturating_add(1)
                || expansion.to_revision > self.evidence_revision || !text_eq(
                expansion.previous_package.as_str(),
                decision.request.base_package.as_str(),
            ) || !text_eq(
                expansion.authorization_hash.as_str(),
                authorization.authorization_hash.as_str(),
            ) || repeated {
                proof {
                    if !repeated {
                        assert(!expansion_ok(*self, k as int));
                    }
                }
                return Err(invalid("evidence expansion identity or revision is invalid"));
            }
            if k > 0 {
                let previous = &es[k - 1];
                if previous.to_revision != expansion.from_revision || !text_eq(
                    previous.package_ref.as_str(),
                    expansion.previous_package.as_str(),
                ) {
                    proof {
                        assert(!expansion_ok(*self, k as int));
                    }
                    return Err(invalid("evidence expansion package chain is discontinuous"));
                }
            }
            proof {
                assert(expansion_ok(*self, k as int));
            }
            k += 1;
        }
        if es.len() > 0 {
            let last = &es[es.len() - 1];
            if last.to_revision != self.evidence_revision || !text_eq(
                last.package_ref.as_str(),
                self.evidence_package_ref.as_str(),
            ) {
                return Err(
                    invalid("active evidence package does not match the expansion chain"),
                );
            }
        }
        Ok(())
    }
}

/// `n + 1` for a `u32` counter, saturating.
pub open spec fn inc32(n: u32) -> int {
    sat1(n)
}

/// The changes one actor transition may make: stable identities stay, counters
/// and the evidence revision never decrease, the evidence advances by at most
/// one durable expansion (and the active package only with it), and every list
/// of decisions is append-only.
pub open spec fn transition_ok(cur: ReviewWorkflowData, new: ReviewWorkflowData) -> bool {
    &&& new.work_id@ == cur.work_id@
    &&& new.review_unit_id@ == cur.review_unit_id@
    &&& new.policy_id@ == cur.policy_id@
    &&& new.evidence_revision >= cur.evidence_revision
    &&& new.escalation_count >= cur.escalation_count
    &&& new.evidence_expansion_count >= cur.evidence_expansion_count
    &&& new.evidence_revision > cur.evidence_revision ==> {
        &&& new.evidence_revision as int == inc32(cur.evidence_revision)
        &&& new.evidence_expansion_count as int == inc32(cur.evidence_expansion_count)
        &&& cur.evidence_expansions@.len() + 1 == new.evidence_expansions@.len()
    }
    &&& new.evidence_revision == cur.evidence_revision ==> new.evidence_package_ref@
        == cur.evidence_package_ref@
    &&& starts_with(new.verification_results@, cur.verification_results@)
    &&& starts_with(new.candidate_findings@, cur.candidate_findings@)
    &&& starts_with(new.scheduled_verification_work@, cur.scheduled_verification_work@)
    &&& starts_with(new.evidence_request_decisions@, cur.evidence_request_decisions@)
    &&& starts_with(new.evidence_expansions@, cur.evidence_expansions@)
    &&& starts_with(new.primary_decisions@, cur.primary_decisions@)
}

/// The evidence package changes only with the evidence revision: an accepted
/// transition that keeps the revision keeps the package, and one that
/// changes the package advances the revision by exactly one, with exactly
/// one more durable expansion recorded.
pub proof fn law_package_changes_only_with_a_new_revision(cur: ReviewWorkflowData, new: ReviewWorkflowData)
    requires
        transition_ok(cur, new),
    ensures
        new.evidence_revision == cur.evidence_revision ==> new.evidence_package_ref@ == cur.evidence_package_ref@,
        new.evidence_package_ref@ != cur.evidence_package_ref@ ==> new.evidence_revision == cur.evidence_revision + 1
            && new.evidence_expansions@.len() == cur.evidence_expansions@.len() + 1,
{
}

/// Checks that `proposed` is a transition an actor may apply to `current`.
pub fn validate_transition(current: &ReviewWorkflowData, proposed: &ReviewWorkflowData) -> (r:
    Result<(), WorkflowDataError>)
    ensures
        r is Ok <==> transition_ok(*current, *proposed),
        r is Err ==> r->Err_0 is Invalid,
        proposed.evidence_revision == current.evidence_revision && proposed.evidence_package_ref@
            != current.evidence_package_ref@ ==> r is Err,
{
    if !text_eq(proposed.work_id.as_str(), current.work_id.as_str()) || !text_eq(
        proposed.review_unit_id.as_str(),
        current.review_unit_id.as_str(),
    ) || !text_eq(proposed.policy_id.as_str(), current.policy_id.as_str()) {
        return Err(invalid("stable workflow decision identities cannot change"));
    }
    if proposed.evidence_revision < current.evidence_revision || proposed.escalation_count
        < current.escalation_count || proposed.evidence_expansion_count
        < current.evidence_expansion_count {
        return Err(invalid("workflow revisions and counters cannot decrease"));
    }
    let current_expansions = current.evidence_expansions.len();
    let proposed_expansions = proposed.evidence_expansions.len();
    if proposed.evidence_revision > current.evidence_revision && (proposed.evidence_revision
        != current.evidence_revision.saturating_add(1) || proposed.evidence_expansion_count
        != current.evidence_expansion_count.saturating_add(1) || current_expansions >= usize::MAX
        || current_expansions + 1 != proposed_expansions) {
        return Err(invalid("evidence must advance through exactly one durable expansion"));
    }
    if proposed.evidence_revision == current.evidence_revision && !text_eq(
        proposed.evidence_package_ref.as_str(),
        current.evidence_package_ref.as_str(),
    ) {
        return Err(invalid("evidence package cannot change without a new evidence revision"));
    }
    if !vec_starts_with(&proposed.verification_results, &current.verification_results) {
        return Err(invalid("verification results cannot discard prior decisions"));
    }
    if !vec_starts_with(&proposed.candidate_findings, &current.candidate_findings)
        || !vec_starts_with(
        &proposed.scheduled_verification_work,
        &current.scheduled_verification_work,
    ) {
        return Err(invalid("candidate findings and verification work must be append-only"));
    }
    if !vec_starts_with(&proposed.evidence_request_decisions, &current.evidence_request_decisions) {
        return Err(invalid("evidence request decisions must be append-only"));
    }
    if !vec_starts_with(&proposed.evidence_expansions, &current.evidence_expansions) {
        return Err(invalid("evidence expansions must be append-only"));
    }
    if !vec_starts_with(&proposed.primary_decisions, &current.primary_decisions) {
        return Err(
            invalid("primary review decisions cannot discard or reorder prior decisions"),
        );
    }
    Ok(())
}

/// A stored workflow data record.
#[derive(Debug)]
pub struct WorkflowDataRecord {
    pub schema_version: u32,
    pub langchart_run_id: String,
    pub revision: u64,
    pub content_hash: String,
    pub data: ReviewWorkflowData,
}

/// What a create or compare-and-swap did.
#[derive(Debug)]
pub enum WorkflowDataWrite {
    Inserted(WorkflowDataRecord),
    Updated(WorkflowDataRecord),
    Existing(WorkflowDataRecord),
}

/// The domain prefix of workflow data content hashes.
pub open spec fn hash_domain() -> Seq<u8> {
    seq![
        97u8, 114, 103, 117, 115, 46, 119, 111, 114, 107, 102, 108, 111, 119, 45, 100, 97, 116,
        97, 46, 118, 49, 0,
    ]
}

/// The content hash of workflow data from its canonical JSON bytes.
pub open spec fn data_hash(serialized: Seq<u8>) -> Seq<char> {
    blake3_hex(hash_domain() + serialized)
}

/// Hashes the canonical JSON bytes of workflow data under the workflow-data
/// domain (`argus.workflow-data.v1` and a NUL byte).
pub fn hash_data(serialized: &[u8]) -> (r: String)
    ensures
        r@ == data_hash(serialized@),
{
    let mut bytes: Vec<u8> = vec![
        97u8, 114, 103, 117, 115, 46, 119, 111, 114, 107, 102, 108, 111, 119, 45, 100, 97, 116,
        97, 46, 118, 49, 0,
    ];
    proof {
        assert(bytes@ =~= hash_domain());
    }
    append_bytes(&mut bytes, serialized);
    blake3_hex_of(bytes.as_slice())
}

/// A stored record together with what it takes to check it: the identities
/// derived from its data and the content hash of its data as re-encoded now.
#[derive(Debug)]
pub struct StoredRecord {
    pub record: WorkflowDataRecord,
    pub derived: DerivedIdentities,
    pub computed_hash: String,
}

/// The stored record is sound: current schema, the run it is filed under,
/// consistent data, and a content hash that matches its data.
pub open spec fn record_ok(s: StoredRecord, run: Seq<char>) -> bool {
    &&& s.record.schema_version == WORKFLOW_DATA_SCHEMA_VERSION
    &&& s.record.langchart_run_id@ == run
    &&& data_ok(s.record.data, s.derived)
    &&& s.record.content_hash@ == s.computed_hash@
}

/// The identities fit the stored record's data.
pub open spec fn stored_fits(s: StoredRecord) -> bool {
    derived_fits(s.record.data, s.derived)
}

/// Checks a stored record against the run it was looked up for.
pub fn validate_record(stored: &StoredRecord, langchart_run_id: &str) -> (r: Result<
    (),
    WorkflowDataError,
>)
    requires
        stored_fits(*stored),
    ensures
        r is Ok <==> record_ok(*stored, langchart_run_id@),
        r is Err ==> r->Err_0 is Invalid,
        stored.record.schema_version == WORKFLOW_DATA_SCHEMA_VERSION && stored.record.langchart_run_id@
            == langchart_run_id@ && data_ok(stored.record.data, stored.derived)
            && stored.record.content_hash@ != stored.computed_hash@ ==> (r matches Err(
            WorkflowDataError::Invalid(m),
        ) && m@ == "workflow data content hash mismatch"@),
{
    let record = &stored.record;
    if record.schema_version != WORKFLOW_DATA_SCHEMA_VERSION {
        return Err(invalid("unsupported workflow data schema"));
    }
    if !text_eq(record.langchart_run_id.as_str(), langchart_run_id) {
        return Err(invalid("workflow data run identity mismatch"));
    }
    record.data.validate(&stored.derived)?;
    if !text_eq(stored.computed_hash.as_str(), record.content_hash.as_str()) {
        return Err(invalid("workflow data content hash mismatch"));
    }
    Ok(())
}

/// The outcome of a compare-and-swap, by kind.
#[derive(Debug)]
pub enum CasOutcome {
    Rejected,
    Missing,
    Existing,
    Updated,
    Conflict,
}

/// What a compare-and-swap of `data` at `expected` does to `current`: invalid
/// input or stored data is rejected; the same data at the expected revision or
/// one past it is recognized as a replay; a valid transition at the expected
/// revision is applied; any other revision conflicts.
pub open spec fn cas_outcome(
    run: Seq<char>,
    expected: u64,
    data: ReviewWorkflowData,
    x: DerivedIdentities,
    current: Option<StoredRecord>,
) -> CasOutcome {
    if !is_normalized(run) || !data_ok(data, x) {
        CasOutcome::Rejected
    } else {
        match current {
            None => CasOutcome::Missing,
            Some(c) => if !record_ok(c, run) {
                CasOutcome::Rejected
            } else if c.record.data.same_as(&data) && (c.record.revision == expected
                || c.record.revision == expected + 1) {
                CasOutcome::Existing
            } else if c.record.revision == expected {
                if transition_ok(c.record.data, data) && expected < u64::MAX {
                    CasOutcome::Updated
                } else {
                    CasOutcome::Rejected
                }
            } else {
                CasOutcome::Conflict
            },
        }
    }
}

/// Decides one actor transition against the current record: applies it, or
/// recognizes its replay, or refuses it.
pub fn compare_and_swap(
    langchart_run_id: &str,
    expected_revision: u64,
    data: ReviewWorkflowData,
    derived: &DerivedIdentities,
    data_hash: String,
    current: Option<StoredRecord>,
) -> (r: Result<WorkflowDataWrite, WorkflowDataError>)
    requires
        derived_fits(data, *derived),
        current matches Some(c) ==> stored_fits(c),
    ensures
        ({
            let o = cas_outcome(langchart_run_id@, expected_revision, data, *derived, current);
            &&& (o is Rejected <==> r matches Err(WorkflowDataError::Invalid(_)))
            &&& (o is Missing <==> r matches Err(WorkflowDataError::Missing))
            &&& (o is Conflict <==> r matches Err(WorkflowDataError::Conflict { .. }))
            &&& (o is Existing <==> r matches Ok(WorkflowDataWrite::Existing(_)))
            &&& (o is Updated <==> r matches Ok(WorkflowDataWrite::Updated(_)))
            &&& !(r matches Ok(WorkflowDataWrite::Inserted(_)))
            &&& (r matches Err(
                WorkflowDataError::Conflict { expected_revision: e, actual_revision: a },
            ) ==> e == Some(expected_revision) && a == current.unwrap().record.revision)
            &&& (r matches Ok(WorkflowDataWrite::Existing(rec)) ==> rec == current.unwrap().record)
            &&& (r matches Ok(WorkflowDataWrite::Updated(rec)) ==> {
                &&& rec.schema_version == WORKFLOW_DATA_SCHEMA_VERSION
                &&& rec.langchart_run_id@ == langchart_run_id@
                &&& rec.revision == expected_revision + 1
                &&& rec.content_hash == data_hash
                &&& rec.data == data
            })
        }),
{
    validate_text("Langchart run ID", langchart_run_id)?;
    data.validate(derived)?;
    let current = match current {
        Some(c) => c,
        None => {
            return Err(WorkflowDataError::Missing);
        },
    };
    validate_record(&current, langchart_run_id)?;
    let revision = current.record.revision;
    let replay = expected_revision < u64::MAX && revision == expected_revision + 1;
    if current.record.data.eq_to(&data) && (revision == expected_revision || replay) {
        Ok(WorkflowDataWrite::Existing(current.record))
    } else if revision == expected_revision {
        validate_transition(&current.record.data, &data)?;
        if expected_revision == u64::MAX {
            return Err(invalid("workflow data revision overflow"));
        }
        Ok(
            WorkflowDataWrite::Updated(
                WorkflowDataRecord {
                    schema_version: WORKFLOW_DATA_SCHEMA_VERSION,
                    langchart_run_id: langchart_run_id.to_owned(),
                    revision: expected_revision + 1,
                    content_hash: data_hash,
                    data,
                },
            ),
        )
    } else {
        Err(
            WorkflowDataError::Conflict {
                expected_revision: Some(expected_revision),
                actual_revision: revision,
            },
        )
    }
}

/// What creating the record of a run does: invalid input or stored data is
/// rejected, the same data already stored is found again, different data
/// already stored conflicts, and otherwise the record is inserted.
pub open spec fn create_outcome(
    run: Seq<char>,
    data: ReviewWorkflowData,
    x: DerivedIdentities,
    existing: Option<StoredRecord>,
) -> CasOutcome {
    if !is_normalized(run) || !data_ok(data, x) {
        CasOutcome::Rejected
    } else {
        match existing {
            None => CasOutcome::Updated,
            Some(c) => if !record_ok(c, run) {
                CasOutcome::Rejected
            } else if c.record.data.same_as(&data) {
                CasOutcome::Existing
            } else {
                CasOutcome::Conflict
            },
        }
    }
}

/// Decides the creation of a run's first record, at revision 0.
pub fn create(
    langchart_run_id: &str,
    data: ReviewWorkflowData,
    derived: &DerivedIdentities,
    data_hash: String,
    existing: Option<StoredRecord>,
) -> (r: Result<WorkflowDataWrite, WorkflowDataError>)
    requires
        derived_fits(data, *derived),
        existing matches Some(c) ==> stored_fits(c),
    ensures
        ({
            let o = create_outcome(langchart_run_id@, data, *derived, existing);
            &&& (o is Rejected <==> r matches Err(WorkflowDataError::Invalid(_)))
            &&& (o is Updated <==> r matches Ok(WorkflowDataWrite::Inserted(_)))
            &&& (o is Existing <==> r matches Ok(WorkflowDataWrite::Existing(_)))
            &&& (o is Conflict <==> r matches Err(WorkflowDataError::Conflict { .. }))
            &&& !(r matches Ok(WorkflowDataWrite::Updated(_)))
            &&& !(r matches Err(WorkflowDataError::Missing))
            &&& (r matches Err(
                WorkflowDataError::Conflict { expected_revision: e, actual_revision: a },
            ) ==> e is None && a == existing.unwrap().record.revision)
            &&& (r matches Ok(WorkflowDataWrite::Existing(rec)) ==> rec == existing.unwrap().record)
            &&& (r matches Ok(WorkflowDataWrite::Inserted(rec)) ==> {
                &&& rec.schema_version == WORKFLOW_DATA_SCHEMA_VERSION
                &&& rec.langchart_run_id@ == langchart_run_id@
                &&& rec.revision == 0
                &&& rec.content_hash == data_hash
                &&& rec.data == data
            })
        }),
{
    validate_text("Langchart run ID", langchart_run_id)?;
    data.validate(derived)?;
    match existing {
        Some(c) => {
            validate_record(&c, langchart_run_id)?;
            if c.record.data.eq_to(&data) {
                Ok(WorkflowDataWrite::Existing(c.record))
            } else {
                Err(
                    WorkflowDataError::Conflict {
                        expected_revision: None,
                        actual_revision: c.record.revision,
                    },
                )
            }
        },
        None => Ok(
            WorkflowDataWrite::Inserted(
                WorkflowDataRecord {
                    schema_version: WORKFLOW_DATA_SCHEMA_VERSION,
                    langchart_run_id: langchart_run_id.to_owned(),
                    revision: 0,
                    content_hash: data_hash,
                    data,
                },
            ),
        ),
    }
}

/// Creating a run's record twice with the same data inserts it once and then
/// finds it.
pub proof fn law_create_is_idempotent(
    run: Seq<char>,
    data: ReviewWorkflowData,
    x: DerivedIdentities,
    inserted: StoredRecord,
)
    requires
        create_outcome(run, data, x, None) is Updated,
        inserted.record.schema_version == WORKFLOW_DATA_SCHEMA_VERSION,
        inserted.record.langchart_run_id@ == run,
        inserted.record.revision == 0,
        inserted.record.data == data,
        inserted.derived == x,
        inserted.record.content_hash@ == inserted.computed_hash@,
    ensures
        create_outcome(run, data, x, Some(inserted)) is Existing,
{
    lemma_data_same_refl(data);
}

/// Workflow data holds the same content as itself.
pub proof fn lemma_data_same_refl(d: ReviewWorkflowData)
    ensures
        d.same_as(&d),
{
    assert forall|i: int| 0 <= i < d.primary_decisions@.len() implies (
    #[trigger] d.primary_decisions@[i]).same_as(&d.primary_decisions@[i]) by {
        lemma_same_refl(d.primary_decisions@[i].payload);
    }
    assert forall|i: int| 0 <= i < d.candidate_findings@.len() implies (
    #[trigger] d.candidate_findings@[i]).same_as(&d.candidate_findings@[i]) by {
        lemma_same_refl(d.candidate_findings@[i].draft);
    }
}

/// A committed update is recognized as a replay: running the same
/// compare-and-swap again against the record it produced finds that record and
/// changes nothing.
pub proof fn law_update_replays_as_existing(
    run: Seq<char>,
    expected: u64,
    data: ReviewWorkflowData,
    x: DerivedIdentities,
    current: StoredRecord,
    updated: StoredRecord,
)
    requires
        cas_outcome(run, expected, data, x, Some(current)) is Updated,
        updated.record.schema_version == WORKFLOW_DATA_SCHEMA_VERSION,
        updated.record.langchart_run_id@ == run,
        updated.record.revision == expected + 1,
        updated.record.data == data,
        updated.derived == x,
        updated.record.content_hash@ == updated.computed_hash@,
    ensures
        cas_outcome(run, expected, data, x, Some(updated)) is Existing,
        record_ok(updated, run),
{
    lemma_data_same_refl(data);
}

/// Once an update is committed, a different proposal made against the old
/// revision is a conflict: stale writers fail closed.
pub proof fn law_stale_update_conflicts(
    run: Seq<char>,
    expected: u64,
    data: ReviewWorkflowData,
    x: DerivedIdentities,
    current: StoredRecord,
    updated: StoredRecord,
    other: ReviewWorkflowData,
    y: DerivedIdentities,
)
    requires
        cas_outcome(run, expected, data, x, Some(current)) is Updated,
        updated.record.schema_version == WORKFLOW_DATA_SCHEMA_VERSION,
        updated.record.langchart_run_id@ == run,
        updated.record.revision == expected + 1,
        updated.record.data == data,
        updated.derived == x,
        updated.record.content_hash@ == updated.computed_hash@,
        data_ok(other, y),
        !data.same_as(&other),
    ensures
        cas_outcome(run, expected, other, y, Some(updated)) is Conflict,
{
    law_update_replays_as_existing(run, expected, data, x, current, updated);
}

/// An applied update never rewrites history: the identities stay, the
/// revision advances by one, and every list of decisions of the stored data
/// is a prefix of the new one.
pub proof fn law_update_is_append_only(
    run: Seq<char>,
    expected: u64,
    data: ReviewWorkflowData,
    x: DerivedIdentities,
    current: StoredRecord,
)
    requires
        cas_outcome(run, expected, data, x, Some(current)) is Updated,
    ensures
        transition_ok(current.record.data, data),
        current.record.revision == expected,
        data_ok(data, x),
{
}

} // verus!
