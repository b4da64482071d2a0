//! Review work answered from cached assessments: the outcome a cache hit
//! records, and how a sweep over leased work tallies hits and misses.
use crate::outcome::{EffectiveOutcome, LogicalOutcomeKey, OutcomeKind, OutcomeProvenance, OutcomeReceipt};
use crate::workflow_data::ProviderIdentity;
use vstd::prelude::*;
use vstd::string::*;

verus! {

/// `w` is what ASCII lowercasing makes of `c`: an uppercase ASCII letter
/// becomes its lowercase letter, every other character stays.
pub open spec fn lowers_to(c: char, w: char) -> bool {
    if 'A' <= c <= 'Z' {
        c as u32 + 32 == w as u32
    } else {
        c == w
    }
}

/// ASCII lowercasing `s` gives `word`.
pub open spec fn lowercases_to(s: Seq<char>, word: Seq<char>) -> bool {
    &&& s.len() == word.len()
    &&& forall|i: int| 0 <= i < s.len() ==> lowers_to(#[trigger] s[i], word[i])
}

/// The outcome kind a cached assessment's label names, read without regard
/// to ASCII case; a label that names no kind stands for a failure.
pub open spec fn cached_kind(label: Seq<char>) -> OutcomeKind {
    if lowercases_to(label, "passed"@) {
        OutcomeKind::Passed
    } else if lowercases_to(label, "candidate_findings"@) || lowercases_to(label, "candidate-findings"@)
        || lowercases_to(label, "findings"@) {
        OutcomeKind::CandidateFindings
    } else if lowercases_to(label, "unable_to_verify"@) || lowercases_to(label, "unable-to-verify"@) {
        OutcomeKind::UnableToVerify
    } else if lowercases_to(label, "suggestion"@) {
        OutcomeKind::Suggestion
    } else {
        OutcomeKind::Failed
    }
}

/// Whether ASCII lowercasing `s` gives `word`.
fn lowercase_equals(s: &str, word: &str) -> (b: bool)
    ensures
        b == lowercases_to(s@, word@),
{
    let n = s.unicode_len();
    if n != word.unicode_len() {
        return false;
    }
    let mut i: usize = 0;
    while i < n
        invariant
            n == s@.len(),
            n == word@.len(),
            i <= n,
            forall|j: int| 0 <= j < i ==> lowers_to(#[trigger] s@[j], word@[j]),
        decreases n - i,
    {
        let c = s.get_char(i);
        let w = word.get_char(i);
        let same = if 'A' <= c && c <= 'Z' {
            (c as u32) + 32 == (w as u32)
        } else {
            c == w
        };
        if !same {
            assert(!lowers_to(s@[i as int], word@[i as int]));
            return false;
        }
        i += 1;
    }
    true
}

/// The outcome kind a cached assessment's label names, read without regard
/// to ASCII case; a label that names no kind is recorded as a failure.
pub fn cached_outcome_kind(label: &str) -> (k: OutcomeKind)
    ensures
        k == cached_kind(label@),
{
    if lowercase_equals(label, "passed") {
        OutcomeKind::Passed
    } else if lowercase_equals(label, "candidate_findings") || lowercase_equals(label, "candidate-findings")
        || lowercase_equals(label, "findings") {
        OutcomeKind::CandidateFindings
    } else if lowercase_equals(label, "unable_to_verify") || lowercase_equals(label, "unable-to-verify") {
        OutcomeKind::UnableToVerify
    } else if lowercase_equals(label, "suggestion") {
        OutcomeKind::Suggestion
    } else {
        OutcomeKind::Failed
    }
}

/// What a cached assessment contributes to the outcome of a cache hit.
#[derive(Debug)]
pub struct CachedAssessment {
    /// The label of the outcome the assessment ended with.
    pub outcome_kind: String,
    /// The prompt version of the review fingerprint it was cached under.
    pub prompt_version: String,
    /// The model class the assessment may be reused for, if it names one.
    pub model_reuse_class: Option<String>,
    /// The artifacts the assessment was stored as, first the preferred one.
    pub artifact_references: Vec<String>,
}

/// The model a cache hit is attributed to: the reuse class, or `cached`.
pub open spec fn cached_model(cached: CachedAssessment) -> Seq<char> {
    match cached.model_reuse_class {
        Some(m) => m@,
        None => "cached"@,
    }
}

/// `o` is the outcome a cache hit records for work item `work_id` of the
/// audit, under `policy_version`, with the assessment stored at
/// `artifact_ref`: the first evidence revision of the target-review
/// workflow, attributed to the cache actor and the cached provider.
pub open spec fn is_cache_hit_outcome(
    o: EffectiveOutcome,
    audit_snapshot: Seq<char>,
    audit_run: Seq<char>,
    work_id: Seq<char>,
    policy_version: Seq<char>,
    workflow_hash: Seq<char>,
    artifact_ref: Seq<char>,
    cached: CachedAssessment,
) -> bool {
    &&& o.logical_key.audit_snapshot@ == audit_snapshot
    &&& o.logical_key.audit_run@ == audit_run
    &&& o.logical_key.work_id@ == work_id
    &&& o.logical_key.policy_version@ == policy_version
    &&& o.logical_key.evidence_revision == 1
    &&& o.logical_key.workflow_hash@ == workflow_hash
    &&& o.result_ref@ == artifact_ref
    &&& o.kind == cached_kind(cached.outcome_kind@)
    &&& o.provenance.prompt_version@ == cached.prompt_version@
    &&& o.provenance.actor_id@ == "argus.cache-short-circuit"@
    &&& o.provenance.actor_version@ == "1.0.0"@
    &&& o.provenance.workflow_id@ == "argus.target-review"@
    &&& o.provenance.workflow_version@ == "1.0.0"@
    &&& o.provenance.provider.provider@ == "cached"@
    &&& o.provenance.provider.provider_version@ == "1"@
    &&& o.provenance.provider.model@ == cached_model(cached)
    &&& o.provenance.provider.model_version@ == "cached"@
}

/// The outcome a cache hit records; `artifact_ref` is where the cached
/// assessment is stored and `workflow_hash` the target-review workflow's
/// content hash.
pub fn cache_hit_outcome(
    audit_snapshot: &str,
    audit_run: &str,
    work_id: &str,
    policy_version: &str,
    workflow_hash: &str,
    artifact_ref: &str,
    cached: &CachedAssessment,
) -> (o: EffectiveOutcome)
    ensures
        is_cache_hit_outcome(
            o,
            audit_snapshot@,
            audit_run@,
            work_id@,
            policy_version@,
            workflow_hash@,
            artifact_ref@,
            *cached,
        ),
{
    let model = match &cached.model_reuse_class {
        Some(m) => m.clone(),
        None => "cached".to_owned(),
    };
    EffectiveOutcome {
        logical_key: LogicalOutcomeKey {
            audit_snapshot: audit_snapshot.to_owned(),
            audit_run: audit_run.to_owned(),
            work_id: work_id.to_owned(),
            policy_version: policy_version.to_owned(),
            evidence_revision: 1,
            workflow_hash: workflow_hash.to_owned(),
        },
        result_ref: artifact_ref.to_owned(),
        kind: cached_outcome_kind(cached.outcome_kind.as_str()),
        provenance: OutcomeProvenance {
            prompt_version: cached.prompt_version.clone(),
            actor_id: "argus.cache-short-circuit".to_owned(),
            actor_version: "1.0.0".to_owned(),
            workflow_id: "argus.target-review".to_owned(),
            workflow_version: "1.0.0".to_owned(),
            provider: ProviderIdentity {
                provider: "cached".to_owned(),
                provider_version: "1".to_owned(),
                model,
                model_version: "cached".to_owned(),
            },
        },
    }
}

/// The artifact a cache hit reuses when it is still stored: the cached
/// assessment's first reference, if it has one.
pub fn reusable_artifact(cached: &CachedAssessment) -> (r: Option<String>)
    ensures
        cached.artifact_references@.len() == 0 ==> r is None,
        cached.artifact_references@.len() > 0 ==> r is Some && r->Some_0@
            == cached.artifact_references@[0]@,
{
    if cached.artifact_references.len() == 0 {
        None
    } else {
        Some(cached.artifact_references[0].clone())
    }
}

/// How one leased work item fared against the cache.
#[derive(Debug)]
pub enum ShortCircuitCacheWorkerResult {
    /// No work was there to lease.
    Idle,
    /// The outcome was recorded from a cached assessment.
    Hit { work_id: String, target: String, policy: String, outcome_receipt: OutcomeReceipt },
    /// No usable assessment was cached; the lease went back to the queue.
    Miss { work_id: String, target: String, policy: String, reason: String },
}

/// The tally of a sweep over leased work.
#[derive(Debug)]
pub struct ShortCircuitSummary {
    pub hits: usize,
    pub misses: usize,
    pub hit_work_ids: Vec<String>,
    pub miss_work_ids: Vec<String>,
}

impl ShortCircuitSummary {
    /// The counts are the lengths of the lists of work items.
    pub open spec fn consistent(&self) -> bool {
        &&& self.hits == self.hit_work_ids@.len()
        &&& self.misses == self.miss_work_ids@.len()
    }

    /// A sweep that has seen nothing yet.
    pub fn new() -> (s: Self)
        ensures
            s.consistent(),
            s.hits == 0,
            s.misses == 0,
    {
        ShortCircuitSummary { hits: 0, misses: 0, hit_work_ids: Vec::new(), miss_work_ids: Vec::new() }
    }

    /// Whether the sweep leases another item: fewer than `max_items` have
    /// been seen.
    pub fn continues(&self, max_items: usize) -> (b: bool)
        ensures
            b == (self.hits + self.misses < max_items),
    {
        self.hits < max_items && self.misses < max_items - self.hits
    }

    /// Tallies one result: a hit or a miss is counted and its work item
    /// listed; the sweep ends, with nothing counted, when the queue was idle.
    pub fn tally(&mut self, result: ShortCircuitCacheWorkerResult) -> (go_on: bool)
        requires
            old(self).hits + old(self).misses < usize::MAX,
        ensures
            go_on == !(result is Idle),
            old(self).consistent() ==> final(self).consistent(),
            match result {
                ShortCircuitCacheWorkerResult::Idle => {
                    &&& final(self).hits == old(self).hits
                    &&& final(self).misses == old(self).misses
                    &&& final(self).hit_work_ids@ == old(self).hit_work_ids@
                    &&& final(self).miss_work_ids@ == old(self).miss_work_ids@
                },
                ShortCircuitCacheWorkerResult::Hit { work_id, .. } => {
                    &&& final(self).hits == old(self).hits + 1
                    &&& final(self).misses == old(self).misses
                    &&& final(self).hit_work_ids@ == old(self).hit_work_ids@.push(work_id)
                    &&& final(self).miss_work_ids@ == old(self).miss_work_ids@
                },
                ShortCircuitCacheWorkerResult::Miss { work_id, .. } => {
                    &&& final(self).hits == old(self).hits
                    &&& final(self).misses == old(self).misses + 1
                    &&& final(self).hit_work_ids@ == old(self).hit_work_ids@
                    &&& final(self).miss_work_ids@ == old(self).miss_work_ids@.push(work_id)
                },
            },
    {
        match result {
            ShortCircuitCacheWorkerResult::Idle => false,
            ShortCircuitCacheWorkerResult::Hit { work_id, .. } => {
                self.hits = self.hits + 1;
                self.hit_work_ids.push(work_id);
                true
            },
            ShortCircuitCacheWorkerResult::Miss { work_id, .. } => {
                self.misses = self.misses + 1;
                self.miss_work_ids.push(work_id);
                true
            },
        }
    }
}

} // verus!
