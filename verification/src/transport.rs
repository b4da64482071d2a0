//! Transport checks of policy review decisions: the decision must come back
//! under the schema it was asked for, be a valid decision, carry no
//! candidate records of its own, and record an outcome that agrees with its
//! event.
use crate::decision_schema::{decision_schema, decision_schema_json};
use crate::documentation_schema::{documentation_assessment_draft_schema, documentation_draft_shape};
use crate::json::{Json, field, get_field, json_eq, text_eq};
use crate::review::{event_of, review_event, review_output_ok, validate_review_output};
use crate::shape::{Shape, fits, lemma_fits_same};
use vstd::prelude::*;
use vstd::string::*;

verus! {

/// The outcome an assessment draft records, as far as the event check reads
/// it.
#[derive(Debug, PartialEq, Eq, Structural, Clone, Copy)]
pub enum DraftOutcome {
    Passed,
    CandidateFindings,
    Other,
}

/// Where a policy's draft records its outcome, and the two values the event
/// check reads.
#[derive(Debug)]
pub struct OutcomeField {
    /// The member of `result` that holds the outcome.
    pub key: &'static str,
    /// The value for a passing review.
    pub passed: &'static str,
    /// The value for a review with candidate findings.
    pub found: &'static str,
}

/// The outcome recorded under `result` of the assessment.
pub open spec fn recorded_outcome(assessment: Json, key: Seq<char>, passed: Seq<char>, found: Seq<char>) -> DraftOutcome {
    match field(assessment, "result"@) {
        Some(result) => match field(result, key) {
            Some(Json::Str(s)) => if s@ == passed {
                DraftOutcome::Passed
            } else if s@ == found {
                DraftOutcome::CandidateFindings
            } else {
                DraftOutcome::Other
            },
            _ => DraftOutcome::Other,
        },
        None => DraftOutcome::Other,
    }
}

/// A decision that carries a policy assessment.
pub open spec fn assessed_event(e: Seq<char>) -> bool {
    e == "review.pass"@ || e == "review.suggestion"@ || e == "review.candidate_found"@
}

/// The recorded outcome agrees with the event.
pub open spec fn outcome_agrees(e: Seq<char>, o: DraftOutcome) -> bool {
    ||| (e == "review.pass"@ || e == "review.suggestion"@) && o == DraftOutcome::Passed
    ||| e == "review.candidate_found"@ && o == DraftOutcome::CandidateFindings
}

/// A valid decision whose assessment, if it carries one, holds no candidate
/// records, parsed as the policy's draft, and records an outcome that agrees
/// with the event.
pub open spec fn transport_ok(output: Json, parsed: bool, key: Seq<char>, passed: Seq<char>, found: Seq<char>) -> bool {
    &&& review_output_ok(output)
    &&& ({
        let (e, p) = event_of(output).unwrap();
        assessed_event(e) ==> {
            &&& field(p, "candidates"@) is None
            &&& field(p, "assessment"@) is Some
            &&& parsed
            &&& outcome_agrees(e, recorded_outcome(field(p, "assessment"@).unwrap(), key, passed, found))
        }
    })
}

fn outcome_of(assessment: &Json, outcome: &OutcomeField) -> (r: DraftOutcome)
    ensures
        r == recorded_outcome(*assessment, outcome.key@, outcome.passed@, outcome.found@),
{
    match get_field(assessment, "result") {
        Some(result) => match get_field(result, outcome.key) {
            Some(Json::Str(s)) => {
                if text_eq(s.as_str(), outcome.passed) {
                    DraftOutcome::Passed
                } else if text_eq(s.as_str(), outcome.found) {
                    DraftOutcome::CandidateFindings
                } else {
                    DraftOutcome::Other
                }
            },
            _ => DraftOutcome::Other,
        },
        None => DraftOutcome::Other,
    }
}

fn message(policy: &str, rest: &str) -> (m: String)
    ensures
        m@ == policy@ + rest@,
{
    let mut m = policy.to_owned();
    m.append(rest);
    m
}

/// Checks a policy review decision against the decision schema built around
/// `expected_shape` and the policy's draft: `parsed` is whether the
/// decision's assessment parsed as the policy's draft.
pub fn validate_policy_transport(
    policy: &str,
    expected: &Json,
    Ghost(expected_shape): Ghost<Shape>,
    schema: &Json,
    output: &Json,
    parsed: &Result<(), String>,
    outcome: &OutcomeField,
) -> (r: Result<(), String>)
    requires
        fits(*expected, expected_shape),
    ensures
        r is Ok <==> (fits(*schema, expected_shape) && transport_ok(
            *output,
            parsed is Ok,
            outcome.key@,
            outcome.passed@,
            outcome.found@,
        )),
{
    proof {
        lemma_fits_same(*expected, *schema, expected_shape);
    }
    if !json_eq(schema, expected) {
        return Err(message(policy, " review schema identity mismatch"));
    }
    validate_review_output(output)?;
    let (event_type, payload) = match review_event(output) {
        Ok(v) => v,
        Err(e) => {
            return Err(e);
        },
    };
    if !(text_eq(event_type, "review.pass") || text_eq(event_type, "review.suggestion") || text_eq(
        event_type,
        "review.candidate_found",
    )) {
        return Ok(());
    }
    if get_field(payload, "candidates").is_some() {
        return Err(message(policy, " candidates must be derived from the assessment"));
    }
    let assessment = match get_field(payload, "assessment") {
        Some(a) => a,
        None => {
            return Err(message(policy, " assessment is missing"));
        },
    };
    match parsed {
        Ok(()) => {},
        Err(e) => {
            return Err(e.clone());
        },
    }
    let recorded = outcome_of(assessment, outcome);
    let agrees = ((text_eq(event_type, "review.pass") || text_eq(event_type, "review.suggestion"))
        && recorded == DraftOutcome::Passed) || (text_eq(event_type, "review.candidate_found")
        && recorded == DraftOutcome::CandidateFindings);
    if !agrees {
        return Err(message(policy, " result does not match the review event"));
    }
    Ok(())
}

/// Where a draft records its outcome as `result.state`, `passed` or
/// `candidate_findings`.
pub fn state_outcome_field() -> (r: OutcomeField)
    ensures
        r.key@ == "state"@,
        r.passed@ == "passed"@,
        r.found@ == "candidate_findings"@,
{
    OutcomeField { key: "state", passed: "passed", found: "candidate_findings" }
}

/// Holds a documentation review decision to the documentation decision schema
/// and draft.
#[derive(Debug)]
pub struct DocumentationReviewTransportValidator;

impl DocumentationReviewTransportValidator {
    /// Accepts a decision under the documentation decision schema whose
    /// assessment, if any, holds no candidate records, parsed as a
    /// documentation draft (`parsed`), and records an outcome that agrees with
    /// the event.
    pub fn validate(&self, schema: &Json, output: &Json, parsed: &Result<(), String>) -> (r: Result<
        (),
        String,
    >)
        ensures
            r is Ok <==> (fits(*schema, decision_schema(documentation_draft_shape())) && transport_ok(
                *output,
                parsed is Ok,
                "state"@,
                "passed"@,
                "candidate_findings"@,
            )),
    {
        let draft = documentation_assessment_draft_schema();
        let expected = decision_schema_json(&draft, Ghost(documentation_draft_shape()));
        validate_policy_transport(
            "documentation",
            &expected,
            Ghost(decision_schema(documentation_draft_shape())),
            schema,
            output,
            parsed,
            &state_outcome_field(),
        )
    }
}

} // verus!
