//! The schema of a conformance assessment draft: a judgement per
//! conformance dimension and a result whose findings set declared intent
//! against the observed implementation; and the transport check of a
//! conformance review decision.  Object keys are in sorted order.
use crate::decision_schema::{decision_schema, decision_schema_json, member, object_of, typed};
use crate::json::{Json, JsonMember};
use crate::schema_parts::{
    array_json, array_of, integer_json, literal_texts, object_requiring, object_requiring_json,
    string_array_json, string_enum, string_enum_json, string_json,
};
use crate::shape::{Shape, fits};
use crate::transport::{state_outcome_field, transport_ok, validate_policy_transport};
use vstd::prelude::*;

verus! {

/// The conformance dimensions.
pub open spec fn conformance_dimensions() -> Seq<Seq<char>> {
    seq![
        "coverage"@,
        "constraint_conformance"@,
        "document_health"@,
        "architectural_drift"@,
        "decision_consistency"@,
    ]
}

/// The judgement of one conformance dimension.
pub open spec fn conformance_dimension_shape() -> Shape {
    object_requiring(
        seq![
            ("dimension"@, string_enum(conformance_dimensions())),
            ("evidence"@, array_of(typed("string"@))),
            ("rationale"@, typed("string"@)),
            (
                "status"@,
                string_enum(seq!["satisfied"@, "deficient"@, "not_applicable"@, "unable_to_verify"@]),
            ),
        ],
        seq!["dimension"@, "status"@, "rationale"@, "evidence"@],
    )
}

/// A conformance finding.
pub open spec fn conformance_finding_shape() -> Shape {
    object_requiring(
        seq![
            ("confidence_basis_points"@, typed("integer"@)),
            ("declared_intent"@, typed("string"@)),
            ("description"@, typed("string"@)),
            ("dimensions"@, array_of(typed("string"@))),
            ("discrepancy"@, typed("string"@)),
            ("evidence"@, array_of(typed("string"@))),
            ("governing_artifacts"@, array_of(typed("string"@))),
            ("impact"@, typed("string"@)),
            ("observed_implementation"@, typed("string"@)),
            ("severity"@, typed("string"@)),
            ("suggested_disposition"@, typed("object"@)),
            ("title"@, typed("string"@)),
        ],
        seq![
            "title"@,
            "description"@,
            "severity"@,
            "confidence_basis_points"@,
            "dimensions"@,
            "governing_artifacts"@,
            "declared_intent"@,
            "observed_implementation"@,
            "discrepancy"@,
            "impact"@,
            "suggested_disposition"@,
            "evidence"@,
        ],
    )
}

/// The result of a conformance assessment.
pub open spec fn conformance_result_shape() -> Shape {
    object_requiring(
        seq![
            ("findings"@, array_of(conformance_finding_shape())),
            ("reason"@, typed("string"@)),
            ("state"@, string_enum(seq!["passed"@, "candidate_findings"@, "unable_to_verify"@])),
        ],
        seq!["state"@],
    )
}

/// The conformance assessment draft.
pub open spec fn conformance_draft_shape() -> Shape {
    object_requiring(
        seq![
            ("dimensions"@, array_of(conformance_dimension_shape())),
            ("result"@, conformance_result_shape()),
        ],
        seq!["dimensions"@, "result"@],
    )
}

fn object_type_json() -> (r: Json)
    ensures
        fits(r, typed("object"@)),
{
    let ghost s = typed("object"@)->Object_0;
    let mut m: Vec<JsonMember> = Vec::new();
    m.push(member("type", crate::decision_schema::text("object"), Ghost(s[0].1)));
    object_of(m, Ghost(s))
}

fn conformance_dimension_json() -> (r: Json)
    ensures
        fits(r, conformance_dimension_shape()),
{
    let ghost p = conformance_dimension_shape()->Object_0[0].1->Object_0;
    let dimensions = vec![
        "coverage",
        "constraint_conformance",
        "document_health",
        "architectural_drift",
        "decision_consistency",
    ];
    let statuses = vec!["satisfied", "deficient", "not_applicable", "unable_to_verify"];
    let required = vec!["dimension", "status", "rationale", "evidence"];
    proof {
        assert(literal_texts(dimensions@) =~= conformance_dimensions());
        assert(literal_texts(statuses@) =~= seq![
            "satisfied"@,
            "deficient"@,
            "not_applicable"@,
            "unable_to_verify"@,
        ]);
        assert(literal_texts(required@) =~= seq!["dimension"@, "status"@, "rationale"@, "evidence"@]);
    }
    let mut m: Vec<JsonMember> = Vec::new();
    m.push(member("dimension", string_enum_json(dimensions), Ghost(p[0].1)));
    m.push(member("evidence", string_array_json(), Ghost(p[1].1)));
    m.push(member("rationale", string_json(), Ghost(p[2].1)));
    m.push(member("status", string_enum_json(statuses), Ghost(p[3].1)));
    object_requiring_json(object_of(m, Ghost(p)), required, Ghost(p))
}

fn conformance_finding_json() -> (r: Json)
    ensures
        fits(r, conformance_finding_shape()),
{
    let ghost p = conformance_finding_shape()->Object_0[0].1->Object_0;
    let required = vec![
        "title",
        "description",
        "severity",
        "confidence_basis_points",
        "dimensions",
        "governing_artifacts",
        "declared_intent",
        "observed_implementation",
        "discrepancy",
        "impact",
        "suggested_disposition",
        "evidence",
    ];
    proof {
        assert(literal_texts(required@) =~= seq![
            "title"@,
            "description"@,
            "severity"@,
            "confidence_basis_points"@,
            "dimensions"@,
            "governing_artifacts"@,
            "declared_intent"@,
            "observed_implementation"@,
            "discrepancy"@,
            "impact"@,
            "suggested_disposition"@,
            "evidence"@,
        ]);
    }
    let mut m: Vec<JsonMember> = Vec::new();
    m.push(member("confidence_basis_points", integer_json(), Ghost(p[0].1)));
    m.push(member("declared_intent", string_json(), Ghost(p[1].1)));
    m.push(member("description", string_json(), Ghost(p[2].1)));
    m.push(member("dimensions", string_array_json(), Ghost(p[3].1)));
    m.push(member("discrepancy", string_json(), Ghost(p[4].1)));
    m.push(member("evidence", string_array_json(), Ghost(p[5].1)));
    m.push(member("governing_artifacts", string_array_json(), Ghost(p[6].1)));
    m.push(member("impact", string_json(), Ghost(p[7].1)));
    m.push(member("observed_implementation", string_json(), Ghost(p[8].1)));
    m.push(member("severity", string_json(), Ghost(p[9].1)));
    m.push(member("suggested_disposition", object_type_json(), Ghost(p[10].1)));
    m.push(member("title", string_json(), Ghost(p[11].1)));
    object_requiring_json(object_of(m, Ghost(p)), required, Ghost(p))
}

fn conformance_result_json() -> (r: Json)
    ensures
        fits(r, conformance_result_shape()),
{
    let ghost p = conformance_result_shape()->Object_0[0].1->Object_0;
    let states = vec!["passed", "candidate_findings", "unable_to_verify"];
    let required = vec!["state"];
    proof {
        assert(literal_texts(states@) =~= seq!["passed"@, "candidate_findings"@, "unable_to_verify"@]);
        assert(literal_texts(required@) =~= seq!["state"@]);
    }
    let mut m: Vec<JsonMember> = Vec::new();
    m.push(member("findings", array_json(conformance_finding_json(), Ghost(conformance_finding_shape())), Ghost(p[0].1)));
    m.push(member("reason", string_json(), Ghost(p[1].1)));
    m.push(member("state", string_enum_json(states), Ghost(p[2].1)));
    object_requiring_json(object_of(m, Ghost(p)), required, Ghost(p))
}

/// The schema of a conformance assessment draft.
pub fn conformance_assessment_draft_schema() -> (r: Json)
    ensures
        fits(r, conformance_draft_shape()),
{
    let ghost p = conformance_draft_shape()->Object_0[0].1->Object_0;
    let required = vec!["dimensions", "result"];
    proof {
        assert(literal_texts(required@) =~= seq!["dimensions"@, "result"@]);
    }
    let mut m: Vec<JsonMember> = Vec::new();
    m.push(member("dimensions", array_json(conformance_dimension_json(), Ghost(conformance_dimension_shape())), Ghost(p[0].1)));
    m.push(member("result", conformance_result_json(), Ghost(p[1].1)));
    object_requiring_json(object_of(m, Ghost(p)), required, Ghost(p))
}

/// Holds a conformance review decision to the conformance decision schema
/// and draft.
#[derive(Debug)]
pub struct ConformanceReviewTransportValidator;

impl ConformanceReviewTransportValidator {
    /// Accepts a decision under the conformance decision schema whose
    /// assessment, if any, holds no candidate records, parsed as a
    /// conformance draft (`parsed`), and records an outcome that agrees with
    /// the event.
    pub fn validate(&self, schema: &Json, output: &Json, parsed: &Result<(), String>) -> (r: Result<
        (),
        String,
    >)
        ensures
            r is Ok <==> (fits(*schema, decision_schema(conformance_draft_shape())) && transport_ok(
                *output,
                parsed is Ok,
                "state"@,
                "passed"@,
                "candidate_findings"@,
            )),
    {
        let draft = conformance_assessment_draft_schema();
        let expected = decision_schema_json(&draft, Ghost(conformance_draft_shape()));
        validate_policy_transport(
            "conformance",
            &expected,
            Ghost(decision_schema(conformance_draft_shape())),
            schema,
            output,
            parsed,
            &state_outcome_field(),
        )
    }
}

} // verus!
