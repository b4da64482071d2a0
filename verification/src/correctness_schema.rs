//! The schema of a correctness assessment draft: a judgement per
//! correctness dimension and a result with findings; and the transport check
//! of a correctness review decision.  Object keys are in sorted order.
use crate::architecture_schema::finding_severities;
use crate::decision_schema::{closed_object, decision_schema, decision_schema_json, member, object_of, typed};
use crate::json::{Json, JsonMember};
use crate::schema_parts::{
    array_json, array_of, closed_json, integer_between, integer_between_json, literal_texts,
    string_array_json, string_enum, string_enum_json, string_json,
};
use crate::shape::{Shape, fits};
use crate::transport::{OutcomeField, state_outcome_field, transport_ok, validate_policy_transport};
use vstd::prelude::*;

verus! {

/// The correctness dimensions.
pub open spec fn correctness_dimensions() -> Seq<Seq<char>> {
    seq![
        "failure_paths"@,
        "invariants"@,
        "state_transitions"@,
        "error_handling"@,
        "resource_lifecycle"@,
        "concurrency"@,
        "persistence"@,
        "unsafe_assumptions"@,
        "boundary_conditions"@,
    ]
}

fn correctness_dimension_list() -> (r: Vec<&'static str>)
    ensures
        literal_texts(r@) == correctness_dimensions(),
{
    let r = vec![
        "failure_paths",
        "invariants",
        "state_transitions",
        "error_handling",
        "resource_lifecycle",
        "concurrency",
        "persistence",
        "unsafe_assumptions",
        "boundary_conditions",
    ];
    proof {
        assert(literal_texts(r@) =~= correctness_dimensions());
    }
    r
}

/// The judgement of one correctness dimension.
pub open spec fn correctness_dimension_shape() -> Shape {
    closed_object(
        seq![
            ("dimension"@, string_enum(correctness_dimensions())),
            ("evidence"@, array_of(typed("string"@))),
            ("rationale"@, typed("string"@)),
            (
                "status"@,
                string_enum(seq!["satisfied"@, "deficient"@, "unable_to_verify"@, "not_applicable"@]),
            ),
        ],
        seq!["dimension"@, "status"@, "rationale"@, "evidence"@],
    )
}

/// A correctness finding.
pub open spec fn correctness_finding_shape() -> Shape {
    closed_object(
        seq![
            ("confidence_basis_points"@, integer_between(0, 10000)),
            ("defect_kind"@, string_enum(seq!["demonstrated_defect"@, "speculative_risk"@])),
            ("description"@, typed("string"@)),
            ("dimensions"@, array_of(string_enum(correctness_dimensions()))),
            ("evidence"@, array_of(typed("string"@))),
            ("failure_path"@, typed("string"@)),
            ("severity"@, string_enum(finding_severities())),
            ("title"@, typed("string"@)),
        ],
        seq![
            "title"@,
            "description"@,
            "defect_kind"@,
            "failure_path"@,
            "severity"@,
            "confidence_basis_points"@,
            "dimensions"@,
            "evidence"@,
        ],
    )
}

/// The result of a correctness assessment.
pub open spec fn correctness_result_shape() -> Shape {
    closed_object(
        seq![
            ("findings"@, array_of(correctness_finding_shape())),
            ("reason"@, typed("string"@)),
            ("state"@, string_enum(seq!["passed"@, "candidate_findings"@, "unable_to_verify"@])),
        ],
        seq!["state"@],
    )
}

/// The correctness assessment draft.
pub open spec fn correctness_draft_shape() -> Shape {
    closed_object(
        seq![
            ("dimensions"@, array_of(correctness_dimension_shape())),
            ("result"@, correctness_result_shape()),
        ],
        seq!["dimensions"@, "result"@],
    )
}

fn correctness_dimension_json() -> (r: Json)
    ensures
        fits(r, correctness_dimension_shape()),
{
    let ghost p = correctness_dimension_shape()->Object_0[1].1->Object_0;
    let statuses = vec!["satisfied", "deficient", "unable_to_verify", "not_applicable"];
    let required = vec!["dimension", "status", "rationale", "evidence"];
    proof {
        assert(literal_texts(statuses@) =~= seq![
            "satisfied"@,
            "deficient"@,
            "unable_to_verify"@,
            "not_applicable"@,
        ]);
        assert(literal_texts(required@) =~= seq!["dimension"@, "status"@, "rationale"@, "evidence"@]);
    }
    let mut m: Vec<JsonMember> = Vec::new();
    m.push(member("dimension", string_enum_json(correctness_dimension_list()), Ghost(p[0].1)));
    m.push(member("evidence", string_array_json(), Ghost(p[1].1)));
    m.push(member("rationale", string_json(), Ghost(p[2].1)));
    m.push(member("status", string_enum_json(statuses), Ghost(p[3].1)));
    closed_json(object_of(m, Ghost(p)), required, Ghost(p))
}

fn correctness_finding_json() -> (r: Json)
    ensures
        fits(r, correctness_finding_shape()),
{
    let ghost p = correctness_finding_shape()->Object_0[1].1->Object_0;
    let defect_kinds = vec!["demonstrated_defect", "speculative_risk"];
    let severities = vec!["note", "low", "medium", "high", "critical"];
    let required = vec![
        "title",
        "description",
        "defect_kind",
        "failure_path",
        "severity",
        "confidence_basis_points",
        "dimensions",
        "evidence",
    ];
    proof {
        assert(literal_texts(defect_kinds@) =~= seq!["demonstrated_defect"@, "speculative_risk"@]);
        assert(literal_texts(severities@) =~= finding_severities());
        assert(literal_texts(required@) =~= seq![
            "title"@,
            "description"@,
            "defect_kind"@,
            "failure_path"@,
            "severity"@,
            "confidence_basis_points"@,
            "dimensions"@,
            "evidence"@,
        ]);
    }
    let mut m: Vec<JsonMember> = Vec::new();
    m.push(member("confidence_basis_points", integer_between_json(0, 10000), Ghost(p[0].1)));
    m.push(member("defect_kind", string_enum_json(defect_kinds), Ghost(p[1].1)));
    m.push(member("description", string_json(), Ghost(p[2].1)));
    m.push(
        member(
            "dimensions",
            array_json(string_enum_json(correctness_dimension_list()), Ghost(string_enum(correctness_dimensions()))),
            Ghost(p[3].1),
        ),
    );
    m.push(member("evidence", string_array_json(), Ghost(p[4].1)));
    m.push(member("failure_path", string_json(), Ghost(p[5].1)));
    m.push(member("severity", string_enum_json(severities), Ghost(p[6].1)));
    m.push(member("title", string_json(), Ghost(p[7].1)));
    closed_json(object_of(m, Ghost(p)), required, Ghost(p))
}

fn correctness_result_json() -> (r: Json)
    ensures
        fits(r, correctness_result_shape()),
{
    let ghost p = correctness_result_shape()->Object_0[1].1->Object_0;
    let states = vec!["passed", "candidate_findings", "unable_to_verify"];
    let required = vec!["state"];
    proof {
        assert(literal_texts(states@) =~= seq!["passed"@, "candidate_findings"@, "unable_to_verify"@]);
        assert(literal_texts(required@) =~= seq!["state"@]);
    }
    let mut m: Vec<JsonMember> = Vec::new();
    m.push(member("findings", array_json(correctness_finding_json(), Ghost(correctness_finding_shape())), Ghost(p[0].1)));
    m.push(member("reason", string_json(), Ghost(p[1].1)));
    m.push(member("state", string_enum_json(states), Ghost(p[2].1)));
    closed_json(object_of(m, Ghost(p)), required, Ghost(p))
}

/// The schema of a correctness assessment draft.
pub fn correctness_assessment_draft_schema() -> (r: Json)
    ensures
        fits(r, correctness_draft_shape()),
{
    let ghost p = correctness_draft_shape()->Object_0[1].1->Object_0;
    let required = vec!["dimensions", "result"];
    proof {
        assert(literal_texts(required@) =~= seq!["dimensions"@, "result"@]);
    }
    let mut m: Vec<JsonMember> = Vec::new();
    m.push(member("dimensions", array_json(correctness_dimension_json(), Ghost(correctness_dimension_shape())), Ghost(p[0].1)));
    m.push(member("result", correctness_result_json(), Ghost(p[1].1)));
    closed_json(object_of(m, Ghost(p)), required, Ghost(p))
}

/// Holds a correctness review decision to the correctness decision schema
/// and draft.
#[derive(Debug)]
pub struct CorrectnessReviewTransportValidator;

impl CorrectnessReviewTransportValidator {
    /// Accepts a decision under the correctness decision schema whose
    /// assessment, if any, holds no candidate records, parsed as a
    /// correctness draft (`parsed`), and records an outcome that agrees with
    /// the event.
    pub fn validate(&self, schema: &Json, output: &Json, parsed: &Result<(), String>) -> (r: Result<
        (),
        String,
    >)
        ensures
            r is Ok <==> (fits(*schema, decision_schema(correctness_draft_shape())) && transport_ok(
                *output,
                parsed is Ok,
                "state"@,
                "passed"@,
                "candidate_findings"@,
            )),
    {
        let draft = correctness_assessment_draft_schema();
        let expected = decision_schema_json(&draft, Ghost(correctness_draft_shape()));
        let outcome: OutcomeField = state_outcome_field();
        validate_policy_transport(
            "correctness",
            &expected,
            Ghost(decision_schema(correctness_draft_shape())),
            schema,
            output,
            parsed,
            &outcome,
        )
    }
}

} // verus!
