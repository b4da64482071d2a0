//! The schema of an optimization assessment draft: exactly one judgement per
//! optimization dimension and a result whose findings propose an
//! optimization and state its impact; and the transport check of an
//! optimization review decision.  Object keys are in sorted order.
use crate::decision_schema::{
    closed_object, decision_schema, decision_schema_json, member, nonempty_array_json,
    nonempty_array_of, nonempty_string_json, nonempty_string_schema, object_of, typed,
};
use crate::json::{Json, JsonMember};
use crate::maintainability_schema::{
    dimension_status_list, dimension_statuses, graded_severities, graded_severity_list,
    result_state_list, result_states,
};
use crate::schema_parts::{
    array_json, array_of, closed_json, counted_array, counted_array_json, integer_between,
    integer_between_json, literal_texts, string_array_json, string_enum, string_enum_json,
    string_json, typed_json,
};
use crate::shape::{Shape, fits};
use crate::transport::{state_outcome_field, transport_ok, validate_policy_transport};
use vstd::prelude::*;

verus! {

/// What the dimensions list must hold.
pub const OPTIMIZATION_DIMENSIONS_DESCRIPTION: &'static str = "All 7 standard optimization dimensions must be evaluated.";

/// The optimization dimensions.
pub open spec fn optimization_dimensions() -> Seq<Seq<char>> {
    seq![
        "unnecessary_allocations"@,
        "redundant_copies"@,
        "algorithmic_complexity"@,
        "iteration_and_indexing"@,
        "data_structures_and_capacity"@,
        "caching_and_hoisting"@,
        "concurrency_and_resource_overhead"@,
    ]
}

/// The kinds of optimization finding.
pub open spec fn optimization_finding_kinds() -> Seq<Seq<char>> {
    seq![
        "unnecessary_allocation"@,
        "redundant_copy"@,
        "algorithmic_inefficiency"@,
        "suboptimal_data_structure"@,
        "loop_invariant_computation"@,
        "resource_or_lock_hazard"@,
    ]
}

fn dimension_list() -> (r: Vec<&'static str>)
    ensures
        literal_texts(r@) == optimization_dimensions(),
{
    let r = vec![
        "unnecessary_allocations",
        "redundant_copies",
        "algorithmic_complexity",
        "iteration_and_indexing",
        "data_structures_and_capacity",
        "caching_and_hoisting",
        "concurrency_and_resource_overhead",
    ];
    proof {
        assert(literal_texts(r@) =~= optimization_dimensions());
    }
    r
}

/// The impact an optimization would have.
pub open spec fn impact_shape() -> Shape {
    closed_object(
        seq![
            ("behavior_change"@, typed("string"@)),
            ("blast_radius"@, nonempty_string_schema()),
            ("potential_benefit"@, nonempty_string_schema()),
            ("risks"@, array_of(typed("string"@))),
            ("strictly_semantic_preserving"@, typed("boolean"@)),
        ],
        seq!["strictly_semantic_preserving"@, "blast_radius"@, "potential_benefit"@],
    )
}

/// An optimization finding.
pub open spec fn optimization_candidate_shape() -> Shape {
    closed_object(
        seq![
            ("confidence_basis_points"@, integer_between(0, 10000)),
            ("description"@, nonempty_string_schema()),
            ("dimensions"@, nonempty_array_of(string_enum(optimization_dimensions()))),
            ("evidence"@, nonempty_array_of(typed("string"@))),
            ("finding_kind"@, string_enum(optimization_finding_kinds())),
            ("impact"@, impact_shape()),
            ("proposed_optimization"@, nonempty_string_schema()),
            ("severity"@, string_enum(graded_severities())),
            ("title"@, nonempty_string_schema()),
        ],
        seq![
            "title"@,
            "description"@,
            "finding_kind"@,
            "proposed_optimization"@,
            "impact"@,
            "severity"@,
            "confidence_basis_points"@,
            "dimensions"@,
            "evidence"@,
        ],
    )
}

/// The judgement of one optimization dimension.
pub open spec fn optimization_dimension_shape() -> Shape {
    closed_object(
        seq![
            ("dimension"@, string_enum(optimization_dimensions())),
            ("evidence"@, array_of(typed("string"@))),
            ("rationale"@, nonempty_string_schema()),
            ("status"@, string_enum(dimension_statuses())),
        ],
        seq!["dimension"@, "status"@, "rationale"@, "evidence"@],
    )
}

/// The result of an optimization assessment.
pub open spec fn optimization_result_shape() -> Shape {
    closed_object(
        seq![
            ("findings"@, array_of(optimization_candidate_shape())),
            ("reason"@, nonempty_string_schema()),
            ("state"@, string_enum(result_states())),
        ],
        seq!["state"@],
    )
}

/// The optimization assessment draft.
pub open spec fn optimization_draft_shape() -> Shape {
    closed_object(
        seq![
            (
                "dimensions"@,
                counted_array(OPTIMIZATION_DIMENSIONS_DESCRIPTION@, optimization_dimension_shape(), 7),
            ),
            ("result"@, optimization_result_shape()),
        ],
        seq!["dimensions"@, "result"@],
    )
}

fn impact_json() -> (r: Json)
    ensures
        fits(r, impact_shape()),
{
    let ghost p = impact_shape()->Object_0[1].1->Object_0;
    let required = vec!["strictly_semantic_preserving", "blast_radius", "potential_benefit"];
    proof {
        assert(literal_texts(required@) =~= seq!["strictly_semantic_preserving"@, "blast_radius"@, "potential_benefit"@]);
    }
    let mut m: Vec<JsonMember> = Vec::new();
    m.push(member("behavior_change", string_json(), Ghost(p[0].1)));
    m.push(member("blast_radius", nonempty_string_json(), Ghost(p[1].1)));
    m.push(member("potential_benefit", nonempty_string_json(), Ghost(p[2].1)));
    m.push(member("risks", string_array_json(), Ghost(p[3].1)));
    m.push(member("strictly_semantic_preserving", typed_json("boolean"), Ghost(p[4].1)));
    closed_json(object_of(m, Ghost(p)), required, Ghost(p))
}

fn optimization_candidate_json() -> (r: Json)
    ensures
        fits(r, optimization_candidate_shape()),
{
    let ghost p = optimization_candidate_shape()->Object_0[1].1->Object_0;
    let kinds = vec![
        "unnecessary_allocation",
        "redundant_copy",
        "algorithmic_inefficiency",
        "suboptimal_data_structure",
        "loop_invariant_computation",
        "resource_or_lock_hazard",
    ];
    let required = vec![
        "title",
        "description",
        "finding_kind",
        "proposed_optimization",
        "impact",
        "severity",
        "confidence_basis_points",
        "dimensions",
        "evidence",
    ];
    proof {
        assert(literal_texts(kinds@) =~= optimization_finding_kinds());
        assert(literal_texts(required@) =~= seq![
            "title"@,
            "description"@,
            "finding_kind"@,
            "proposed_optimization"@,
            "impact"@,
            "severity"@,
            "confidence_basis_points"@,
            "dimensions"@,
            "evidence"@,
        ]);
    }
    let mut m: Vec<JsonMember> = Vec::new();
    m.push(member("confidence_basis_points", integer_between_json(0, 10000), Ghost(p[0].1)));
    m.push(member("description", nonempty_string_json(), Ghost(p[1].1)));
    m.push(
        member(
            "dimensions",
            nonempty_array_json(string_enum_json(dimension_list()), Ghost(string_enum(optimization_dimensions()))),
            Ghost(p[2].1),
        ),
    );
    m.push(member("evidence", nonempty_array_json(string_json(), Ghost(typed("string"@))), Ghost(p[3].1)));
    m.push(member("finding_kind", string_enum_json(kinds), Ghost(p[4].1)));
    m.push(member("impact", impact_json(), Ghost(p[5].1)));
    m.push(member("proposed_optimization", nonempty_string_json(), Ghost(p[6].1)));
    m.push(member("severity", string_enum_json(graded_severity_list()), Ghost(p[7].1)));
    m.push(member("title", nonempty_string_json(), Ghost(p[8].1)));
    closed_json(object_of(m, Ghost(p)), required, Ghost(p))
}

fn optimization_dimension_json() -> (r: Json)
    ensures
        fits(r, optimization_dimension_shape()),
{
    let ghost p = optimization_dimension_shape()->Object_0[1].1->Object_0;
    let required = vec!["dimension", "status", "rationale", "evidence"];
    proof {
        assert(literal_texts(required@) =~= seq!["dimension"@, "status"@, "rationale"@, "evidence"@]);
    }
    let mut m: Vec<JsonMember> = Vec::new();
    m.push(member("dimension", string_enum_json(dimension_list()), Ghost(p[0].1)));
    m.push(member("evidence", string_array_json(), Ghost(p[1].1)));
    m.push(member("rationale", nonempty_string_json(), Ghost(p[2].1)));
    m.push(member("status", string_enum_json(dimension_status_list()), Ghost(p[3].1)));
    closed_json(object_of(m, Ghost(p)), required, Ghost(p))
}

fn optimization_result_json() -> (r: Json)
    ensures
        fits(r, optimization_result_shape()),
{
    let ghost p = optimization_result_shape()->Object_0[1].1->Object_0;
    let required = vec!["state"];
    proof {
        assert(literal_texts(required@) =~= seq!["state"@]);
    }
    let mut m: Vec<JsonMember> = Vec::new();
    m.push(
        member(
            "findings",
            array_json(optimization_candidate_json(), Ghost(optimization_candidate_shape())),
            Ghost(p[0].1),
        ),
    );
    m.push(member("reason", nonempty_string_json(), Ghost(p[1].1)));
    m.push(member("state", string_enum_json(result_state_list()), Ghost(p[2].1)));
    closed_json(object_of(m, Ghost(p)), required, Ghost(p))
}

/// The schema of an optimization assessment draft.
pub fn optimization_assessment_draft_schema() -> (r: Json)
    ensures
        fits(r, optimization_draft_shape()),
{
    let ghost p = optimization_draft_shape()->Object_0[1].1->Object_0;
    let required = vec!["dimensions", "result"];
    proof {
        assert(literal_texts(required@) =~= seq!["dimensions"@, "result"@]);
    }
    let mut m: Vec<JsonMember> = Vec::new();
    m.push(
        member(
            "dimensions",
            counted_array_json(
                OPTIMIZATION_DIMENSIONS_DESCRIPTION,
                optimization_dimension_json(),
                Ghost(optimization_dimension_shape()),
                7,
            ),
            Ghost(p[0].1),
        ),
    );
    m.push(member("result", optimization_result_json(), Ghost(p[1].1)));
    closed_json(object_of(m, Ghost(p)), required, Ghost(p))
}

/// Holds an optimization review decision to the optimization decision schema
/// and draft.
#[derive(Debug)]
pub struct OptimizationReviewTransportValidator;

impl OptimizationReviewTransportValidator {
    /// Accepts a decision under the optimization decision schema whose
    /// assessment, if any, holds no candidate records, parsed as an
    /// optimization draft (`parsed`), and records an outcome that agrees with
    /// the event.
    pub fn validate(&self, schema: &Json, output: &Json, parsed: &Result<(), String>) -> (r: Result<
        (),
        String,
    >)
        ensures
            r is Ok <==> (fits(*schema, decision_schema(optimization_draft_shape())) && transport_ok(
                *output,
                parsed is Ok,
                "state"@,
                "passed"@,
                "candidate_findings"@,
            )),
    {
        let draft = optimization_assessment_draft_schema();
        let expected = decision_schema_json(&draft, Ghost(optimization_draft_shape()));
        validate_policy_transport(
            "optimization",
            &expected,
            Ghost(decision_schema(optimization_draft_shape())),
            schema,
            output,
            parsed,
            &state_outcome_field(),
        )
    }
}

} // verus!
