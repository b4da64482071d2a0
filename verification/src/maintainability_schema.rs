//! The schema of a maintainability assessment draft: exactly one judgement
//! per maintainability dimension and a result whose findings name a kind of
//! problem and a refactoring; and the transport check of a maintainability
//! review decision.  Object keys are in sorted order.
use crate::decision_schema::{
    closed_object, decision_schema, decision_schema_json, member, nonempty_array_json,
    nonempty_array_of, nonempty_string_json, nonempty_string_schema, object_of, typed,
};
use crate::json::{Json, JsonMember};
use crate::schema_parts::{
    array_json, array_of, closed_json, counted_array, counted_array_json, integer_between,
    integer_between_json, literal_texts, string_array_json, string_enum, string_enum_json,
};
use crate::shape::{Shape, fits};
use crate::transport::{state_outcome_field, transport_ok, validate_policy_transport};
use vstd::prelude::*;

verus! {

/// What the dimensions list must hold.
pub const MAINTAINABILITY_DIMENSIONS_DESCRIPTION: &'static str = "All 8 standard maintainability dimensions must be evaluated.";

/// The maintainability dimensions.
pub open spec fn maintainability_dimensions() -> Seq<Seq<char>> {
    seq![
        "cyclomatic_complexity"@,
        "cognitive_complexity"@,
        "coupling_and_dependencies"@,
        "structural_duplication"@,
        "logical_duplication"@,
        "abstraction_and_modularity"@,
        "extensibility_and_pluggability"@,
        "configurability_and_defaults"@,
    ]
}

/// The kinds of maintainability finding.
pub open spec fn maintainability_finding_kinds() -> Seq<Seq<char>> {
    seq![
        "high_cyclomatic_complexity"@,
        "excessive_cognitive_complexity"@,
        "deep_nesting"@,
        "long_method_or_function"@,
        "god_object_or_module"@,
        "tight_coupling"@,
        "leaky_abstraction"@,
        "law_of_demeter_violation"@,
        "structural_duplication"@,
        "logical_duplication"@,
        "low_cohesion"@,
        "missing_abstraction"@,
        "pluggable_api_opportunity"@,
        "rigid_variant_branching"@,
        "hardcoded_magic_value"@,
        "missing_sane_default"@,
    ]
}

/// The severities of a maintainability finding.
pub open spec fn graded_severities() -> Seq<Seq<char>> {
    seq!["low"@, "medium"@, "high"@, "critical"@]
}

/// The statuses of a dimension's judgement.
pub open spec fn dimension_statuses() -> Seq<Seq<char>> {
    seq!["satisfied"@, "deficient"@, "unable_to_verify"@, "not_applicable"@]
}

/// The states of an assessment result.
pub open spec fn result_states() -> Seq<Seq<char>> {
    seq!["passed"@, "candidate_findings"@, "unable_to_verify"@]
}

fn dimension_list() -> (r: Vec<&'static str>)
    ensures
        literal_texts(r@) == maintainability_dimensions(),
{
    let r = vec![
        "cyclomatic_complexity",
        "cognitive_complexity",
        "coupling_and_dependencies",
        "structural_duplication",
        "logical_duplication",
        "abstraction_and_modularity",
        "extensibility_and_pluggability",
        "configurability_and_defaults",
    ];
    proof {
        assert(literal_texts(r@) =~= maintainability_dimensions());
    }
    r
}

pub(crate) fn graded_severity_list() -> (r: Vec<&'static str>)
    ensures
        literal_texts(r@) == graded_severities(),
{
    let r = vec!["low", "medium", "high", "critical"];
    proof {
        assert(literal_texts(r@) =~= graded_severities());
    }
    r
}

pub(crate) fn dimension_status_list() -> (r: Vec<&'static str>)
    ensures
        literal_texts(r@) == dimension_statuses(),
{
    let r = vec!["satisfied", "deficient", "unable_to_verify", "not_applicable"];
    proof {
        assert(literal_texts(r@) =~= dimension_statuses());
    }
    r
}

pub(crate) fn result_state_list() -> (r: Vec<&'static str>)
    ensures
        literal_texts(r@) == result_states(),
{
    let r = vec!["passed", "candidate_findings", "unable_to_verify"];
    proof {
        assert(literal_texts(r@) =~= result_states());
    }
    r
}

/// The refactoring a finding proposes.
pub open spec fn refactoring_shape() -> Shape {
    closed_object(
        seq![
            ("advice"@, nonempty_string_schema()),
            ("benefit"@, nonempty_string_schema()),
            ("pattern"@, nonempty_string_schema()),
        ],
        seq!["pattern"@, "advice"@, "benefit"@],
    )
}

/// A maintainability finding.
pub open spec fn maintainability_candidate_shape() -> Shape {
    closed_object(
        seq![
            ("citations"@, array_of(typed("string"@))),
            ("confidence_basis_points"@, integer_between(0, 10000)),
            ("description"@, nonempty_string_schema()),
            ("dimensions"@, nonempty_array_of(string_enum(maintainability_dimensions()))),
            ("finding_kind"@, string_enum(maintainability_finding_kinds())),
            ("refactoring"@, refactoring_shape()),
            ("severity"@, string_enum(graded_severities())),
            ("title"@, nonempty_string_schema()),
        ],
        seq![
            "title"@,
            "description"@,
            "finding_kind"@,
            "refactoring"@,
            "severity"@,
            "confidence_basis_points"@,
            "dimensions"@,
            "citations"@,
        ],
    )
}

/// The judgement of one maintainability dimension.
pub open spec fn maintainability_dimension_shape() -> Shape {
    closed_object(
        seq![
            ("citations"@, array_of(typed("string"@))),
            ("dimension"@, string_enum(maintainability_dimensions())),
            ("rationale"@, nonempty_string_schema()),
            ("status"@, string_enum(dimension_statuses())),
        ],
        seq!["dimension"@, "status"@, "rationale"@, "citations"@],
    )
}

/// The result of a maintainability assessment.
pub open spec fn maintainability_result_shape() -> Shape {
    closed_object(
        seq![
            ("findings"@, array_of(maintainability_candidate_shape())),
            ("reason"@, nonempty_string_schema()),
            ("state"@, string_enum(result_states())),
        ],
        seq!["state"@],
    )
}

/// The maintainability assessment draft.
pub open spec fn maintainability_draft_shape() -> Shape {
    closed_object(
        seq![
            (
                "dimensions"@,
                counted_array(MAINTAINABILITY_DIMENSIONS_DESCRIPTION@, maintainability_dimension_shape(), 8),
            ),
            ("result"@, maintainability_result_shape()),
        ],
        seq!["dimensions"@, "result"@],
    )
}

fn refactoring_json() -> (r: Json)
    ensures
        fits(r, refactoring_shape()),
{
    let ghost p = refactoring_shape()->Object_0[1].1->Object_0;
    let required = vec!["pattern", "advice", "benefit"];
    proof {
        assert(literal_texts(required@) =~= seq!["pattern"@, "advice"@, "benefit"@]);
    }
    let mut m: Vec<JsonMember> = Vec::new();
    m.push(member("advice", nonempty_string_json(), Ghost(p[0].1)));
    m.push(member("benefit", nonempty_string_json(), Ghost(p[1].1)));
    m.push(member("pattern", nonempty_string_json(), Ghost(p[2].1)));
    closed_json(object_of(m, Ghost(p)), required, Ghost(p))
}

fn maintainability_candidate_json() -> (r: Json)
    ensures
        fits(r, maintainability_candidate_shape()),
{
    let ghost p = maintainability_candidate_shape()->Object_0[1].1->Object_0;
    let kinds = vec![
        "high_cyclomatic_complexity",
        "excessive_cognitive_complexity",
        "deep_nesting",
        "long_method_or_function",
        "god_object_or_module",
        "tight_coupling",
        "leaky_abstraction",
        "law_of_demeter_violation",
        "structural_duplication",
        "logical_duplication",
        "low_cohesion",
        "missing_abstraction",
        "pluggable_api_opportunity",
        "rigid_variant_branching",
        "hardcoded_magic_value",
        "missing_sane_default",
    ];
    let required = vec![
        "title",
        "description",
        "finding_kind",
        "refactoring",
        "severity",
        "confidence_basis_points",
        "dimensions",
        "citations",
    ];
    proof {
        assert(literal_texts(kinds@) =~= maintainability_finding_kinds());
        assert(literal_texts(required@) =~= seq![
            "title"@,
            "description"@,
            "finding_kind"@,
            "refactoring"@,
            "severity"@,
            "confidence_basis_points"@,
            "dimensions"@,
            "citations"@,
        ]);
    }
    let mut m: Vec<JsonMember> = Vec::new();
    m.push(member("citations", string_array_json(), Ghost(p[0].1)));
    m.push(member("confidence_basis_points", integer_between_json(0, 10000), Ghost(p[1].1)));
    m.push(member("description", nonempty_string_json(), Ghost(p[2].1)));
    m.push(
        member(
            "dimensions",
            nonempty_array_json(string_enum_json(dimension_list()), Ghost(string_enum(maintainability_dimensions()))),
            Ghost(p[3].1),
        ),
    );
    m.push(member("finding_kind", string_enum_json(kinds), Ghost(p[4].1)));
    m.push(member("refactoring", refactoring_json(), Ghost(p[5].1)));
    m.push(member("severity", string_enum_json(graded_severity_list()), Ghost(p[6].1)));
    m.push(member("title", nonempty_string_json(), Ghost(p[7].1)));
    closed_json(object_of(m, Ghost(p)), required, Ghost(p))
}

fn maintainability_dimension_json() -> (r: Json)
    ensures
        fits(r, maintainability_dimension_shape()),
{
    let ghost p = maintainability_dimension_shape()->Object_0[1].1->Object_0;
    let required = vec!["dimension", "status", "rationale", "citations"];
    proof {
        assert(literal_texts(required@) =~= seq!["dimension"@, "status"@, "rationale"@, "citations"@]);
    }
    let mut m: Vec<JsonMember> = Vec::new();
    m.push(member("citations", string_array_json(), Ghost(p[0].1)));
    m.push(member("dimension", string_enum_json(dimension_list()), Ghost(p[1].1)));
    m.push(member("rationale", nonempty_string_json(), Ghost(p[2].1)));
    m.push(member("status", string_enum_json(dimension_status_list()), Ghost(p[3].1)));
    closed_json(object_of(m, Ghost(p)), required, Ghost(p))
}

fn maintainability_result_json() -> (r: Json)
    ensures
        fits(r, maintainability_result_shape()),
{
    let ghost p = maintainability_result_shape()->Object_0[1].1->Object_0;
    let required = vec!["state"];
    proof {
        assert(literal_texts(required@) =~= seq!["state"@]);
    }
    let mut m: Vec<JsonMember> = Vec::new();
    m.push(
        member(
            "findings",
            array_json(maintainability_candidate_json(), Ghost(maintainability_candidate_shape())),
            Ghost(p[0].1),
        ),
    );
    m.push(member("reason", nonempty_string_json(), Ghost(p[1].1)));
    m.push(member("state", string_enum_json(result_state_list()), Ghost(p[2].1)));
    closed_json(object_of(m, Ghost(p)), required, Ghost(p))
}

/// The schema of a maintainability assessment draft.
pub fn maintainability_assessment_draft_schema() -> (r: Json)
    ensures
        fits(r, maintainability_draft_shape()),
{
    let ghost p = maintainability_draft_shape()->Object_0[1].1->Object_0;
    let required = vec!["dimensions", "result"];
    proof {
        assert(literal_texts(required@) =~= seq!["dimensions"@, "result"@]);
    }
    let mut m: Vec<JsonMember> = Vec::new();
    m.push(
        member(
            "dimensions",
            counted_array_json(
                MAINTAINABILITY_DIMENSIONS_DESCRIPTION,
                maintainability_dimension_json(),
                Ghost(maintainability_dimension_shape()),
                8,
            ),
            Ghost(p[0].1),
        ),
    );
    m.push(member("result", maintainability_result_json(), Ghost(p[1].1)));
    closed_json(object_of(m, Ghost(p)), required, Ghost(p))
}

/// Holds a maintainability review decision to the maintainability decision
/// schema and draft.
#[derive(Debug)]
pub struct MaintainabilityReviewTransportValidator;

impl MaintainabilityReviewTransportValidator {
    /// Accepts a decision under the maintainability decision schema whose
    /// assessment, if any, holds no candidate records, parsed as a
    /// maintainability draft (`parsed`), and records an outcome that agrees
    /// with the event.
    pub fn validate(&self, schema: &Json, output: &Json, parsed: &Result<(), String>) -> (r: Result<
        (),
        String,
    >)
        ensures
            r is Ok <==> (fits(*schema, decision_schema(maintainability_draft_shape())) && transport_ok(
                *output,
                parsed is Ok,
                "state"@,
                "passed"@,
                "candidate_findings"@,
            )),
    {
        let draft = maintainability_assessment_draft_schema();
        let expected = decision_schema_json(&draft, Ghost(maintainability_draft_shape()));
        validate_policy_transport(
            "maintainability",
            &expected,
            Ghost(decision_schema(maintainability_draft_shape())),
            schema,
            output,
            parsed,
            &state_outcome_field(),
        )
    }
}

} // verus!
