//! The schema of an architecture assessment draft: a result with a status,
//! per-dimension judgements, a summary, candidate findings with citations,
//! and the health of the scope's constituents; and the transport check of an
//! architecture review decision.  Object keys are in sorted order.
use crate::decision_schema::{
    closed_object, decision_schema, decision_schema_json, member, object_of, typed,
};
use crate::json::{Json, JsonMember};
use crate::schema_parts::{
    array_json, array_of, closed_json, integer_between, integer_between_json, integer_json,
    literal_texts, map_json, map_of, nullable, nullable_json, object_requiring,
    object_requiring_json, open_object, open_object_json, string_array_json, string_enum,
    string_enum_json, string_json,
};
use crate::shape::{Shape, fits};
use crate::transport::{OutcomeField, transport_ok, validate_policy_transport};
use vstd::prelude::*;

verus! {

/// The architecture dimensions a finding may name.
pub open spec fn architecture_dimensions() -> Seq<Seq<char>> {
    seq![
        "dependency_structure"@,
        "cycles"@,
        "public_surface"@,
        "ownership_and_cohesion"@,
        "boundary_analysis"@,
        "pattern_consistency"@,
    ]
}

/// The severities a finding may have.
pub open spec fn finding_severities() -> Seq<Seq<char>> {
    seq!["note"@, "low"@, "medium"@, "high"@, "critical"@]
}

/// A citation of evidence.
pub open spec fn citation_shape() -> Shape {
    object_requiring(
        seq![
            ("evidence"@, typed("string"@)),
            ("kind"@, typed("string"@)),
            ("location"@, nullable("object"@)),
            ("related_targets"@, array_of(typed("string"@))),
        ],
        seq!["evidence"@, "kind"@, "related_targets"@],
    )
}

/// A candidate finding of an architecture review.
pub open spec fn architecture_candidate_shape() -> Shape {
    closed_object(
        seq![
            ("citations"@, array_of(citation_shape())),
            ("confidence"@, integer_between(0, 10000)),
            ("defect_kind"@, string_enum(seq!["structural_defect"@, "architectural_risk"@])),
            ("dimensions"@, array_of(string_enum(architecture_dimensions()))),
            ("explanation"@, typed("string"@)),
            ("id"@, typed("string"@)),
            ("inferred_intent"@, nullable("string"@)),
            ("observed_facts"@, array_of(typed("string"@))),
            ("severity"@, string_enum(finding_severities())),
        ],
        seq![
            "id"@,
            "severity"@,
            "defect_kind"@,
            "dimensions"@,
            "confidence"@,
            "explanation"@,
            "citations"@,
            "observed_facts"@,
        ],
    )
}

/// The judgement of one dimension.
pub open spec fn architecture_dimension_shape() -> Shape {
    closed_object(
        seq![
            ("observations"@, array_of(typed("string"@))),
            ("rationale"@, typed("string"@)),
            (
                "status"@,
                string_enum(seq!["satisfied"@, "deficient"@, "unable_to_verify"@, "not_applicable"@]),
            ),
        ],
        seq!["status"@, "observations"@, "rationale"@],
    )
}

/// How the constituents of the scope fared.
pub open spec fn constituent_health_shape() -> Shape {
    open_object(
        seq![
            ("failed_constituents"@, typed("integer"@)),
            ("succeeded_constituents"@, typed("integer"@)),
            ("total_constituents"@, typed("integer"@)),
            ("unable_to_verify_constituents"@, typed("integer"@)),
        ],
    )
}

/// The result of an architecture assessment.
pub open spec fn architecture_result_shape() -> Shape {
    closed_object(
        seq![
            ("candidates"@, array_of(architecture_candidate_shape())),
            ("constituent_health"@, constituent_health_shape()),
            ("dimensions"@, map_of(architecture_dimension_shape())),
            ("status"@, string_enum(seq!["pass"@, "deficient"@, "unable_to_verify"@])),
            ("summary"@, typed("string"@)),
        ],
        seq!["status"@, "dimensions"@, "summary"@, "candidates"@],
    )
}

/// The architecture assessment draft.
pub open spec fn architecture_draft_shape() -> Shape {
    closed_object(seq![("result"@, architecture_result_shape())], seq!["result"@])
}

fn citation_json() -> (r: Json)
    ensures
        fits(r, citation_shape()),
{
    let ghost s = citation_shape()->Object_0;
    let ghost p = s[0].1->Object_0;
    let mut m: Vec<JsonMember> = Vec::new();
    m.push(member("evidence", string_json(), Ghost(p[0].1)));
    m.push(member("kind", string_json(), Ghost(p[1].1)));
    m.push(member("location", nullable_json("object"), Ghost(p[2].1)));
    m.push(member("related_targets", string_array_json(), Ghost(p[3].1)));
    let required = vec!["evidence", "kind", "related_targets"];
    proof {
        assert(literal_texts(required@) =~= seq!["evidence"@, "kind"@, "related_targets"@]);
    }
    object_requiring_json(object_of(m, Ghost(p)), required, Ghost(p))
}

fn architecture_candidate_json() -> (r: Json)
    ensures
        fits(r, architecture_candidate_shape()),
{
    let ghost p = architecture_candidate_shape()->Object_0[1].1->Object_0;
    let defect_kinds = vec!["structural_defect", "architectural_risk"];
    let dimensions = vec![
        "dependency_structure",
        "cycles",
        "public_surface",
        "ownership_and_cohesion",
        "boundary_analysis",
        "pattern_consistency",
    ];
    let severities = vec!["note", "low", "medium", "high", "critical"];
    proof {
        assert(literal_texts(defect_kinds@) =~= seq!["structural_defect"@, "architectural_risk"@]);
        assert(literal_texts(dimensions@) =~= architecture_dimensions());
        assert(literal_texts(severities@) =~= finding_severities());
    }
    let mut m: Vec<JsonMember> = Vec::new();
    m.push(member("citations", array_json(citation_json(), Ghost(citation_shape())), Ghost(p[0].1)));
    m.push(member("confidence", integer_between_json(0, 10000), Ghost(p[1].1)));
    m.push(member("defect_kind", string_enum_json(defect_kinds), Ghost(p[2].1)));
    m.push(
        member(
            "dimensions",
            array_json(string_enum_json(dimensions), Ghost(string_enum(architecture_dimensions()))),
            Ghost(p[3].1),
        ),
    );
    m.push(member("explanation", string_json(), Ghost(p[4].1)));
    m.push(member("id", string_json(), Ghost(p[5].1)));
    m.push(member("inferred_intent", nullable_json("string"), Ghost(p[6].1)));
    m.push(member("observed_facts", string_array_json(), Ghost(p[7].1)));
    m.push(member("severity", string_enum_json(severities), Ghost(p[8].1)));
    let required = vec![
        "id",
        "severity",
        "defect_kind",
        "dimensions",
        "confidence",
        "explanation",
        "citations",
        "observed_facts",
    ];
    proof {
        assert(literal_texts(required@) =~= seq![
            "id"@,
            "severity"@,
            "defect_kind"@,
            "dimensions"@,
            "confidence"@,
            "explanation"@,
            "citations"@,
            "observed_facts"@,
        ]);
    }
    closed_json(object_of(m, Ghost(p)), required, Ghost(p))
}

fn architecture_dimension_json() -> (r: Json)
    ensures
        fits(r, architecture_dimension_shape()),
{
    let ghost p = architecture_dimension_shape()->Object_0[1].1->Object_0;
    let statuses = vec!["satisfied", "deficient", "unable_to_verify", "not_applicable"];
    proof {
        assert(literal_texts(statuses@) =~= seq![
            "satisfied"@,
            "deficient"@,
            "unable_to_verify"@,
            "not_applicable"@,
        ]);
    }
    let mut m: Vec<JsonMember> = Vec::new();
    m.push(member("observations", string_array_json(), Ghost(p[0].1)));
    m.push(member("rationale", string_json(), Ghost(p[1].1)));
    m.push(member("status", string_enum_json(statuses), Ghost(p[2].1)));
    let required = vec!["status", "observations", "rationale"];
    proof {
        assert(literal_texts(required@) =~= seq!["status"@, "observations"@, "rationale"@]);
    }
    closed_json(object_of(m, Ghost(p)), required, Ghost(p))
}

fn constituent_health_json() -> (r: Json)
    ensures
        fits(r, constituent_health_shape()),
{
    let ghost p = constituent_health_shape()->Object_0[0].1->Object_0;
    let mut m: Vec<JsonMember> = Vec::new();
    m.push(member("failed_constituents", integer_json(), Ghost(p[0].1)));
    m.push(member("succeeded_constituents", integer_json(), Ghost(p[1].1)));
    m.push(member("total_constituents", integer_json(), Ghost(p[2].1)));
    m.push(member("unable_to_verify_constituents", integer_json(), Ghost(p[3].1)));
    open_object_json(object_of(m, Ghost(p)), Ghost(p))
}

fn architecture_result_json() -> (r: Json)
    ensures
        fits(r, architecture_result_shape()),
{
    let ghost p = architecture_result_shape()->Object_0[1].1->Object_0;
    let statuses = vec!["pass", "deficient", "unable_to_verify"];
    proof {
        assert(literal_texts(statuses@) =~= seq!["pass"@, "deficient"@, "unable_to_verify"@]);
    }
    let mut m: Vec<JsonMember> = Vec::new();
    m.push(
        member(
            "candidates",
            array_json(architecture_candidate_json(), Ghost(architecture_candidate_shape())),
            Ghost(p[0].1),
        ),
    );
    m.push(member("constituent_health", constituent_health_json(), Ghost(p[1].1)));
    m.push(
        member(
            "dimensions",
            map_json(architecture_dimension_json(), Ghost(architecture_dimension_shape())),
            Ghost(p[2].1),
        ),
    );
    m.push(member("status", string_enum_json(statuses), Ghost(p[3].1)));
    m.push(member("summary", string_json(), Ghost(p[4].1)));
    let required = vec!["status", "dimensions", "summary", "candidates"];
    proof {
        assert(literal_texts(required@) =~= seq!["status"@, "dimensions"@, "summary"@, "candidates"@]);
    }
    closed_json(object_of(m, Ghost(p)), required, Ghost(p))
}

/// The schema of an architecture assessment draft.
pub fn architecture_assessment_draft_schema() -> (r: Json)
    ensures
        fits(r, architecture_draft_shape()),
{
    let ghost p = architecture_draft_shape()->Object_0[1].1->Object_0;
    let mut m: Vec<JsonMember> = Vec::new();
    m.push(member("result", architecture_result_json(), Ghost(p[0].1)));
    let required = vec!["result"];
    proof {
        assert(literal_texts(required@) =~= seq!["result"@]);
    }
    closed_json(object_of(m, Ghost(p)), required, Ghost(p))
}

/// Where an architecture draft records its outcome: `result.status`.
pub fn architecture_outcome_field() -> (r: OutcomeField)
    ensures
        r.key@ == "status"@,
        r.passed@ == "pass"@,
        r.found@ == "deficient"@,
{
    OutcomeField { key: "status", passed: "pass", found: "deficient" }
}

/// Holds an architecture review decision to the architecture decision schema
/// and draft.
#[derive(Debug)]
pub struct ArchitectureReviewTransportValidator;

impl ArchitectureReviewTransportValidator {
    /// Accepts a decision under the architecture decision schema whose
    /// assessment, if any, holds no candidate records, parsed as an
    /// architecture draft (`parsed`), and records a status that agrees with
    /// the event.
    pub fn validate(&self, schema: &Json, output: &Json, parsed: &Result<(), String>) -> (r: Result<
        (),
        String,
    >)
        ensures
            r is Ok <==> (fits(*schema, decision_schema(architecture_draft_shape())) && transport_ok(
                *output,
                parsed is Ok,
                "status"@,
                "pass"@,
                "deficient"@,
            )),
    {
        let draft = architecture_assessment_draft_schema();
        let expected = decision_schema_json(&draft, Ghost(architecture_draft_shape()));
        validate_policy_transport(
            "architecture",
            &expected,
            Ghost(decision_schema(architecture_draft_shape())),
            schema,
            output,
            parsed,
            &architecture_outcome_field(),
        )
    }
}

} // verus!
