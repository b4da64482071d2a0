//! The schema of a documentation assessment draft: fourteen dimensions each
//! compared between documentation and source, the claims the documentation
//! makes, and a result.  Object keys are in sorted order.
use crate::decision_schema::{
    closed_object, closed_object_json, member, member_fits, name_list, names,
    nonempty_string_json, nonempty_string_schema, object_of, text, typed, unsigned,
};
use crate::json::{Json, JsonMember};
use crate::shape::{Shape, fits};
use vstd::prelude::*;

verus! {

/// What comparison evidence must cite.
pub const COMPARISON_EVIDENCE_DESCRIPTION: &'static str = "Exact evidence IDs copied from untrusted_evidence[].id. For every satisfied or deficient comparison, cite both the documentation record (kind=documentation) and the source record (kind=source); presence requires at least documentation evidence.";

/// What documentation evidence must cite.
pub const DOCUMENTATION_EVIDENCE_DESCRIPTION: &'static str = "Exact IDs of kind=documentation only. These citations prove what the documentation literally states; never cite source evidence as a documentation claim.";

/// How documentation coverage is judged.
pub const COVERAGE_DESCRIPTION: &'static str = "Whether this dimension is literally stated in documentation evidence. Use partial when documentation says something about this dimension but omits material detail (a claim without its mechanics). Use omitted when documentation is silent. Never infer stated or partial coverage from source.";

/// How source materiality is judged.
pub const MATERIALITY_DESCRIPTION: &'static str = "Whether source evidence contains behavior material to this documentation dimension.";

/// How documentation and source are compared.
pub const COMPARISON_DESCRIPTION: &'static str = "The explicit comparison. Use material_omission for omitted or partial documentation with material source behavior beyond what was stated, and contradictory when a stated or partial claim conflicts with material source behavior.";

/// How a dimension's status is chosen.
pub const STATUS_DESCRIPTION: &'static str = "Use satisfied only when documentation is materially complete and consistent with the bounded evidence for this dimension. Use deficient for a contradiction or material omission, and unable_to_verify only when the evidence cannot resolve the comparison.";

/// What a dimension's rationale states.
pub const RATIONALE_DESCRIPTION: &'static str = "State separately what the documentation says or omits and what source evidence shows, then explain the comparison. Never treat behavior visible only in source as documented.";

/// What the claims are.
pub const CLAIMS_DESCRIPTION: &'static str = "Literal externally observable claims extracted from documentation evidence before consulting source behavior. Omitted behavior is not a claim, and facts inferred only from signatures or implementation must not appear here.";

/// What a claim's text is.
pub const CLAIM_TEXT_DESCRIPTION: &'static str = "A faithful paraphrase of text actually present in documentation evidence, not an inference from source.";

/// When the assessment passes.
pub const PASSED_DESCRIPTION: &'static str = "Pass only when every applicable dimension is resolved, materially complete, and consistent with the bounded evidence.";

/// The fourteen documentation dimensions.
pub open spec fn documentation_dimensions() -> Seq<Seq<char>> {
    seq![
        "presence"@,
        "purpose"@,
        "behavior"@,
        "inputs"@,
        "outputs"@,
        "errors"@,
        "panics"@,
        "safety"@,
        "side_effects"@,
        "invariants"@,
        "examples"@,
        "accuracy"@,
        "currency"@,
        "value"@,
    ]
}

fn documentation_dimension_list() -> (r: Json)
    ensures
        fits(r, names(documentation_dimensions())),
{
    let v = vec![
        "presence",
        "purpose",
        "behavior",
        "inputs",
        "outputs",
        "errors",
        "panics",
        "safety",
        "side_effects",
        "invariants",
        "examples",
        "accuracy",
        "currency",
        "value",
    ];
    proof {
        assert(v@.map_values(|t: &str| t@) =~= documentation_dimensions());
    }
    name_list(v)
}

/// `{"enum": texts}`.
pub open spec fn one_of_texts(texts: Seq<Seq<char>>) -> Shape {
    Shape::Object(seq![("enum"@, names(texts))])
}

/// `{"description": d, "enum": texts}`.
pub open spec fn described_choice(d: Seq<char>, texts: Seq<Seq<char>>) -> Shape {
    Shape::Object(seq![("description"@, Shape::Str(d)), ("enum"@, names(texts))])
}

fn described_choice_json(d: &str, texts: Vec<&str>, Ghost(t): Ghost<Seq<Seq<char>>>) -> (r: Json)
    requires
        texts@.map_values(|s: &str| s@) == t,
    ensures
        fits(r, described_choice(d@, t)),
{
    let ghost s = described_choice(d@, t)->Object_0;
    let mut m: Vec<JsonMember> = Vec::new();
    m.push(member("description", text(d), Ghost(s[0].1)));
    m.push(member("enum", name_list(texts), Ghost(s[1].1)));
    object_of(m, Ghost(s))
}

/// Evidence cited by a comparison.
pub open spec fn comparison_evidence_shape() -> Shape {
    Shape::Object(
        seq![
            ("description"@, Shape::Str(COMPARISON_EVIDENCE_DESCRIPTION@)),
            ("items"@, typed("string"@)),
            ("type"@, Shape::Str("array"@)),
            ("uniqueItems"@, Shape::Bool(true)),
        ],
    )
}

fn string_type_json() -> (r: Json)
    ensures
        fits(r, typed("string"@)),
{
    let ghost s = typed("string"@)->Object_0;
    let mut m: Vec<JsonMember> = Vec::new();
    m.push(member("type", text("string"), Ghost(s[0].1)));
    object_of(m, Ghost(s))
}

fn comparison_evidence_json() -> (r: Json)
    ensures
        fits(r, comparison_evidence_shape()),
{
    let ghost s = comparison_evidence_shape()->Object_0;
    let mut m: Vec<JsonMember> = Vec::new();
    m.push(member("description", text(COMPARISON_EVIDENCE_DESCRIPTION), Ghost(s[0].1)));
    m.push(member("items", string_type_json(), Ghost(s[1].1)));
    m.push(member("type", text("array"), Ghost(s[2].1)));
    m.push(member("uniqueItems", Json::Bool(true), Ghost(s[3].1)));
    object_of(m, Ghost(s))
}

/// Evidence cited by a claim: documentation only, at least one.
pub open spec fn documentation_evidence_shape() -> Shape {
    Shape::Object(
        seq![
            ("description"@, Shape::Str(DOCUMENTATION_EVIDENCE_DESCRIPTION@)),
            ("items"@, typed("string"@)),
            ("minItems"@, Shape::UInt(1)),
            ("type"@, Shape::Str("array"@)),
            ("uniqueItems"@, Shape::Bool(true)),
        ],
    )
}

fn documentation_evidence_json() -> (r: Json)
    ensures
        fits(r, documentation_evidence_shape()),
{
    let ghost s = documentation_evidence_shape()->Object_0;
    let mut m: Vec<JsonMember> = Vec::new();
    m.push(member("description", text(DOCUMENTATION_EVIDENCE_DESCRIPTION), Ghost(s[0].1)));
    m.push(member("items", string_type_json(), Ghost(s[1].1)));
    m.push(member("minItems", unsigned(1), Ghost(s[2].1)));
    m.push(member("type", text("array"), Ghost(s[3].1)));
    m.push(member("uniqueItems", Json::Bool(true), Ghost(s[4].1)));
    object_of(m, Ghost(s))
}

/// A non-empty set of dimensions.
pub open spec fn dimension_set_shape() -> Shape {
    Shape::Object(
        seq![
            ("items"@, one_of_texts(documentation_dimensions())),
            ("minItems"@, Shape::UInt(1)),
            ("type"@, Shape::Str("array"@)),
            ("uniqueItems"@, Shape::Bool(true)),
        ],
    )
}

fn dimension_choice_json() -> (r: Json)
    ensures
        fits(r, one_of_texts(documentation_dimensions())),
{
    let ghost s = one_of_texts(documentation_dimensions())->Object_0;
    let mut m: Vec<JsonMember> = Vec::new();
    m.push(member("enum", documentation_dimension_list(), Ghost(s[0].1)));
    object_of(m, Ghost(s))
}

fn dimension_set_json() -> (r: Json)
    ensures
        fits(r, dimension_set_shape()),
{
    let ghost s = dimension_set_shape()->Object_0;
    let mut m: Vec<JsonMember> = Vec::new();
    m.push(member("items", dimension_choice_json(), Ghost(s[0].1)));
    m.push(member("minItems", unsigned(1), Ghost(s[1].1)));
    m.push(member("type", text("array"), Ghost(s[2].1)));
    m.push(member("uniqueItems", Json::Bool(true), Ghost(s[3].1)));
    object_of(m, Ghost(s))
}

/// The severities a finding may have.
pub open spec fn severities() -> Seq<Seq<char>> {
    seq!["note"@, "low"@, "medium"@, "high"@, "critical"@]
}

/// A candidate finding.
pub open spec fn candidate_shape() -> Shape {
    closed_object(
        seq![
            (
                "confidence_basis_points"@,
                Shape::Object(
                    seq![
                        ("maximum"@, Shape::UInt(10000)),
                        ("minimum"@, Shape::UInt(0)),
                        ("type"@, Shape::Str("integer"@)),
                    ],
                ),
            ),
            ("description"@, nonempty_string_schema()),
            ("dimensions"@, dimension_set_shape()),
            ("evidence"@, comparison_evidence_shape()),
            ("severity"@, one_of_texts(severities())),
            ("title"@, nonempty_string_schema()),
        ],
        seq![
            "title"@,
            "description"@,
            "severity"@,
            "confidence_basis_points"@,
            "dimensions"@,
            "evidence"@,
        ],
    )
}

fn candidate_json() -> (r: Json)
    ensures
        fits(r, candidate_shape()),
{
    let ghost p = candidate_shape()->Object_0[1].1->Object_0;
    let ghost q = seq![
        "title"@,
        "description"@,
        "severity"@,
        "confidence_basis_points"@,
        "dimensions"@,
        "evidence"@,
    ];
    let ghost c = p[0].1->Object_0;
    let mut confidence: Vec<JsonMember> = Vec::new();
    confidence.push(member("maximum", unsigned(10000), Ghost(c[0].1)));
    confidence.push(member("minimum", unsigned(0), Ghost(c[1].1)));
    confidence.push(member("type", text("integer"), Ghost(c[2].1)));
    let ghost sv = one_of_texts(severities())->Object_0;
    let severity_list = vec!["note", "low", "medium", "high", "critical"];
    proof {
        assert(severity_list@.map_values(|t: &str| t@) =~= severities());
    }
    let mut severity: Vec<JsonMember> = Vec::new();
    severity.push(member("enum", name_list(severity_list), Ghost(sv[0].1)));
    let mut m: Vec<JsonMember> = Vec::new();
    m.push(member("confidence_basis_points", object_of(confidence, Ghost(c)), Ghost(p[0].1)));
    m.push(member("description", nonempty_string_json(), Ghost(p[1].1)));
    m.push(member("dimensions", dimension_set_json(), Ghost(p[2].1)));
    m.push(member("evidence", comparison_evidence_json(), Ghost(p[3].1)));
    m.push(member("severity", object_of(severity, Ghost(sv)), Ghost(p[4].1)));
    m.push(member("title", nonempty_string_json(), Ghost(p[5].1)));
    let required_names = vec!["title", "description", "severity", "confidence_basis_points", "dimensions", "evidence"];
    proof {
        assert(required_names@.map_values(|t: &str| t@) =~= q);
    }
    let required = name_list(required_names);
    closed_object_json(object_of(m, Ghost(p)), required, Ghost(p), Ghost(q))
}

/// One dimension's comparison.
pub open spec fn dimension_item_shape() -> Shape {
    closed_object(
        seq![
            (
                "comparison"@,
                described_choice(
                    COMPARISON_DESCRIPTION@,
                    seq![
                        "consistent"@,
                        "contradictory"@,
                        "material_omission"@,
                        "unable_to_verify"@,
                        "not_applicable"@,
                    ],
                ),
            ),
            ("dimension"@, one_of_texts(documentation_dimensions())),
            (
                "documentation_coverage"@,
                described_choice(
                    COVERAGE_DESCRIPTION@,
                    seq!["stated"@, "partial"@, "omitted"@, "unable_to_verify"@, "not_applicable"@],
                ),
            ),
            ("evidence"@, comparison_evidence_shape()),
            (
                "rationale"@,
                Shape::Object(
                    seq![
                        ("description"@, Shape::Str(RATIONALE_DESCRIPTION@)),
                        ("minLength"@, Shape::UInt(1)),
                        ("type"@, Shape::Str("string"@)),
                    ],
                ),
            ),
            (
                "source_materiality"@,
                described_choice(
                    MATERIALITY_DESCRIPTION@,
                    seq![
                        "material_behavior"@,
                        "no_material_behavior"@,
                        "unable_to_verify"@,
                        "not_applicable"@,
                    ],
                ),
            ),
            (
                "status"@,
                described_choice(
                    STATUS_DESCRIPTION@,
                    seq!["satisfied"@, "deficient"@, "unable_to_verify"@, "not_applicable"@],
                ),
            ),
        ],
        seq![
            "dimension"@,
            "documentation_coverage"@,
            "source_materiality"@,
            "comparison"@,
            "status"@,
            "rationale"@,
            "evidence"@,
        ],
    )
}

fn dimension_item_json() -> (r: Json)
    ensures
        fits(r, dimension_item_shape()),
{
    let ghost p = dimension_item_shape()->Object_0[1].1->Object_0;
    let ghost q = seq![
        "dimension"@,
        "documentation_coverage"@,
        "source_materiality"@,
        "comparison"@,
        "status"@,
        "rationale"@,
        "evidence"@,
    ];
    let ghost rs = p[4].1->Object_0;
    let mut rationale: Vec<JsonMember> = Vec::new();
    rationale.push(member("description", text(RATIONALE_DESCRIPTION), Ghost(rs[0].1)));
    rationale.push(member("minLength", unsigned(1), Ghost(rs[1].1)));
    rationale.push(member("type", text("string"), Ghost(rs[2].1)));
    let mut m: Vec<JsonMember> = Vec::new();
    let comparison_choices = vec!["consistent", "contradictory", "material_omission", "unable_to_verify", "not_applicable"];
    let ghost comparison_choices_view = seq!["consistent"@, "contradictory"@, "material_omission"@, "unable_to_verify"@, "not_applicable"@];
    proof {
        assert(comparison_choices@.map_values(|t: &str| t@) =~= comparison_choices_view);
    }
    m.push(member("comparison", described_choice_json(COMPARISON_DESCRIPTION, comparison_choices, Ghost(comparison_choices_view)), Ghost(p[0].1)));
    m.push(member("dimension", dimension_choice_json(), Ghost(p[1].1)));
    let coverage_choices = vec!["stated", "partial", "omitted", "unable_to_verify", "not_applicable"];
    let ghost coverage_choices_view = seq!["stated"@, "partial"@, "omitted"@, "unable_to_verify"@, "not_applicable"@];
    proof {
        assert(coverage_choices@.map_values(|t: &str| t@) =~= coverage_choices_view);
    }
    m.push(member("documentation_coverage", described_choice_json(COVERAGE_DESCRIPTION, coverage_choices, Ghost(coverage_choices_view)), Ghost(p[2].1)));
    m.push(member("evidence", comparison_evidence_json(), Ghost(p[3].1)));
    m.push(member("rationale", object_of(rationale, Ghost(rs)), Ghost(p[4].1)));
    let source_materiality_choices = vec!["material_behavior", "no_material_behavior", "unable_to_verify", "not_applicable"];
    let ghost source_materiality_choices_view = seq!["material_behavior"@, "no_material_behavior"@, "unable_to_verify"@, "not_applicable"@];
    proof {
        assert(source_materiality_choices@.map_values(|t: &str| t@) =~= source_materiality_choices_view);
    }
    m.push(member("source_materiality", described_choice_json(MATERIALITY_DESCRIPTION, source_materiality_choices, Ghost(source_materiality_choices_view)), Ghost(p[5].1)));
    let status_choices = vec!["satisfied", "deficient", "unable_to_verify", "not_applicable"];
    let ghost status_choices_view = seq!["satisfied"@, "deficient"@, "unable_to_verify"@, "not_applicable"@];
    proof {
        assert(status_choices@.map_values(|t: &str| t@) =~= status_choices_view);
    }
    m.push(member("status", described_choice_json(STATUS_DESCRIPTION, status_choices, Ghost(status_choices_view)), Ghost(p[6].1)));
    let required_names = vec!["dimension", "documentation_coverage", "source_materiality", "comparison", "status", "rationale", "evidence",];
    proof {
        assert(required_names@.map_values(|t: &str| t@) =~= q);
    }
    let required = name_list(required_names);
    closed_object_json(object_of(m, Ghost(p)), required, Ghost(p), Ghost(q))
}

/// A claim the documentation makes.
pub open spec fn claim_item_shape() -> Shape {
    closed_object(
        seq![
            ("dimensions"@, dimension_set_shape()),
            ("evidence"@, documentation_evidence_shape()),
            (
                "text"@,
                Shape::Object(
                    seq![
                        ("description"@, Shape::Str(CLAIM_TEXT_DESCRIPTION@)),
                        ("minLength"@, Shape::UInt(1)),
                        ("type"@, Shape::Str("string"@)),
                    ],
                ),
            ),
        ],
        seq!["text"@, "dimensions"@, "evidence"@],
    )
}

fn claim_item_json() -> (r: Json)
    ensures
        fits(r, claim_item_shape()),
{
    let ghost p = claim_item_shape()->Object_0[1].1->Object_0;
    let ghost q = seq!["text"@, "dimensions"@, "evidence"@];
    let ghost ts = p[2].1->Object_0;
    let mut claim_text: Vec<JsonMember> = Vec::new();
    claim_text.push(member("description", text(CLAIM_TEXT_DESCRIPTION), Ghost(ts[0].1)));
    claim_text.push(member("minLength", unsigned(1), Ghost(ts[1].1)));
    claim_text.push(member("type", text("string"), Ghost(ts[2].1)));
    let mut m: Vec<JsonMember> = Vec::new();
    m.push(member("dimensions", dimension_set_json(), Ghost(p[0].1)));
    m.push(member("evidence", documentation_evidence_json(), Ghost(p[1].1)));
    m.push(member("text", object_of(claim_text, Ghost(ts)), Ghost(p[2].1)));
    let required_names = vec!["text", "dimensions", "evidence"];
    proof {
        assert(required_names@.map_values(|t: &str| t@) =~= q);
    }
    let required = name_list(required_names);
    closed_object_json(object_of(m, Ghost(p)), required, Ghost(p), Ghost(q))
}

/// The three results: passed, candidate findings, or unable to verify.
pub open spec fn result_shape() -> Shape {
    Shape::Object(
        seq![
            (
                "oneOf"@,
                Shape::Array(
                    seq![
                        closed_object(
                            seq![
                                (
                                    "state"@,
                                    Shape::Object(
                                        seq![
                                            ("const"@, Shape::Str("passed"@)),
                                            ("description"@, Shape::Str(PASSED_DESCRIPTION@)),
                                        ],
                                    ),
                                ),
                            ],
                            seq!["state"@],
                        ),
                        closed_object(
                            seq![
                                (
                                    "findings"@,
                                    Shape::Object(
                                        seq![
                                            ("items"@, candidate_shape()),
                                            ("minItems"@, Shape::UInt(1)),
                                            ("type"@, Shape::Str("array"@)),
                                        ],
                                    ),
                                ),
                                (
                                    "state"@,
                                    Shape::Object(seq![("const"@, Shape::Str("candidate_findings"@))]),
                                ),
                            ],
                            seq!["state"@, "findings"@],
                        ),
                        closed_object(
                            seq![
                                ("reason"@, nonempty_string_schema()),
                                (
                                    "state"@,
                                    Shape::Object(seq![("const"@, Shape::Str("unable_to_verify"@))]),
                                ),
                            ],
                            seq!["state"@, "reason"@],
                        ),
                    ],
                ),
            ),
        ],
    )
}

fn constant_json(value: &str) -> (r: Json)
    ensures
        fits(r, Shape::Object(seq![("const"@, Shape::Str(value@))])),
{
    let ghost s = seq![("const"@, Shape::Str(value@))];
    let mut m: Vec<JsonMember> = Vec::new();
    m.push(member("const", text(value), Ghost(s[0].1)));
    object_of(m, Ghost(s))
}

fn result_json() -> (r: Json)
    ensures
        fits(r, result_shape()),
{
    let ghost variants = result_shape()->Object_0[0].1->Array_0;
    let ghost passed = variants[0]->Object_0[1].1->Object_0;
    let ghost passed_state = passed[0].1->Object_0;
    let mut state: Vec<JsonMember> = Vec::new();
    state.push(member("const", text("passed"), Ghost(passed_state[0].1)));
    state.push(member("description", text(PASSED_DESCRIPTION), Ghost(passed_state[1].1)));
    let mut passed_members: Vec<JsonMember> = Vec::new();
    passed_members.push(member("state", object_of(state, Ghost(passed_state)), Ghost(passed[0].1)));
    let passed_json_required = vec!["state"];
    let ghost passed_json_names = seq!["state"@];
    proof {
        assert(passed_json_required@.map_values(|t: &str| t@) =~= passed_json_names);
    }
    let passed_json = closed_object_json(
        object_of(passed_members, Ghost(passed)),
        name_list(passed_json_required),
        Ghost(passed),
        Ghost(passed_json_names),
    );
    let ghost found = variants[1]->Object_0[1].1->Object_0;
    let ghost found_list = found[0].1->Object_0;
    let mut findings: Vec<JsonMember> = Vec::new();
    findings.push(member("items", candidate_json(), Ghost(found_list[0].1)));
    findings.push(member("minItems", unsigned(1), Ghost(found_list[1].1)));
    findings.push(member("type", text("array"), Ghost(found_list[2].1)));
    let mut found_members: Vec<JsonMember> = Vec::new();
    found_members.push(member("findings", object_of(findings, Ghost(found_list)), Ghost(found[0].1)));
    found_members.push(member("state", constant_json("candidate_findings"), Ghost(found[1].1)));
    let found_json_required = vec!["state", "findings"];
    let ghost found_json_names = seq!["state"@, "findings"@];
    proof {
        assert(found_json_required@.map_values(|t: &str| t@) =~= found_json_names);
    }
    let found_json = closed_object_json(
        object_of(found_members, Ghost(found)),
        name_list(found_json_required),
        Ghost(found),
        Ghost(found_json_names),
    );
    let ghost unable = variants[2]->Object_0[1].1->Object_0;
    let mut unable_members: Vec<JsonMember> = Vec::new();
    unable_members.push(member("reason", nonempty_string_json(), Ghost(unable[0].1)));
    unable_members.push(member("state", constant_json("unable_to_verify"), Ghost(unable[1].1)));
    let unable_json_required = vec!["state", "reason"];
    let ghost unable_json_names = seq!["state"@, "reason"@];
    proof {
        assert(unable_json_required@.map_values(|t: &str| t@) =~= unable_json_names);
    }
    let unable_json = closed_object_json(
        object_of(unable_members, Ghost(unable)),
        name_list(unable_json_required),
        Ghost(unable),
        Ghost(unable_json_names),
    );
    let mut items: Vec<Json> = Vec::new();
    items.push(passed_json);
    items.push(found_json);
    items.push(unable_json);
    let ghost s = result_shape()->Object_0;
    let mut m: Vec<JsonMember> = Vec::new();
    m.push(member("oneOf", Json::Array(items), Ghost(s[0].1)));
    object_of(m, Ghost(s))
}

/// The documentation assessment draft.
pub open spec fn documentation_draft_shape() -> Shape {
    closed_object(
        seq![
            (
                "claims"@,
                Shape::Object(
                    seq![
                        ("description"@, Shape::Str(CLAIMS_DESCRIPTION@)),
                        ("items"@, claim_item_shape()),
                        ("type"@, Shape::Str("array"@)),
                    ],
                ),
            ),
            (
                "dimensions"@,
                Shape::Object(
                    seq![
                        ("items"@, dimension_item_shape()),
                        ("maxItems"@, Shape::UInt(14)),
                        ("minItems"@, Shape::UInt(14)),
                        ("type"@, Shape::Str("array"@)),
                    ],
                ),
            ),
            ("result"@, result_shape()),
        ],
        seq!["dimensions"@, "claims"@, "result"@],
    )
}

/// The schema a documentation assessment draft is asked to follow.
pub fn documentation_assessment_draft_schema() -> (r: Json)
    ensures
        fits(r, documentation_draft_shape()),
{
    let ghost p = documentation_draft_shape()->Object_0[1].1->Object_0;
    let ghost q = seq!["dimensions"@, "claims"@, "result"@];
    let ghost cs = p[0].1->Object_0;
    let mut claims: Vec<JsonMember> = Vec::new();
    claims.push(member("description", text(CLAIMS_DESCRIPTION), Ghost(cs[0].1)));
    claims.push(member("items", claim_item_json(), Ghost(cs[1].1)));
    claims.push(member("type", text("array"), Ghost(cs[2].1)));
    let ghost ds = p[1].1->Object_0;
    let mut dimensions: Vec<JsonMember> = Vec::new();
    dimensions.push(member("items", dimension_item_json(), Ghost(ds[0].1)));
    dimensions.push(member("maxItems", unsigned(14), Ghost(ds[1].1)));
    dimensions.push(member("minItems", unsigned(14), Ghost(ds[2].1)));
    dimensions.push(member("type", text("array"), Ghost(ds[3].1)));
    let mut m: Vec<JsonMember> = Vec::new();
    m.push(member("claims", object_of(claims, Ghost(cs)), Ghost(p[0].1)));
    m.push(member("dimensions", object_of(dimensions, Ghost(ds)), Ghost(p[1].1)));
    m.push(member("result", result_json(), Ghost(p[2].1)));
    let required_names = vec!["dimensions", "claims", "result"];
    proof {
        assert(required_names@.map_values(|t: &str| t@) =~= q);
    }
    let required = name_list(required_names);
    closed_object_json(object_of(m, Ghost(p)), required, Ghost(p), Ghost(q))
}

} // verus!
