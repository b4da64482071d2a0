//! The structured-output schema of a primary review decision, and the
//! validator that holds a provider's output to it.  Object keys are written in
//! sorted order, the order a JSON map without insertion order keeps them in.
use crate::json::{Json, JsonMember, json_eq};
use crate::review::{review_output_ok, validate_review_output};
use crate::shape::{Shape, fits, lemma_fits_same};
use vstd::prelude::*;

verus! {

/// An array of the given texts.
pub open spec fn names(texts: Seq<Seq<char>>) -> Shape {
    Shape::Array(texts.map_values(|t: Seq<char>| Shape::Str(t)))
}

/// `{"type": t}`.
pub open spec fn typed(t: Seq<char>) -> Shape {
    Shape::Object(seq![("type"@, Shape::Str(t))])
}

/// A non-empty string.
pub open spec fn nonempty_string_schema() -> Shape {
    Shape::Object(seq![("minLength"@, Shape::UInt(1)), ("type"@, Shape::Str("string"@))])
}

/// An integer of at least `n`.
pub open spec fn integer_at_least(n: u64) -> Shape {
    Shape::Object(seq![("minimum"@, Shape::UInt(n)), ("type"@, Shape::Str("integer"@))])
}

/// A non-empty array of items of the given shape.
pub open spec fn nonempty_array_of(item: Shape) -> Shape {
    Shape::Object(
        seq![("items"@, item), ("minItems"@, Shape::UInt(1)), ("type"@, Shape::Str("array"@))],
    )
}

/// An object with exactly the given properties, all required in the given
/// order.
pub open spec fn closed_object(properties: Seq<(Seq<char>, Shape)>, required: Seq<Seq<char>>) -> Shape {
    Shape::Object(
        seq![
            ("additionalProperties"@, Shape::Bool(false)),
            ("properties"@, Shape::Object(properties)),
            ("required"@, names(required)),
            ("type"@, Shape::Str("object"@)),
        ],
    )
}

/// One variant of a decision: its event type and payload.
pub open spec fn decision_variant(event_type: Seq<char>, payload: Shape) -> Shape {
    closed_object(
        seq![
            ("event_type"@, Shape::Object(seq![("enum"@, names(seq![event_type]))])),
            ("payload"@, payload),
        ],
        seq!["event_type"@, "payload"@],
    )
}

/// The payload of a decision that carries only an assessment.
pub open spec fn assessment_payload(assessment: Shape) -> Shape {
    closed_object(seq![("assessment"@, assessment)], seq!["assessment"@])
}

/// The payload of a suggestion.
pub open spec fn suggestion_payload(assessment: Shape) -> Shape {
    closed_object(
        seq![
            ("assessment"@, assessment),
            ("suggestions"@, nonempty_array_of(nonempty_string_schema())),
        ],
        seq!["assessment"@, "suggestions"@],
    )
}

/// The extra budget an evidence request asks for.
pub open spec fn budget_schema() -> Shape {
    closed_object(
        seq![
            ("max_bytes"@, integer_at_least(1)),
            ("max_items"@, integer_at_least(1)),
            ("max_relation_depth"@, integer_at_least(0)),
            ("max_tokens"@, integer_at_least(1)),
        ],
        seq!["max_bytes"@, "max_tokens"@, "max_items"@, "max_relation_depth"@],
    )
}

/// The evidence a review that cannot verify asks for.
pub open spec fn requested_evidence_schema() -> Shape {
    closed_object(
        seq![
            ("additional_budget"@, budget_schema()),
            ("rationale"@, nonempty_string_schema()),
            ("requested_kinds"@, nonempty_array_of(typed("string"@))),
            ("requested_targets"@, nonempty_array_of(typed("string"@))),
        ],
        seq!["requested_targets"@, "requested_kinds"@, "additional_budget"@, "rationale"@],
    )
}

/// The payload of a review that cannot verify.
pub open spec fn unable_payload() -> Shape {
    closed_object(
        seq![("reason"@, nonempty_string_schema()), ("requested_evidence"@, requested_evidence_schema())],
        seq!["reason"@, "requested_evidence"@],
    )
}

/// The payload of a failed review.
pub open spec fn failed_payload() -> Shape {
    closed_object(seq![("reason"@, nonempty_string_schema())], seq!["reason"@])
}

/// The decision schema around an assessment schema: one of the five
/// decisions.
pub open spec fn decision_schema(assessment: Shape) -> Shape {
    Shape::Object(
        seq![
            (
                "oneOf"@,
                Shape::Array(
                    seq![
                        decision_variant("review.pass"@, assessment_payload(assessment)),
                        decision_variant("review.suggestion"@, suggestion_payload(assessment)),
                        decision_variant("review.candidate_found"@, assessment_payload(assessment)),
                        decision_variant("review.unable_to_verify"@, unable_payload()),
                        decision_variant("review.failed"@, failed_payload()),
                    ],
                ),
            ),
            ("type"@, Shape::Str("object"@)),
        ],
    )
}

pub(crate) fn text(s: &str) -> (r: Json)
    ensures
        fits(r, Shape::Str(s@)),
{
    Json::Str(s.to_owned())
}

pub(crate) fn unsigned(n: u64) -> (r: Json)
    ensures
        fits(r, Shape::UInt(n)),
{
    Json::UInt(n)
}

pub(crate) fn object1(k1: &str, v1: Json, Ghost(s1): Ghost<Shape>) -> (r: Json)
    requires
        fits(v1, s1),
    ensures
        fits(r, Shape::Object(seq![(k1@, s1)])),
{
    let mut m: Vec<JsonMember> = Vec::new();
    m.push(JsonMember { key: k1.to_owned(), value: v1 });
    Json::Object(m)
}

pub(crate) fn object2(k1: &str, v1: Json, k2: &str, v2: Json, Ghost(s1): Ghost<Shape>, Ghost(s2): Ghost<Shape>) -> (r:
    Json)
    requires
        fits(v1, s1),
        fits(v2, s2),
    ensures
        fits(r, Shape::Object(seq![(k1@, s1), (k2@, s2)])),
{
    let mut m: Vec<JsonMember> = Vec::new();
    m.push(JsonMember { key: k1.to_owned(), value: v1 });
    m.push(JsonMember { key: k2.to_owned(), value: v2 });
    Json::Object(m)
}

pub(crate) fn object3(
    k1: &str,
    v1: Json,
    k2: &str,
    v2: Json,
    k3: &str,
    v3: Json,
    Ghost(s1): Ghost<Shape>,
    Ghost(s2): Ghost<Shape>,
    Ghost(s3): Ghost<Shape>,
) -> (r: Json)
    requires
        fits(v1, s1),
        fits(v2, s2),
        fits(v3, s3),
    ensures
        fits(r, Shape::Object(seq![(k1@, s1), (k2@, s2), (k3@, s3)])),
{
    let mut m: Vec<JsonMember> = Vec::new();
    m.push(JsonMember { key: k1.to_owned(), value: v1 });
    m.push(JsonMember { key: k2.to_owned(), value: v2 });
    m.push(JsonMember { key: k3.to_owned(), value: v3 });
    Json::Object(m)
}

pub(crate) fn object4(
    k1: &str,
    v1: Json,
    k2: &str,
    v2: Json,
    k3: &str,
    v3: Json,
    k4: &str,
    v4: Json,
    Ghost(s1): Ghost<Shape>,
    Ghost(s2): Ghost<Shape>,
    Ghost(s3): Ghost<Shape>,
    Ghost(s4): Ghost<Shape>,
) -> (r: Json)
    requires
        fits(v1, s1),
        fits(v2, s2),
        fits(v3, s3),
        fits(v4, s4),
    ensures
        fits(r, Shape::Object(seq![(k1@, s1), (k2@, s2), (k3@, s3), (k4@, s4)])),
{
    let mut m: Vec<JsonMember> = Vec::new();
    m.push(JsonMember { key: k1.to_owned(), value: v1 });
    m.push(JsonMember { key: k2.to_owned(), value: v2 });
    m.push(JsonMember { key: k3.to_owned(), value: v3 });
    m.push(JsonMember { key: k4.to_owned(), value: v4 });
    Json::Object(m)
}

pub(crate) fn names1(a: &str) -> (r: Json)
    ensures
        fits(r, names(seq![a@])),
{
    let mut items: Vec<Json> = Vec::new();
    items.push(text(a));
    proof {
        assert(seq![a@].map_values(|t: Seq<char>| Shape::Str(t)) =~= seq![Shape::Str(a@)]);
    }
    Json::Array(items)
}

pub(crate) fn names2(a: &str, b: &str) -> (r: Json)
    ensures
        fits(r, names(seq![a@, b@])),
{
    let mut items: Vec<Json> = Vec::new();
    items.push(text(a));
    items.push(text(b));
    proof {
        assert(seq![a@, b@].map_values(|t: Seq<char>| Shape::Str(t)) =~= seq![Shape::Str(a@), Shape::Str(b@)]);
    }
    Json::Array(items)
}

pub(crate) fn names4(a: &str, b: &str, c: &str, d: &str) -> (r: Json)
    ensures
        fits(r, names(seq![a@, b@, c@, d@])),
{
    let mut items: Vec<Json> = Vec::new();
    items.push(text(a));
    items.push(text(b));
    items.push(text(c));
    items.push(text(d));
    proof {
        assert(seq![a@, b@, c@, d@].map_values(|t: Seq<char>| Shape::Str(t)) =~= seq![
            Shape::Str(a@),
            Shape::Str(b@),
            Shape::Str(c@),
            Shape::Str(d@),
        ]);
    }
    Json::Array(items)
}

pub(crate) fn closed_object_json(
    properties: Json,
    required: Json,
    Ghost(p): Ghost<Seq<(Seq<char>, Shape)>>,
    Ghost(q): Ghost<Seq<Seq<char>>>,
) -> (r: Json)
    requires
        fits(properties, Shape::Object(p)),
        fits(required, names(q)),
    ensures
        fits(r, closed_object(p, q)),
{
    object4(
        "additionalProperties",
        Json::Bool(false),
        "properties",
        properties,
        "required",
        required,
        "type",
        text("object"),
        Ghost(Shape::Bool(false)),
        Ghost(Shape::Object(p)),
        Ghost(names(q)),
        Ghost(Shape::Str("object"@)),
    )
}

pub(crate) fn nonempty_string_json() -> (r: Json)
    ensures
        fits(r, nonempty_string_schema()),
{
    object2(
        "minLength",
        unsigned(1),
        "type",
        text("string"),
        Ghost(Shape::UInt(1)),
        Ghost(Shape::Str("string"@)),
    )
}

pub(crate) fn integer_at_least_json(n: u64) -> (r: Json)
    ensures
        fits(r, integer_at_least(n)),
{
    object2(
        "minimum",
        unsigned(n),
        "type",
        text("integer"),
        Ghost(Shape::UInt(n)),
        Ghost(Shape::Str("integer"@)),
    )
}

pub(crate) fn nonempty_array_json(item: Json, Ghost(s): Ghost<Shape>) -> (r: Json)
    requires
        fits(item, s),
    ensures
        fits(r, nonempty_array_of(s)),
{
    object3(
        "items",
        item,
        "minItems",
        unsigned(1),
        "type",
        text("array"),
        Ghost(s),
        Ghost(Shape::UInt(1)),
        Ghost(Shape::Str("array"@)),
    )
}

fn variant_json(event_type: &str, payload: Json, Ghost(s): Ghost<Shape>) -> (r: Json)
    requires
        fits(payload, s),
    ensures
        fits(r, decision_variant(event_type@, s)),
{
    let event = object1("enum", names1(event_type), Ghost(names(seq![event_type@])));
    let properties = object2(
        "event_type",
        event,
        "payload",
        payload,
        Ghost(Shape::Object(seq![("enum"@, names(seq![event_type@]))])),
        Ghost(s),
    );
    let ghost p = seq![("event_type"@, Shape::Object(seq![("enum"@, names(seq![event_type@]))])), ("payload"@, s)];
    let ghost q = seq!["event_type"@, "payload"@];
    let r = closed_object_json(
        properties,
        names2("event_type", "payload"), Ghost(p), Ghost(q));
    r
}

fn assessment_payload_json(assessment: &Json, Ghost(s): Ghost<Shape>) -> (r: Json)
    requires
        fits(*assessment, s),
    ensures
        fits(r, assessment_payload(s)),
{
    let a = assessment.deep_clone();
    proof {
        crate::json::lemma_same_sym(*assessment, a);
        lemma_fits_same(*assessment, a, s);
    }
    let properties = object1("assessment", a, Ghost(s));
    let ghost p = seq![("assessment"@, s)];
    let ghost q = seq!["assessment"@];
    let r = closed_object_json(properties, names1("assessment"), Ghost(p), Ghost(q));
    r
}

fn suggestion_payload_json(assessment: &Json, Ghost(s): Ghost<Shape>) -> (r: Json)
    requires
        fits(*assessment, s),
    ensures
        fits(r, suggestion_payload(s)),
{
    let a = assessment.deep_clone();
    proof {
        crate::json::lemma_same_sym(*assessment, a);
        lemma_fits_same(*assessment, a, s);
    }
    let suggestions = nonempty_array_json(nonempty_string_json(), Ghost(nonempty_string_schema()));
    let properties = object2(
        "assessment",
        a,
        "suggestions",
        suggestions,
        Ghost(s),
        Ghost(nonempty_array_of(nonempty_string_schema())),
    );
    let ghost p = seq![("assessment"@, s), ("suggestions"@, nonempty_array_of(nonempty_string_schema()))];
    let ghost q = seq!["assessment"@, "suggestions"@];
    let r = closed_object_json(
        properties,
        names2("assessment", "suggestions"), Ghost(p), Ghost(q));
    r
}

fn budget_json() -> (r: Json)
    ensures
        fits(r, budget_schema()),
{
    let properties = object4(
        "max_bytes",
        integer_at_least_json(1),
        "max_items",
        integer_at_least_json(1),
        "max_relation_depth",
        integer_at_least_json(0),
        "max_tokens",
        integer_at_least_json(1),
        Ghost(integer_at_least(1)),
        Ghost(integer_at_least(1)),
        Ghost(integer_at_least(0)),
        Ghost(integer_at_least(1)),
    );
    let ghost p = seq![("max_bytes"@, integer_at_least(1)), ("max_items"@, integer_at_least(1)), ("max_relation_depth"@, integer_at_least(0)), ("max_tokens"@, integer_at_least(1))];
    let ghost q = seq!["max_bytes"@, "max_tokens"@, "max_items"@, "max_relation_depth"@];
    let r = closed_object_json(
        properties,
        names4("max_bytes", "max_tokens", "max_items", "max_relation_depth"), Ghost(p), Ghost(q));
    r
}

fn requested_evidence_json() -> (r: Json)
    ensures
        fits(r, requested_evidence_schema()),
{
    let kinds = nonempty_array_json(object1("type", text("string"), Ghost(Shape::Str("string"@))), Ghost(typed("string"@)));
    let targets = nonempty_array_json(object1("type", text("string"), Ghost(Shape::Str("string"@))), Ghost(typed("string"@)));
    let properties = object4(
        "additional_budget",
        budget_json(),
        "rationale",
        nonempty_string_json(),
        "requested_kinds",
        kinds,
        "requested_targets",
        targets,
        Ghost(budget_schema()),
        Ghost(nonempty_string_schema()),
        Ghost(nonempty_array_of(typed("string"@))),
        Ghost(nonempty_array_of(typed("string"@))),
    );
    let ghost p = seq![("additional_budget"@, budget_schema()), ("rationale"@, nonempty_string_schema()), ("requested_kinds"@, nonempty_array_of(typed("string"@))), ("requested_targets"@, nonempty_array_of(typed("string"@)))];
    let ghost q = seq!["requested_targets"@, "requested_kinds"@, "additional_budget"@, "rationale"@];
    let r = closed_object_json(
        properties,
        names4("requested_targets", "requested_kinds", "additional_budget", "rationale"), Ghost(p), Ghost(q));
    r
}

fn unable_payload_json() -> (r: Json)
    ensures
        fits(r, unable_payload()),
{
    let properties = object2(
        "reason",
        nonempty_string_json(),
        "requested_evidence",
        requested_evidence_json(),
        Ghost(nonempty_string_schema()),
        Ghost(requested_evidence_schema()),
    );
    let ghost p = seq![("reason"@, nonempty_string_schema()), ("requested_evidence"@, requested_evidence_schema())];
    let ghost q = seq!["reason"@, "requested_evidence"@];
    let r = closed_object_json(
        properties,
        names2("reason", "requested_evidence"), Ghost(p), Ghost(q));
    r
}

fn failed_payload_json() -> (r: Json)
    ensures
        fits(r, failed_payload()),
{
    let properties = object1("reason", nonempty_string_json(), Ghost(nonempty_string_schema()));
    let ghost p = seq![("reason"@, nonempty_string_schema())];
    let ghost q = seq!["reason"@];
    let r = closed_object_json(properties, names1("reason"), Ghost(p), Ghost(q));
    r
}

pub(crate) fn decision_schema_json(assessment_schema: &Json, Ghost(a): Ghost<Shape>) -> (r: Json)
    requires
        fits(*assessment_schema, a),
    ensures
        fits(r, decision_schema(a)),
{
    let mut variants: Vec<Json> = Vec::new();
    variants.push(variant_json("review.pass", assessment_payload_json(assessment_schema, Ghost(a)), Ghost(assessment_payload(a))));
    variants.push(variant_json("review.suggestion", suggestion_payload_json(assessment_schema, Ghost(a)), Ghost(suggestion_payload(a))));
    variants.push(variant_json("review.candidate_found", assessment_payload_json(assessment_schema, Ghost(a)), Ghost(assessment_payload(a))));
    variants.push(variant_json("review.unable_to_verify", unable_payload_json(), Ghost(unable_payload())));
    variants.push(variant_json("review.failed", failed_payload_json(), Ghost(failed_payload())));
    let one_of = Json::Array(variants);
    let ghost shapes = seq![
        decision_variant("review.pass"@, assessment_payload(a)),
        decision_variant("review.suggestion"@, suggestion_payload(a)),
        decision_variant("review.candidate_found"@, assessment_payload(a)),
        decision_variant("review.unable_to_verify"@, unable_payload()),
        decision_variant("review.failed"@, failed_payload()),
    ];
    object2(
        "oneOf",
        one_of,
        "type",
        text("object"),
        Ghost(Shape::Array(shapes)),
        Ghost(Shape::Str("object"@)),
    )
}

/// The decision schema around an assessment schema: one of a pass, a
/// suggestion or a found candidate carrying an assessment of that schema, a
/// review unable to verify with its evidence request, or a failure.
pub fn review_decision_schema_for(assessment_schema: &Json) -> (r: Json)
    ensures
        fits(r, decision_schema(Shape::Exactly(*assessment_schema))),
{
    proof {
        crate::json::lemma_same_refl(*assessment_schema);
    }
    decision_schema_json(assessment_schema, Ghost(Shape::Exactly(*assessment_schema)))
}

/// The assessment schema that accepts any object.
pub open spec fn any_object_schema() -> Shape {
    typed("object"@)
}

/// `{"type": "object"}`.
pub fn any_object_json() -> (r: Json)
    ensures
        fits(r, any_object_schema()),
{
    object1("type", text("object"), Ghost(Shape::Str("object"@)))
}

/// The decision schema for an assessment that may be any object.
pub fn review_decision_schema() -> (r: Json)
    ensures
        fits(r, decision_schema(any_object_schema())),
{
    let a = any_object_json();
    decision_schema_json(&a, Ghost(any_object_schema()))
}

/// Holds a provider's review decision to the decision schema for any object
/// assessment: the schema it was asked for must be that schema, and the
/// output a valid decision.
#[derive(Debug)]
pub struct ReviewDecisionValidator;

impl ReviewDecisionValidator {
    /// Accepts the output when the schema is the decision schema and the
    /// output a valid decision.
    pub fn validate(&self, schema: &Json, output: &Json) -> (r: Result<(), String>)
        ensures
            r is Ok <==> (fits(*schema, decision_schema(any_object_schema())) && review_output_ok(*output)),
    {
        let expected = review_decision_schema();
        proof {
            lemma_fits_same(expected, *schema, decision_schema(any_object_schema()));
        }
        if !json_eq(schema, &expected) {
            return Err("review decision schema identity mismatch".to_owned());
        }
        validate_review_output(output)
    }
}

/// The member has the key and a value of the shape.
pub open spec fn member_fits(m: JsonMember, f: (Seq<char>, Shape)) -> bool {
    m.key@ == f.0 && fits(m.value, f.1)
}

/// A member named `key` holding `value`.
pub(crate) fn member(key: &str, value: Json, Ghost(s): Ghost<Shape>) -> (r: JsonMember)
    requires
        fits(value, s),
    ensures
        member_fits(r, (key@, s)),
{
    JsonMember { key: key.to_owned(), value }
}

/// The object of the members, which fit the fields one by one.
pub(crate) fn object_of(members: Vec<JsonMember>, Ghost(fields): Ghost<Seq<(Seq<char>, Shape)>>) -> (r: Json)
    requires
        members@.len() == fields.len(),
        forall|i: int| 0 <= i < fields.len() ==> member_fits(#[trigger] members@[i], fields[i]),
    ensures
        fits(r, Shape::Object(fields)),
{
    Json::Object(members)
}

/// An array of the texts.
pub(crate) fn name_list(texts: Vec<&str>) -> (r: Json)
    ensures
        fits(r, names(texts@.map_values(|t: &str| t@))),
{
    let ghost shapes = texts@.map_values(|t: &str| t@).map_values(|t: Seq<char>| Shape::Str(t));
    let mut items: Vec<Json> = Vec::new();
    let mut i: usize = 0;
    while i < texts.len()
        invariant
            i <= texts@.len(),
            items@.len() == i,
            shapes == texts@.map_values(|t: &str| t@).map_values(|t: Seq<char>| Shape::Str(t)),
            forall|k: int| 0 <= k < i ==> fits(#[trigger] items@[k], shapes[k]),
        decreases texts.len() - i,
    {
        items.push(text(texts[i]));
        i += 1;
    }
    Json::Array(items)
}

} // verus!
