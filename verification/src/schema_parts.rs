//! Recurring pieces of the assessment draft schemas, with builders that are
//! proved to produce them.  Object keys are in sorted order.
use crate::decision_schema::{
    closed_object, closed_object_json, member, name_list, names, object_of, text, typed, unsigned,
};
use crate::json::{Json, JsonMember};
use crate::shape::{Shape, fits};
use vstd::prelude::*;

verus! {

/// `{"enum": texts, "type": "string"}`.
pub open spec fn string_enum(texts: Seq<Seq<char>>) -> Shape {
    Shape::Object(seq![("enum"@, names(texts)), ("type"@, Shape::Str("string"@))])
}

/// `{"items": item, "type": "array"}`.
pub open spec fn array_of(item: Shape) -> Shape {
    Shape::Object(seq![("items"@, item), ("type"@, Shape::Str("array"@))])
}

/// An integer between `low` and `high`.
pub open spec fn integer_between(low: u64, high: u64) -> Shape {
    Shape::Object(
        seq![
            ("maximum"@, Shape::UInt(high)),
            ("minimum"@, Shape::UInt(low)),
            ("type"@, Shape::Str("integer"@)),
        ],
    )
}

/// A value of type `t` or null.
pub open spec fn nullable(t: Seq<char>) -> Shape {
    Shape::Object(seq![("type"@, Shape::Array(seq![Shape::Str(t), Shape::Str("null"@)]))])
}

/// An object with the given properties, none required, others allowed.
pub open spec fn open_object(properties: Seq<(Seq<char>, Shape)>) -> Shape {
    Shape::Object(seq![("properties"@, Shape::Object(properties)), ("type"@, Shape::Str("object"@))])
}

/// An object with the given properties, some required, others allowed.
pub open spec fn object_requiring(properties: Seq<(Seq<char>, Shape)>, required: Seq<Seq<char>>) -> Shape {
    Shape::Object(
        seq![
            ("properties"@, Shape::Object(properties)),
            ("required"@, names(required)),
            ("type"@, Shape::Str("object"@)),
        ],
    )
}

/// An object whose every property has the given shape.
pub open spec fn map_of(value: Shape) -> Shape {
    Shape::Object(seq![("additionalProperties"@, value), ("type"@, Shape::Str("object"@))])
}

/// An array of exactly `n` items of the given shape, with a description.
pub open spec fn counted_array(description: Seq<char>, item: Shape, n: u64) -> Shape {
    Shape::Object(
        seq![
            ("description"@, Shape::Str(description)),
            ("items"@, item),
            ("maxItems"@, Shape::UInt(n)),
            ("minItems"@, Shape::UInt(n)),
            ("type"@, Shape::Str("array"@)),
        ],
    )
}

/// The texts of a list of literals.
pub open spec fn literal_texts(texts: Seq<&str>) -> Seq<Seq<char>> {
    texts.map_values(|t: &str| t@)
}

pub(crate) fn string_json() -> (r: Json)
    ensures
        fits(r, typed("string"@)),
{
    let ghost s = typed("string"@)->Object_0;
    let mut m: Vec<JsonMember> = Vec::new();
    m.push(member("type", text("string"), Ghost(s[0].1)));
    object_of(m, Ghost(s))
}

pub(crate) fn integer_json() -> (r: Json)
    ensures
        fits(r, typed("integer"@)),
{
    let ghost s = typed("integer"@)->Object_0;
    let mut m: Vec<JsonMember> = Vec::new();
    m.push(member("type", text("integer"), Ghost(s[0].1)));
    object_of(m, Ghost(s))
}

pub(crate) fn string_enum_json(texts: Vec<&str>) -> (r: Json)
    ensures
        fits(r, string_enum(literal_texts(texts@))),
{
    let ghost s = string_enum(literal_texts(texts@))->Object_0;
    let mut m: Vec<JsonMember> = Vec::new();
    m.push(member("enum", name_list(texts), Ghost(s[0].1)));
    m.push(member("type", text("string"), Ghost(s[1].1)));
    object_of(m, Ghost(s))
}

pub(crate) fn array_json(item: Json, Ghost(i): Ghost<Shape>) -> (r: Json)
    requires
        fits(item, i),
    ensures
        fits(r, array_of(i)),
{
    let ghost s = array_of(i)->Object_0;
    let mut m: Vec<JsonMember> = Vec::new();
    m.push(member("items", item, Ghost(s[0].1)));
    m.push(member("type", text("array"), Ghost(s[1].1)));
    object_of(m, Ghost(s))
}

pub(crate) fn string_array_json() -> (r: Json)
    ensures
        fits(r, array_of(typed("string"@))),
{
    array_json(string_json(), Ghost(typed("string"@)))
}

pub(crate) fn integer_between_json(low: u64, high: u64) -> (r: Json)
    ensures
        fits(r, integer_between(low, high)),
{
    let ghost s = integer_between(low, high)->Object_0;
    let mut m: Vec<JsonMember> = Vec::new();
    m.push(member("maximum", unsigned(high), Ghost(s[0].1)));
    m.push(member("minimum", unsigned(low), Ghost(s[1].1)));
    m.push(member("type", text("integer"), Ghost(s[2].1)));
    object_of(m, Ghost(s))
}

pub(crate) fn nullable_json(t: &str) -> (r: Json)
    ensures
        fits(r, nullable(t@)),
{
    let ghost s = nullable(t@)->Object_0;
    let mut types: Vec<Json> = Vec::new();
    types.push(text(t));
    types.push(text("null"));
    let mut m: Vec<JsonMember> = Vec::new();
    m.push(member("type", Json::Array(types), Ghost(s[0].1)));
    object_of(m, Ghost(s))
}

pub(crate) fn open_object_json(properties: Json, Ghost(p): Ghost<Seq<(Seq<char>, Shape)>>) -> (r: Json)
    requires
        fits(properties, Shape::Object(p)),
    ensures
        fits(r, open_object(p)),
{
    let ghost s = open_object(p)->Object_0;
    let mut m: Vec<JsonMember> = Vec::new();
    m.push(member("properties", properties, Ghost(s[0].1)));
    m.push(member("type", text("object"), Ghost(s[1].1)));
    object_of(m, Ghost(s))
}

pub(crate) fn object_requiring_json(
    properties: Json,
    required: Vec<&str>,
    Ghost(p): Ghost<Seq<(Seq<char>, Shape)>>,
) -> (r: Json)
    requires
        fits(properties, Shape::Object(p)),
    ensures
        fits(r, object_requiring(p, literal_texts(required@))),
{
    let ghost s = object_requiring(p, literal_texts(required@))->Object_0;
    let mut m: Vec<JsonMember> = Vec::new();
    m.push(member("properties", properties, Ghost(s[0].1)));
    m.push(member("required", name_list(required), Ghost(s[1].1)));
    m.push(member("type", text("object"), Ghost(s[2].1)));
    object_of(m, Ghost(s))
}

pub(crate) fn map_json(value: Json, Ghost(v): Ghost<Shape>) -> (r: Json)
    requires
        fits(value, v),
    ensures
        fits(r, map_of(v)),
{
    let ghost s = map_of(v)->Object_0;
    let mut m: Vec<JsonMember> = Vec::new();
    m.push(member("additionalProperties", value, Ghost(s[0].1)));
    m.push(member("type", text("object"), Ghost(s[1].1)));
    object_of(m, Ghost(s))
}

pub(crate) fn closed_json(properties: Json, required: Vec<&str>, Ghost(p): Ghost<Seq<(Seq<char>, Shape)>>) -> (r:
    Json)
    requires
        fits(properties, Shape::Object(p)),
    ensures
        fits(r, closed_object(p, literal_texts(required@))),
{
    let ghost q = literal_texts(required@);
    closed_object_json(properties, name_list(required), Ghost(p), Ghost(q))
}

pub(crate) fn typed_json(t: &str) -> (r: Json)
    ensures
        fits(r, typed(t@)),
{
    let ghost s = typed(t@)->Object_0;
    let mut m: Vec<JsonMember> = Vec::new();
    m.push(member("type", text(t), Ghost(s[0].1)));
    object_of(m, Ghost(s))
}

pub(crate) fn counted_array_json(description: &str, item: Json, Ghost(i): Ghost<Shape>, n: u64) -> (r: Json)
    requires
        fits(item, i),
    ensures
        fits(r, counted_array(description@, i, n)),
{
    let ghost s = counted_array(description@, i, n)->Object_0;
    let mut m: Vec<JsonMember> = Vec::new();
    m.push(member("description", text(description), Ghost(s[0].1)));
    m.push(member("items", item, Ghost(s[1].1)));
    m.push(member("maxItems", unsigned(n), Ghost(s[2].1)));
    m.push(member("minItems", unsigned(n), Ghost(s[3].1)));
    m.push(member("type", text("array"), Ghost(s[4].1)));
    object_of(m, Ghost(s))
}

} // verus!
