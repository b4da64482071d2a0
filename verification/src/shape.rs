//! Shapes of JSON documents written in specifications, for stating exactly
//! which document a builder produces.
use crate::json::{
    Json, JsonMember, lemma_same_items, lemma_same_members, lemma_same_sym, lemma_same_trans, same,
};
use vstd::prelude::*;

verus! {

/// A JSON document described with sequences; `Exactly` stands for a given
/// document.
pub enum Shape {
    Bool(bool),
    UInt(u64),
    Str(Seq<char>),
    Array(Seq<Shape>),
    Object(Seq<(Seq<char>, Shape)>),
    Exactly(Json),
}

/// The document has the shape.
pub open spec fn fits(j: Json, s: Shape) -> bool
    decreases s,
{
    match s {
        Shape::Bool(b) => j is Bool && j->Bool_0 == b,
        Shape::UInt(n) => j is UInt && j->UInt_0 == n,
        Shape::Str(t) => j is Str && j->Str_0@ == t,
        Shape::Array(items) => j is Array && j->Array_0@.len() == items.len() && forall|i: int|
            0 <= i < items.len() ==> fits(#[trigger] j->Array_0@[i], items[i]),
        Shape::Object(fields) => j is Object && j->Object_0@.len() == fields.len() && forall|i: int|
            0 <= i < fields.len() ==> (#[trigger] j->Object_0@[i]).key@ == fields[i].0 && fits(
                j->Object_0@[i].value,
                fields[i].1,
            ),
        Shape::Exactly(x) => same(j, x),
    }
}

/// Documents of one shape are the same document, and a document the same as
/// one of a shape has that shape.
pub proof fn lemma_fits_same(e: Json, x: Json, s: Shape)
    requires
        fits(e, s),
    ensures
        same(x, e) <==> fits(x, s),
    decreases s,
{
    match s {
        Shape::Array(items) => {
            let ev = e->Array_0@;
            if x is Array {
                let xv = x->Array_0@;
                lemma_same_items(xv, ev);
                assert forall|i: int| 0 <= i < items.len() && 0 <= i < xv.len() implies (same(
                    #[trigger] xv[i],
                    ev[i],
                ) <==> fits(xv[i], items[i])) by {
                    assert(fits(ev[i], items[i]));
                    assert(decreases_to!(s => items[i]));
                    lemma_fits_same(ev[i], xv[i], items[i]);
                }
                if fits(x, s) {
                    assert forall|i: int| 0 <= i < xv.len() implies #[trigger] same(xv[i], ev[i]) by {
                        assert(fits(xv[i], items[i]));
                    }
                }
                if same(x, e) {
                    assert forall|i: int| 0 <= i < items.len() implies #[trigger] fits(xv[i], items[i]) by {
                        assert(same(xv[i], ev[i]));
                    }
                }
            }
        },
        Shape::Object(fields) => {
            let ev = e->Object_0@;
            if x is Object {
                let xv = x->Object_0@;
                lemma_same_members(xv, ev);
                assert forall|i: int| 0 <= i < fields.len() && 0 <= i < xv.len() implies (same(
                    (#[trigger] xv[i]).value,
                    ev[i].value,
                ) <==> fits(xv[i].value, fields[i].1)) by {
                    assert(ev[i].key@ == fields[i].0 && fits(ev[i].value, fields[i].1));
                    assert(decreases_to!(s => fields[i]));
                    assert(decreases_to!(fields[i] => fields[i].1));
                    lemma_fits_same(ev[i].value, xv[i].value, fields[i].1);
                }
                if fits(x, s) {
                    assert forall|i: int| 0 <= i < xv.len() implies #[trigger] crate::json::member_same(xv[i], ev[i]) by {
                        assert(xv[i].key@ == fields[i].0 && fits(xv[i].value, fields[i].1));
                        assert(ev[i].key@ == fields[i].0 && fits(ev[i].value, fields[i].1));
                    }
                }
                if same(x, e) {
                    assert forall|i: int| 0 <= i < fields.len() implies (#[trigger] xv[i]).key@ == fields[i].0 && fits(
                        xv[i].value,
                        fields[i].1,
                    ) by {
                        assert(crate::json::member_same(xv[i], ev[i]));
                        assert(ev[i].key@ == fields[i].0 && fits(ev[i].value, fields[i].1));
                    }
                }
            }
        },
        Shape::Exactly(y) => {
            if same(x, e) {
                lemma_same_trans(x, e, y);
            }
            if same(x, y) {
                lemma_same_sym(e, y);
                lemma_same_sym(x, y);
                lemma_same_trans(y, e, y);
                lemma_same_trans(x, y, e);
            }
        },
        _ => {},
    }
}

} // verus!
