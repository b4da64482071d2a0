//! A JSON document model: the values that review decisions, assessments and
//! evidence requests travel in.  Object members keep their order.
use vstd::prelude::*;
use vstd::string::*;

verus! {

/// One JSON value.  Numbers are split the way the validators read them:
/// non-negative integers, negative integers, and any other number, kept as its
/// decimal text.
#[derive(Debug, PartialEq, Eq)]
pub enum Json {
    Null,
    Bool(bool),
    UInt(u64),
    NegInt(i64),
    Float(String),
    Str(String),
    Array(Vec<Json>),
    Object(Vec<JsonMember>),
}

/// A member of a JSON object.
#[derive(Debug, PartialEq, Eq)]
pub struct JsonMember {
    pub key: String,
    pub value: Json,
}

/// Position of the first member named `key` at or after `i`, or -1.
pub open spec fn key_pos_from(m: Seq<JsonMember>, key: Seq<char>, i: int) -> int
    decreases m.len() - i,
{
    if i < 0 || i >= m.len() {
        -1
    } else if m[i].key@ == key {
        i
    } else {
        key_pos_from(m, key, i + 1)
    }
}

/// Position of the first member named `key`, or -1.
pub open spec fn key_pos(m: Seq<JsonMember>, key: Seq<char>) -> int {
    key_pos_from(m, key, 0)
}

/// Whether some member is named `key`.
pub open spec fn has_key(m: Seq<JsonMember>, key: Seq<char>) -> bool {
    exists|i: int| 0 <= i < m.len() && (#[trigger] m[i]).key@ == key
}

/// The value of the member named `key` (the first one), if any.
pub open spec fn member(m: Seq<JsonMember>, key: Seq<char>) -> Option<Json> {
    let p = key_pos(m, key);
    if p >= 0 {
        Some(m[p].value)
    } else {
        None
    }
}

/// `value[key]` for an object; `None` for a missing key or a non-object.
pub open spec fn field(v: Json, key: Seq<char>) -> Option<Json> {
    match v {
        Json::Object(m) => member(m@, key),
        _ => None,
    }
}

pub open spec fn is_object(v: Json) -> bool {
    v is Object
}

/// The text of a string value.
pub open spec fn as_text(v: Json) -> Option<Seq<char>> {
    match v {
        Json::Str(s) => Some(s@),
        _ => None,
    }
}

/// The object's members, in order.
pub open spec fn members(v: Json) -> Seq<JsonMember> {
    match v {
        Json::Object(m) => m@,
        _ => Seq::empty(),
    }
}

pub proof fn lemma_key_pos_from(m: Seq<JsonMember>, key: Seq<char>, i: int)
    requires
        0 <= i,
    ensures
        key_pos_from(m, key, i) == -1 || (i <= key_pos_from(m, key, i) < m.len() && m[key_pos_from(
            m,
            key,
            i,
        )].key@ == key),
        key_pos_from(m, key, i) == -1 ==> forall|j: int| i <= j < m.len() ==> (#[trigger] m[j]).key@
            != key,
        key_pos_from(m, key, i) != -1 ==> forall|j: int|
            i <= j < key_pos_from(m, key, i) ==> (#[trigger] m[j]).key@ != key,
    decreases m.len() - i,
{
    if i < m.len() && m[i].key@ != key {
        lemma_key_pos_from(m, key, i + 1);
    }
}

/// Facts about `key_pos`: it names the first member with that key.
pub proof fn lemma_key_pos(m: Seq<JsonMember>, key: Seq<char>)
    ensures
        key_pos(m, key) == -1 <==> !has_key(m, key),
        key_pos(m, key) != -1 ==> 0 <= key_pos(m, key) < m.len() && m[key_pos(m, key)].key@ == key,
{
    lemma_key_pos_from(m, key, 0);
}

/// Two values are the same document: equal scalars and texts, and
/// element-wise (member-wise, in order) the same arrays and objects.
pub open spec fn same(a: Json, b: Json) -> bool
    decreases a,
{
    match a {
        Json::Null => b is Null,
        Json::Bool(x) => b is Bool && b->Bool_0 == x,
        Json::UInt(x) => b is UInt && b->UInt_0 == x,
        Json::NegInt(x) => b is NegInt && b->NegInt_0 == x,
        Json::Float(x) => b is Float && b->Float_0@ == x@,
        Json::Str(x) => b is Str && b->Str_0@ == x@,
        Json::Array(x) => b is Array && same_items(x@, b->Array_0@),
        Json::Object(x) => b is Object && same_members(x@, b->Object_0@),
    }
}

/// Two lists of values are the same, element by element.
pub open spec fn same_items(xs: Seq<Json>, ys: Seq<Json>) -> bool
    decreases xs,
{
    if xs.len() == 0 {
        ys.len() == 0
    } else {
        ys.len() > 0 && same(xs[0], ys[0]) && same_items(
            xs.subrange(1, xs.len() as int),
            ys.subrange(1, ys.len() as int),
        )
    }
}

/// Two members have the same name and the same value.
pub open spec fn member_same(x: JsonMember, y: JsonMember) -> bool
    decreases x,
{
    x.key@ == y.key@ && same(x.value, y.value)
}

/// Two member lists are the same, member by member and in order.
pub open spec fn same_members(xs: Seq<JsonMember>, ys: Seq<JsonMember>) -> bool
    decreases xs,
{
    if xs.len() == 0 {
        ys.len() == 0
    } else {
        ys.len() > 0 && member_same(xs[0], ys[0]) && same_members(
            xs.subrange(1, xs.len() as int),
            ys.subrange(1, ys.len() as int),
        )
    }
}

/// `same_items` compares element by element.
pub proof fn lemma_same_items(xs: Seq<Json>, ys: Seq<Json>)
    ensures
        same_items(xs, ys) <==> (xs.len() == ys.len() && forall|i: int|
            0 <= i < xs.len() ==> #[trigger] same(xs[i], ys[i])),
    decreases xs.len(),
{
    if xs.len() > 0 && ys.len() > 0 {
        let xt = xs.subrange(1, xs.len() as int);
        let yt = ys.subrange(1, ys.len() as int);
        lemma_same_items(xt, yt);
        assert(same_items(xs, ys) == (same(xs[0], ys[0]) && same_items(xt, yt)));
        if xs.len() == ys.len() && (forall|i: int| 0 <= i < xs.len() ==> #[trigger] same(xs[i], ys[i])) {
            assert forall|i: int| 0 <= i < xt.len() implies #[trigger] same(xt[i], yt[i]) by {
                assert(xt[i] == xs[i + 1]);
                assert(yt[i] == ys[i + 1]);
                assert(same(xs[i + 1], ys[i + 1]));
            }
            assert(same(xs[0], ys[0]));
            assert(same_items(xs, ys));
        }
        if same_items(xs, ys) {
            assert forall|i: int| 0 <= i < xs.len() implies #[trigger] same(xs[i], ys[i]) by {
                if i > 0 {
                    assert(xt[i - 1] == xs[i]);
                    assert(yt[i - 1] == ys[i]);
                    assert(same(xt[i - 1], yt[i - 1]));
                }
            }
        }
    }
}

/// `same_members` compares member by member.
pub proof fn lemma_same_members(xs: Seq<JsonMember>, ys: Seq<JsonMember>)
    ensures
        same_members(xs, ys) <==> (xs.len() == ys.len() && forall|i: int|
            0 <= i < xs.len() ==> #[trigger] member_same(xs[i], ys[i])),
    decreases xs.len(),
{
    if xs.len() > 0 && ys.len() > 0 {
        let xt = xs.subrange(1, xs.len() as int);
        let yt = ys.subrange(1, ys.len() as int);
        lemma_same_members(xt, yt);
        assert(same_members(xs, ys) == (member_same(xs[0], ys[0]) && same_members(xt, yt)));
        if xs.len() == ys.len() && (forall|i: int|
            0 <= i < xs.len() ==> #[trigger] member_same(xs[i], ys[i])) {
            assert forall|i: int| 0 <= i < xt.len() implies #[trigger] member_same(xt[i], yt[i]) by {
                assert(xt[i] == xs[i + 1]);
                assert(yt[i] == ys[i + 1]);
                assert(member_same(xs[i + 1], ys[i + 1]));
            }
            assert(member_same(xs[0], ys[0]));
            assert(same_members(xs, ys));
        }
        if same_members(xs, ys) {
            assert forall|i: int| 0 <= i < xs.len() implies #[trigger] member_same(xs[i], ys[i]) by {
                if i > 0 {
                    assert(xt[i - 1] == xs[i]);
                    assert(yt[i - 1] == ys[i]);
                    assert(member_same(xt[i - 1], yt[i - 1]));
                }
            }
        }
    }
}

/// Every value is the same document as itself.
pub proof fn lemma_same_refl(a: Json)
    ensures
        same(a, a),
    decreases a,
{
    match a {
        Json::Array(x) => {
            assert forall|i: int| 0 <= i < x@.len() implies #[trigger] same(x@[i], x@[i]) by {
                assert(decreases_to!(a => x@[i]));
                lemma_same_refl(x@[i]);
            }
            lemma_same_items(x@, x@);
        },
        Json::Object(x) => {
            assert forall|i: int| 0 <= i < x@.len() implies #[trigger] member_same(x@[i], x@[i]) by {
                assert(decreases_to!(a => x@[i].value));
                lemma_same_refl(x@[i].value);
            }
            lemma_same_members(x@, x@);
        },
        _ => {},
    }
}

/// `same` is symmetric.
pub proof fn lemma_same_sym(a: Json, b: Json)
    requires
        same(a, b),
    ensures
        same(b, a),
    decreases a,
{
    match a {
        Json::Array(x) => {
            let y = b->Array_0;
            lemma_same_items(x@, y@);
            assert forall|i: int| 0 <= i < y@.len() implies #[trigger] same(y@[i], x@[i]) by {
                assert(same(x@[i], y@[i]));
                assert(decreases_to!(a => x@[i]));
                lemma_same_sym(x@[i], y@[i]);
            }
            lemma_same_items(y@, x@);
        },
        Json::Object(x) => {
            let y = b->Object_0;
            lemma_same_members(x@, y@);
            assert forall|i: int| 0 <= i < y@.len() implies #[trigger] member_same(y@[i], x@[i]) by {
                assert(member_same(x@[i], y@[i]));
                assert(decreases_to!(a => x@[i].value));
                lemma_same_sym(x@[i].value, y@[i].value);
            }
            lemma_same_members(y@, x@);
        },
        _ => {},
    }
}

/// `same` is transitive.
pub proof fn lemma_same_trans(a: Json, b: Json, c: Json)
    requires
        same(a, b),
        same(b, c),
    ensures
        same(a, c),
    decreases a,
{
    match a {
        Json::Array(x) => {
            let y = b->Array_0;
            let z = c->Array_0;
            lemma_same_items(x@, y@);
            lemma_same_items(y@, z@);
            assert forall|i: int| 0 <= i < x@.len() implies #[trigger] same(x@[i], z@[i]) by {
                assert(same(x@[i], y@[i]));
                assert(same(y@[i], z@[i]));
                assert(decreases_to!(a => x@[i]));
                lemma_same_trans(x@[i], y@[i], z@[i]);
            }
            lemma_same_items(x@, z@);
        },
        Json::Object(x) => {
            let y = b->Object_0;
            let z = c->Object_0;
            lemma_same_members(x@, y@);
            lemma_same_members(y@, z@);
            assert forall|i: int| 0 <= i < x@.len() implies #[trigger] member_same(x@[i], z@[i]) by {
                assert(member_same(x@[i], y@[i]));
                assert(member_same(y@[i], z@[i]));
                assert(decreases_to!(a => x@[i].value));
                lemma_same_trans(x@[i].value, y@[i].value, z@[i].value);
            }
            lemma_same_members(x@, z@);
        },
        _ => {},
    }
}

/// Equality of two texts.
pub fn text_eq(a: &str, b: &str) -> (r: bool)
    ensures
        r == (a@ == b@),
{
    let x = a.to_owned();
    let y = b.to_owned();
    x == y
}

/// Index of the first member named `key`.
pub fn find_member(m: &Vec<JsonMember>, key: &str) -> (r: Option<usize>)
    ensures
        match r {
            Some(i) => i as int == key_pos(m@, key@),
            None => key_pos(m@, key@) == -1,
        },
{
    let mut i: usize = 0;
    while i < m.len()
        invariant
            i <= m.len(),
            key_pos(m@, key@) == key_pos_from(m@, key@, i as int),
        decreases m.len() - i,
    {
        if text_eq(m[i].key.as_str(), key) {
            return Some(i);
        }
        i += 1;
    }
    None
}

/// The value of field `key` of an object, or `None`.
pub fn get_field<'a>(v: &'a Json, key: &str) -> (r: Option<&'a Json>)
    ensures
        r.is_some() == field(*v, key@).is_some(),
        r.is_some() ==> *r.unwrap() == field(*v, key@).unwrap(),
{
    match v {
        Json::Object(m) => {
            proof {
                lemma_key_pos(m@, key@);
            }
            match find_member(m, key) {
                Some(i) => Some(&m[i].value),
                None => None,
            }
        },
        _ => None,
    }
}

/// Whether an object has a member named `key`.
pub fn has_field(v: &Json, key: &str) -> (r: bool)
    ensures
        r == field(*v, key@).is_some(),
{
    get_field(v, key).is_some()
}

/// Equality of two JSON values, member order included.
#[verifier::loop_isolation(false)]
pub fn json_eq(a: &Json, b: &Json) -> (r: bool)
    ensures
        r == same(*a, *b),
    decreases a,
{
    match (a, b) {
        (Json::Null, Json::Null) => true,
        (Json::Bool(x), Json::Bool(y)) => *x == *y,
        (Json::UInt(x), Json::UInt(y)) => *x == *y,
        (Json::NegInt(x), Json::NegInt(y)) => *x == *y,
        (Json::Float(x), Json::Float(y)) => text_eq(x.as_str(), y.as_str()),
        (Json::Str(x), Json::Str(y)) => text_eq(x.as_str(), y.as_str()),
        (Json::Array(x), Json::Array(y)) => {
            proof {
                lemma_same_items(x@, y@);
            }
            if x.len() != y.len() {
                return false;
            }
            let mut i: usize = 0;
            while i < x.len()
                invariant
                    i <= x.len(),
                    x.len() == y.len(),
                    forall|j: int| 0 <= j < i ==> same(x@[j], y@[j]),
                decreases x.len() - i,
            {
                proof {
                    assert(decreases_to!(a => x@[i as int]));
                }
                if !json_eq(&x[i], &y[i]) {
                    assert(!same(x@[i as int], y@[i as int]));
                    return false;
                }
                i += 1;
            }
            true
        },
        (Json::Object(x), Json::Object(y)) => {
            proof {
                lemma_same_members(x@, y@);
            }
            if x.len() != y.len() {
                return false;
            }
            let mut i: usize = 0;
            while i < x.len()
                invariant
                    i <= x.len(),
                    x.len() == y.len(),
                    forall|j: int| 0 <= j < i ==> member_same(x@[j], y@[j]),
                decreases x.len() - i,
            {
                proof {
                    assert(decreases_to!(a => x@[i as int].value));
                }
                if !text_eq(x[i].key.as_str(), y[i].key.as_str()) {
                    assert(!member_same(x@[i as int], y@[i as int]));
                    return false;
                }
                if !json_eq(&x[i].value, &y[i].value) {
                    assert(!member_same(x@[i as int], y@[i as int]));
                    return false;
                }
                i += 1;
            }
            true
        },
        _ => false,
    }
}

impl Json {
    /// An independent copy of the value.
    #[verifier::loop_isolation(false)]
    pub fn deep_clone(&self) -> (r: Json)
        ensures
            same(*self, r),
        decreases self,
    {
        match self {
            Json::Null => Json::Null,
            Json::Bool(b) => Json::Bool(*b),
            Json::UInt(n) => Json::UInt(*n),
            Json::NegInt(n) => Json::NegInt(*n),
            Json::Float(s) => Json::Float(s.clone()),
            Json::Str(s) => Json::Str(s.clone()),
            Json::Array(items) => {
                let mut out: Vec<Json> = Vec::new();
                let mut i: usize = 0;
                while i < items.len()
                    invariant
                        i <= items.len(),
                        out@.len() == i,
                        forall|j: int| 0 <= j < i ==> same(items@[j], out@[j]),
                    decreases items.len() - i,
                {
                    proof {
                        assert(decreases_to!(self => items@[i as int]));
                    }
                    out.push(items[i].deep_clone());
                    i += 1;
                }
                proof {
                    lemma_same_items(items@, out@);
                }
                Json::Array(out)
            },
            Json::Object(m) => {
                let mut out: Vec<JsonMember> = Vec::new();
                let mut i: usize = 0;
                while i < m.len()
                    invariant
                        i <= m.len(),
                        out@.len() == i,
                        forall|j: int| 0 <= j < i ==> member_same(m@[j], out@[j]),
                    decreases m.len() - i,
                {
                    proof {
                        assert(decreases_to!(self => m@[i as int].value));
                    }
                    out.push(JsonMember { key: m[i].key.clone(), value: m[i].value.deep_clone() });
                    i += 1;
                }
                proof {
                    lemma_same_members(m@, out@);
                }
                Json::Object(out)
            },
        }
    }
}

} // verus!
