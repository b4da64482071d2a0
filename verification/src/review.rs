//! Validation of the review decisions that a model returns: the decision
//! envelope, its payload per event type, and the candidate finding drafts.
use crate::evidence::{draft_ok, parse_evidence_request_draft};
use crate::json::{
    Json, JsonMember, as_text, field, find_member, get_field, has_key, lemma_key_pos, members,
    member, text_eq,
};
use crate::text::{is_normalized, is_normalized_text};
use vstd::prelude::*;
use vstd::string::*;

verus! {

/// The texts of a list of literals.
pub open spec fn texts_of(allowed: Seq<&str>) -> Seq<Seq<char>> {
    allowed.map_values(|s: &str| s@)
}

/// The object has exactly the allowed keys: as many members as names, each
/// member named by one of them.
pub open spec fn exact_keys(p: Json, allowed: Seq<Seq<char>>) -> bool {
    &&& p is Object
    &&& members(p).len() == allowed.len()
    &&& forall|i: int| 0 <= i < members(p).len() ==> allowed.contains(#[trigger] members(p)[i].key@)
}

/// Field `f` is a non-empty normalized string.
pub open spec fn normalized_field(p: Json, f: Seq<char>) -> bool {
    &&& field(p, f) is Some
    &&& field(p, f).unwrap() is Str
    &&& is_normalized(field(p, f).unwrap()->Str_0@)
}

/// A non-empty array of non-empty normalized strings.
pub open spec fn normalized_texts(v: Json) -> bool {
    &&& v is Array
    &&& v->Array_0@.len() > 0
    &&& forall|i: int|
        0 <= i < v->Array_0@.len() ==> (#[trigger] v->Array_0@[i] is Str && is_normalized(
            v->Array_0@[i]->Str_0@,
        ))
}

/// Field `assessment` is an object.
pub open spec fn assessment_ok(p: Json) -> bool {
    &&& field(p, "assessment"@) is Some
    &&& field(p, "assessment"@).unwrap() is Object
}

/// The severities a candidate finding may carry.
pub open spec fn is_severity(s: Seq<char>) -> bool {
    ||| s == "note"@
    ||| s == "low"@
    ||| s == "medium"@
    ||| s == "high"@
    ||| s == "critical"@
}

/// A candidate finding draft: exactly a normalized title and description, a
/// supported severity and a confidence of at most 10,000 basis points.
pub open spec fn candidate_ok(c: Json) -> bool {
    &&& exact_keys(
        c,
        seq!["title"@, "description"@, "severity"@, "confidence_basis_points"@],
    )
    &&& normalized_field(c, "title"@)
    &&& normalized_field(c, "description"@)
    &&& field(c, "severity"@) is Some
    &&& field(c, "severity"@).unwrap() is Str
    &&& is_severity(field(c, "severity"@).unwrap()->Str_0@)
    &&& field(c, "confidence_basis_points"@) is Some
    &&& field(c, "confidence_basis_points"@).unwrap() is UInt
    &&& field(c, "confidence_basis_points"@).unwrap()->UInt_0 <= 10_000
}

/// The event type and payload of a decision envelope: an object with exactly
/// `event_type` (a string) and `payload` (an object).
pub open spec fn event_of(o: Json) -> Option<(Seq<char>, Json)> {
    let m = members(o);
    if o is Object && m.len() == 2 && has_key(m, "event_type"@) && has_key(m, "payload"@) && member(
        m,
        "event_type"@,
    ).unwrap() is Str && member(m, "payload"@).unwrap() is Object {
        Some((member(m, "event_type"@).unwrap()->Str_0@, member(m, "payload"@).unwrap()))
    } else {
        None
    }
}

/// The keys a `review.candidate_found` payload may carry.
pub open spec fn candidate_payload_keys(p: Json) -> Seq<Seq<char>> {
    if members(p).len() == 1 && has_key(members(p), "assessment"@) {
        seq!["assessment"@]
    } else {
        seq!["assessment"@, "candidates"@]
    }
}

/// A candidate list is a non-empty array of objects, each a valid draft.
pub open spec fn candidates_ok(v: Json) -> bool {
    &&& v is Array
    &&& v->Array_0@.len() > 0
    &&& forall|i: int| 0 <= i < v->Array_0@.len() ==> #[trigger] v->Array_0@[i] is Object
    &&& forall|i: int| 0 <= i < v->Array_0@.len() ==> candidate_ok(#[trigger] v->Array_0@[i])
}

/// The payload of a decision of the given event type is well formed.
pub open spec fn payload_ok(t: Seq<char>, p: Json) -> bool {
    if t == "review.pass"@ {
        exact_keys(p, seq!["assessment"@]) && assessment_ok(p)
    } else if t == "review.suggestion"@ {
        &&& exact_keys(p, seq!["assessment"@, "suggestions"@])
        &&& assessment_ok(p)
        &&& field(p, "suggestions"@) is Some
        &&& normalized_texts(field(p, "suggestions"@).unwrap())
    } else if t == "review.unable_to_verify"@ {
        &&& exact_keys(p, seq!["reason"@, "requested_evidence"@])
        &&& normalized_field(p, "reason"@)
        &&& field(p, "requested_evidence"@) is Some
        &&& draft_ok(field(p, "requested_evidence"@).unwrap())
    } else if t == "review.candidate_found"@ {
        &&& exact_keys(p, candidate_payload_keys(p))
        &&& assessment_ok(p)
        &&& (field(p, "candidates"@) is Some ==> candidates_ok(field(p, "candidates"@).unwrap()))
    } else if t == "review.failed"@ {
        exact_keys(p, seq!["reason"@]) && normalized_field(p, "reason"@)
    } else {
        false
    }
}

/// A model's review decision is acceptable.
pub open spec fn review_output_ok(o: Json) -> bool {
    &&& event_of(o) is Some
    &&& payload_ok(event_of(o).unwrap().0, event_of(o).unwrap().1)
}

/// Whether `key` is one of `allowed`.
fn key_allowed(key: &str, allowed: &Vec<&str>) -> (r: bool)
    ensures
        r == texts_of(allowed@).contains(key@),
{
    let mut i: usize = 0;
    while i < allowed.len()
        invariant
            i <= allowed.len(),
            forall|j: int| 0 <= j < i ==> allowed@[j]@ != key@,
        decreases allowed.len() - i,
    {
        if text_eq(allowed[i], key) {
            proof {
                assert(texts_of(allowed@)[i as int] == key@);
            }
            return true;
        }
        i += 1;
    }
    proof {
        if texts_of(allowed@).contains(key@) {
            let k = choose|k: int| 0 <= k < texts_of(allowed@).len() && texts_of(allowed@)[k] == key@;
            assert(allowed@[k]@ == key@);
        }
    }
    false
}

/// Checks that an object carries exactly the allowed keys.
pub fn validate_exact_keys(payload: &Json, allowed: &Vec<&str>) -> (r: Result<(), String>)
    ensures
        r is Ok <==> exact_keys(*payload, texts_of(allowed@)),
        !(*payload is Object) ==> (r matches Err(m) && m@ == "review payload must be an object"@),
        *payload is Object && r is Err ==> "review payload must contain exactly "@.is_prefix_of(r->Err_0@),
{
    match payload {
        Json::Object(m) => {
            let mut ok = m.len() == allowed.len();
            let mut i: usize = 0;
            while ok && i < m.len()
                invariant
                    i <= m.len(),
                    ok ==> forall|j: int|
                        0 <= j < i ==> texts_of(allowed@).contains(#[trigger] m@[j].key@),
                    !ok ==> !exact_keys(*payload, texts_of(allowed@)),
                    ok ==> m@.len() == allowed@.len(),
                    members(*payload) == m@,
                    *payload is Object,
                decreases (m.len() - i) * 2 + (if ok { 1int } else { 0int }),
            {
                if !key_allowed(m[i].key.as_str(), allowed) {
                    ok = false;
                } else {
                    i += 1;
                }
            }
            if ok {
                Ok(())
            } else {
                let mut message = "review payload must contain exactly ".to_owned();
                message.append(debug_list(allowed).as_str());
                message.append("; received ");
                let mut received: Vec<&str> = Vec::new();
                let mut k: usize = 0;
                while k < m.len()
                    invariant
                        k <= m.len(),
                    decreases m.len() - k,
                {
                    received.push(m[k].key.as_str());
                    k += 1;
                }
                message.append(debug_list(&received).as_str());
                proof {
                    let p = "review payload must contain exactly "@;
                    assert(message@.subrange(0, p.len() as int) =~= p);
                }
                Err(message)
            }
        },
        _ => Err("review payload must be an object".to_owned()),
    }
}

/// std's `Debug` rendering of the names, through `format!` with `{:?}`: a
/// bracketed, quoted list. std documents that `Debug` output is not stable,
/// so no clause states the text.
#[verifier::external_body]
fn debug_list(items: &Vec<&str>) -> String {
    format!("{items:?}")
}

/// Field `field` of the payload is a non-empty normalized string.
pub fn nonempty_string(payload: &Json, name: &str) -> (r: Result<(), String>)
    ensures
        r is Ok <==> normalized_field(*payload, name@),
{
    if let Some(value) = get_field(payload, name) {
        if let Json::Str(text) = value {
            if is_normalized_text(text.as_str()) {
                return Ok(());
            }
        }
    }
    let mut message = "`".to_owned();
    message.append(name);
    message.append("` must be a non-empty normalized string");
    Err(message)
}

/// Field `field` is a non-empty array of non-empty normalized strings.
pub fn nonempty_string_array(payload: &Json, name: &str) -> (r: Result<(), String>)
    ensures
        r is Ok <==> (field(*payload, name@) is Some && normalized_texts(
            field(*payload, name@).unwrap(),
        )),
{
    let items = match get_field(payload, name) {
        Some(Json::Array(items)) => items,
        _ => {
            let mut message = "`".to_owned();
            message.append(name);
            message.append("` must be an array");
            return Err(message);
        },
    };
    let mut ok = items.len() > 0;
    let mut i: usize = 0;
    while ok && i < items.len()
        invariant
            i <= items.len(),
            ok ==> items@.len() > 0,
            ok ==> forall|j: int|
                0 <= j < i ==> (#[trigger] items@[j] is Str && is_normalized(items@[j]->Str_0@)),
            !ok ==> !normalized_texts(Json::Array(*items)),
        decreases (items.len() - i) * 2 + (if ok { 1int } else { 0int }),
    {
        match &items[i] {
            Json::Str(text) => {
                if is_normalized_text(text.as_str()) {
                    i += 1;
                } else {
                    ok = false;
                }
            },
            _ => {
                ok = false;
            },
        }
    }
    if ok {
        Ok(())
    } else {
        let mut message = "`".to_owned();
        message.append(name);
        message.append("` must contain non-empty normalized strings");
        Err(message)
    }
}

/// Field `assessment` is an object.
pub fn assessment_object(payload: &Json) -> (r: Result<(), String>)
    ensures
        r is Ok <==> assessment_ok(*payload),
{
    match get_field(payload, "assessment") {
        Some(Json::Object(_)) => Ok(()),
        _ => Err("`assessment` must be an object".to_owned()),
    }
}

/// Checks one candidate finding draft.
pub fn validate_candidate_draft(candidate: &Json) -> (r: Result<(), String>)
    ensures
        r is Ok <==> candidate_ok(*candidate),
{
    let allowed = vec!["title", "description", "severity", "confidence_basis_points"];
    proof {
        assert(texts_of(allowed@) =~= seq![
            "title"@,
            "description"@,
            "severity"@,
            "confidence_basis_points"@,
        ]);
    }
    validate_exact_keys(candidate, &allowed)?;
    nonempty_string(candidate, "title")?;
    nonempty_string(candidate, "description")?;
    let severity = match get_field(candidate, "severity") {
        Some(Json::Str(s)) => s,
        _ => {
            return Err("candidate `severity` must be a string".to_owned());
        },
    };
    let sv = severity.as_str();
    if !(text_eq(sv, "note") || text_eq(sv, "low") || text_eq(sv, "medium") || text_eq(sv, "high")
        || text_eq(sv, "critical")) {
        return Err("candidate `severity` is unsupported".to_owned());
    }
    let confidence = match get_field(candidate, "confidence_basis_points") {
        Some(Json::UInt(n)) => *n,
        _ => {
            return Err("candidate confidence must be an integer".to_owned());
        },
    };
    if confidence > 10_000 {
        return Err("candidate confidence exceeds 10,000 basis points".to_owned());
    }
    Ok(())
}

/// Splits a decision envelope into its event type and payload.
pub fn review_event(output: &Json) -> (r: Result<(&str, &Json), String>)
    ensures
        r is Ok <==> event_of(*output) is Some,
        r is Ok ==> r->Ok_0.0@ == event_of(*output).unwrap().0 && *r->Ok_0.1 == event_of(
            *output,
        ).unwrap().1,
{
    let m = match output {
        Json::Object(m) => m,
        _ => {
            return Err("review output must be an object".to_owned());
        },
    };
    proof {
        lemma_key_pos(m@, "event_type"@);
        lemma_key_pos(m@, "payload"@);
    }
    let e = find_member(m, "event_type");
    let p = find_member(m, "payload");
    if m.len() != 2 || e.is_none() || p.is_none() {
        return Err("review output must contain only `event_type` and `payload`".to_owned());
    }
    let event_type = match &m[e.unwrap()].value {
        Json::Str(s) => s.as_str(),
        _ => {
            return Err("`event_type` must be a string".to_owned());
        },
    };
    let payload = &m[p.unwrap()].value;
    match payload {
        Json::Object(_) => Ok((event_type, payload)),
        _ => Err("`payload` must be an object".to_owned()),
    }
}

/// Checks a model's review decision: the envelope, the payload keys of its
/// event type, and the payload's contents.
pub fn validate_review_output(output: &Json) -> (r: Result<(), String>)
    ensures
        r is Ok <==> review_output_ok(*output),
{
    let (event_type, payload) = review_event(output)?;
    validate_review_payload(event_type, payload)
}

/// Checks the payload of a decision of the given event type.
#[verifier::loop_isolation(false)]
pub fn validate_review_payload(event_type: &str, payload: &Json) -> (r: Result<(), String>)
    ensures
        r is Ok <==> payload_ok(event_type@, *payload),
{
    if text_eq(event_type, "review.pass") {
        let allowed = vec!["assessment"];
        proof {
            assert(texts_of(allowed@) =~= seq!["assessment"@]);
        }
        validate_exact_keys(payload, &allowed)?;
        assessment_object(payload)
    } else if text_eq(event_type, "review.suggestion") {
        let allowed = vec!["assessment", "suggestions"];
        proof {
            assert(texts_of(allowed@) =~= seq!["assessment"@, "suggestions"@]);
        }
        validate_exact_keys(payload, &allowed)?;
        assessment_object(payload)?;
        nonempty_string_array(payload, "suggestions")
    } else if text_eq(event_type, "review.unable_to_verify") {
        let allowed = vec!["reason", "requested_evidence"];
        proof {
            assert(texts_of(allowed@) =~= seq!["reason"@, "requested_evidence"@]);
        }
        validate_exact_keys(payload, &allowed)?;
        nonempty_string(payload, "reason")?;
        match get_field(payload, "requested_evidence") {
            Some(request) => match parse_evidence_request_draft(request) {
                Ok(_) => Ok(()),
                Err(e) => Err(e),
            },
            None => Err("`requested_evidence` must be an object".to_owned()),
        }
    } else if text_eq(event_type, "review.candidate_found") {
        let m = match payload {
            Json::Object(m) => m,
            _ => {
                return Err("review payload must be an object".to_owned());
            },
        };
        proof {
            lemma_key_pos(m@, "assessment"@);
        }
        let only_assessment = m.len() == 1 && find_member(m, "assessment").is_some();
        let allowed = if only_assessment {
            vec!["assessment"]
        } else {
            vec!["assessment", "candidates"]
        };
        proof {
            assert(texts_of(allowed@) =~= candidate_payload_keys(*payload));
        }
        validate_exact_keys(payload, &allowed)?;
        assessment_object(payload)?;
        let candidates = match get_field(payload, "candidates") {
            None => {
                return Ok(());
            },
            Some(c) => c,
        };
        let items = match candidates {
            Json::Array(items) => items,
            _ => {
                return Err("`candidates` must be an array".to_owned());
            },
        };
        let ghost cv = field(*payload, "candidates"@).unwrap();
        assert(cv->Array_0@ == items@);
        if items.len() == 0 {
            return Err("`candidates` must contain at least one object".to_owned());
        }
        let mut i: usize = 0;
        while i < items.len()
            invariant
                i <= items.len(),
                forall|j: int| 0 <= j < i ==> #[trigger] items@[j] is Object,
                cv->Array_0@ == items@,
            decreases items.len() - i,
        {
            match &items[i] {
                Json::Object(_) => {},
                _ => {
                    assert(!(cv->Array_0@[i as int] is Object));
                    return Err("`candidates` must contain at least one object".to_owned());
                },
            }
            i += 1;
        }
        let mut i: usize = 0;
        while i < items.len()
            invariant
                i <= items.len(),
                forall|j: int| 0 <= j < i ==> candidate_ok(#[trigger] items@[j]),
                cv->Array_0@ == items@,
            decreases items.len() - i,
        {
            let checked = validate_candidate_draft(&items[i]);
            if checked.is_err() {
                assert(!candidate_ok(cv->Array_0@[i as int]));
                return checked;
            }
            i += 1;
        }
        Ok(())
    } else if text_eq(event_type, "review.failed") {
        let allowed = vec!["reason"];
        proof {
            assert(texts_of(allowed@) =~= seq!["reason"@]);
        }
        validate_exact_keys(payload, &allowed)?;
        nonempty_string(payload, "reason")
    } else {
        let mut message = "unsupported review event `".to_owned();
        message.append(event_type);
        message.append("`");
        Err(message)
    }
}

} // verus!
