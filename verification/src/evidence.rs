//! Evidence requests: the draft the model attaches to `review.unable_to_verify`,
//! evidence budgets, expansion usage, and the checks on expanded packages.
use crate::equiv::{Same, all_same, vec_same};
use crate::json::{Json, field, get_field, text_eq};
use crate::review::{exact_keys, texts_of, validate_exact_keys};
use crate::text::{is_normalized, is_normalized_text};
use vstd::prelude::*;
use vstd::string::*;

verus! {

/// Limits of an evidence package or of an additional evidence request.
#[derive(Debug, Clone, Copy, PartialEq, Eq, Structural)]
pub struct EvidenceBudget {
    pub max_bytes: usize,
    pub max_tokens: usize,
    pub max_items: usize,
    pub max_relation_depth: u32,
}

/// An evidence request as the model drafted it: which targets and kinds of
/// evidence, how much more budget, and why.
#[derive(Debug)]
pub struct EvidenceRequestDraft {
    pub requested_targets: Vec<String>,
    pub requested_kinds: Vec<String>,
    pub additional_budget: EvidenceBudget,
    pub rationale: String,
}

/// The texts of a list of string values.
pub open spec fn text_items(items: Seq<Json>) -> Seq<Seq<char>> {
    items.map_values(|j: Json| j->Str_0@)
}

/// The texts of a list of strings.
pub open spec fn string_views(v: Seq<String>) -> Seq<Seq<char>> {
    v.map_values(|s: String| s@)
}

/// A non-empty array of strings.
pub open spec fn text_array_ok(v: Option<Json>) -> bool {
    &&& v is Some
    &&& v.unwrap() is Array
    &&& v.unwrap()->Array_0@.len() > 0
    &&& forall|i: int|
        0 <= i < v.unwrap()->Array_0@.len() ==> #[trigger] v.unwrap()->Array_0@[i] is Str
}

/// Field `f` is a non-negative integer no larger than `max`.
pub open spec fn bounded_uint(b: Json, f: Seq<char>, max: int) -> bool {
    &&& field(b, f) is Some
    &&& field(b, f).unwrap() is UInt
    &&& field(b, f).unwrap()->UInt_0 <= max
}

pub open spec fn uint_of(b: Json, f: Seq<char>) -> u64 {
    field(b, f).unwrap()->UInt_0
}

/// An additional budget: exactly the four limits, each an integer that fits
/// its type.
pub open spec fn budget_shape_ok(b: Json) -> bool {
    &&& exact_keys(b, seq!["max_bytes"@, "max_tokens"@, "max_items"@, "max_relation_depth"@])
    &&& bounded_uint(b, "max_bytes"@, usize::MAX as int)
    &&& bounded_uint(b, "max_tokens"@, usize::MAX as int)
    &&& bounded_uint(b, "max_items"@, usize::MAX as int)
    &&& bounded_uint(b, "max_relation_depth"@, u32::MAX as int)
}

pub open spec fn budget_of(v: Json) -> Json {
    field(v, "additional_budget"@).unwrap()
}

/// An evidence request draft is well formed: exactly its four fields, non-empty
/// target and kind lists, a normalized rationale and positive byte, token and
/// item limits.
pub open spec fn draft_ok(v: Json) -> bool {
    &&& exact_keys(
        v,
        seq!["requested_targets"@, "requested_kinds"@, "additional_budget"@, "rationale"@],
    )
    &&& text_array_ok(field(v, "requested_targets"@))
    &&& text_array_ok(field(v, "requested_kinds"@))
    &&& field(v, "additional_budget"@) is Some
    &&& budget_shape_ok(budget_of(v))
    &&& field(v, "rationale"@) is Some
    &&& field(v, "rationale"@).unwrap() is Str
    &&& is_normalized(field(v, "rationale"@).unwrap()->Str_0@)
    &&& uint_of(budget_of(v), "max_bytes"@) > 0
    &&& uint_of(budget_of(v), "max_tokens"@) > 0
    &&& uint_of(budget_of(v), "max_items"@) > 0
}

/// Reads a non-empty array of strings.
fn read_texts(v: Option<&Json>) -> (r: Option<Vec<String>>)
    ensures
        r is Some <==> text_array_ok(match v {
            Some(x) => Some(*x),
            None => None,
        }),
        r is Some ==> string_views(r.unwrap()@) == text_items(v.unwrap()->Array_0@),
{
    let items = match v {
        Some(Json::Array(items)) => items,
        _ => {
            return None;
        },
    };
    if items.len() == 0 {
        return None;
    }
    let mut out: Vec<String> = Vec::new();
    let mut i: usize = 0;
    assert(v.unwrap()->Array_0@ == items@);
    while i < items.len()
        invariant
            i <= items.len(),
            v is Some && v.unwrap()->Array_0@ == items@,
            out@.len() == i,
            forall|j: int| 0 <= j < i ==> #[trigger] items@[j] is Str,
            forall|j: int| 0 <= j < i ==> (#[trigger] out@[j])@ == items@[j]->Str_0@,
        decreases items.len() - i,
    {
        match &items[i] {
            Json::Str(s) => {
                out.push(s.clone());
            },
            _ => {
                proof {
                    assert(v.unwrap()->Array_0@[i as int] == items@[i as int]);
                }
                return None;
            },
        }
        i += 1;
    }
    proof {
        assert(string_views(out@) =~= text_items(items@));
    }
    Some(out)
}

/// Reads an integer field no larger than `max`.
fn read_uint(b: &Json, name: &str, max: u64) -> (r: Option<u64>)
    ensures
        r is Some <==> bounded_uint(*b, name@, max as int),
        r is Some ==> r.unwrap() == uint_of(*b, name@),
{
    match get_field(b, name) {
        Some(Json::UInt(n)) => {
            if *n <= max {
                Some(*n)
            } else {
                None
            }
        },
        _ => None,
    }
}

fn draft_error(detail: &str) -> (m: String)
    ensures
        m@ == "invalid evidence request draft: "@ + detail@,
{
    let mut message = "invalid evidence request draft: ".to_owned();
    message.append(detail);
    message
}

/// Parses and checks the evidence request the model drafted.
pub fn parse_evidence_request_draft(value: &Json) -> (r: Result<EvidenceRequestDraft, String>)
    ensures
        r is Ok <==> draft_ok(*value),
        r is Ok ==> ({
            let d = r->Ok_0;
            let b = budget_of(*value);
            &&& string_views(d.requested_targets@) == text_items(
                field(*value, "requested_targets"@).unwrap()->Array_0@,
            )
            &&& string_views(d.requested_kinds@) == text_items(
                field(*value, "requested_kinds"@).unwrap()->Array_0@,
            )
            &&& d.rationale@ == field(*value, "rationale"@).unwrap()->Str_0@
            &&& d.additional_budget.max_bytes == uint_of(b, "max_bytes"@)
            &&& d.additional_budget.max_tokens == uint_of(b, "max_tokens"@)
            &&& d.additional_budget.max_items == uint_of(b, "max_items"@)
            &&& d.additional_budget.max_relation_depth == uint_of(b, "max_relation_depth"@)
        }),
{
    let allowed = vec!["requested_targets", "requested_kinds", "additional_budget", "rationale"];
    proof {
        assert(texts_of(allowed@) =~= seq![
            "requested_targets"@,
            "requested_kinds"@,
            "additional_budget"@,
            "rationale"@,
        ]);
    }
    if validate_exact_keys(value, &allowed).is_err() {
        return Err(draft_error("unexpected or missing fields"));
    }
    let targets = match read_texts(get_field(value, "requested_targets")) {
        Some(t) => t,
        None => {
            return Err(draft_error("`requested_targets` must be a non-empty list of targets"));
        },
    };
    let kinds = match read_texts(get_field(value, "requested_kinds")) {
        Some(k) => k,
        None => {
            return Err(draft_error("`requested_kinds` must be a non-empty list of kinds"));
        },
    };
    let budget = match get_field(value, "additional_budget") {
        Some(b) => b,
        None => {
            return Err(draft_error("`additional_budget` is missing"));
        },
    };
    let budget_keys = vec!["max_bytes", "max_tokens", "max_items", "max_relation_depth"];
    proof {
        assert(texts_of(budget_keys@) =~= seq![
            "max_bytes"@,
            "max_tokens"@,
            "max_items"@,
            "max_relation_depth"@,
        ]);
    }
    if validate_exact_keys(budget, &budget_keys).is_err() {
        return Err(draft_error("`additional_budget` has unexpected or missing limits"));
    }
    let bytes = read_uint(budget, "max_bytes", usize::MAX as u64);
    let tokens = read_uint(budget, "max_tokens", usize::MAX as u64);
    let items = read_uint(budget, "max_items", usize::MAX as u64);
    let depth = read_uint(budget, "max_relation_depth", u32::MAX as u64);
    if bytes.is_none() || tokens.is_none() || items.is_none() || depth.is_none() {
        return Err(draft_error("budget limits must be non-negative integers in range"));
    }
    let rationale = match get_field(value, "rationale") {
        Some(Json::Str(s)) => s,
        _ => {
            return Err(draft_error("`rationale` must be a string"));
        },
    };
    let bytes = bytes.unwrap();
    let tokens = tokens.unwrap();
    let items = items.unwrap();
    let depth = depth.unwrap();
    if !is_normalized_text(rationale.as_str()) || bytes == 0 || tokens == 0 || items == 0 {
        return Err(
            "evidence request requires normalized rationale, targets, kinds, and positive limits".to_owned(),
        );
    }
    Ok(
        EvidenceRequestDraft {
            requested_targets: targets,
            requested_kinds: kinds,
            additional_budget: EvidenceBudget {
                max_bytes: bytes as usize,
                max_tokens: tokens as usize,
                max_items: items as usize,
                max_relation_depth: depth as u32,
            },
            rationale: rationale.clone(),
        },
    )
}

impl Same for EvidenceBudget {
    open spec fn same_as(&self, other: &Self) -> bool {
        *self == *other
    }

    fn eq_to(&self, other: &Self) -> (r: bool) {
        *self == *other
    }
}

/// An evidence request bound to the package it extends.
#[derive(Debug)]
pub struct EvidenceRequest {
    pub sequence: u32,
    pub base_package: String,
    pub requested_targets: Vec<String>,
    pub requested_kinds: Vec<String>,
    pub additional_budget: EvidenceBudget,
    pub rationale: String,
}

impl Same for EvidenceRequest {
    open spec fn same_as(&self, other: &Self) -> bool {
        &&& self.sequence == other.sequence
        &&& self.base_package@ == other.base_package@
        &&& all_same(self.requested_targets@, other.requested_targets@)
        &&& all_same(self.requested_kinds@, other.requested_kinds@)
        &&& self.additional_budget == other.additional_budget
        &&& self.rationale@ == other.rationale@
    }

    fn eq_to(&self, other: &Self) -> (r: bool) {
        self.sequence == other.sequence && self.base_package.eq_to(&other.base_package) && vec_same(
            &self.requested_targets,
            &other.requested_targets,
        ) && vec_same(&self.requested_kinds, &other.requested_kinds)
            && self.additional_budget == other.additional_budget && self.rationale.eq_to(
            &other.rationale,
        )
    }
}

/// What the approved evidence requests of a review have used so far.
#[derive(Debug, Clone, Copy, PartialEq, Eq, Structural)]
pub struct ExpansionUsage {
    pub approved_requests: u32,
    pub used_bytes: usize,
    pub used_tokens: usize,
    pub used_items: usize,
    pub maximum_relation_depth: u32,
}

/// Adds with saturation at `max`.
pub open spec fn sat_add(a: int, b: int, max: int) -> int {
    if a + b > max {
        max
    } else {
        a + b
    }
}

/// The usage after one more approved request with the given budget.
pub open spec fn usage_after_request(u: ExpansionUsage, b: EvidenceBudget) -> ExpansionUsage {
    ExpansionUsage {
        approved_requests: sat_add(u.approved_requests as int, 1, u32::MAX as int) as u32,
        used_bytes: sat_add(u.used_bytes as int, b.max_bytes as int, usize::MAX as int) as usize,
        used_tokens: sat_add(u.used_tokens as int, b.max_tokens as int, usize::MAX as int) as usize,
        used_items: sat_add(u.used_items as int, b.max_items as int, usize::MAX as int) as usize,
        maximum_relation_depth: if u.maximum_relation_depth >= b.max_relation_depth {
            u.maximum_relation_depth
        } else {
            b.max_relation_depth
        },
    }
}

/// No request approved yet.
pub open spec fn no_usage() -> ExpansionUsage {
    ExpansionUsage {
        approved_requests: 0,
        used_bytes: 0,
        used_tokens: 0,
        used_items: 0,
        maximum_relation_depth: 0,
    }
}

impl ExpansionUsage {
    /// No request approved yet.
    pub fn none() -> (r: ExpansionUsage)
        ensures
            r == no_usage(),
    {
        ExpansionUsage {
            approved_requests: 0,
            used_bytes: 0,
            used_tokens: 0,
            used_items: 0,
            maximum_relation_depth: 0,
        }
    }

    /// The usage after one more approved request with the given budget.
    pub fn after_request(&self, b: &EvidenceBudget) -> (r: ExpansionUsage)
        ensures
            r == usage_after_request(*self, *b),
    {
        ExpansionUsage {
            approved_requests: self.approved_requests.saturating_add(1),
            used_bytes: self.used_bytes.saturating_add(b.max_bytes),
            used_tokens: self.used_tokens.saturating_add(b.max_tokens),
            used_items: self.used_items.saturating_add(b.max_items),
            maximum_relation_depth: if self.maximum_relation_depth >= b.max_relation_depth {
                self.maximum_relation_depth
            } else {
                b.max_relation_depth
            },
        }
    }
}

/// An approved request, with the usage it leads to and its content hash.
#[derive(Debug)]
pub struct AuthorizedEvidenceExpansion {
    pub request: EvidenceRequest,
    pub maximum_classification: String,
    pub next_usage: ExpansionUsage,
    pub authorization_hash: String,
}

impl Same for AuthorizedEvidenceExpansion {
    open spec fn same_as(&self, other: &Self) -> bool {
        &&& self.request.same_as(&other.request)
        &&& self.maximum_classification@ == other.maximum_classification@
        &&& self.next_usage == other.next_usage
        &&& self.authorization_hash@ == other.authorization_hash@
    }

    fn eq_to(&self, other: &Self) -> (r: bool) {
        self.request.eq_to(&other.request) && self.maximum_classification.eq_to(
            &other.maximum_classification,
        ) && self.next_usage == other.next_usage && self.authorization_hash.eq_to(
            &other.authorization_hash,
        )
    }
}

/// Why a request was refused.
#[derive(Debug, Clone, Copy, PartialEq, Eq, Structural)]
pub enum ExpansionDenialReason {
    RequestLimitExhausted,
    ByteBudgetExhausted,
    TokenBudgetExhausted,
    ItemBudgetExhausted,
    RelationDepthExhausted,
    TargetOutOfScope,
    KindNotAllowed,
    ClassificationNotAllowed,
    BasePackageMismatch,
}

/// A refusal, with its reason and a human-readable detail.
#[derive(Debug)]
pub struct ExpansionDenial {
    pub reason: ExpansionDenialReason,
    pub detail: String,
}

/// The denial reasons that mean a budget is spent (as opposed to a request
/// out of scope).
pub open spec fn budget_exhaustion(r: ExpansionDenialReason) -> bool {
    ||| r is RequestLimitExhausted
    ||| r is ByteBudgetExhausted
    ||| r is TokenBudgetExhausted
    ||| r is ItemBudgetExhausted
    ||| r is RelationDepthExhausted
}

/// Whether a denial reason means that a budget is spent.
pub fn is_budget_exhaustion(reason: ExpansionDenialReason) -> (r: bool)
    ensures
        r == budget_exhaustion(reason),
{
    match reason {
        ExpansionDenialReason::RequestLimitExhausted
        | ExpansionDenialReason::ByteBudgetExhausted
        | ExpansionDenialReason::TokenBudgetExhausted
        | ExpansionDenialReason::ItemBudgetExhausted
        | ExpansionDenialReason::RelationDepthExhausted => true,
        _ => false,
    }
}

impl Same for ExpansionDenial {
    open spec fn same_as(&self, other: &Self) -> bool {
        self.reason == other.reason && self.detail@ == other.detail@
    }

    fn eq_to(&self, other: &Self) -> (r: bool) {
        self.reason == other.reason && self.detail.eq_to(&other.detail)
    }
}

/// Whether a request was approved or refused.
#[derive(Debug)]
pub enum EvidenceRequestDisposition {
    Allowed { authorization: AuthorizedEvidenceExpansion },
    Denied { denial: ExpansionDenial },
}

impl Same for EvidenceRequestDisposition {
    open spec fn same_as(&self, other: &Self) -> bool {
        match (self, other) {
            (
                EvidenceRequestDisposition::Allowed { authorization: a },
                EvidenceRequestDisposition::Allowed { authorization: b },
            ) => a.same_as(b),
            (
                EvidenceRequestDisposition::Denied { denial: a },
                EvidenceRequestDisposition::Denied { denial: b },
            ) => a.same_as(b),
            _ => false,
        }
    }

    fn eq_to(&self, other: &Self) -> (r: bool) {
        match (self, other) {
            (
                EvidenceRequestDisposition::Allowed { authorization: a },
                EvidenceRequestDisposition::Allowed { authorization: b },
            ) => a.eq_to(b),
            (
                EvidenceRequestDisposition::Denied { denial: a },
                EvidenceRequestDisposition::Denied { denial: b },
            ) => a.eq_to(b),
            _ => false,
        }
    }
}

/// The decision taken on the evidence request of one evidence revision.
#[derive(Debug)]
pub struct EvidenceRequestDecision {
    pub evidence_revision: u32,
    pub request: EvidenceRequest,
    pub disposition: EvidenceRequestDisposition,
}

impl Same for EvidenceRequestDecision {
    open spec fn same_as(&self, other: &Self) -> bool {
        &&& self.evidence_revision == other.evidence_revision
        &&& self.request.same_as(&other.request)
        &&& self.disposition.same_as(&other.disposition)
    }

    fn eq_to(&self, other: &Self) -> (r: bool) {
        self.evidence_revision == other.evidence_revision && self.request.eq_to(&other.request)
            && self.disposition.eq_to(&other.disposition)
    }
}

/// One durable step of the evidence package chain.
#[derive(Debug)]
pub struct EvidenceExpansionRecord {
    pub authorization_hash: String,
    pub from_revision: u32,
    pub previous_package: String,
    pub to_revision: u32,
    pub package_ref: String,
}

impl Same for EvidenceExpansionRecord {
    open spec fn same_as(&self, other: &Self) -> bool {
        &&& self.authorization_hash@ == other.authorization_hash@
        &&& self.from_revision == other.from_revision
        &&& self.previous_package@ == other.previous_package@
        &&& self.to_revision == other.to_revision
        &&& self.package_ref@ == other.package_ref@
    }

    fn eq_to(&self, other: &Self) -> (r: bool) {
        self.authorization_hash.eq_to(&other.authorization_hash) && self.from_revision
            == other.from_revision && self.previous_package.eq_to(&other.previous_package)
            && self.to_revision == other.to_revision && self.package_ref.eq_to(&other.package_ref)
    }
}

} // verus!
