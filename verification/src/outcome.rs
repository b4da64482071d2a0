//! Effective review outcomes: their logical identity, validity and the
//! idempotent recording protocol that reads back what was stored.
use crate::actors::OutputEvent;
use crate::decision_schema::{member, object_of, text};
use crate::hashing::{append_bytes, blake3_hex, blake3_hex_of, is_lower_hex};
use crate::json::{Json, JsonMember};
use crate::shape::{Shape, fits};
use crate::json::text_eq;
use crate::text::{is_hex_digest, is_hex_digest_text, is_normalized, is_normalized_text, is_space, is_whitespace};
use crate::workflow_data::ProviderIdentity;
use vstd::prelude::*;
use vstd::string::*;
use vstd::utf8::encode_utf8;

verus! {

/// The identity of one logical review outcome: which audit, which work item,
/// under which policy version, evidence revision and workflow.
#[derive(Debug)]
pub struct LogicalOutcomeKey {
    pub audit_snapshot: String,
    pub audit_run: String,
    pub work_id: String,
    pub policy_version: String,
    pub evidence_revision: u32,
    pub workflow_hash: String,
}

/// The kinds of review outcome.
#[derive(Debug, Clone, Copy, PartialEq, Eq, Structural)]
pub enum OutcomeKind {
    Passed,
    Suggestion,
    CandidateFindings,
    UnableToVerify,
    Failed,
}

/// Who and what produced an outcome.
#[derive(Debug)]
pub struct OutcomeProvenance {
    pub prompt_version: String,
    pub actor_id: String,
    pub actor_version: String,
    pub workflow_id: String,
    pub workflow_version: String,
    pub provider: ProviderIdentity,
}

/// The outcome that stands for one logical review.
#[derive(Debug)]
pub struct EffectiveOutcome {
    pub logical_key: LogicalOutcomeKey,
    pub result_ref: String,
    pub kind: OutcomeKind,
    pub provenance: OutcomeProvenance,
}

/// Whether recording inserted the outcome or found it already stored.
#[derive(Debug, Clone, Copy, PartialEq, Eq, Structural)]
pub enum OutcomeDisposition {
    Inserted,
    Existing,
}

/// The outcome that is durably recorded for a logical key.
#[derive(Debug)]
pub struct OutcomeReceipt {
    pub disposition: OutcomeDisposition,
    pub storage_key: String,
    pub outcome: EffectiveOutcome,
}

/// The errors of outcome recording.
#[derive(Debug)]
pub enum OutcomeError {
    InvalidIdentity(String),
    Storage(String),
    Serialize(String),
    Deserialize(String),
}

impl OutcomeError {
    /// The text of the error's message.
    pub open spec fn message_text(&self) -> Seq<char> {
        match self {
            OutcomeError::InvalidIdentity(m) => "invalid outcome identity: "@ + m@,
            OutcomeError::Storage(m) => "outcome inbox error: "@ + m@,
            OutcomeError::Serialize(m) => "cannot serialize outcome: "@ + m@,
            OutcomeError::Deserialize(m) => "cannot deserialize outcome: "@ + m@,
        }
    }

    /// A readable description of the error.
    pub fn message(&self) -> (r: String)
        ensures
            r@ == self.message_text(),
    {
        let (mut s, detail) = match self {
            OutcomeError::InvalidIdentity(m) => ("invalid outcome identity: ".to_owned(), m),
            OutcomeError::Storage(m) => ("outcome inbox error: ".to_owned(), m),
            OutcomeError::Serialize(m) => ("cannot serialize outcome: ".to_owned(), m),
            OutcomeError::Deserialize(m) => ("cannot deserialize outcome: ".to_owned(), m),
        };
        s.append(detail.as_str());
        s
    }
}

/// A valid logical key: normalized policy version, non-zero evidence revision
/// and a 64-character hexadecimal workflow hash.
pub open spec fn key_ok(k: LogicalOutcomeKey) -> bool {
    &&& is_normalized(k.policy_version@)
    &&& k.evidence_revision != 0
    &&& is_hex_digest(k.workflow_hash@)
}

/// Every identity of the provenance is non-empty and normalized.
pub open spec fn provenance_ok(p: OutcomeProvenance) -> bool {
    &&& is_normalized(p.prompt_version@)
    &&& is_normalized(p.actor_id@)
    &&& is_normalized(p.actor_version@)
    &&& is_normalized(p.workflow_id@)
    &&& is_normalized(p.workflow_version@)
    &&& p.provider.valid()
}

/// The text holds something other than whitespace.
pub open spec fn not_blank(s: Seq<char>) -> bool {
    exists|i: int| 0 <= i < s.len() && !is_space(#[trigger] s[i])
}

/// A valid outcome: valid key and provenance, and a result reference.
pub open spec fn outcome_ok(o: EffectiveOutcome) -> bool {
    &&& key_ok(o.logical_key)
    &&& provenance_ok(o.provenance)
    &&& not_blank(o.result_ref@)
}

/// The eight big-endian bytes of `n`.
pub open spec fn be64(n: u64) -> Seq<u8> {
    seq![
        (n / 0x100000000000000) as u8,
        (n / 0x1000000000000 % 256) as u8,
        (n / 0x10000000000 % 256) as u8,
        (n / 0x100000000 % 256) as u8,
        (n / 0x1000000 % 256) as u8,
        (n / 0x10000 % 256) as u8,
        (n / 0x100 % 256) as u8,
        (n % 256) as u8,
    ]
}

/// The four big-endian bytes of `n`.
pub open spec fn be32(n: u32) -> Seq<u8> {
    seq![(n / 0x1000000) as u8, (n / 0x10000 % 256) as u8, (n / 0x100 % 256) as u8, (n % 256) as u8]
}

/// A part of a hashed identity, prefixed with its length.
pub open spec fn framed(part: Seq<u8>) -> Seq<u8> {
    be64(part.len() as u64) + part
}

/// The lowercase form of an ASCII hexadecimal digit, as a byte.
pub open spec fn lower_byte(c: char) -> u8 {
    if 'A' <= c <= 'F' {
        (c as u32 + 32) as u8
    } else {
        c as u32 as u8
    }
}

/// The bytes of the lowercase form of an ASCII text.
pub open spec fn lower_bytes(s: Seq<char>) -> Seq<u8> {
    s.map_values(|c: char| lower_byte(c))
}

/// The bytes hashed into an outcome's storage key.
pub open spec fn storage_key_bytes(k: LogicalOutcomeKey) -> Seq<u8> {
    framed(
        seq![
            97u8, 114, 103, 117, 115, 45, 108, 111, 103, 105, 99, 97, 108, 45, 111, 117, 116, 99,
            111, 109, 101, 45, 118, 49,
        ],
    ) + framed(encode_utf8(k.audit_snapshot@)) + framed(encode_utf8(k.audit_run@)) + framed(
        encode_utf8(k.work_id@),
    ) + framed(encode_utf8(k.policy_version@)) + framed(be32(k.evidence_revision)) + framed(
        lower_bytes(k.workflow_hash@),
    )
}

/// The storage key of a logical outcome.
pub open spec fn storage_key_of(k: LogicalOutcomeKey) -> Seq<char> {
    blake3_hex(storage_key_bytes(k))
}

fn be64_bytes(n: u64) -> (r: Vec<u8>)
    ensures
        r@ == be64(n),
{
    let r = vec![
        (n / 0x100000000000000) as u8,
        (n / 0x1000000000000 % 256) as u8,
        (n / 0x10000000000 % 256) as u8,
        (n / 0x100000000 % 256) as u8,
        (n / 0x1000000 % 256) as u8,
        (n / 0x10000 % 256) as u8,
        (n / 0x100 % 256) as u8,
        (n % 256) as u8,
    ];
    proof {
        assert(r@ =~= be64(n));
    }
    r
}

/// Appends a length-prefixed part.
fn add_part(buffer: &mut Vec<u8>, part: &[u8])
    ensures
        final(buffer)@ == old(buffer)@ + framed(part@),
{
    let length = be64_bytes(part.len() as u64);
    append_bytes(buffer, length.as_slice());
    append_bytes(buffer, part);
    proof {
        assert(buffer@ =~= old(buffer)@ + framed(part@));
    }
}

/// The lowercase bytes of an ASCII text.
fn lowercase_bytes(s: &str) -> (r: Vec<u8>)
    ensures
        r@ == lower_bytes(s@),
{
    let n = s.unicode_len();
    let mut out: Vec<u8> = Vec::new();
    let mut i: usize = 0;
    while i < n
        invariant
            n == s@.len(),
            i <= n,
            out@ == lower_bytes(s@).subrange(0, i as int),
        decreases n - i,
    {
        let c = s.get_char(i);
        let b: u8 = if 'A' <= c && c <= 'F' {
            (c as u32 + 32) as u8
        } else {
            c as u32 as u8
        };
        out.push(b);
        i += 1;
        proof {
            assert(out@ =~= lower_bytes(s@).subrange(0, i as int));
        }
    }
    proof {
        assert(lower_bytes(s@).subrange(0, n as int) =~= lower_bytes(s@));
    }
    out
}

fn invalid_identity(message: &str) -> (e: OutcomeError)
    ensures
        e matches OutcomeError::InvalidIdentity(m) && m@ == message@,
{
    OutcomeError::InvalidIdentity(message.to_owned())
}

impl LogicalOutcomeKey {
    /// Checks the key.
    pub fn validate(&self) -> (r: Result<(), OutcomeError>)
        ensures
            r is Ok <==> key_ok(*self),
            r is Err ==> r->Err_0 is InvalidIdentity,
    {
        if !is_normalized_text(self.policy_version.as_str()) || self.evidence_revision == 0 {
            return Err(
                invalid_identity("policy version and non-zero evidence revision are required"),
            );
        }
        if !is_hex_digest_text(self.workflow_hash.as_str()) {
            return Err(
                invalid_identity("workflow hash must be a 64-character hexadecimal digest"),
            );
        }
        Ok(())
    }

    /// The storage key: a digest over the length-prefixed parts of the key,
    /// with the workflow hash in lowercase.
    pub fn storage_key(&self) -> (r: Result<String, OutcomeError>)
        ensures
            r is Ok <==> key_ok(*self),
            r is Ok ==> r->Ok_0@ == storage_key_of(*self),
            r is Ok ==> r->Ok_0@.len() == 64 && forall|i: int| 0 <= i < 64 ==> is_lower_hex(#[trigger] r->Ok_0@[i]),
            r is Err ==> r->Err_0 is InvalidIdentity,
    {
        self.validate()?;
        let mut bytes: Vec<u8> = Vec::new();
        let domain: Vec<u8> = vec![
            97u8, 114, 103, 117, 115, 45, 108, 111, 103, 105, 99, 97, 108, 45, 111, 117, 116, 99,
            111, 109, 101, 45, 118, 49,
        ];
        add_part(&mut bytes, domain.as_slice());
        add_part(&mut bytes, self.audit_snapshot.as_str().as_bytes());
        add_part(&mut bytes, self.audit_run.as_str().as_bytes());
        add_part(&mut bytes, self.work_id.as_str().as_bytes());
        add_part(&mut bytes, self.policy_version.as_str().as_bytes());
        let revision: Vec<u8> = vec![
            (self.evidence_revision / 0x1000000) as u8,
            (self.evidence_revision / 0x10000 % 256) as u8,
            (self.evidence_revision / 0x100 % 256) as u8,
            (self.evidence_revision % 256) as u8,
        ];
        add_part(&mut bytes, revision.as_slice());
        let hash = lowercase_bytes(self.workflow_hash.as_str());
        add_part(&mut bytes, hash.as_slice());
        proof {
            assert(domain@ =~= seq![
                97u8, 114, 103, 117, 115, 45, 108, 111, 103, 105, 99, 97, 108, 45, 111, 117, 116,
                99, 111, 109, 101, 45, 118, 49,
            ]);
            assert(revision@ =~= be32(self.evidence_revision));
            assert(bytes@ =~= storage_key_bytes(*self));
        }
        Ok(blake3_hex_of(bytes.as_slice()))
    }
}

impl OutcomeProvenance {
    /// Checks that every identity of the provenance is non-empty and normalized.
    pub fn validate(&self) -> (r: Result<(), OutcomeError>)
        ensures
            r is Ok <==> provenance_ok(*self),
            r is Err ==> r->Err_0 is InvalidIdentity,
    {
        if is_normalized_text(self.prompt_version.as_str()) && is_normalized_text(
            self.actor_id.as_str(),
        ) && is_normalized_text(self.actor_version.as_str()) && is_normalized_text(
            self.workflow_id.as_str(),
        ) && is_normalized_text(self.workflow_version.as_str()) && self.provider.validate().is_ok() {
            Ok(())
        } else {
            Err(
                invalid_identity(
                    "prompt, actor, provider, and model identities are required",
                ),
            )
        }
    }
}

/// Whether a text holds something other than whitespace.
pub fn is_not_blank(s: &str) -> (r: bool)
    ensures
        r == not_blank(s@),
{
    let n = s.unicode_len();
    let mut i: usize = 0;
    while i < n
        invariant
            n == s@.len(),
            i <= n,
            forall|j: int| 0 <= j < i ==> is_space(#[trigger] s@[j]),
        decreases n - i,
    {
        if !is_whitespace(s.get_char(i)) {
            return true;
        }
        i += 1;
    }
    false
}

impl EffectiveOutcome {
    /// Checks the outcome.
    pub fn validate(&self) -> (r: Result<(), OutcomeError>)
        ensures
            r is Ok <==> outcome_ok(*self),
            r is Err ==> r->Err_0 is InvalidIdentity,
    {
        self.logical_key.validate()?;
        self.provenance.validate()?;
        if !is_not_blank(self.result_ref.as_str()) {
            return Err(invalid_identity("effective outcome requires a result reference"));
        }
        Ok(())
    }
}

/// `prefix` begins `s`.
pub open spec fn has_prefix(s: Seq<char>, prefix: Seq<char>) -> bool {
    prefix.len() <= s.len() && s.subrange(0, prefix.len() as int) == prefix
}

/// Whether `s` begins with `prefix`.
pub fn text_starts_with(s: &str, prefix: &str) -> (r: bool)
    ensures
        r == has_prefix(s@, prefix@),
{
    let n = s.unicode_len();
    let m = prefix.unicode_len();
    if m > n {
        return false;
    }
    let mut i: usize = 0;
    while i < m
        invariant
            n == s@.len(),
            m == prefix@.len(),
            m <= n,
            i <= m,
            forall|j: int| 0 <= j < i ==> s@[j] == prefix@[j],
        decreases m - i,
    {
        if s.get_char(i) != prefix.get_char(i) {
            proof {
                assert(s@.subrange(0, m as int)[i as int] != prefix@[i as int]);
            }
            return false;
        }
        i += 1;
    }
    proof {
        assert(s@.subrange(0, m as int) =~= prefix@);
    }
    true
}

/// The artifacts an outcome references: its result reference when that names
/// an artifact.
pub open spec fn artifact_refs(o: EffectiveOutcome) -> Seq<Seq<char>> {
    if has_prefix(o.result_ref@, "artifact:"@) {
        seq![o.result_ref@]
    } else {
        seq![]
    }
}

/// What recording an outcome writes: the outcome's storage key and the
/// artifacts it references; refused for an invalid outcome.
pub fn prepare_record(proposed: &EffectiveOutcome) -> (r: Result<(String, Vec<String>), OutcomeError>)
    ensures
        r is Ok <==> outcome_ok(*proposed),
        r is Err ==> r->Err_0 is InvalidIdentity,
        r is Ok ==> r->Ok_0.0@ == storage_key_of(proposed.logical_key),
        r is Ok ==> r->Ok_0.1@.map_values(|s: String| s@) == artifact_refs(*proposed),
{
    proposed.validate()?;
    let key = proposed.logical_key.storage_key()?;
    let mut refs: Vec<String> = Vec::new();
    if text_starts_with(proposed.result_ref.as_str(), "artifact:") {
        refs.push(proposed.result_ref.clone());
    }
    proof {
        assert(refs@.map_values(|s: String| s@) =~= artifact_refs(*proposed));
    }
    Ok((key, refs))
}

/// Accepts the outcome the inbox holds for a storage key: it must be valid,
/// file under the same key and belong to the same work item.
pub fn accept_recorded(
    proposed: &EffectiveOutcome,
    storage_key: String,
    disposition: OutcomeDisposition,
    stored: EffectiveOutcome,
) -> (r: Result<OutcomeReceipt, OutcomeError>)
    ensures
        r is Ok <==> (outcome_ok(stored) && storage_key_of(stored.logical_key) == storage_key@
            && stored.logical_key.work_id@ == proposed.logical_key.work_id@),
        r is Err ==> r->Err_0 is InvalidIdentity,
        r is Ok ==> r->Ok_0.disposition == disposition && r->Ok_0.storage_key == storage_key
            && r->Ok_0.outcome == stored,
{
    stored.validate()?;
    let stored_key = stored.logical_key.storage_key()?;
    if !text_eq(stored_key.as_str(), storage_key.as_str()) || !text_eq(
        stored.logical_key.work_id.as_str(),
        proposed.logical_key.work_id.as_str(),
    ) {
        return Err(invalid_identity("stored outcome does not match the requested logical key"));
    }
    Ok(OutcomeReceipt { disposition, storage_key, outcome: stored })
}

/// The storage key depends only on the logical key: two outcomes for the same
/// logical key file under the same key, so recording either finds the other.
pub proof fn law_same_key_same_storage(a: LogicalOutcomeKey, b: LogicalOutcomeKey)
    requires
        a.audit_snapshot@ == b.audit_snapshot@,
        a.audit_run@ == b.audit_run@,
        a.work_id@ == b.work_id@,
        a.policy_version@ == b.policy_version@,
        a.evidence_revision == b.evidence_revision,
        lower_bytes(a.workflow_hash@) == lower_bytes(b.workflow_hash@),
    ensures
        storage_key_of(a) == storage_key_of(b),
{
}

/// The wire name of a recording disposition.
pub open spec fn disposition_name(d: OutcomeDisposition) -> Seq<char> {
    match d {
        OutcomeDisposition::Inserted => "inserted"@,
        OutcomeDisposition::Existing => "existing"@,
    }
}

/// The event announcing a recorded outcome: `outcome.recorded` with the
/// disposition, the result reference and the storage key.
pub fn outcome_recorded_event(receipt: &OutcomeReceipt) -> (r: OutputEvent)
    ensures
        r.event_type@ == "outcome.recorded"@,
        fits(
            r.payload,
            Shape::Object(
                seq![
                    ("disposition"@, Shape::Str(disposition_name(receipt.disposition))),
                    ("result_ref"@, Shape::Str(receipt.outcome.result_ref@)),
                    ("storage_key"@, Shape::Str(receipt.storage_key@)),
                ],
            ),
        ),
{
    let disposition = match receipt.disposition {
        OutcomeDisposition::Inserted => "inserted",
        OutcomeDisposition::Existing => "existing",
    };
    proof {
        reveal_strlit("inserted");
        reveal_strlit("existing");
    }
    let ghost s = seq![
        ("disposition"@, Shape::Str(disposition_name(receipt.disposition))),
        ("result_ref"@, Shape::Str(receipt.outcome.result_ref@)),
        ("storage_key"@, Shape::Str(receipt.storage_key@)),
    ];
    let mut m: Vec<JsonMember> = Vec::new();
    m.push(member("disposition", text(disposition), Ghost(s[0].1)));
    m.push(member("result_ref", text(receipt.outcome.result_ref.as_str()), Ghost(s[1].1)));
    m.push(member("storage_key", text(receipt.storage_key.as_str()), Ghost(s[2].1)));
    OutputEvent { event_type: "outcome.recorded".to_owned(), payload: object_of(m, Ghost(s)) }
}

/// How an assessment ended.
#[derive(Debug, PartialEq, Eq, Structural, Clone, Copy)]
pub enum AssessmentResult {
    Passed,
    CandidateFindings,
    UnableToVerify,
}

/// The outcome kind an assessment records.
pub open spec fn kind_of_result(r: AssessmentResult) -> OutcomeKind {
    match r {
        AssessmentResult::Passed => OutcomeKind::Passed,
        AssessmentResult::CandidateFindings => OutcomeKind::CandidateFindings,
        AssessmentResult::UnableToVerify => OutcomeKind::UnableToVerify,
    }
}

/// An assessment is recorded under the outcome kind of the same name: it is
/// recorded as passed exactly when it passed, as candidate findings exactly
/// when it found candidates, and as unable to verify exactly when it could
/// not verify; no assessment is recorded as a suggestion or a failure.
pub proof fn law_outcome_kind_names_the_result(result: AssessmentResult)
    ensures
        (result is Passed) <==> (kind_of_result(result) is Passed),
        (result is CandidateFindings) <==> (kind_of_result(result) is CandidateFindings),
        (result is UnableToVerify) <==> (kind_of_result(result) is UnableToVerify),
        !(kind_of_result(result) is Suggestion) && !(kind_of_result(result) is Failed),
{
}

/// The outcome kind an assessment records: passed, candidate findings or
/// unable to verify, as the assessment ended.
pub fn outcome_kind(result: AssessmentResult) -> (r: OutcomeKind)
    ensures
        r == kind_of_result(result),
        (result is Passed) <==> (r is Passed),
        (result is CandidateFindings) <==> (r is CandidateFindings),
        (result is UnableToVerify) <==> (r is UnableToVerify),
{
    match result {
        AssessmentResult::Passed => OutcomeKind::Passed,
        AssessmentResult::CandidateFindings => OutcomeKind::CandidateFindings,
        AssessmentResult::UnableToVerify => OutcomeKind::UnableToVerify,
    }
}

/// An assessment may be recorded under a logical key only when it is for
/// the key's work item, policy version and evidence revision.
pub fn check_assessment_identity(
    work_item: &str,
    policy_version: &str,
    evidence_revision: u32,
    key: &LogicalOutcomeKey,
) -> (r: Result<(), String>)
    ensures
        r is Ok <==> (work_item@ == key.work_id@ && policy_version@ == key.policy_version@
            && evidence_revision == key.evidence_revision),
{
    if !text_eq(work_item, key.work_id.as_str()) || !text_eq(policy_version, key.policy_version.as_str())
        || evidence_revision != key.evidence_revision {
        return Err("documentation assessment identity does not match its outcome key".to_owned());
    }
    Ok(())
}

} // verus!
