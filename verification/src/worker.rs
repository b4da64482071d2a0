//! The decisions of a review worker around one leased work item: whether
//! its configuration is usable, how often it renews its lease, which run a
//! retry resumes under, what a checkpoint allows, and what a failed attempt
//! becomes.
use crate::actors::current_decision_pos;
use crate::hashing::{append_bytes, blake3_hex, blake3_hex_of};
use crate::json::{Json, field, get_field, text_eq};
use crate::outcome::{OutcomeProvenance, be64};
use crate::workflow_data::ReviewWorkflowData;
use vstd::prelude::*;
use vstd::string::*;

verus! {

/// Who a documentation worker runs as.
#[derive(Debug)]
pub struct DocumentationRuntimeIdentity {
    pub audit_snapshot: String,
    pub audit_run: String,
    pub provenance: OutcomeProvenance,
    pub max_output_tokens: u32,
}

/// Who an architecture worker runs as.
#[derive(Debug)]
pub struct ArchitectureRuntimeIdentity {
    pub audit_snapshot: String,
    pub audit_run: String,
    pub provenance: OutcomeProvenance,
    pub max_output_tokens: u32,
}

/// How a documentation worker leases and retries work.
#[derive(Debug)]
pub struct DocumentationWorkerConfig {
    pub state_directory: String,
    pub identity: DocumentationRuntimeIdentity,
    pub adapter: String,
    pub policy: String,
    pub lease_duration_millis: u64,
    pub maximum_attempts: u32,
}

/// How an architecture worker leases and retries work.
#[derive(Debug)]
pub struct ArchitectureWorkerConfig {
    pub state_directory: String,
    pub identity: ArchitectureRuntimeIdentity,
    pub adapter: String,
    pub policy: String,
    pub lease_duration_millis: u64,
    pub maximum_attempts: u32,
}

/// A usable worker configuration: a positive lease and attempt limit, and a
/// named adapter and policy.
pub open spec fn config_ok(lease: u64, attempts: u32, adapter: Seq<char>, policy: Seq<char>) -> bool {
    lease > 0 && attempts > 0 && adapter.len() > 0 && policy.len() > 0
}

fn check_config(kind: &str, lease: u64, attempts: u32, adapter: &str, policy: &str) -> (r: Result<
    (),
    String,
>)
    ensures
        r is Ok <==> config_ok(lease, attempts, adapter@, policy@),
{
    if lease == 0 || attempts == 0 {
        let mut m = kind.to_owned();
        m.append(" worker lease and attempt limits must be positive");
        return Err(m);
    }
    if adapter.unicode_len() == 0 || policy.unicode_len() == 0 {
        let mut m = kind.to_owned();
        m.append(" worker adapter and policy must not be empty");
        return Err(m);
    }
    Ok(())
}

impl DocumentationWorkerConfig {
    /// Checks that the worker can run with this configuration.
    pub fn validate(&self) -> (r: Result<(), String>)
        ensures
            r is Ok <==> config_ok(
                self.lease_duration_millis,
                self.maximum_attempts,
                self.adapter@,
                self.policy@,
            ),
    {
        check_config(
            "documentation",
            self.lease_duration_millis,
            self.maximum_attempts,
            self.adapter.as_str(),
            self.policy.as_str(),
        )
    }
}

impl ArchitectureWorkerConfig {
    /// Checks that the worker can run with this configuration.
    pub fn validate(&self) -> (r: Result<(), String>)
        ensures
            r is Ok <==> config_ok(
                self.lease_duration_millis,
                self.maximum_attempts,
                self.adapter@,
                self.policy@,
            ),
    {
        check_config(
            "architecture",
            self.lease_duration_millis,
            self.maximum_attempts,
            self.adapter.as_str(),
            self.policy.as_str(),
        )
    }
}

/// A third of the lease, kept between 25 milliseconds and 10 seconds.
pub open spec fn heartbeat_interval(lease: u64) -> int {
    let third = lease / 3;
    if third < 25 {
        25
    } else if third > 10000 {
        10000
    } else {
        third as int
    }
}

/// How often a worker renews its lease.
pub fn heartbeat_interval_millis(lease_duration_millis: u64) -> (r: u64)
    ensures
        r as int == heartbeat_interval(lease_duration_millis),
{
    let third = lease_duration_millis / 3;
    if third < 25 {
        25
    } else if third > 10000 {
        10000
    } else {
        third
    }
}

/// The bytes a documentation run identifier is derived from: a domain, the
/// audit run, the work item and, for a retry, its generation.
pub open spec fn run_id_material(audit_run: Seq<u8>, work_id: Seq<u8>, retry_generation: u64) -> Seq<u8> {
    let domain = "argus.documentation.langchart-run.v1"@.map_values(|c: char| c as u8).push(0u8);
    let base = domain + audit_run + work_id;
    if retry_generation > 0 {
        base + seq![0u8, 114u8, 101u8, 116u8, 114u8, 121u8, 0u8] + be64(retry_generation)
    } else {
        base
    }
}

/// The workflow run a documentation work item runs under: the same for every
/// attempt of one retry generation, a new one for each retry.
pub fn langchart_run_id(audit_run: &str, work_id: &str, retry_generation: u64) -> (r: String)
    ensures
        r@ == "argus-documentation-"@ + blake3_hex(
            run_id_material(
                vstd::utf8::encode_utf8(audit_run@),
                vstd::utf8::encode_utf8(work_id@),
                retry_generation,
            ),
        ),
{
    let mut bytes: Vec<u8> = vec![
        97u8, 114, 103, 117, 115, 46, 100, 111, 99, 117, 109, 101, 110, 116, 97, 116, 105, 111, 110,
        46, 108, 97, 110, 103, 99, 104, 97, 114, 116, 45, 114, 117, 110, 46, 118, 49, 0,
    ];
    proof {
        reveal_strlit("argus.documentation.langchart-run.v1");
        assert(bytes@ =~= "argus.documentation.langchart-run.v1"@.map_values(|c: char| c as u8).push(
            0u8,
        ));
    }
    append_bytes(&mut bytes, audit_run.as_bytes());
    append_bytes(&mut bytes, work_id.as_bytes());
    if retry_generation > 0 {
        let marker: Vec<u8> = vec![0u8, 114, 101, 116, 114, 121, 0];
        append_bytes(&mut bytes, marker.as_slice());
        let n = retry_generation;
        let generation: Vec<u8> = vec![
            (n / 0x100000000000000) as u8,
            (n / 0x1000000000000 % 256) as u8,
            (n / 0x10000000000 % 256) as u8,
            (n / 0x100000000 % 256) as u8,
            (n / 0x1000000 % 256) as u8,
            (n / 0x10000 % 256) as u8,
            (n / 0x100 % 256) as u8,
            (n % 256) as u8,
        ];
        append_bytes(&mut bytes, generation.as_slice());
    }
    let mut id = "argus-documentation-".to_owned();
    id.append(blake3_hex_of(bytes.as_slice()).as_str());
    id
}

/// The state of a queued work item.
#[derive(Debug, PartialEq, Eq, Structural, Clone, Copy)]
pub enum QueueState {
    Pending,
    Leased,
    Succeeded,
    Failed,
}

/// What one turn of a documentation worker came to.
#[derive(Debug)]
pub enum DocumentationWorkerResult {
    Idle,
    Succeeded { work_id: String },
    RetryScheduled { work_id: String, error: String },
    Failed { work_id: String, error: String },
}

/// What a failed attempt becomes once the queue has recorded it: another
/// attempt when the work is pending again, a failure when it has run out of
/// attempts; any other state is refused.
pub fn failed_attempt_result(work_id: String, error: String, state: QueueState) -> (r: Result<
    DocumentationWorkerResult,
    String,
>)
    ensures
        state == QueueState::Pending <==> r matches Ok(DocumentationWorkerResult::RetryScheduled { .. }),
        state == QueueState::Failed <==> r matches Ok(DocumentationWorkerResult::Failed { .. }),
        r matches Ok(DocumentationWorkerResult::RetryScheduled { work_id: w, error: e }) ==> w == work_id
            && e == error,
        r matches Ok(DocumentationWorkerResult::Failed { work_id: w, error: e }) ==> w == work_id && e
            == error,
        r is Err <==> (state != QueueState::Pending && state != QueueState::Failed),
{
    match state {
        QueueState::Pending => Ok(DocumentationWorkerResult::RetryScheduled { work_id, error }),
        QueueState::Failed => Ok(DocumentationWorkerResult::Failed { work_id, error }),
        _ => Err("failed documentation attempt entered an invalid queue state".to_owned()),
    }
}

/// How a stored workflow checkpoint left its run.
#[derive(Debug, PartialEq, Eq, Structural, Clone, Copy)]
pub enum CheckpointStatus {
    Running,
    Suspended,
    Completed,
    Failed,
    Cancelled,
}

/// What the worker does with a run, given its checkpoint.
#[derive(Debug, PartialEq, Eq, Structural, Clone, Copy)]
pub enum RunAction {
    /// No checkpoint: start the run.
    Start,
    /// Suspended: restore and resume it.
    Resume,
    /// Completed: only its durable result remains to be checked.
    RequireResult,
}

/// Decides what to do with a run from its checkpoint; a run that failed, was
/// cancelled or was left running cannot be resumed safely.
pub fn checkpoint_action(status: Option<CheckpointStatus>) -> (r: Result<RunAction, String>)
    ensures
        status is None <==> r == Ok::<RunAction, String>(RunAction::Start),
        status == Some(CheckpointStatus::Suspended) <==> r == Ok::<RunAction, String>(
            RunAction::Resume,
        ),
        status == Some(CheckpointStatus::Completed) <==> r == Ok::<RunAction, String>(
            RunAction::RequireResult,
        ),
        r is Err <==> (status is Some && status != Some(CheckpointStatus::Suspended) && status != Some(
            CheckpointStatus::Completed,
        )),
{
    match status {
        None => Ok(RunAction::Start),
        Some(CheckpointStatus::Suspended) => Ok(RunAction::Resume),
        Some(CheckpointStatus::Completed) => Ok(RunAction::RequireResult),
        Some(_) => Err("documentation checkpoint is not safely resumable".to_owned()),
    }
}

/// The reason a run's current decision declares failure, if it does: its
/// normalized reason text, or a fixed text when it has none.
pub open spec fn declared_failure(d: ReviewWorkflowData) -> Option<Seq<char>> {
    let p = current_decision_pos(d);
    if p >= 0 && d.primary_decisions@[p].event_type@ == "review.failed"@ {
        match field(d.primary_decisions@[p].payload, "reason"@) {
            Some(Json::Str(s)) => Some(s@),
            _ => Some("no normalized reason recorded"@),
        }
    } else {
        None
    }
}

/// Checks the terminal decision of a completed run: refused, with the
/// declared reason, when the review declared failure.
pub fn require_terminal_decision(d: &ReviewWorkflowData) -> (r: Result<(), String>)
    ensures
        r is Ok <==> declared_failure(*d) is None,
        r is Err ==> r->Err_0@ == "documentation review declared failure: "@ + declared_failure(*d).unwrap(),
{
    match crate::actors::current_decision(d) {
        Some(i) => {
            let decision = &d.primary_decisions[i];
            if text_eq(decision.event_type.as_str(), "review.failed") {
                let mut m = "documentation review declared failure: ".to_owned();
                match get_field(&decision.payload, "reason") {
                    Some(Json::Str(s)) => m.append(s.as_str()),
                    _ => m.append("no normalized reason recorded"),
                }
                Err(m)
            } else {
                Ok(())
            }
        },
        None => Ok(()),
    }
}

/// A completed run must have left its work item succeeded.
pub fn require_durable_outcome(state: Option<QueueState>) -> (r: Result<(), String>)
    ensures
        r is Ok <==> state == Some(QueueState::Succeeded),
{
    match state {
        None => Err("documentation work disappeared".to_owned()),
        Some(QueueState::Succeeded) => Ok(()),
        Some(_) => Err("documentation workflow completed without a durable outcome".to_owned()),
    }
}

} // verus!
