//! The decisions of the workflow's actors, separated from their I/O: which
//! stored decision is current, which event an actor emits, how request
//! identifiers and the model's input budget are formed.
use crate::evidence::{
    EvidenceExpansionRecord, EvidenceRequestDecision, EvidenceRequestDisposition, ExpansionDenialReason,
    ExpansionUsage, budget_exhaustion, is_budget_exhaustion, no_usage,
};
use crate::json::{Json, JsonMember, text_eq};
use crate::workflow_data::{PrimaryReviewDecision, ReviewWorkflowData};
use vstd::prelude::*;
use vstd::string::*;

verus! {

/// An event an actor hands back to the workflow runtime.
#[derive(Debug)]
pub struct OutputEvent {
    pub event_type: String,
    pub payload: Json,
}

/// The decimal digits of `n`.
pub open spec fn decimal(n: nat) -> Seq<char>
    decreases n,
{
    if n < 10 {
        seq![digit(n)]
    } else {
        decimal(n / 10).push(digit(n % 10))
    }
}

/// The digit character of `d < 10`.
pub open spec fn digit(d: nat) -> char {
    if d == 0 {
        '0'
    } else if d == 1 {
        '1'
    } else if d == 2 {
        '2'
    } else if d == 3 {
        '3'
    } else if d == 4 {
        '4'
    } else if d == 5 {
        '5'
    } else if d == 6 {
        '6'
    } else if d == 7 {
        '7'
    } else if d == 8 {
        '8'
    } else {
        '9'
    }
}

fn digit_str(d: u32) -> (s: &'static str)
    requires
        d < 10,
    ensures
        s@ == seq![digit(d as nat)],
{
    if d == 0 {
        proof {
            reveal_strlit("0");
        }
        "0"
    } else if d == 1 {
        proof {
            reveal_strlit("1");
        }
        "1"
    } else if d == 2 {
        proof {
            reveal_strlit("2");
        }
        "2"
    } else if d == 3 {
        proof {
            reveal_strlit("3");
        }
        "3"
    } else if d == 4 {
        proof {
            reveal_strlit("4");
        }
        "4"
    } else if d == 5 {
        proof {
            reveal_strlit("5");
        }
        "5"
    } else if d == 6 {
        proof {
            reveal_strlit("6");
        }
        "6"
    } else if d == 7 {
        proof {
            reveal_strlit("7");
        }
        "7"
    } else if d == 8 {
        proof {
            reveal_strlit("8");
        }
        "8"
    } else {
        proof {
            reveal_strlit("9");
        }
        "9"
    }
}

/// The decimal text of a number.
pub fn decimal_text(n: u32) -> (r: String)
    ensures
        r@ == decimal(n as nat),
    decreases n,
{
    let mut text = if n < 10 {
        String::new()
    } else {
        decimal_text(n / 10)
    };
    text.append(digit_str(n % 10));
    proof {
        if n < 10 {
            assert(text@ =~= decimal(n as nat));
        } else {
            assert(text@ =~= decimal((n / 10) as nat).push(digit((n % 10) as nat)));
        }
    }
    text
}

/// The identifier of a review request: run, state and evidence revision.
pub open spec fn request_id(run: Seq<char>, state: Seq<char>, revision: u32) -> Seq<char> {
    run + ":"@ + state + ":evidence-"@ + decimal(revision as nat)
}

/// `{run_id}:{state_id}:evidence-{evidence_revision}`.
pub fn review_request_id(run_id: &str, state_id: &str, evidence_revision: u32) -> (r: String)
    ensures
        r@ == request_id(run_id@, state_id@, evidence_revision),
{
    let mut id = run_id.to_owned();
    id.append(":");
    id.append(state_id);
    id.append(":evidence-");
    id.append(decimal_text(evidence_revision).as_str());
    id
}

/// The primary decision taken for the current evidence revision, if any: the
/// last decision when it is of that revision.
pub open spec fn current_decision_pos(d: ReviewWorkflowData) -> int {
    let ps = d.primary_decisions@;
    if ps.len() > 0 && ps[ps.len() - 1].evidence_revision == d.evidence_revision {
        ps.len() - 1
    } else {
        -1
    }
}

/// The position of the primary decision of the current evidence revision.
pub fn current_decision(d: &ReviewWorkflowData) -> (r: Option<usize>)
    ensures
        match r {
            Some(i) => i as int == current_decision_pos(*d),
            None => current_decision_pos(*d) == -1,
        },
{
    let n = d.primary_decisions.len();
    if n > 0 && d.primary_decisions[n - 1].evidence_revision == d.evidence_revision {
        Some(n - 1)
    } else {
        None
    }
}

/// Whether an event type is declared.
pub open spec fn declared(events: Seq<String>, event: Seq<char>) -> bool {
    exists|i: int| 0 <= i < events.len() && (#[trigger] events[i])@ == event
}

/// The event of a primary decision, when the workflow declares it.
pub fn decision_event(decision: &PrimaryReviewDecision, declared_events: &Vec<String>) -> (r: Result<
    OutputEvent,
    String,
>)
    ensures
        r is Ok <==> declared(declared_events@, decision.event_type@),
        r is Ok ==> r->Ok_0.event_type@ == decision.event_type@ && crate::json::same(
            r->Ok_0.payload,
            decision.payload,
        ),
{
    if !crate::equiv::contains_text(declared_events, decision.event_type.as_str()) {
        let mut message = "provider emitted undeclared review event `".to_owned();
        message.append(decision.event_type.as_str());
        message.append("`");
        return Err(message);
    }
    let payload = decision.payload.deep_clone();
    proof {
        crate::json::lemma_same_sym(decision.payload, payload);
    }
    Ok(OutputEvent { event_type: decision.event_type.clone(), payload })
}

/// The input token budget of a review: the context window less the output
/// allowance and a safety margin of 2,048 tokens (never below zero), capped by
/// the policy's input limit.
pub open spec fn input_budget(context_window: u32, max_output: u32, policy_max_input: u64) -> int {
    let allowed = if context_window as int - max_output as int - 2048 > 0 {
        context_window as int - max_output as int - 2048
    } else {
        0
    };
    if allowed <= policy_max_input as int {
        allowed
    } else {
        policy_max_input as int
    }
}

/// Computes the input token budget of a review.
pub fn review_input_budget(context_window: u32, max_output: u32, policy_max_input: u64) -> (r: u64)
    ensures
        r as int == input_budget(context_window, max_output, policy_max_input),
{
    let window = context_window as u64;
    let output = max_output as u64;
    let allowed = window.saturating_sub(output).saturating_sub(2048);
    if allowed <= policy_max_input {
        allowed
    } else {
        policy_max_input
    }
}

/// A budget below two hundred tokens cannot hold a review.
pub fn budget_too_small(budget: u64) -> (r: bool)
    ensures
        r == (budget < 200),
{
    budget < 200
}

/// The evidence tokens left once the framing has been counted at three bytes
/// a token.
pub fn available_evidence_tokens(budget: u64, framing_bytes: usize) -> (r: usize)
    ensures
        r as int == (if (budget as int) > usize::MAX {
            usize::MAX as int
        } else {
            budget as int
        }) - (framing_bytes as int + 2) / 3 || (r == 0 && (if (budget as int) > usize::MAX {
            usize::MAX as int
        } else {
            budget as int
        }) <= (framing_bytes as int + 2) / 3),
{
    let cap: usize = if budget > usize::MAX as u64 {
        usize::MAX
    } else {
        budget as usize
    };
    let framing_tokens = framing_bytes / 3 + (if framing_bytes % 3 == 0 { 0 } else { 1 });
    cap.saturating_sub(framing_tokens)
}

/// Policy instructions that are not blank.
pub open spec fn usable_policy(p: Option<&str>) -> Option<Seq<char>> {
    match p {
        Some(x) => if crate::outcome::not_blank(x@) {
            Some(x@)
        } else {
            None
        },
        None => None,
    }
}

/// The task instructions of a review: the workflow's task and the policy's
/// instructions, joined by a blank line when both are present; blank policy
/// instructions count as absent.
pub fn compose_task(task: Option<&str>, policy: Option<&str>) -> (r: Option<String>)
    ensures
        match (task, usable_policy(policy)) {
            (Some(t), Some(p)) => r is Some && r.unwrap()@ == t@ + "\n\n"@ + p,
            (Some(t), None) => r is Some && r.unwrap()@ == t@,
            (None, Some(p)) => r is Some && r.unwrap()@ == p,
            (None, None) => r is None,
        },
{
    let policy = match policy {
        Some(p) => if crate::outcome::is_not_blank(p) {
            Some(p)
        } else {
            None
        },
        None => None,
    };
    match (task, policy) {
        (Some(t), Some(p)) => {
            let mut joined = t.to_owned();
            joined.append("\n\n");
            joined.append(p);
            Some(joined)
        },
        (Some(t), None) => Some(t.to_owned()),
        (None, Some(p)) => Some(p.to_owned()),
        (None, None) => None,
    }
}

} // verus!
