//! Recovery manifests: the workflow artifact, the actor identities its agentic
//! states declare, and the checks that let a crashed run be resumed exactly.
use crate::hashing::{blake3_hex, blake3_hex_of};
use crate::json::{Json, text_eq};
use crate::order::{lemma_text_lt_total, lemma_text_lt_trans, text_less, text_lt};
use crate::outcome::lower_bytes;
use crate::text::{is_hex_digest, is_hex_digest_text, is_normalized, is_normalized_text};
use crate::workflow_data::{ProviderIdentity, WORKFLOW_DATA_SCHEMA_VERSION};
use vstd::prelude::*;
use vstd::string::*;

verus! {

/// The schema version of recovery manifests.
pub const RECOVERY_MANIFEST_SCHEMA_VERSION: u32 = 2;

/// A stored workflow definition, identified by its content hash.
#[derive(Debug)]
pub struct WorkflowArtifactIdentity {
    pub workflow_id: String,
    pub workflow_version: String,
    pub content_hash: String,
}

/// The actor that runs one agentic state.
#[derive(Debug)]
pub struct ActorIdentity {
    pub state_id: String,
    pub actor_id: String,
    pub actor_version: String,
}

/// The actor declared by an agentic state.
#[derive(Debug)]
pub struct AgentReference {
    pub id: String,
    pub version: String,
}

/// A state of a workflow definition, with its nested states and parallel
/// regions.
#[derive(Debug)]
pub struct WorkflowState {
    pub id: String,
    pub agentic: bool,
    pub agent: Option<AgentReference>,
    pub states: Vec<WorkflowState>,
    pub regions: Vec<WorkflowRegion>,
}

/// A parallel region of a state.
#[derive(Debug)]
pub struct WorkflowRegion {
    pub states: Vec<WorkflowState>,
}

/// The parts of a workflow definition that recovery reads.
#[derive(Debug)]
pub struct WorkflowDocument {
    pub id: String,
    pub version: String,
    pub states: Vec<WorkflowState>,
}

/// Joins two partial results; a failure on either side fails the whole.
pub open spec fn join(a: Option<Seq<ActorIdentity>>, b: Option<Seq<ActorIdentity>>) -> Option<
    Seq<ActorIdentity>,
> {
    match (a, b) {
        (Some(x), Some(y)) => Some(x + y),
        _ => None,
    }
}

/// The actor a state itself declares: none for a non-agentic state, its agent
/// for an agentic one, and a failure for an agentic state without agent.
pub open spec fn own_actor(s: WorkflowState) -> Option<Seq<ActorIdentity>> {
    if s.agentic {
        match s.agent {
            Some(a) => Some(
                seq![ActorIdentity { state_id: s.id, actor_id: a.id, actor_version: a.version }],
            ),
            None => None,
        }
    } else {
        Some(seq![])
    }
}

/// The actors of a state, depth first: its own, then its nested states', then
/// each region's.
pub open spec fn actors_of_state(s: WorkflowState) -> Option<Seq<ActorIdentity>>
    decreases s,
{
    join(join(own_actor(s), actors_of_states(s.states@)), actors_of_regions(s.regions@))
}

/// The actors of a list of states, in order.
pub open spec fn actors_of_states(ss: Seq<WorkflowState>) -> Option<Seq<ActorIdentity>>
    decreases ss,
{
    if ss.len() == 0 {
        Some(seq![])
    } else {
        join(actors_of_states(ss.drop_last()), actors_of_state(ss.last()))
    }
}

/// The actors of a list of regions, in order.
pub open spec fn actors_of_regions(rs: Seq<WorkflowRegion>) -> Option<Seq<ActorIdentity>>
    decreases rs,
{
    if rs.len() == 0 {
        Some(seq![])
    } else {
        join(actors_of_regions(rs.drop_last()), actors_of_states(rs.last().states@))
    }
}

/// The errors of recovery.
#[derive(Debug)]
pub enum RecoveryError {
    Io(String),
    Json(String),
    Compile(String),
    Invalid(String),
    Conflict(String),
}

impl RecoveryError {
    /// The text of the error's message.
    pub open spec fn message_text(&self) -> Seq<char> {
        match self {
            RecoveryError::Io(m) => "recovery storage I/O failed: "@ + m@,
            RecoveryError::Json(m) => "recovery JSON is invalid: "@ + m@,
            RecoveryError::Compile(m) => "recovery workflow is invalid: "@ + m@,
            RecoveryError::Invalid(m) => "invalid recovery state: "@ + m@,
            RecoveryError::Conflict(path) => "immutable recovery record conflicts at "@ + path@,
        }
    }

    /// A readable description of the error.
    pub fn message(&self) -> (r: String)
        ensures
            r@ == self.message_text(),
    {
        let (mut s, detail) = match self {
            RecoveryError::Io(m) => ("recovery storage I/O failed: ".to_owned(), m),
            RecoveryError::Json(m) => ("recovery JSON is invalid: ".to_owned(), m),
            RecoveryError::Compile(m) => ("recovery workflow is invalid: ".to_owned(), m),
            RecoveryError::Invalid(m) => ("invalid recovery state: ".to_owned(), m),
            RecoveryError::Conflict(path) => ("immutable recovery record conflicts at ".to_owned(), path),
        };
        s.append(detail.as_str());
        s
    }
}

fn invalid(message: &str) -> (e: RecoveryError)
    ensures
        e matches RecoveryError::Invalid(m) && m@ == message@,
{
    RecoveryError::Invalid(message.to_owned())
}

fn copy_text(s: &String) -> (r: String)
    ensures
        r == *s,
{
    s.clone()
}

/// Appends the actors of a list of states, depth first.
#[verifier::loop_isolation(false)]
#[verifier::spinoff_prover]
#[verifier::rlimit(50)]
pub fn collect_actor_identities(states: &Vec<WorkflowState>, actors: &mut Vec<ActorIdentity>) -> (r:
    Result<(), RecoveryError>)
    ensures
        r is Ok <==> actors_of_states(states@) is Some,
        r is Ok ==> final(actors)@ == old(actors)@ + actors_of_states(states@).unwrap(),
        r is Err ==> r->Err_0 is Invalid,
    decreases states,
{
    let ghost start = actors@;
    let mut i: usize = 0;
    while i < states.len()
        invariant
            i <= states.len(),
            actors_of_states(states@.subrange(0, i as int)) is Some,
            actors@ == start + actors_of_states(states@.subrange(0, i as int)).unwrap(),
        decreases states.len() - i,
    {
        let state = &states[i];
        proof {
            assert(states@.subrange(0, i + 1).drop_last() =~= states@.subrange(0, i as int));
            assert(states@.subrange(0, i + 1).last() == states@[i as int]);
        }
        let ghost before = actors@;
        if state.agentic {
            match &state.agent {
                Some(agent) => {
                    actors.push(
                        ActorIdentity {
                            state_id: copy_text(&state.id),
                            actor_id: copy_text(&agent.id),
                            actor_version: copy_text(&agent.version),
                        },
                    );
                },
                None => {
                    proof {
                        assert(actors_of_state(states@[i as int]) is None);
                        assert(actors_of_states(states@.subrange(0, i + 1)) is None);
                        lemma_none_prefix(states@, i + 1);
                    }
                    let mut message = "agentic state `".to_owned();
                    message.append(state.id.as_str());
                    message.append("` has no actor identity");
                    return Err(RecoveryError::Invalid(message));
                },
            }
        }
        proof {
            assert(actors@ == before + own_actor(*state).unwrap());
            assert(decreases_to!(states => states@[i as int].states));
        }
        let nested = collect_actor_identities(&state.states, actors);
        if nested.is_err() {
            proof {
                assert(actors_of_state(states@[i as int]) is None);
                assert(actors_of_states(states@.subrange(0, i + 1)) is None);
                lemma_none_prefix(states@, i + 1);
            }
            return nested;
        }
        let regions = &state.regions;
        let ghost after_nested = actors@;
        let mut k: usize = 0;
        while k < regions.len()
            invariant
                k <= regions.len(),
                actors_of_regions(regions@.subrange(0, k as int)) is Some,
                actors@ == after_nested + actors_of_regions(regions@.subrange(0, k as int)).unwrap(),
            decreases regions.len() - k,
        {
            proof {
                assert(regions@.subrange(0, k + 1).drop_last() =~= regions@.subrange(0, k as int));
                assert(regions@.subrange(0, k + 1).last() == regions@[k as int]);
                assert(decreases_to!(states => regions@[k as int].states));
            }
            let inner = collect_actor_identities(&regions[k].states, actors);
            if inner.is_err() {
                proof {
                    assert(actors_of_regions(regions@.subrange(0, k + 1)) is None);
                    lemma_none_regions_prefix(regions@, k + 1);
                    assert(regions@.subrange(0, regions@.len() as int) =~= regions@);
                    assert(actors_of_state(states@[i as int]) is None);
                    assert(actors_of_states(states@.subrange(0, i + 1)) is None);
                    lemma_none_prefix(states@, i + 1);
                }
                return inner;
            }
            k += 1;
        }
        proof {
            assert(regions@.subrange(0, regions@.len() as int) =~= regions@);
        }
        i += 1;
    }
    proof {
        assert(states@.subrange(0, states@.len() as int) =~= states@);
    }
    Ok(())
}

/// No two actors share a state.
pub open spec fn distinct_states(v: Seq<ActorIdentity>) -> bool {
    forall|i: int, j: int|
        0 <= i < j < v.len() ==> (#[trigger] v[i]).state_id@ != (#[trigger] v[j]).state_id@
}

/// The actors are in strictly increasing order of state.
pub open spec fn sorted_by_state(v: Seq<ActorIdentity>) -> bool {
    forall|i: int, j: int|
        0 <= i < j < v.len() ==> text_lt((#[trigger] v[i]).state_id@, (#[trigger] v[j]).state_id@)
}

/// The actor identities a workflow declares, sorted by state; refused when a
/// state repeats or an agentic state has no actor.
pub fn sorted_actor_identities(states: &Vec<WorkflowState>) -> (r: Result<
    Vec<ActorIdentity>,
    RecoveryError,
>)
    ensures
        r is Ok <==> (actors_of_states(states@) is Some && distinct_states(
            actors_of_states(states@).unwrap(),
        )),
        r is Err ==> r->Err_0 is Invalid,
        actors_of_states(states@) is Some && !distinct_states(actors_of_states(states@).unwrap())
            ==> (r matches Err(RecoveryError::Invalid(m)) && m@
            == "workflow contains duplicate agentic state identities"@),
        r is Ok ==> ({
            let c = actors_of_states(states@).unwrap();
            &&& sorted_by_state(r->Ok_0@)
            &&& r->Ok_0@.len() == c.len()
            &&& forall|a: ActorIdentity| r->Ok_0@.contains(a) <==> c.contains(a)
        }),
{
    let mut collected: Vec<ActorIdentity> = Vec::new();
    collect_actor_identities(states, &mut collected)?;
    proof {
        assert(collected@ =~= actors_of_states(states@).unwrap());
    }
    let mut out: Vec<ActorIdentity> = Vec::new();
    let mut i: usize = 0;
    while i < collected.len()
        invariant
            i <= collected.len(),
            collected@ == actors_of_states(states@).unwrap(),
            out@.len() == i,
            sorted_by_state(out@),
            distinct_states(collected@.subrange(0, i as int)),
            forall|a: ActorIdentity| out@.contains(a) <==> collected@.subrange(0, i as int).contains(a),
        decreases collected.len() - i,
    {
        let e = copy_actor(&collected[i]);
        let mut j: usize = 0;
        while j < out.len() && text_less(out[j].state_id.as_str(), e.state_id.as_str())
            invariant
                j <= out@.len(),
                forall|k: int| 0 <= k < j ==> text_lt((#[trigger] out@[k]).state_id@, e.state_id@),
            decreases out.len() - j,
        {
            j += 1;
        }
        if j < out.len() && text_eq(out[j].state_id.as_str(), e.state_id.as_str()) {
            proof {
                assert(out@.contains(out@[j as int]));
                let k = choose|k: int|
                    0 <= k < i && collected@.subrange(0, i as int)[k] == out@[j as int];
                assert(collected@[k] == out@[j as int]);
                assert(collected@[k].state_id@ == collected@[i as int].state_id@);
                assert(!distinct_states(actors_of_states(states@).unwrap()));
            }
            return Err(invalid("workflow contains duplicate agentic state identities"));
        }
        proof {
            if j < out@.len() {
                lemma_text_lt_total(out@[j as int].state_id@, e.state_id@);
            }
            assert forall|k: int| 0 <= k < out@.len() implies (#[trigger] out@[k]).state_id@
                != e.state_id@ by {
                if k < j {
                    lemma_text_lt_total(out@[k].state_id@, e.state_id@);
                } else if k > j {
                    lemma_text_lt_trans(e.state_id@, out@[j as int].state_id@, out@[k].state_id@);
                    lemma_text_lt_total(out@[k].state_id@, e.state_id@);
                }
            }
            assert forall|k: int| 0 <= k < i implies (#[trigger] collected@[k]).state_id@
                != collected@[i as int].state_id@ by {
                assert(collected@.subrange(0, i as int)[k] == collected@[k]);
                assert(collected@.subrange(0, i as int).contains(collected@[k]));
                assert(out@.contains(collected@[k]));
            }
            assert forall|a: int, b: int|
                0 <= a < b < i + 1 implies (#[trigger] collected@.subrange(0, i + 1)[a]).state_id@
                != (#[trigger] collected@.subrange(0, i + 1)[b]).state_id@ by {
                if b == i {
                    assert(collected@.subrange(0, i + 1)[a] == collected@[a]);
                } else {
                    assert(collected@.subrange(0, i as int)[a] == collected@[a]);
                    assert(collected@.subrange(0, i as int)[b] == collected@[b]);
                }
            }
        }
        let ghost old_out = out@;
        out.insert(j, e);
        proof {
            assert forall|a: int, b: int|
                0 <= a < b < out@.len() implies text_lt(
                (#[trigger] out@[a]).state_id@,
                (#[trigger] out@[b]).state_id@,
            ) by {
                if a < j && b == j {
                } else if a < j && b > j {
                    assert(out@[b] == old_out[b - 1]);
                    if j < old_out.len() {
                        lemma_text_lt_trans(out@[a].state_id@, e.state_id@, old_out[j as int].state_id@);
                        if b - 1 > j {
                            lemma_text_lt_trans(out@[a].state_id@, old_out[j as int].state_id@, old_out[b - 1].state_id@);
                        }
                    }
                } else if a == j {
                    assert(out@[b] == old_out[b - 1]);
                    if b - 1 > j {
                        lemma_text_lt_trans(e.state_id@, old_out[j as int].state_id@, old_out[b - 1].state_id@);
                    }
                } else if a > j {
                    assert(out@[a] == old_out[a - 1]);
                    assert(out@[b] == old_out[b - 1]);
                } else {
                    assert(out@[a] == old_out[a]);
                    assert(out@[b] == old_out[b]);
                }
            }
            let ghost pre = collected@.subrange(0, i as int);
            let ghost post = collected@.subrange(0, i + 1);
            assert(post =~= pre.push(collected@[i as int]));
            assert forall|a: ActorIdentity| out@.contains(a) <==> post.contains(a) by {
                if out@.contains(a) {
                    let k = choose|k: int| 0 <= k < out@.len() && out@[k] == a;
                    if k == j {
                        assert(post[i as int] == a);
                    } else {
                        let kk = if k < j { k } else { k - 1 };
                        assert(old_out[kk] == a);
                        assert(old_out.contains(a));
                        assert(pre.contains(a));
                        let m = choose|m: int| 0 <= m < pre.len() && pre[m] == a;
                        assert(post[m] == a);
                    }
                }
                if post.contains(a) {
                    let m = choose|m: int| 0 <= m < post.len() && post[m] == a;
                    if m == i {
                        assert(out@[j as int] == a);
                    } else {
                        assert(pre[m] == a);
                        assert(pre.contains(a));
                        assert(old_out.contains(a));
                        let k = choose|k: int| 0 <= k < old_out.len() && old_out[k] == a;
                        if k < j {
                            assert(out@[k] == a);
                        } else {
                            assert(out@[k + 1] == a);
                        }
                    }
                }
            }
        }
        i += 1;
    }
    proof {
        assert(collected@.subrange(0, collected@.len() as int) =~= collected@);
    }
    Ok(out)
}

fn copy_actor(a: &ActorIdentity) -> (r: ActorIdentity)
    ensures
        r == *a,
{
    ActorIdentity {
        state_id: copy_text(&a.state_id),
        actor_id: copy_text(&a.actor_id),
        actor_version: copy_text(&a.actor_version),
    }
}

/// Everything a resumed run needs to rebuild its workflow exactly.
#[derive(Debug)]
pub struct RecoveryManifest {
    pub schema_version: u32,
    pub workflow_data_schema_version: u32,
    pub langchart_run_id: String,
    pub audit_snapshot: String,
    pub audit_run: String,
    pub work_id: String,
    pub workflow: WorkflowArtifactIdentity,
    pub actors: Vec<ActorIdentity>,
    pub provider: ProviderIdentity,
    pub provider_policy: Json,
    pub policy_version: String,
    pub prompt_version: String,
    pub evidence_revision: u32,
    pub langchart_runtime_version: String,
}

/// Two actor identities name the same state, actor and version.
pub open spec fn actor_same(a: ActorIdentity, b: ActorIdentity) -> bool {
    &&& a.state_id@ == b.state_id@
    &&& a.actor_id@ == b.actor_id@
    &&& a.actor_version@ == b.actor_version@
}

/// The manifest's own fields are sound: current schemas, normalized
/// identities and a non-zero evidence revision.
pub open spec fn manifest_fields_ok(m: RecoveryManifest) -> bool {
    &&& m.schema_version == RECOVERY_MANIFEST_SCHEMA_VERSION
    &&& m.workflow_data_schema_version == WORKFLOW_DATA_SCHEMA_VERSION
    &&& is_normalized(m.langchart_run_id@)
    &&& is_normalized(m.policy_version@)
    &&& is_normalized(m.prompt_version@)
    &&& is_normalized(m.langchart_runtime_version@)
    &&& m.provider.valid()
    &&& m.evidence_revision != 0
}

/// The manifest's actors are exactly the expected ones: no state twice, as
/// many as expected, and each expected actor present as such.
pub open spec fn actors_match(actors: Seq<ActorIdentity>, expected: Seq<ActorIdentity>) -> bool {
    &&& distinct_states(actors)
    &&& expected.len() == actors.len()
    &&& forall|e: ActorIdentity| #[trigger] expected.contains(e) ==> present(actors, e)
}

/// Some actor of the list is the same as `e`.
pub open spec fn present(actors: Seq<ActorIdentity>, e: ActorIdentity) -> bool {
    exists|k: int| 0 <= k < actors.len() && #[trigger] actor_same(actors[k], e)
}

/// A sound manifest for the given workflow document.
pub open spec fn manifest_ok(m: RecoveryManifest, document_states: Seq<WorkflowState>) -> bool {
    &&& manifest_fields_ok(m)
    &&& actors_of_states(document_states) is Some
    &&& distinct_states(actors_of_states(document_states).unwrap())
    &&& actors_match(m.actors@, actors_of_states(document_states).unwrap())
}

/// A sound manifest lists each actor of the workflow exactly as the workflow
/// names it: for every agentic state the manifest has an entry with that
/// state, actor and version, and any entry for that state carries that actor
/// and version, so a manifest differing in an actor's identity or version
/// is refused.
pub proof fn law_manifest_actors_are_the_workflows(m: RecoveryManifest, states: Seq<WorkflowState>)
    requires
        manifest_ok(m, states),
    ensures
        forall|e: ActorIdentity|
            #[trigger] actors_of_states(states).unwrap().contains(e) ==> exists|k: int|
                0 <= k < m.actors@.len() && (#[trigger] m.actors@[k]).state_id@ == e.state_id@
                    && m.actors@[k].actor_id@ == e.actor_id@ && m.actors@[k].actor_version@ == e.actor_version@,
        forall|k: int, e: ActorIdentity|
            0 <= k < m.actors@.len() && #[trigger] actors_of_states(states).unwrap().contains(e)
                && (#[trigger] m.actors@[k]).state_id@ == e.state_id@ ==> m.actors@[k].actor_id@ == e.actor_id@
                && m.actors@[k].actor_version@ == e.actor_version@,
{
    let expected = actors_of_states(states).unwrap();
    assert forall|e: ActorIdentity| #[trigger] expected.contains(e) implies exists|k: int|
        0 <= k < m.actors@.len() && (#[trigger] m.actors@[k]).state_id@ == e.state_id@
            && m.actors@[k].actor_id@ == e.actor_id@ && m.actors@[k].actor_version@ == e.actor_version@ by {
        assert(present(m.actors@, e));
        let q = choose|q: int| 0 <= q < m.actors@.len() && #[trigger] actor_same(m.actors@[q], e);
        assert(actor_same(m.actors@[q], e));
    }
    assert forall|k: int, e: ActorIdentity|
        0 <= k < m.actors@.len() && #[trigger] expected.contains(e) && (#[trigger] m.actors@[k]).state_id@
            == e.state_id@ implies m.actors@[k].actor_id@ == e.actor_id@ && m.actors@[k].actor_version@
        == e.actor_version@ by {
        assert(present(m.actors@, e));
        let q = choose|q: int| 0 <= q < m.actors@.len() && #[trigger] actor_same(m.actors@[q], e);
        assert(actor_same(m.actors@[q], e));
        if q != k {
            if q < k {
                assert(m.actors@[q].state_id@ != m.actors@[k].state_id@);
            } else {
                assert(m.actors@[k].state_id@ != m.actors@[q].state_id@);
            }
        }
    }
}

fn actor_eq(a: &ActorIdentity, b: &ActorIdentity) -> (r: bool)
    ensures
        r == actor_same(*a, *b),
{
    text_eq(a.state_id.as_str(), b.state_id.as_str()) && text_eq(
        a.actor_id.as_str(),
        b.actor_id.as_str(),
    ) && text_eq(a.actor_version.as_str(), b.actor_version.as_str())
}

/// Checks a recovery manifest against the workflow document it names.
#[verifier::loop_isolation(false)]
pub fn validate_manifest(manifest: &RecoveryManifest, document: &WorkflowDocument) -> (r: Result<
    (),
    RecoveryError,
>)
    ensures
        r is Ok <==> manifest_ok(*manifest, document.states@),
        r is Err ==> r->Err_0 is Invalid,
        r is Ok ==> forall|k: int, e: ActorIdentity|
            0 <= k < manifest.actors@.len() && #[trigger] actors_of_states(document.states@).unwrap().contains(e)
                && (#[trigger] manifest.actors@[k]).state_id@ == e.state_id@ ==> manifest.actors@[k].actor_id@
                == e.actor_id@ && manifest.actors@[k].actor_version@ == e.actor_version@,
{
    if manifest.schema_version != RECOVERY_MANIFEST_SCHEMA_VERSION {
        return Err(invalid("unsupported recovery manifest schema"));
    }
    if manifest.workflow_data_schema_version != WORKFLOW_DATA_SCHEMA_VERSION {
        return Err(invalid("unsupported workflow data schema"));
    }
    if !(is_normalized_text(manifest.langchart_run_id.as_str()) && is_normalized_text(
        manifest.policy_version.as_str(),
    ) && is_normalized_text(manifest.prompt_version.as_str()) && is_normalized_text(
        manifest.langchart_runtime_version.as_str(),
    ) && manifest.provider.validate().is_ok()) {
        return Err(invalid("recovery identity fields must be non-empty and normalized"));
    }
    if manifest.evidence_revision == 0 {
        return Err(invalid("recovery manifest requires a non-zero evidence revision"));
    }
    let expected = sorted_actor_identities(&document.states)?;
    let ghost c = actors_of_states(document.states@).unwrap();
    let actors = &manifest.actors;
    let mismatch = invalid("recovery actor set does not exactly match the workflow document");
    let mut i: usize = 0;
    while i < actors.len()
        invariant
            i <= actors.len(),
            distinct_states(actors@.subrange(0, i as int)),
        decreases actors.len() - i,
    {
        let mut j: usize = 0;
        while j < i
            invariant
                j <= i,
                forall|k: int| 0 <= k < j ==> (#[trigger] actors@[k]).state_id@ != actors@[i as int].state_id@,
            decreases i - j,
        {
            if text_eq(actors[j].state_id.as_str(), actors[i].state_id.as_str()) {
                proof {
                    assert(!distinct_states(actors@));
                }
                return Err(mismatch);
            }
            j += 1;
        }
        proof {
            assert forall|a: int, b: int| 0 <= a < b < i + 1 implies (#[trigger] actors@.subrange(0, i + 1)[a]).state_id@
                != (#[trigger] actors@.subrange(0, i + 1)[b]).state_id@ by {
                assert(actors@.subrange(0, i + 1)[a] == actors@[a]);
                assert(actors@.subrange(0, i + 1)[b] == actors@[b]);
                if b < i {
                    assert(actors@.subrange(0, i as int)[a] == actors@[a]);
                    assert(actors@.subrange(0, i as int)[b] == actors@[b]);
                }
            }
        }
        i += 1;
    }
    proof {
        assert(actors@.subrange(0, actors@.len() as int) =~= actors@);
    }
    if expected.len() != actors.len() {
        return Err(mismatch);
    }
    let mut e: usize = 0;
    while e < expected.len()
        invariant
            e <= expected.len(),
            forall|x: int| 0 <= x < e ==> present(actors@, #[trigger] expected@[x]),
            forall|a: ActorIdentity| expected@.contains(a) <==> c.contains(a),
            expected@.len() == c.len(),
        decreases expected.len() - e,
    {
        let mut found = false;
        let mut k: usize = 0;
        while k < actors.len()
            invariant
                k <= actors.len(),
                !found ==> forall|q: int| 0 <= q < k ==> (#[trigger] actors@[q]).state_id@ != expected@[e as int].state_id@,
                found ==> present(actors@, expected@[e as int]),
            decreases actors.len() - k,
        {
            if !found && text_eq(actors[k].state_id.as_str(), expected[e].state_id.as_str()) {
                if !actor_eq(&actors[k], &expected[e]) {
                    proof {
                        assert forall|q: int| 0 <= q < actors@.len() implies !#[trigger] actor_same(actors@[q], expected@[e as int]) by {
                            if q != k && actor_same(actors@[q], expected@[e as int]) {
                                if q < k {
                                    assert(actors@[q].state_id@ == actors@[k as int].state_id@);
                                } else {
                                    assert(actors@[k as int].state_id@ == actors@[q].state_id@);
                                }
                            }
                        }
                        assert(!present(actors@, expected@[e as int]));
                        assert(expected@.contains(expected@[e as int]));
                        assert(c.contains(expected@[e as int]));
                        assert(!actors_match(actors@, c));
                    }
                    return Err(mismatch);
                }
                found = true;
            }
            k += 1;
        }
        if !found {
            proof {
                assert forall|q: int| 0 <= q < actors@.len() implies !#[trigger] actor_same(actors@[q], expected@[e as int]) by {}
                assert(!present(actors@, expected@[e as int]));
                assert(expected@.contains(expected@[e as int]));
                assert(c.contains(expected@[e as int]));
                assert(!actors_match(actors@, c));
            }
            return Err(mismatch);
        }
        e += 1;
    }
    proof {
        assert forall|a: ActorIdentity| #[trigger] c.contains(a) implies present(actors@, a) by {
            assert(expected@.contains(a));
            let x = choose|x: int| 0 <= x < expected@.len() && expected@[x] == a;
            assert(present(actors@, expected@[x]));
        }
    }
    Ok(())
}

/// The lowercase form of an ASCII letter.
pub open spec fn lower_char(c: char) -> char {
    if 'A' <= c <= 'Z' {
        ((c as u8 + 32) as u8) as char
    } else {
        c
    }
}

/// A stored workflow's bytes match its identity: its hash names a digest, and
/// the digest of the bytes is that hash in lowercase.
pub open spec fn artifact_bytes_ok(identity: WorkflowArtifactIdentity, bytes: Seq<u8>) -> bool {
    &&& is_hex_digest(identity.content_hash@)
    &&& blake3_hex(bytes) == identity.content_hash@.map_values(|c: char| lower_char(c))
}

/// Checks a stored workflow's bytes against its identity.
pub fn check_workflow_bytes(identity: &WorkflowArtifactIdentity, bytes: &[u8]) -> (r: Result<
    (),
    RecoveryError,
>)
    ensures
        r is Ok <==> artifact_bytes_ok(*identity, bytes@),
        r is Err ==> r->Err_0 is Invalid,
{
    if !is_hex_digest_text(identity.content_hash.as_str()) {
        return Err(invalid("workflow artifact hash is not a hexadecimal digest"));
    }
    let actual = blake3_hex_of(bytes);
    let expected = identity.content_hash.as_str();
    let n = expected.unicode_len();
    let mut same = actual.as_str().unicode_len() == n;
    let mut i: usize = 0;
    while same && i < n
        invariant
            n == expected@.len(),
            i <= n,
            same ==> actual@.len() == n,
            same ==> forall|j: int| 0 <= j < i ==> actual@[j] == lower_char(#[trigger] expected@[j]),
            !same ==> actual@ != expected@.map_values(|c: char| lower_char(c)),
        decreases (n - i) * 2 + (if same { 1int } else { 0int }),
    {
        let c = expected.get_char(i);
        let lower = if 'A' <= c && c <= 'Z' {
            ((c as u8) + 32) as char
        } else {
            c
        };
        if actual.as_str().get_char(i) != lower {
            proof {
                assert(expected@.map_values(|c: char| lower_char(c))[i as int] == lower);
            }
            same = false;
        } else {
            i += 1;
        }
    }
    if !same {
        return Err(invalid("workflow artifact content hash mismatch"));
    }
    proof {
        assert(actual@ =~= expected@.map_values(|c: char| lower_char(c)));
    }
    Ok(())
}

/// The parsed document is the one the identity names.
pub fn check_document_identity(identity: &WorkflowArtifactIdentity, document: &WorkflowDocument) -> (r:
    Result<(), RecoveryError>)
    ensures
        r is Ok <==> (document.id@ == identity.workflow_id@ && document.version@
            == identity.workflow_version@),
        r is Err ==> r->Err_0 is Invalid,
{
    if !text_eq(document.id.as_str(), identity.workflow_id.as_str()) || !text_eq(
        document.version.as_str(),
        identity.workflow_version.as_str(),
    ) {
        return Err(invalid("workflow artifact identity does not match recovery manifest"));
    }
    Ok(())
}

/// The identity of a workflow definition stored from its source bytes.
pub fn workflow_identity(source: &[u8], document: &WorkflowDocument) -> (r: WorkflowArtifactIdentity)
    ensures
        r.workflow_id@ == document.id@,
        r.workflow_version@ == document.version@,
        r.content_hash@ == blake3_hex(source@),
{
    WorkflowArtifactIdentity {
        workflow_id: document.id.clone(),
        workflow_version: document.version.clone(),
        content_hash: blake3_hex_of(source),
    }
}

/// The file a workflow artifact is stored in: its content hash with `.json`.
pub fn workflow_file_name(content_hash: &str) -> (r: String)
    ensures
        r@ == content_hash@ + ".json"@,
{
    let mut name = content_hash.to_owned();
    name.append(".json");
    name
}

/// The file a run's manifest is stored in: the digest of the run ID with
/// `.json`.
pub fn manifest_file_name(langchart_run_id: &str) -> (r: String)
    ensures
        r@ == blake3_hex(vstd::utf8::encode_utf8(langchart_run_id@)) + ".json"@,
{
    let mut name = blake3_hex_of(langchart_run_id.as_bytes());
    name.append(".json");
    name
}

/// What writing an immutable record does, given what the path holds.
#[derive(Debug)]
pub enum ImmutableWrite {
    /// The same bytes are already there.
    Unchanged,
    /// Different bytes are already there.
    Conflict,
    /// Nothing is there yet: write.
    Write,
}

/// Decides an immutable write from what the path already holds.
#[verifier::loop_isolation(false)]
pub fn immutable_write(existing: Option<&[u8]>, bytes: &[u8]) -> (r: ImmutableWrite)
    ensures
        match existing {
            None => r is Write,
            Some(e) => if e@ == bytes@ {
                r is Unchanged
            } else {
                r is Conflict
            },
        },
{
    match existing {
        None => ImmutableWrite::Write,
        Some(e) => {
            if e.len() != bytes.len() {
                proof {
                    assert(e@.len() != bytes@.len());
                }
                return ImmutableWrite::Conflict;
            }
            let mut i: usize = 0;
            while i < e.len()
                invariant
                    i <= e.len(),
                    e.len() == bytes.len(),
                    forall|j: int| 0 <= j < i ==> e@[j] == bytes@[j],
                decreases e.len() - i,
            {
                if e[i] != bytes[i] {
                    proof {
                        assert(e@[i as int] != bytes@[i as int]);
                    }
                    return ImmutableWrite::Conflict;
                }
                i += 1;
            }
            proof {
                assert(e@ =~= bytes@);
            }
            ImmutableWrite::Unchanged
        },
    }
}

/// Checks that a workflow artifact hash names a hexadecimal digest.
pub fn validate_digest(value: &str) -> (r: Result<(), RecoveryError>)
    ensures
        r is Ok <==> is_hex_digest(value@),
        r is Err ==> r->Err_0 is Invalid,
{
    if !is_hex_digest_text(value) {
        return Err(invalid("workflow artifact hash is not a hexadecimal digest"));
    }
    Ok(())
}

/// A path below a directory, as `Path::join` forms it for a relative name.
pub open spec fn join_path(directory: Seq<char>, name: Seq<char>) -> Seq<char> {
    if directory.len() == 0 {
        name
    } else if directory.last() == '/' {
        directory + name
    } else {
        directory + "/"@ + name
    }
}

fn join_dir(directory: &str, name: &str) -> (r: String)
    ensures
        r@ == join_path(directory@, name@),
{
    let n = directory.unicode_len();
    let mut path = directory.to_owned();
    if n > 0 && directory.get_char(n - 1) != '/' {
        path.append("/");
    }
    path.append(name);
    path
}

/// Where a workflow's recovery artifacts live: workflow definitions under
/// `workflows/`, run manifests under `recovery/`.
#[derive(Debug)]
pub struct RecoveryStore {
    state_directory: String,
}

impl RecoveryStore {
    /// A store over a state directory whose `workflows` and `recovery`
    /// directories exist.
    pub fn at(state_directory: String) -> (r: Self)
        ensures
            r.directory() == state_directory@,
    {
        RecoveryStore { state_directory }
    }

    /// The state directory.
    pub closed spec fn directory(&self) -> Seq<char> {
        self.state_directory@
    }

    /// The file a workflow artifact is stored in.
    pub fn workflow_path(&self, content_hash: &str) -> (r: String)
        ensures
            r@ == join_path(join_path(self.directory(), "workflows"@), content_hash@ + ".json"@),
    {
        let directory = join_dir(self.state_directory.as_str(), "workflows");
        join_dir(directory.as_str(), workflow_file_name(content_hash).as_str())
    }

    /// The file a run's manifest is stored in.
    pub fn manifest_path(&self, langchart_run_id: &str) -> (r: String)
        ensures
            r@ == join_path(
                join_path(self.directory(), "recovery"@),
                blake3_hex(vstd::utf8::encode_utf8(langchart_run_id@)) + ".json"@,
            ),
    {
        let directory = join_dir(self.state_directory.as_str(), "recovery");
        join_dir(directory.as_str(), manifest_file_name(langchart_run_id).as_str())
    }

    /// What storing a workflow definition records: refused with the parse
    /// error when its source is not a workflow document (`parsed` is what
    /// parsing the source gave); otherwise its identity, named by the document
    /// and the digest of its bytes, and the file it is written to.
    pub fn store_workflow(&self, source: &[u8], parsed: &Result<WorkflowDocument, String>) -> (r: Result<
        (WorkflowArtifactIdentity, String),
        RecoveryError,
    >)
        ensures
            r is Ok <==> parsed is Ok,
            parsed is Err ==> (r matches Err(RecoveryError::Json(e)) && e@ == parsed->Err_0@),
            r is Ok ==> ({
                let (identity, path) = r->Ok_0;
                let document = parsed->Ok_0;
                &&& identity.workflow_id@ == document.id@
                &&& identity.workflow_version@ == document.version@
                &&& identity.content_hash@ == blake3_hex(source@)
                &&& path@ == join_path(join_path(self.directory(), "workflows"@), blake3_hex(source@) + ".json"@)
            }),
    {
        let document = match parsed {
            Ok(d) => d,
            Err(m) => {
                return Err(RecoveryError::Json(m.clone()));
            },
        };
        let identity = workflow_identity(source, document);
        let path = self.workflow_path(identity.content_hash.as_str());
        Ok((identity, path))
    }

    /// The actor identities of a stored workflow, sorted by state: its hash
    /// must be a digest of its bytes, those bytes must parse (`parsed` is what
    /// parsing them gave) to the document the identity names, and no state
    /// may repeat or lack its actor.
    pub fn actor_identities(
        &self,
        workflow: &WorkflowArtifactIdentity,
        bytes: &[u8],
        parsed: &Result<WorkflowDocument, String>,
    ) -> (r: Result<Vec<ActorIdentity>, RecoveryError>)
        ensures
            r is Ok <==> (artifact_bytes_ok(*workflow, bytes@) && parsed is Ok && parsed->Ok_0.id@
                == workflow.workflow_id@ && parsed->Ok_0.version@ == workflow.workflow_version@
                && actors_of_states(parsed->Ok_0.states@) is Some && distinct_states(
                actors_of_states(parsed->Ok_0.states@).unwrap(),
            )),
            r is Ok ==> ({
                let c = actors_of_states(parsed->Ok_0.states@).unwrap();
                &&& sorted_by_state(r->Ok_0@)
                &&& r->Ok_0@.len() == c.len()
                &&& forall|a: ActorIdentity| r->Ok_0@.contains(a) <==> c.contains(a)
            }),
            artifact_bytes_ok(*workflow, bytes@) && parsed is Err ==> (r matches Err(RecoveryError::Json(e))
                && e@ == parsed->Err_0@),
            !artifact_bytes_ok(*workflow, bytes@) || parsed is Ok ==> (r is Err ==> r->Err_0 is Invalid),
    {
        validate_digest(workflow.content_hash.as_str())?;
        check_workflow_bytes(workflow, bytes)?;
        let document = match parsed {
            Ok(d) => d,
            Err(m) => {
                return Err(RecoveryError::Json(m.clone()));
            },
        };
        check_document_identity(workflow, document)?;
        sorted_actor_identities(&document.states)
    }
}

/// A failure among the first `k` states is a failure of the whole list.
pub proof fn lemma_none_prefix(ss: Seq<WorkflowState>, k: int)
    requires
        0 <= k <= ss.len(),
        actors_of_states(ss.subrange(0, k)) is None,
    ensures
        actors_of_states(ss) is None,
    decreases ss.len() - k,
{
    if k < ss.len() {
        assert(ss.subrange(0, k + 1).drop_last() =~= ss.subrange(0, k));
        lemma_none_prefix(ss, k + 1);
    } else {
        assert(ss.subrange(0, k) =~= ss);
    }
}

/// A failure among the first `k` regions is a failure of the whole list.
pub proof fn lemma_none_regions_prefix(rs: Seq<WorkflowRegion>, k: int)
    requires
        0 <= k <= rs.len(),
        actors_of_regions(rs.subrange(0, k)) is None,
    ensures
        actors_of_regions(rs) is None,
    decreases rs.len() - k,
{
    if k < rs.len() {
        assert(rs.subrange(0, k + 1).drop_last() =~= rs.subrange(0, k));
        lemma_none_regions_prefix(rs, k + 1);
    } else {
        assert(rs.subrange(0, k) =~= rs);
    }
}

/// A manifest whose own fields are sound and whose actors are the sorted
/// actor identities of the workflow (as `sorted_actor_identities` returns
/// them) validates against that workflow.
pub proof fn law_manifest_of_sorted_actors_validates(
    m: RecoveryManifest,
    states: Seq<WorkflowState>,
)
    requires
        manifest_fields_ok(m),
        actors_of_states(states) is Some,
        distinct_states(actors_of_states(states).unwrap()),
        sorted_by_state(m.actors@),
        m.actors@.len() == actors_of_states(states).unwrap().len(),
        forall|a: ActorIdentity| m.actors@.contains(a) <==> actors_of_states(states).unwrap().contains(a),
    ensures
        manifest_ok(m, states),
{
    let actors = m.actors@;
    let expected = actors_of_states(states).unwrap();
    assert forall|i: int, j: int| 0 <= i < j < actors.len() implies (#[trigger] actors[i]).state_id@
        != (#[trigger] actors[j]).state_id@ by {
        crate::order::lemma_text_lt_total(actors[i].state_id@, actors[j].state_id@);
    }
    assert forall|e: ActorIdentity| #[trigger] expected.contains(e) implies present(actors, e) by {
        assert(actors.contains(e));
        let k = choose|k: int| 0 <= k < actors.len() && actors[k] == e;
        assert(actor_same(actors[k], e));
    }
}

} // verus!
