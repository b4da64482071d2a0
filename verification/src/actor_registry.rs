//! The registry of actor factories that rebuilds a run's actors from its
//! recovery manifest.
use crate::json::text_eq;
use crate::recovery::ActorIdentity;
use crate::text::{is_normalized, is_normalized_text};
use vstd::prelude::*;
use vstd::string::*;

verus! {

/// A factory registered for one actor identity and version.
#[derive(Debug)]
pub struct RegisteredFactory<F> {
    pub actor_id: String,
    pub actor_version: String,
    pub factory: F,
}

/// The actor factories, by identity and version.
#[derive(Debug)]
pub struct ActorRegistry<F> {
    pub factories: Vec<RegisteredFactory<F>>,
}

/// The errors of the actor registry.
#[derive(Debug)]
pub enum ActorRegistryError {
    Invalid(String),
    Duplicate { actor_id: String, actor_version: String },
    MissingFactory { actor_id: String, actor_version: String },
    DuplicateState(String),
    Build { identity: ActorIdentity, message: String },
}

impl ActorRegistryError {
    /// The text of the error's message.
    pub open spec fn message_text(&self) -> Seq<char> {
        match self {
            ActorRegistryError::Invalid(m) => "invalid actor registry entry: "@ + m@,
            ActorRegistryError::Duplicate { actor_id, actor_version } => "actor factory `"@ + actor_id@
                + "@"@ + actor_version@ + "` is already registered"@,
            ActorRegistryError::MissingFactory { actor_id, actor_version } =>
                "no actor factory is registered for `"@ + actor_id@ + "@"@ + actor_version@ + "`"@,
            ActorRegistryError::DuplicateState(s) => "actor manifest repeats state `"@ + s@ + "`"@,
            ActorRegistryError::Build { identity, message } => "cannot reconstruct actor `"@
                + identity.actor_id@ + "` for state `"@ + identity.state_id@ + "`: "@ + message@,
        }
    }

    /// A readable description of the error.
    pub fn message(&self) -> (r: String)
        ensures
            r@ == self.message_text(),
    {
        match self {
            ActorRegistryError::Invalid(m) => {
                let mut s = "invalid actor registry entry: ".to_owned();
                s.append(m.as_str());
                s
            },
            ActorRegistryError::Duplicate { actor_id, actor_version } => {
                let mut s = "actor factory `".to_owned();
                s.append(actor_id.as_str());
                s.append("@");
                s.append(actor_version.as_str());
                s.append("` is already registered");
                s
            },
            ActorRegistryError::MissingFactory { actor_id, actor_version } => {
                let mut s = "no actor factory is registered for `".to_owned();
                s.append(actor_id.as_str());
                s.append("@");
                s.append(actor_version.as_str());
                s.append("`");
                s
            },
            ActorRegistryError::DuplicateState(state) => {
                let mut s = "actor manifest repeats state `".to_owned();
                s.append(state.as_str());
                s.append("`");
                s
            },
            ActorRegistryError::Build { identity, message } => {
                let mut s = "cannot reconstruct actor `".to_owned();
                s.append(identity.actor_id.as_str());
                s.append("` for state `");
                s.append(identity.state_id.as_str());
                s.append("`: ");
                s.append(message.as_str());
                s
            },
        }
    }
}

/// Position of the factory registered for `(id, version)`, or -1.
pub open spec fn factory_pos_from<F>(
    fs: Seq<RegisteredFactory<F>>,
    id: Seq<char>,
    version: Seq<char>,
    i: int,
) -> int
    decreases fs.len() - i,
{
    if i < 0 || i >= fs.len() {
        -1
    } else if fs[i].actor_id@ == id && fs[i].actor_version@ == version {
        i
    } else {
        factory_pos_from(fs, id, version, i + 1)
    }
}

pub open spec fn factory_pos<F>(fs: Seq<RegisteredFactory<F>>, id: Seq<char>, version: Seq<char>) -> int {
    factory_pos_from(fs, id, version, 0)
}

/// Whether a factory is registered for `(id, version)`.
pub open spec fn registered<F>(fs: Seq<RegisteredFactory<F>>, id: Seq<char>, version: Seq<char>) -> bool {
    exists|i: int| 0 <= i < fs.len() && #[trigger] fs[i].actor_id@ == id && fs[i].actor_version@ == version
}

/// No identity and version is registered twice.
pub open spec fn keys_distinct<F>(fs: Seq<RegisteredFactory<F>>) -> bool {
    forall|i: int, j: int|
        0 <= i < j < fs.len() ==> !((#[trigger] fs[i]).actor_id@ == (#[trigger] fs[j]).actor_id@
            && fs[i].actor_version@ == fs[j].actor_version@)
}

/// What `factory_pos_from` finds: the first matching factory at or after
/// `i`, or none there.
pub proof fn lemma_factory_pos<F>(fs: Seq<RegisteredFactory<F>>, id: Seq<char>, version: Seq<char>, i: int)
    requires
        0 <= i,
    ensures
        factory_pos_from(fs, id, version, i) == -1 ==> forall|j: int|
            i <= j < fs.len() ==> !((#[trigger] fs[j]).actor_id@ == id && fs[j].actor_version@ == version),
        factory_pos_from(fs, id, version, i) != -1 ==> {
            let p = factory_pos_from(fs, id, version, i);
            i <= p < fs.len() && fs[p].actor_id@ == id && fs[p].actor_version@ == version
        },
    decreases fs.len() - i,
{
    if i < fs.len() && !(fs[i].actor_id@ == id && fs[i].actor_version@ == version) {
        lemma_factory_pos(fs, id, version, i + 1);
    }
}

/// Checks that an actor ID or version is non-empty and normalized.
pub fn validate_identity(value: &str, name: &str) -> (r: Result<(), ActorRegistryError>)
    ensures
        r is Ok <==> is_normalized(value@),
        r is Err ==> r->Err_0 is Invalid,
{
    if is_normalized_text(value) {
        Ok(())
    } else {
        let mut message = name.to_owned();
        message.append(" must be non-empty and normalized");
        Err(ActorRegistryError::Invalid(message))
    }
}

impl<F> ActorRegistry<F> {
    /// An empty registry.
    pub fn new() -> (r: ActorRegistry<F>)
        ensures
            r.factories@.len() == 0,
    {
        ActorRegistry { factories: Vec::new() }
    }

    /// The position of the factory registered for an identity and version.
    pub fn factory_index(&self, actor_id: &str, actor_version: &str) -> (r: Option<usize>)
        ensures
            match r {
                Some(i) => i as int == factory_pos(self.factories@, actor_id@, actor_version@)
                    && i < self.factories@.len(),
                None => factory_pos(self.factories@, actor_id@, actor_version@) == -1,
            },
    {
        let mut i: usize = 0;
        while i < self.factories.len()
            invariant
                i <= self.factories.len(),
                factory_pos(self.factories@, actor_id@, actor_version@) == factory_pos_from(
                    self.factories@,
                    actor_id@,
                    actor_version@,
                    i as int,
                ),
            decreases self.factories.len() - i,
        {
            if text_eq(self.factories[i].actor_id.as_str(), actor_id) && text_eq(
                self.factories[i].actor_version.as_str(),
                actor_version,
            ) {
                return Some(i);
            }
            i += 1;
        }
        None
    }

    /// Registers a factory for an actor identity and version; refused for an
    /// unnormalized identity or one already registered.
    pub fn register(&mut self, actor_id: String, actor_version: String, factory: F) -> (r: Result<
        (),
        ActorRegistryError,
    >)
        requires
            keys_distinct(old(self).factories@),
        ensures
            r is Ok <==> (is_normalized(actor_id@) && is_normalized(actor_version@) && !registered(
                old(self).factories@,
                actor_id@,
                actor_version@,
            )),
            r is Ok ==> final(self).factories@ == old(self).factories@.push(
                RegisteredFactory { actor_id, actor_version, factory },
            ),
            r is Err ==> final(self).factories@ == old(self).factories@,
            keys_distinct(final(self).factories@),
            r matches Err(ActorRegistryError::Duplicate { actor_id: a, actor_version: v }) ==> a@
                == actor_id@ && v@ == actor_version@,
            !(is_normalized(actor_id@) && is_normalized(actor_version@)) ==> r matches Err(
                ActorRegistryError::Invalid(_),
            ),
            is_normalized(actor_id@) && is_normalized(actor_version@) && registered(
                old(self).factories@,
                actor_id@,
                actor_version@,
            ) ==> r matches Err(ActorRegistryError::Duplicate { .. }),
    {
        validate_identity(actor_id.as_str(), "actor ID")?;
        validate_identity(actor_version.as_str(), "actor version")?;
        proof {
            lemma_factory_pos(self.factories@, actor_id@, actor_version@, 0);
        }
        if self.factory_index(actor_id.as_str(), actor_version.as_str()).is_some() {
            return Err(ActorRegistryError::Duplicate { actor_id, actor_version });
        }
        self.factories.push(RegisteredFactory { actor_id, actor_version, factory });
        Ok(())
    }

    /// Rebuilds the actor of every state the manifest lists, in order, with the
    /// registered factories. It stops at the first identity that has no
    /// factory, whose build fails, or whose state was listed before, and
    /// names that identity.
    #[verifier::loop_isolation(false)]
    pub fn reconstruct<A, B: Fn(&F, &String) -> Result<A, String>>(
        &self,
        actors: &Vec<ActorIdentity>,
        build: &B,
    ) -> (r: Result<Vec<(String, A)>, ActorRegistryError>)
        requires
            forall|f: &F, s: &String| #[trigger] build.requires((f, s)),
        ensures
            r is Ok ==> ({
                let out = r->Ok_0@;
                &&& out.len() == actors@.len()
                &&& forall|i: int|
                    0 <= i < out.len() ==> (#[trigger] out[i]).0@ == actors@[i].state_id@
                        && is_registered(self.factories@, actors@[i])
                        && build.ensures((&factory_of(self.factories@, actors@[i]), &actors@[i].state_id), Ok(out[i].1))
                &&& forall|i: int, j: int|
                    0 <= i < j < actors@.len() ==> (#[trigger] actors@[i]).state_id@ != (
                    #[trigger] actors@[j]).state_id@
            }),
            actors@.len() == 0 ==> r is Ok,
            clean_before(self.factories@, *build, actors@, actors@.len() as int) ==> r is Ok,
            r matches Err(ActorRegistryError::MissingFactory { actor_id: a, actor_version: v })
                ==> exists|k: int|
                0 <= k < actors@.len() && settled_before(self.factories@, *build, actors@, k)
                    && !is_registered(self.factories@, #[trigger] actors@[k])
                    && actors@[k].actor_id@ == a@ && actors@[k].actor_version@ == v@,
            r matches Err(ActorRegistryError::Build { identity, message }) ==> exists|k: int|
                0 <= k < actors@.len() && settled_before(self.factories@, *build, actors@, k)
                    && is_registered(self.factories@, #[trigger] actors@[k])
                    && build.ensures((&factory_of(self.factories@, actors@[k]), &actors@[k].state_id), Err(message))
                    && identity.state_id@ == actors@[k].state_id@ && identity.actor_id@ == actors@[k].actor_id@
                    && identity.actor_version@ == actors@[k].actor_version@,
            r matches Err(ActorRegistryError::DuplicateState(s)) ==> exists|k: int|
                0 <= k < actors@.len() && settled_before(self.factories@, *build, actors@, k)
                    && is_registered(self.factories@, #[trigger] actors@[k])
                    && may_build(self.factories@, *build, actors@[k])
                    && state_repeats(actors@, k) && s@ == actors@[k].state_id@,
            forall|k: int|
                0 <= k < actors@.len() && clean_before(self.factories@, *build, actors@, k)
                    && !is_registered(self.factories@, #[trigger] actors@[k]) ==> (r matches Err(
                    ActorRegistryError::MissingFactory { actor_id: a, actor_version: v },
                ) && a@ == actors@[k].actor_id@ && v@ == actors@[k].actor_version@),
            forall|k: int|
                0 <= k < actors@.len() && clean_before(self.factories@, *build, actors@, k)
                    && is_registered(self.factories@, #[trigger] actors@[k])
                    && never_builds(self.factories@, *build, actors@[k]) ==> (r matches Err(
                    ActorRegistryError::Build { identity, message },
                ) && identity.state_id@ == actors@[k].state_id@ && identity.actor_id@ == actors@[k].actor_id@
                    && identity.actor_version@ == actors@[k].actor_version@),
            forall|k: int|
                0 <= k < actors@.len() && clean_before(self.factories@, *build, actors@, k)
                    && is_registered(self.factories@, #[trigger] actors@[k])
                    && only_builds(self.factories@, *build, actors@[k]) && state_repeats(actors@, k) ==> (
                r matches Err(ActorRegistryError::DuplicateState(s)) && s@ == actors@[k].state_id@),
            !(r matches Err(ActorRegistryError::Invalid(_))),
            !(r matches Err(ActorRegistryError::Duplicate { .. })),
    {
        let mut out: Vec<(String, A)> = Vec::new();
        let mut i: usize = 0;
        while i < actors.len()
            invariant
                i <= actors.len(),
                forall|f: &F, s: &String| #[trigger] build.requires((f, s)),
                out@.len() == i,
                forall|k: int|
                    0 <= k < i ==> (#[trigger] out@[k]).0@ == actors@[k].state_id@ && is_registered(
                        self.factories@,
                        actors@[k],
                    ) && build.ensures((&factory_of(self.factories@, actors@[k]), &actors@[k].state_id), Ok(out@[k].1))
                        && !state_repeats(actors@, k),
            decreases actors.len() - i,
        {
            let identity = &actors[i];
            proof {
                lemma_factory_pos(self.factories@, identity.actor_id@, identity.actor_version@, 0);
            }
            let index = match self.factory_index(
                identity.actor_id.as_str(),
                identity.actor_version.as_str(),
            ) {
                Some(index) => index,
                None => {
                    let e = ActorRegistryError::MissingFactory {
                        actor_id: identity.actor_id.clone(),
                        actor_version: identity.actor_version.clone(),
                    };
                    proof {
                        lemma_stop::<F, A, B>(self.factories@, *build, actors@, out@, i as int, 0);
                    }
                    return Err(e);
                },
            };
            let built = build(&self.factories[index].factory, &identity.state_id);
            proof {
                assert(self.factories@[index as int].factory == factory_of(self.factories@, actors@[i as int]));
                assert(build.ensures((&factory_of(self.factories@, actors@[i as int]), &actors@[i as int].state_id), built));
            }
            let actor = match built {
                Ok(actor) => actor,
                Err(message) => {
                    let e = ActorRegistryError::Build {
                        identity: ActorIdentity {
                            state_id: identity.state_id.clone(),
                            actor_id: identity.actor_id.clone(),
                            actor_version: identity.actor_version.clone(),
                        },
                        message,
                    };
                    proof {
                        assert(build.ensures((&factory_of(self.factories@, actors@[i as int]), &actors@[i as int].state_id), Err::<A, String>(e->message)));
                        lemma_stop::<F, A, B>(self.factories@, *build, actors@, out@, i as int, 1);
                    }
                    return Err(e);
                },
            };
            let mut j: usize = 0;
            while j < i
                invariant
                    j <= i < actors@.len(),
                    forall|k: int| 0 <= k < j ==> (#[trigger] actors@[k]).state_id@ != actors@[i as int].state_id@,
                decreases i - j,
            {
                if text_eq(actors[j].state_id.as_str(), actors[i].state_id.as_str()) {
                    let e = ActorRegistryError::DuplicateState(actors[i].state_id.clone());
                    proof {
                        assert(build.ensures((&factory_of(self.factories@, actors@[i as int]), &actors@[i as int].state_id), Ok::<A, String>(actor)));
                        assert(state_repeats(actors@, i as int));
                        assert(may_build(self.factories@, *build, actors@[i as int]));
                        lemma_stop::<F, A, B>(self.factories@, *build, actors@, out@, i as int, 2);
                    }
                    return Err(e);
                }
                j += 1;
            }
            proof {
                assert(!state_repeats(actors@, i as int));
            }
            let ghost before = out@;
            out.push((identity.state_id.clone(), actor));
            proof {
                assert forall|k: int| 0 <= k < i implies out@[k] == before[k] by {}
            }
            i += 1;
        }
        proof {
            assert forall|k: int| 0 <= k < actors@.len() implies settled_at(self.factories@, *build, actors@, k) by {
                assert(out@[k].0@ == actors@[k].state_id@);
                assert(build.ensures((&factory_of(self.factories@, actors@[k]), &actors@[k].state_id), Ok::<A, String>(out@[k].1)));
            }
            lemma_no_stop::<F, A, B>(self.factories@, *build, actors@);
            assert forall|a: int, b: int| 0 <= a < b < actors@.len() implies (#[trigger] actors@[a]).state_id@ != (
                #[trigger] actors@[b]).state_id@ by {
                assert(!state_repeats(actors@, b));
            }
        }
        Ok(out)
    }
}

/// The identity has a registered factory.
pub open spec fn is_registered<F>(fs: Seq<RegisteredFactory<F>>, a: ActorIdentity) -> bool {
    registered(fs, a.actor_id@, a.actor_version@)
}

/// The factory registered for the identity.
pub open spec fn factory_of<F>(fs: Seq<RegisteredFactory<F>>, a: ActorIdentity) -> F {
    fs[factory_pos(fs, a.actor_id@, a.actor_version@)].factory
}

/// Building the identity's actor can succeed.
pub open spec fn may_build<F, A, B: Fn(&F, &String) -> Result<A, String>>(
    fs: Seq<RegisteredFactory<F>>,
    build: B,
    a: ActorIdentity,
) -> bool {
    exists|x: A| #[trigger] build.ensures((&factory_of(fs, a), &a.state_id), Ok(x))
}

/// Building the identity's actor never fails.
pub open spec fn only_builds<F, A, B: Fn(&F, &String) -> Result<A, String>>(
    fs: Seq<RegisteredFactory<F>>,
    build: B,
    a: ActorIdentity,
) -> bool {
    forall|x: Result<A, String>| #[trigger] build.ensures((&factory_of(fs, a), &a.state_id), x) ==> x is Ok
}

/// Building the identity's actor never succeeds.
pub open spec fn never_builds<F, A, B: Fn(&F, &String) -> Result<A, String>>(
    fs: Seq<RegisteredFactory<F>>,
    build: B,
    a: ActorIdentity,
) -> bool {
    forall|x: Result<A, String>| #[trigger] build.ensures((&factory_of(fs, a), &a.state_id), x) ==> x is Err
}

/// The state of entry `k` was listed before it.
pub open spec fn state_repeats(actors: Seq<ActorIdentity>, k: int) -> bool {
    exists|j: int| 0 <= j < k && (#[trigger] actors[j]).state_id@ == actors[k].state_id@
}

/// Entry `k` has a factory, can be built, and repeats no earlier state.
pub open spec fn settled_at<F, A, B: Fn(&F, &String) -> Result<A, String>>(
    fs: Seq<RegisteredFactory<F>>,
    build: B,
    actors: Seq<ActorIdentity>,
    k: int,
) -> bool {
    &&& is_registered(fs, actors[k])
    &&& may_build(fs, build, actors[k])
    &&& !state_repeats(actors, k)
}

/// Every entry before `k` has a factory, can be built and repeats no state.
pub open spec fn settled_before<F, A, B: Fn(&F, &String) -> Result<A, String>>(
    fs: Seq<RegisteredFactory<F>>,
    build: B,
    actors: Seq<ActorIdentity>,
    k: int,
) -> bool {
    forall|i: int| 0 <= i < k ==> #[trigger] settled_at(fs, build, actors, i)
}

/// Every entry before `k` has a factory, is always built, and repeats no
/// state.
pub open spec fn clean_before<F, A, B: Fn(&F, &String) -> Result<A, String>>(
    fs: Seq<RegisteredFactory<F>>,
    build: B,
    actors: Seq<ActorIdentity>,
    k: int,
) -> bool {
    forall|i: int|
        0 <= i < k ==> is_registered(fs, #[trigger] actors[i]) && only_builds(fs, build, actors[i])
            && !state_repeats(actors, i)
}

/// Where reconstruction stopped at entry `i` (`cause` 0: no factory, 1: the
/// build failed, 2: the state repeats) after building every earlier entry,
/// entry `i` is the first entry of the kind that the clean-prefix clauses
/// name, and every earlier entry is settled.
proof fn lemma_stop<F, A, B: Fn(&F, &String) -> Result<A, String>>(
    fs: Seq<RegisteredFactory<F>>,
    build: B,
    actors: Seq<ActorIdentity>,
    out: Seq<(String, A)>,
    i: int,
    cause: int,
)
    requires
        0 <= i < actors.len(),
        out.len() == i,
        forall|k: int|
            0 <= k < i ==> (#[trigger] out[k]).0@ == actors[k].state_id@ && is_registered(fs, actors[k])
                && build.ensures((&factory_of(fs, actors[k]), &actors[k].state_id), Ok(out[k].1))
                && !state_repeats(actors, k),
        cause == 0 ==> !is_registered(fs, actors[i]),
        cause == 1 ==> is_registered(fs, actors[i]) && exists|m: String| #[trigger] build.ensures((&factory_of(fs, actors[i]), &actors[i].state_id), Err(m)),
        cause == 2 ==> is_registered(fs, actors[i]) && may_build(fs, build, actors[i]) && state_repeats(actors, i),
        0 <= cause <= 2,
    ensures
        settled_before(fs, build, actors, i),
        forall|k: int|
            0 <= k < actors.len() && clean_before(fs, build, actors, k) && !is_registered(fs, #[trigger] actors[k])
                ==> k == i && cause == 0,
        forall|k: int|
            0 <= k < actors.len() && clean_before(fs, build, actors, k) && is_registered(fs, #[trigger] actors[k])
                && never_builds(fs, build, actors[k]) ==> k == i && cause == 1,
        forall|k: int|
            0 <= k < actors.len() && clean_before(fs, build, actors, k) && is_registered(fs, #[trigger] actors[k])
                && only_builds(fs, build, actors[k]) && state_repeats(actors, k) ==> k == i && cause == 2,
{
    assert forall|k: int| 0 <= k < i implies #[trigger] settled_at(fs, build, actors, k) by {
        assert(build.ensures((&factory_of(fs, actors[k]), &actors[k].state_id), Ok(out[k].1)));
    }
    assert forall|k: int|
        0 <= k < actors.len() && clean_before(fs, build, actors, k) && !is_registered(fs, #[trigger] actors[k])
        implies k == i && cause == 0 by {
        if k < i {
            assert(out[k].0@ == actors[k].state_id@);
            assert(is_registered(fs, actors[k]));
        } else if k > i {
            assert(is_registered(fs, actors[i]) && only_builds(fs, build, actors[i]) && !state_repeats(actors, i));
            if cause == 1 {
                let m = choose|m: String| #[trigger] build.ensures((&factory_of(fs, actors[i]), &actors[i].state_id), Err(m));
                assert(build.ensures((&factory_of(fs, actors[i]), &actors[i].state_id), Err::<A, String>(m)));
            }
        }
    }
    assert forall|k: int|
        0 <= k < actors.len() && clean_before(fs, build, actors, k) && is_registered(fs, #[trigger] actors[k])
            && never_builds(fs, build, actors[k]) implies k == i && cause == 1 by {
        if k < i {
            assert(out[k].0@ == actors[k].state_id@);
            assert(build.ensures((&factory_of(fs, actors[k]), &actors[k].state_id), Ok::<A, String>(out[k].1)));
        } else if k > i {
            assert(is_registered(fs, actors[i]) && only_builds(fs, build, actors[i]) && !state_repeats(actors, i));
            if cause == 1 {
                let m = choose|m: String| #[trigger] build.ensures((&factory_of(fs, actors[i]), &actors[i].state_id), Err(m));
                assert(build.ensures((&factory_of(fs, actors[i]), &actors[i].state_id), Err::<A, String>(m)));
            }
        } else {
            if cause == 2 {
                let x = choose|x: A| #[trigger] build.ensures((&factory_of(fs, actors[i]), &actors[i].state_id), Ok(x));
                assert(build.ensures((&factory_of(fs, actors[i]), &actors[i].state_id), Ok::<A, String>(x)));
            }
        }
    }
    assert forall|k: int|
        0 <= k < actors.len() && clean_before(fs, build, actors, k) && is_registered(fs, #[trigger] actors[k])
            && only_builds(fs, build, actors[k]) && state_repeats(actors, k) implies k == i && cause == 2 by {
        if k < i {
            assert(out[k].0@ == actors[k].state_id@);
        } else if k > i {
            assert(is_registered(fs, actors[i]) && only_builds(fs, build, actors[i]) && !state_repeats(actors, i));
            if cause == 1 {
                let m = choose|m: String| #[trigger] build.ensures((&factory_of(fs, actors[i]), &actors[i].state_id), Err(m));
                assert(build.ensures((&factory_of(fs, actors[i]), &actors[i].state_id), Err::<A, String>(m)));
            }
        } else {
            if cause == 1 {
                let m = choose|m: String| #[trigger] build.ensures((&factory_of(fs, actors[i]), &actors[i].state_id), Err(m));
                assert(build.ensures((&factory_of(fs, actors[i]), &actors[i].state_id), Err::<A, String>(m)));
            }
        }
    }
}

/// Where every entry was built, no entry is one of those the clean-prefix
/// clauses name.
proof fn lemma_no_stop<F, A, B: Fn(&F, &String) -> Result<A, String>>(
    fs: Seq<RegisteredFactory<F>>,
    build: B,
    actors: Seq<ActorIdentity>,
)
    requires
        forall|k: int| 0 <= k < actors.len() ==> #[trigger] settled_at(fs, build, actors, k),
    ensures
        forall|k: int| 0 <= k < actors.len() ==> is_registered(fs, #[trigger] actors[k]),
        forall|k: int| 0 <= k < actors.len() ==> !state_repeats(actors, k),
        forall|k: int| 0 <= k < actors.len() ==> !never_builds(fs, build, #[trigger] actors[k]),
{
    assert forall|k: int| 0 <= k < actors.len() implies is_registered(fs, #[trigger] actors[k]) by {
        assert(settled_at(fs, build, actors, k));
    }
    assert forall|k: int| 0 <= k < actors.len() implies !state_repeats(actors, k) by {
        assert(settled_at(fs, build, actors, k));
    }
    assert forall|k: int| 0 <= k < actors.len() implies !never_builds(fs, build, #[trigger] actors[k]) by {
        assert(settled_at(fs, build, actors, k));
        let x = choose|x: A| #[trigger] build.ensures((&factory_of(fs, actors[k]), &actors[k].state_id), Ok(x));
        assert(build.ensures((&factory_of(fs, actors[k]), &actors[k].state_id), Ok::<A, String>(x)));
    }
}

/// A factory registered for an identity and version that was not registered
/// before is the one found for that identity and version afterwards.
pub proof fn law_registered_factory_is_found<F>(fs: Seq<RegisteredFactory<F>>, f: RegisteredFactory<F>)
    requires
        !registered(fs, f.actor_id@, f.actor_version@),
    ensures
        factory_pos(fs.push(f), f.actor_id@, f.actor_version@) == fs.len(),
        registered(fs.push(f), f.actor_id@, f.actor_version@),
{
    let g = fs.push(f);
    lemma_factory_pos(g, f.actor_id@, f.actor_version@, 0);
    let p = factory_pos(g, f.actor_id@, f.actor_version@);
    assert(g[fs.len() as int] == f);
    if p != -1 && p < fs.len() {
        assert(g[p] == fs[p]);
        assert(fs[p].actor_id@ == f.actor_id@ && fs[p].actor_version@ == f.actor_version@);
        assert(registered(fs, f.actor_id@, f.actor_version@));
    }
    assert(g[fs.len() as int].actor_id@ == f.actor_id@);
}

} // verus!
