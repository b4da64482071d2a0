//! Admission planning: which review targets a run admits, in full, CI-lite or
//! targeted mode, and the statistics of a filtering pass.
use crate::equiv::contains_text;
use vstd::prelude::*;

verus! {

/// How targets are admitted.
#[derive(Debug)]
pub enum AdmissionMode {
    /// Every applicable target is admitted.
    Full,
    /// Only directly changed or transitively impacted targets are admitted.
    CiLite,
    /// Only the listed targets are admitted.
    Targeted(Vec<String>),
}

/// Why a target was admitted or filtered out.
#[derive(Debug, Clone, Copy, PartialEq, Eq, Structural)]
pub enum TargetAdmissionDecision {
    AdmittedDirectlyChanged,
    AdmittedTransitivelyImpacted,
    AdmittedFull,
    AdmittedTargeted,
    FilteredUnaffectedCiLite,
    FilteredNotInTargetedSet,
}

/// The decisions that admit a target.
pub open spec fn admits(d: TargetAdmissionDecision) -> bool {
    ||| d is AdmittedDirectlyChanged
    ||| d is AdmittedTransitivelyImpacted
    ||| d is AdmittedFull
    ||| d is AdmittedTargeted
}

impl TargetAdmissionDecision {
    /// Whether this decision admits the target.
    pub fn is_admitted(&self) -> (r: bool)
        ensures
            r == admits(*self),
    {
        match self {
            TargetAdmissionDecision::AdmittedDirectlyChanged
            | TargetAdmissionDecision::AdmittedTransitivelyImpacted
            | TargetAdmissionDecision::AdmittedFull
            | TargetAdmissionDecision::AdmittedTargeted => true,
            _ => false,
        }
    }
}

/// Counts of one filtering pass.
#[derive(Debug, Clone, Copy, PartialEq, Eq, Structural)]
pub struct AdmissionStats {
    pub total_evaluated: usize,
    pub admitted: usize,
    pub filtered_out: usize,
    pub directly_changed: usize,
    pub transitively_impacted: usize,
}

/// The texts of a list of identifiers.
pub open spec fn ids(v: Seq<String>) -> Seq<Seq<char>> {
    v.map_values(|s: String| s@)
}

/// Whether the identifier occurs in the list.
pub open spec fn listed(v: Seq<String>, t: Seq<char>) -> bool {
    exists|i: int| 0 <= i < v.len() && (#[trigger] v[i])@ == t
}

/// Decides admission from explicit changed and impacted sets.
#[derive(Debug)]
pub struct WorkAdmissionPlanner {
    pub mode: AdmissionMode,
    pub directly_changed: Vec<String>,
    pub transitively_impacted: Vec<String>,
    pub affected_targets: Vec<String>,
}

/// The decision for one target.
pub open spec fn decision_for(p: WorkAdmissionPlanner, t: Seq<char>) -> TargetAdmissionDecision {
    match p.mode {
        AdmissionMode::Full => if listed(p.directly_changed@, t) {
            TargetAdmissionDecision::AdmittedDirectlyChanged
        } else if listed(p.transitively_impacted@, t) {
            TargetAdmissionDecision::AdmittedTransitivelyImpacted
        } else {
            TargetAdmissionDecision::AdmittedFull
        },
        AdmissionMode::CiLite => if listed(p.directly_changed@, t) {
            TargetAdmissionDecision::AdmittedDirectlyChanged
        } else if listed(p.transitively_impacted@, t) {
            TargetAdmissionDecision::AdmittedTransitivelyImpacted
        } else {
            TargetAdmissionDecision::FilteredUnaffectedCiLite
        },
        AdmissionMode::Targeted(targets) => if listed(targets@, t) {
            TargetAdmissionDecision::AdmittedTargeted
        } else {
            TargetAdmissionDecision::FilteredNotInTargetedSet
        },
    }
}

/// The targets of `ts` the planner admits, in order.
pub open spec fn admitted_of(p: WorkAdmissionPlanner, ts: Seq<Seq<char>>) -> Seq<Seq<char>> {
    ts.filter(|t: Seq<char>| admits(decision_for(p, t)))
}

/// How many targets of `ts` get decision `d`.
pub open spec fn count_decision(
    p: WorkAdmissionPlanner,
    ts: Seq<Seq<char>>,
    d: TargetAdmissionDecision,
) -> nat {
    ts.filter(|t: Seq<char>| decision_for(p, t) == d).len()
}

/// How many targets of `ts` are filtered out.
pub open spec fn count_filtered(p: WorkAdmissionPlanner, ts: Seq<Seq<char>>) -> nat {
    ts.filter(|t: Seq<char>| !admits(decision_for(p, t))).len()
}

/// Filtering a prefix one element longer.
pub proof fn lemma_filter_step<A>(s: Seq<A>, i: int, pred: spec_fn(A) -> bool)
    requires
        0 <= i < s.len(),
    ensures
        s.subrange(0, i + 1).filter(pred) == (if pred(s[i]) {
            s.subrange(0, i).filter(pred).push(s[i])
        } else {
            s.subrange(0, i).filter(pred)
        }),
{
    reveal(Seq::filter);
    assert(s.subrange(0, i + 1).drop_last() =~= s.subrange(0, i));
}

/// Copies a list of identifiers.
fn copy_ids(v: &Vec<String>) -> (r: Vec<String>)
    ensures
        ids(r@) == ids(v@),
        r@.len() == v@.len(),
        forall|i: int| 0 <= i < v@.len() ==> (#[trigger] r@[i])@ == v@[i]@,
{
    let mut out: Vec<String> = Vec::new();
    let mut i: usize = 0;
    while i < v.len()
        invariant
            i <= v.len(),
            out@.len() == i,
            forall|j: int| 0 <= j < i ==> (#[trigger] out@[j])@ == v@[j]@,
        decreases v.len() - i,
    {
        out.push(v[i].clone());
        i += 1;
    }
    proof {
        assert(ids(out@) =~= ids(v@));
    }
    out
}

impl WorkAdmissionPlanner {
    /// Full mode: every applicable target is admitted.
    pub fn full() -> (r: WorkAdmissionPlanner)
        ensures
            r.mode is Full,
            r.directly_changed@.len() == 0,
            r.transitively_impacted@.len() == 0,
            r.affected_targets@.len() == 0,
    {
        WorkAdmissionPlanner {
            mode: AdmissionMode::Full,
            directly_changed: Vec::new(),
            transitively_impacted: Vec::new(),
            affected_targets: Vec::new(),
        }
    }

    /// A planner with explicit changed and impacted targets; the affected
    /// targets are their union.
    pub fn from_affected(
        mode: AdmissionMode,
        directly_changed: Vec<String>,
        transitively_impacted: Vec<String>,
    ) -> (r: WorkAdmissionPlanner)
        ensures
            r.mode == mode,
            r.directly_changed == directly_changed,
            r.transitively_impacted == transitively_impacted,
            forall|t: Seq<char>|
                listed(r.affected_targets@, t) <==> (listed(directly_changed@, t) || listed(
                    transitively_impacted@,
                    t,
                )),
    {
        let mut affected = copy_ids(&directly_changed);
        proof {
            assert forall|t: Seq<char>| listed(affected@, t) <==> listed(directly_changed@, t) by {
                if listed(affected@, t) {
                    let k = choose|k: int| 0 <= k < affected@.len() && (#[trigger] affected@[k])@ == t;
                    assert(directly_changed@[k]@ == t);
                }
                if listed(directly_changed@, t) {
                    let k = choose|k: int|
                        0 <= k < directly_changed@.len() && (#[trigger] directly_changed@[k])@ == t;
                    assert(affected@[k]@ == t);
                }
            }
        }
        let mut i: usize = 0;
        while i < transitively_impacted.len()
            invariant
                i <= transitively_impacted.len(),
                forall|t: Seq<char>|
                    listed(affected@, t) <==> (listed(directly_changed@, t) || exists|j: int|
                        0 <= j < i && (#[trigger] transitively_impacted@[j])@ == t),
            decreases transitively_impacted.len() - i,
        {
            let ghost before = affected@;
            affected.push(transitively_impacted[i].clone());
            proof {
                assert forall|t: Seq<char>|
                    listed(affected@, t) <==> (listed(directly_changed@, t) || exists|j: int|
                        0 <= j < i + 1 && (#[trigger] transitively_impacted@[j])@ == t) by {
                    if listed(affected@, t) {
                        let k = choose|k: int| 0 <= k < affected@.len() && (#[trigger] affected@[k])@ == t;
                        if k < before.len() {
                            assert(before[k] == affected@[k]);
                            assert(listed(before, t));
                        }
                    }
                    if exists|j: int| 0 <= j < i + 1 && (#[trigger] transitively_impacted@[j])@ == t {
                        let j = choose|j: int| 0 <= j < i + 1 && (#[trigger] transitively_impacted@[j])@ == t;
                        if j == i {
                            assert(affected@[before.len() as int]@ == t);
                        } else {
                            assert(listed(before, t));
                            let k = choose|k: int| 0 <= k < before.len() && (#[trigger] before[k])@ == t;
                            assert(affected@[k] == before[k]);
                        }
                    }
                    if listed(directly_changed@, t) {
                        assert(listed(before, t));
                        let k = choose|k: int| 0 <= k < before.len() && (#[trigger] before[k])@ == t;
                        assert(affected@[k] == before[k]);
                    }
                }
            }
            i += 1;
        }
        WorkAdmissionPlanner { mode, directly_changed, transitively_impacted, affected_targets: affected }
    }

    /// CI-lite mode from an impact analysis.
    pub fn ci_lite(directly_changed: Vec<String>, transitively_impacted: Vec<String>) -> (r:
        WorkAdmissionPlanner)
        ensures
            r.mode is CiLite,
            r.directly_changed == directly_changed,
            r.transitively_impacted == transitively_impacted,
            forall|t: Seq<char>|
                listed(r.affected_targets@, t) <==> (listed(directly_changed@, t) || listed(
                    transitively_impacted@,
                    t,
                )),
    {
        WorkAdmissionPlanner::from_affected(AdmissionMode::CiLite, directly_changed, transitively_impacted)
    }

    /// Targeted mode for an explicit set of targets.
    pub fn targeted(targets: Vec<String>) -> (r: WorkAdmissionPlanner)
        ensures
            r.mode == AdmissionMode::Targeted(targets),
            r.directly_changed@.len() == 0,
            r.transitively_impacted@.len() == 0,
            r.affected_targets@.len() == 0,
    {
        WorkAdmissionPlanner {
            mode: AdmissionMode::Targeted(targets),
            directly_changed: Vec::new(),
            transitively_impacted: Vec::new(),
            affected_targets: Vec::new(),
        }
    }

    /// Whether the planner runs in CI-lite mode.
    pub fn is_ci_lite(&self) -> (r: bool)
        ensures
            r == self.mode is CiLite,
    {
        match self.mode {
            AdmissionMode::CiLite => true,
            _ => false,
        }
    }

    /// The detailed admission decision for one target.
    pub fn evaluate_target(&self, target: &str) -> (r: TargetAdmissionDecision)
        ensures
            r == decision_for(*self, target@),
    {
        match &self.mode {
            AdmissionMode::Full => {
                if contains_text(&self.directly_changed, target) {
                    TargetAdmissionDecision::AdmittedDirectlyChanged
                } else if contains_text(&self.transitively_impacted, target) {
                    TargetAdmissionDecision::AdmittedTransitivelyImpacted
                } else {
                    TargetAdmissionDecision::AdmittedFull
                }
            },
            AdmissionMode::CiLite => {
                if contains_text(&self.directly_changed, target) {
                    TargetAdmissionDecision::AdmittedDirectlyChanged
                } else if contains_text(&self.transitively_impacted, target) {
                    TargetAdmissionDecision::AdmittedTransitivelyImpacted
                } else {
                    TargetAdmissionDecision::FilteredUnaffectedCiLite
                }
            },
            AdmissionMode::Targeted(targets) => {
                if contains_text(targets, target) {
                    TargetAdmissionDecision::AdmittedTargeted
                } else {
                    TargetAdmissionDecision::FilteredNotInTargetedSet
                }
            },
        }
    }

    /// Filters target identifiers by admission, keeping their order, and counts
    /// the pass.
    pub fn filter_target_ids(&self, targets: &Vec<String>) -> (r: (Vec<String>, AdmissionStats))
        ensures
            ids(r.0@) == admitted_of(*self, ids(targets@)),
            r.1.total_evaluated == targets@.len(),
            r.1.admitted == admitted_of(*self, ids(targets@)).len(),
            r.1.filtered_out == count_filtered(*self, ids(targets@)),
            r.1.directly_changed == count_decision(
                *self,
                ids(targets@),
                TargetAdmissionDecision::AdmittedDirectlyChanged,
            ),
            r.1.transitively_impacted == count_decision(
                *self,
                ids(targets@),
                TargetAdmissionDecision::AdmittedTransitivelyImpacted,
            ),
    {
        let ghost all = ids(targets@);
        let ghost p_adm = |t: Seq<char>| admits(decision_for(*self, t));
        let ghost p_out = |t: Seq<char>| !admits(decision_for(*self, t));
        let ghost p_dir = |t: Seq<char>|
            decision_for(*self, t) == TargetAdmissionDecision::AdmittedDirectlyChanged;
        let ghost p_tra = |t: Seq<char>|
            decision_for(*self, t) == TargetAdmissionDecision::AdmittedTransitivelyImpacted;
        let mut admitted: Vec<String> = Vec::new();
        let mut stats = AdmissionStats {
            total_evaluated: targets.len(),
            admitted: 0,
            filtered_out: 0,
            directly_changed: 0,
            transitively_impacted: 0,
        };
        let mut i: usize = 0;
        proof {
            reveal(Seq::filter);
        }
        while i < targets.len()
            invariant
                i <= targets.len(),
                all == ids(targets@),
                p_adm == (|t: Seq<char>| admits(decision_for(*self, t))),
                p_out == (|t: Seq<char>| !admits(decision_for(*self, t))),
                p_dir == (|t: Seq<char>|
                    decision_for(*self, t) == TargetAdmissionDecision::AdmittedDirectlyChanged),
                p_tra == (|t: Seq<char>|
                    decision_for(*self, t) == TargetAdmissionDecision::AdmittedTransitivelyImpacted),
                stats.total_evaluated == targets@.len(),
                ids(admitted@) == all.subrange(0, i as int).filter(p_adm),
                stats.admitted == all.subrange(0, i as int).filter(p_adm).len(),
                stats.filtered_out == all.subrange(0, i as int).filter(p_out).len(),
                stats.directly_changed == all.subrange(0, i as int).filter(p_dir).len(),
                stats.transitively_impacted == all.subrange(0, i as int).filter(p_tra).len(),
                stats.admitted <= i,
                stats.filtered_out <= i,
                stats.directly_changed <= i,
                stats.transitively_impacted <= i,
            decreases targets.len() - i,
        {
            proof {
                lemma_filter_step(all, i as int, p_adm);
                lemma_filter_step(all, i as int, p_out);
                lemma_filter_step(all, i as int, p_dir);
                lemma_filter_step(all, i as int, p_tra);
            }
            let decision = self.evaluate_target(targets[i].as_str());
            proof {
                assert(all[i as int] == targets@[i as int]@);
                assert(p_adm(all[i as int]) == admits(decision));
            }
            if decision.is_admitted() {
                stats.admitted = stats.admitted + 1;
                match decision {
                    TargetAdmissionDecision::AdmittedDirectlyChanged => {
                        stats.directly_changed = stats.directly_changed + 1;
                    },
                    TargetAdmissionDecision::AdmittedTransitivelyImpacted => {
                        stats.transitively_impacted = stats.transitively_impacted + 1;
                    },
                    _ => {},
                }
                let ghost before = admitted@;
                admitted.push(targets[i].clone());
                proof {
                    assert(ids(admitted@) =~= ids(before).push(all[i as int]));
                }
            } else {
                stats.filtered_out = stats.filtered_out + 1;
            }
            i += 1;
        }
        proof {
            assert(all.subrange(0, targets@.len() as int) =~= all);
        }
        (admitted, stats)
    }

    /// Whether the planner admits the target.
    pub fn should_admit_target(&self, target: &str) -> (r: bool)
        ensures
            r == admits(decision_for(*self, target@)),
    {
        self.evaluate_target(target).is_admitted()
    }
}

/// Every evaluated target is either admitted or filtered out, and the
/// directly changed and transitively impacted admissions are among the
/// admitted ones.
pub proof fn law_admission_counts_add_up(p: WorkAdmissionPlanner, ts: Seq<Seq<char>>)
    ensures
        admitted_of(p, ts).len() + count_filtered(p, ts) == ts.len(),
        count_decision(p, ts, TargetAdmissionDecision::AdmittedDirectlyChanged) + count_decision(
            p,
            ts,
            TargetAdmissionDecision::AdmittedTransitivelyImpacted,
        ) <= admitted_of(p, ts).len(),
    decreases ts.len(),
{
    reveal(Seq::filter);
    if ts.len() > 0 {
        law_admission_counts_add_up(p, ts.drop_last());
    }
}

/// In CI-lite mode exactly the affected targets are admitted.
pub proof fn law_ci_lite_admits_exactly_affected(p: WorkAdmissionPlanner, t: Seq<char>)
    requires
        p.mode is CiLite,
        forall|u: Seq<char>|
            listed(p.affected_targets@, u) <==> (listed(p.directly_changed@, u) || listed(
                p.transitively_impacted@,
                u,
            )),
    ensures
        admits(decision_for(p, t)) <==> listed(p.affected_targets@, t),
{
}

/// Full mode admits every target.
pub proof fn law_full_admits_everything(p: WorkAdmissionPlanner, t: Seq<char>)
    requires
        p.mode is Full,
    ensures
        admits(decision_for(p, t)),
{
}

} // verus!
