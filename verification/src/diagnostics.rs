//! The latest failure message of each workflow run, kept so that a worker
//! can explain why a run did not complete.
use crate::json::text_eq;
use vstd::prelude::*;
use vstd::string::*;

verus! {

/// The latest failure message recorded for each run.
#[derive(Debug)]
pub struct WorkflowFailureDiagnostics {
    failures: Vec<(String, String)>,
}

/// No run is listed twice.
pub open spec fn runs_distinct(entries: Seq<(String, String)>) -> bool {
    forall|i: int, j: int|
        0 <= i < j < entries.len() ==> (#[trigger] entries[i]).0@ != (#[trigger] entries[j]).0@
}

/// Some entry is for the run.
pub open spec fn has_run(entries: Seq<(String, String)>, run: Seq<char>) -> bool {
    exists|i: int| 0 <= i < entries.len() && (#[trigger] entries[i]).0@ == run
}

/// The map of the entries: each run to its message.
pub open spec fn entries_map(entries: Seq<(String, String)>) -> Map<Seq<char>, Seq<char>> {
    Map::new(
        |k: Seq<char>| has_run(entries, k),
        |k: Seq<char>| entries[choose|i: int| 0 <= i < entries.len() && (#[trigger] entries[i]).0@ == k].1@,
    )
}

/// With distinct runs, the message of the run at position `i` is the one
/// the map gives for it.
proof fn lemma_entry_value(entries: Seq<(String, String)>, i: int)
    requires
        runs_distinct(entries),
        0 <= i < entries.len(),
    ensures
        entries_map(entries).contains_key(entries[i].0@),
        entries_map(entries)[entries[i].0@] == entries[i].1@,
{
    let k = entries[i].0@;
    assert(has_run(entries, k));
    let j = choose|j: int| 0 <= j < entries.len() && (#[trigger] entries[j]).0@ == k;
    if j != i {
        if j < i {
            assert(entries[j].0@ != entries[i].0@);
        } else {
            assert(entries[i].0@ != entries[j].0@);
        }
    }
}

impl WorkflowFailureDiagnostics {
    #[verifier::type_invariant]
    spec fn runs_unique(self) -> bool {
        runs_distinct(self.failures@)
    }

    /// The message recorded for each run.
    pub closed spec fn view(self) -> Map<Seq<char>, Seq<char>> {
        entries_map(self.failures@)
    }

    /// No failure recorded yet.
    pub fn new() -> (r: Self)
        ensures
            r.view() == Map::<Seq<char>, Seq<char>>::empty(),
    {
        let r = WorkflowFailureDiagnostics { failures: Vec::new() };
        proof {
            assert(entries_map(r.failures@) =~= Map::<Seq<char>, Seq<char>>::empty());
        }
        r
    }

    fn position(&self, run_id: &str) -> (r: Option<usize>)
        ensures
            match r {
                Some(i) => i < self.failures@.len() && self.failures@[i as int].0@ == run_id@,
                None => !has_run(self.failures@, run_id@),
            },
    {
        let mut i: usize = 0;
        while i < self.failures.len()
            invariant
                i <= self.failures@.len(),
                forall|k: int| 0 <= k < i ==> (#[trigger] self.failures@[k]).0@ != run_id@,
            decreases self.failures.len() - i,
        {
            if text_eq(self.failures[i].0.as_str(), run_id) {
                return Some(i);
            }
            i += 1;
        }
        None
    }

    /// Records the latest failure message of a run, replacing an earlier one.
    pub fn record(&mut self, run_id: &str, message: String)
        ensures
            final(self).view() == old(self).view().insert(run_id@, message@),
    {
        proof {
            use_type_invariant(&*self);
        }
        let ghost before = self.failures@;
        let entry = (run_id.to_owned(), message);
        let ghost e = entry;
        let found = self.position(run_id);
        let mut failures: Vec<(String, String)> = Vec::new();
        std::mem::swap(&mut failures, &mut self.failures);
        match found {
            Some(i) => {
                failures.set(i, entry);
                proof {
                    let after = failures@;
                    assert(after == before.update(i as int, e));
                    assert forall|k: Seq<char>| has_run(after, k) == (has_run(before, k) || k == run_id@) by {
                        if has_run(before, k) {
                            let j = choose|j: int| 0 <= j < before.len() && (#[trigger] before[j]).0@ == k;
                            assert(after[j].0@ == k);
                        }
                        if has_run(after, k) {
                            let j = choose|j: int| 0 <= j < after.len() && (#[trigger] after[j]).0@ == k;
                            if j != i {
                                assert(before[j].0@ == k);
                            }
                        }
                        if k == run_id@ {
                            assert(after[i as int].0@ == k);
                        }
                    }
                    assert forall|k: Seq<char>| has_run(after, k) implies entries_map(after)[k] == (if k
                        == run_id@ {
                        message@
                    } else {
                        entries_map(before)[k]
                    }) by {
                        let j = choose|j: int| 0 <= j < after.len() && (#[trigger] after[j]).0@ == k;
                        lemma_entry_value(after, j);
                        if j != i {
                            assert(before[j] == after[j]);
                            lemma_entry_value(before, j);
                        }
                    }
                    assert(entries_map(after) =~= entries_map(before).insert(run_id@, message@));
                }
            },
            None => {
                failures.push(entry);
                proof {
                    let after = failures@;
                    assert(after == before.push(e));
                    assert forall|k: Seq<char>| has_run(after, k) == (has_run(before, k) || k == run_id@) by {
                        if has_run(before, k) {
                            let j = choose|j: int| 0 <= j < before.len() && (#[trigger] before[j]).0@ == k;
                            assert(after[j].0@ == k);
                        }
                        if has_run(after, k) {
                            let j = choose|j: int| 0 <= j < after.len() && (#[trigger] after[j]).0@ == k;
                            if j < before.len() {
                                assert(before[j].0@ == k);
                            }
                        }
                        if k == run_id@ {
                            assert(after[before.len() as int].0@ == k);
                        }
                    }
                    assert forall|k: Seq<char>| has_run(after, k) implies entries_map(after)[k] == (if k
                        == run_id@ {
                        message@
                    } else {
                        entries_map(before)[k]
                    }) by {
                        let j = choose|j: int| 0 <= j < after.len() && (#[trigger] after[j]).0@ == k;
                        lemma_entry_value(after, j);
                        if j < before.len() {
                            assert(before[j] == after[j]);
                            lemma_entry_value(before, j);
                        }
                    }
                    assert(entries_map(after) =~= entries_map(before).insert(run_id@, message@));
                }
            },
        }
        proof {
            assert forall|a: int, b: int| 0 <= a < b < failures@.len() implies (#[trigger] failures@[a]).0@
                != (#[trigger] failures@[b]).0@ by {
                if a < before.len() && b < before.len() && failures@[a] == before[a] && failures@[b]
                    == before[b] {
                } else {
                    assert(failures@[a].0@ == run_id@ || failures@[b].0@ == run_id@);
                }
            }
        }
        self.failures = failures;
    }

    /// The latest failure message recorded for a run.
    pub fn get(&self, run_id: &str) -> (r: Option<String>)
        ensures
            r is Some <==> self.view().contains_key(run_id@),
            r is Some ==> r->Some_0@ == self.view()[run_id@],
    {
        proof {
            use_type_invariant(self);
        }
        match self.position(run_id) {
            Some(i) => {
                proof {
                    lemma_entry_value(self.failures@, i as int);
                }
                Some(self.failures[i].1.clone())
            },
            None => None,
        }
    }
}

/// What is recorded for a run is what is read back for it, and recording
/// for one run leaves what is read for every other run unchanged.
pub proof fn law_read_after_record(
    before: Map<Seq<char>, Seq<char>>,
    after: Map<Seq<char>, Seq<char>>,
    run: Seq<char>,
    message: Seq<char>,
    other: Seq<char>,
)
    requires
        after == before.insert(run, message),
    ensures
        after.contains_key(run) && after[run] == message,
        other != run ==> (after.contains_key(other) == before.contains_key(other)),
        other != run && before.contains_key(other) ==> after[other] == before[other],
{
}

} // verus!
