//! Sets of texts kept as strictly increasing lists, so that they are walked in
//! the same order as an ordered set of strings.
use crate::json::text_eq;
use crate::order::{lemma_text_lt_total, lemma_text_lt_trans, text_less, text_lt};
use vstd::prelude::*;
use vstd::string::*;

verus! {

/// The texts of a list of strings.
pub open spec fn views(v: Seq<String>) -> Seq<Seq<char>> {
    v.map_values(|s: String| s@)
}

/// The texts of a list with one more string are the texts with its text.
pub proof fn lemma_views_push(v: Seq<String>, s: String)
    ensures
        views(v.push(s)) == views(v).push(s@),
{
    assert(views(v.push(s)) =~= views(v).push(s@));
}

/// Each text sorts strictly before the next.
pub open spec fn strictly_sorted(s: Seq<Seq<char>>) -> bool {
    forall|i: int, j: int| 0 <= i < j < s.len() ==> text_lt(#[trigger] s[i], #[trigger] s[j])
}

/// A list of strings that represents a set: strictly increasing.
pub open spec fn is_text_set(v: Seq<String>) -> bool {
    strictly_sorted(views(v))
}

/// A strictly increasing list holds no text twice.
pub proof fn lemma_sorted_no_duplicates(s: Seq<Seq<char>>)
    requires
        strictly_sorted(s),
    ensures
        s.no_duplicates(),
{
    assert forall|i: int, j: int| 0 <= i < s.len() && 0 <= j < s.len() && i != j implies s[i]
        != s[j] by {
        if i < j {
            lemma_text_lt_total(s[i], s[j]);
        } else {
            lemma_text_lt_total(s[j], s[i]);
        }
    }
}

/// A text set has as many entries as its texts form a set of, and so no more
/// than any finite set that holds them all.
pub proof fn lemma_text_set_len(v: Seq<String>, bound: Set<Seq<char>>)
    requires
        is_text_set(v),
        bound.finite(),
        views(v).to_set().subset_of(bound),
    ensures
        v.len() == views(v).to_set().len(),
        v.len() <= bound.len(),
{
    lemma_sorted_no_duplicates(views(v));
    views(v).unique_seq_to_set();
    vstd::set_lib::lemma_len_subset(views(v).to_set(), bound);
}

/// Whether the text occurs in the list.
pub fn set_contains(v: &Vec<String>, s: &str) -> (r: bool)
    ensures
        r == views(v@).contains(s@),
{
    let mut i: usize = 0;
    while i < v.len()
        invariant
            i <= v.len(),
            forall|j: int| 0 <= j < i ==> (#[trigger] v@[j])@ != s@,
        decreases v.len() - i,
    {
        if text_eq(v[i].as_str(), s) {
            proof {
                assert(views(v@)[i as int] == s@);
            }
            return true;
        }
        i += 1;
    }
    proof {
        assert forall|j: int| 0 <= j < views(v@).len() implies views(v@)[j] != s@ by {
            assert(views(v@)[j] == v@[j]@);
        }
    }
    false
}

/// Adds a text to a text set, keeping it strictly increasing; tells whether
/// it was new.
pub fn set_insert(v: &mut Vec<String>, s: &str) -> (inserted: bool)
    requires
        is_text_set(old(v)@),
    ensures
        is_text_set(final(v)@),
        views(final(v)@).to_set() == views(old(v)@).to_set().insert(s@),
        inserted == !views(old(v)@).contains(s@),
        final(v)@.len() == old(v)@.len() + (if inserted {
            1int
        } else {
            0int
        }),
{
    let ghost before = views(v@);
    let mut j: usize = 0;
    while j < v.len() && text_less(v[j].as_str(), s)
        invariant
            j <= v.len(),
            before == views(v@),
            forall|k: int| 0 <= k < j ==> text_lt((#[trigger] v@[k])@, s@),
        decreases v.len() - j,
    {
        j += 1;
    }
    if j < v.len() && text_eq(v[j].as_str(), s) {
        proof {
            assert(before[j as int] == s@);
            assert(before.to_set() =~= before.to_set().insert(s@));
        }
        return false;
    }
    proof {
        if j < v.len() {
            lemma_text_lt_total(v@[j as int]@, s@);
        }
        assert forall|k: int| 0 <= k < before.len() implies before[k] != s@ by {
            assert(before[k] == v@[k]@);
            if k < j {
                lemma_text_lt_total(v@[k]@, s@);
            } else if k > j {
                assert(text_lt(before[j as int], before[k]));
                lemma_text_lt_trans(s@, v@[j as int]@, v@[k]@);
                lemma_text_lt_total(s@, v@[k]@);
            }
        }
    }
    v.insert(j, s.to_owned());
    proof {
        let after = views(v@);
        assert(after.len() == before.len() + 1);
        assert forall|k: int| 0 <= k < after.len() implies after[k] == (if k < j {
            before[k]
        } else if k == j {
            s@
        } else {
            before[k - 1]
        }) by {}
        assert forall|a: int, b: int| 0 <= a < b < after.len() implies text_lt(
            #[trigger] after[a],
            #[trigger] after[b],
        ) by {
            if a < j && b == j {
            } else if a < j && b > j {
                if j < before.len() {
                    lemma_text_lt_trans(after[a], s@, before[j as int]);
                    if b - 1 > j {
                        lemma_text_lt_trans(after[a], before[j as int], before[b - 1]);
                    }
                }
            } else if a == j {
                if b - 1 > j {
                    lemma_text_lt_trans(s@, before[j as int], before[b - 1]);
                }
            } else if a > j {
                assert(text_lt(before[a - 1], before[b - 1]));
            } else {
                assert(text_lt(before[a], before[b]));
            }
        }
        assert forall|x: Seq<char>| after.to_set().contains(x) <==> before.to_set().insert(
            s@,
        ).contains(x) by {
            if after.contains(x) {
                let k = choose|k: int| 0 <= k < after.len() && after[k] == x;
                if k < j {
                    assert(before[k] == x);
                } else if k > j {
                    assert(before[k - 1] == x);
                }
            }
            if before.contains(x) {
                let k = choose|k: int| 0 <= k < before.len() && before[k] == x;
                if k < j {
                    assert(after[k] == x);
                } else {
                    assert(after[k + 1] == x);
                }
            }
            if x == s@ {
                assert(after[j as int] == x);
            }
        }
        assert(after.to_set() =~= before.to_set().insert(s@));
    }
    true
}

/// The position of a text in a list, if it occurs.
pub fn set_index(v: &Vec<String>, s: &str) -> (r: Option<usize>)
    ensures
        match r {
            Some(i) => i < v@.len() && v@[i as int]@ == s@,
            None => !views(v@).contains(s@),
        },
{
    let mut i: usize = 0;
    while i < v.len()
        invariant
            i <= v.len(),
            forall|j: int| 0 <= j < i ==> (#[trigger] v@[j])@ != s@,
        decreases v.len() - i,
    {
        if text_eq(v[i].as_str(), s) {
            return Some(i);
        }
        i += 1;
    }
    proof {
        assert forall|j: int| 0 <= j < views(v@).len() implies views(v@)[j] != s@ by {
            assert(views(v@)[j] == v@[j]@);
        }
    }
    None
}

/// A copy of a list of strings.
pub fn copy_texts(v: &Vec<String>) -> (r: Vec<String>)
    ensures
        r@ == v@,
{
    let mut r: Vec<String> = Vec::new();
    let mut i: usize = 0;
    while i < v.len()
        invariant
            i <= v.len(),
            r@ == v@.subrange(0, i as int),
        decreases v.len() - i,
    {
        r.push(v[i].clone());
        proof {
            assert(v@.subrange(0, i + 1) =~= v@.subrange(0, i as int).push(v@[i as int]));
        }
        i += 1;
    }
    proof {
        assert(v@.subrange(0, v@.len() as int) =~= v@);
    }
    r
}

/// No text occurs twice.
pub open spec fn all_distinct(keys: Seq<Seq<char>>) -> bool {
    forall|i: int, j: int| 0 <= i < j < keys.len() ==> #[trigger] keys[i] != #[trigger] keys[j]
}

/// Positions ordering the keys strictly: each position once, in strictly
/// increasing order of key.
pub open spec fn orders(keys: Seq<Seq<char>>, order: Seq<usize>) -> bool {
    &&& order.len() == keys.len()
    &&& forall|a: int| 0 <= a < order.len() ==> (#[trigger] order[a]) < keys.len()
    &&& forall|a: int, b: int|
        0 <= a < b < order.len() ==> text_lt(keys[(#[trigger] order[a]) as int], keys[(#[trigger] order[b]) as int])
    &&& forall|q: int| 0 <= q < keys.len() ==> #[trigger] order.contains(q as usize)
}

/// The positions of the keys in increasing order of key, or `None` when a
/// key repeats.
#[verifier::loop_isolation(false)]
pub fn sorted_positions(keys: &Vec<String>) -> (r: Option<Vec<usize>>)
    ensures
        r is Some <==> all_distinct(views(keys@)),
        r is Some ==> orders(views(keys@), r->Some_0@),
{
    let ghost k = views(keys@);
    let n = keys.len();
    let mut out: Vec<usize> = Vec::new();
    let mut i: usize = 0;
    while i < keys.len()
        invariant
            i <= n,
            n == keys@.len(),
            k == views(keys@),
            out@.len() == i,
            forall|a: int| 0 <= a < out@.len() ==> (#[trigger] out@[a]) < i,
            forall|a: int, b: int|
                0 <= a < b < out@.len() ==> text_lt(k[(#[trigger] out@[a]) as int], k[(#[trigger] out@[b]) as int]),
            forall|q: int| 0 <= q < i ==> #[trigger] out@.contains(q as usize),
            all_distinct(k.subrange(0, i as int)),
        decreases n - i,
    {
        let key = keys[i].as_str();
        proof {
            assert(k[i as int] == key@);
        }
        let mut j: usize = 0;
        while j < out.len() && text_less(keys[out[j]].as_str(), key)
            invariant
                j <= out@.len(),
                forall|a: int| 0 <= a < j ==> text_lt(k[(#[trigger] out@[a]) as int], key@),
            decreases out.len() - j,
        {
            proof {
                assert(k[out@[j as int] as int] == keys@[out@[j as int] as int]@);
            }
            j += 1;
        }
        if j < out.len() && text_eq(keys[out[j]].as_str(), key) {
            proof {
                let p = out@[j as int] as int;
                assert(k[p] == key@);
                assert(k.subrange(0, i + 1)[p] == k.subrange(0, i + 1)[i as int]);
                assert(!all_distinct(k));
            }
            return None;
        }
        proof {
            if j < out@.len() {
                assert(k[out@[j as int] as int] == keys@[out@[j as int] as int]@);
                lemma_text_lt_total(k[out@[j as int] as int], key@);
            }
            assert forall|a: int| 0 <= a < out@.len() implies k[(#[trigger] out@[a]) as int] != key@ by {
                if a < j {
                    lemma_text_lt_total(k[out@[a] as int], key@);
                } else if a > j {
                    lemma_text_lt_trans(key@, k[out@[j as int] as int], k[out@[a] as int]);
                    lemma_text_lt_total(key@, k[out@[a] as int]);
                }
            }
            assert forall|a: int, b: int| 0 <= a < b < i + 1 implies #[trigger] k.subrange(0, i + 1)[a]
                != #[trigger] k.subrange(0, i + 1)[b] by {
                if b == i {
                    assert(out@.contains(a as usize));
                    let m = choose|m: int| 0 <= m < out@.len() && out@[m] == a as usize;
                    assert(k[out@[m] as int] != key@);
                } else {
                    assert(k.subrange(0, i as int)[a] != k.subrange(0, i as int)[b]);
                }
            }
        }
        let ghost before = out@;
        out.insert(j, i);
        proof {
            assert forall|a: int| 0 <= a < out@.len() implies out@[a] == (if a < j {
                before[a]
            } else if a == j {
                i
            } else {
                before[a - 1]
            }) by {}
            assert forall|a: int, b: int|
                0 <= a < b < out@.len() implies text_lt(k[(#[trigger] out@[a]) as int], k[(#[trigger] out@[b]) as int]) by {
                if a < j && b == j {
                } else if a < j && b > j {
                    if j < before.len() {
                        lemma_text_lt_trans(k[before[a] as int], key@, k[before[j as int] as int]);
                        if b - 1 > j {
                            lemma_text_lt_trans(k[before[a] as int], k[before[j as int] as int], k[before[b - 1] as int]);
                        }
                    }
                } else if a == j {
                    if b - 1 > j {
                        lemma_text_lt_trans(key@, k[before[j as int] as int], k[before[b - 1] as int]);
                    }
                } else if a > j {
                    assert(text_lt(k[before[a - 1] as int], k[before[b - 1] as int]));
                } else {
                    assert(text_lt(k[before[a] as int], k[before[b] as int]));
                }
            }
            assert forall|q: int| 0 <= q < i + 1 implies #[trigger] out@.contains(q as usize) by {
                if q < i {
                    assert(before.contains(q as usize));
                    let m = choose|m: int| 0 <= m < before.len() && before[m] == q as usize;
                    if m < j {
                        assert(out@[m] == q as usize);
                    } else {
                        assert(out@[m + 1] == q as usize);
                    }
                } else {
                    assert(out@[j as int] == q as usize);
                }
            }
        }
        i += 1;
    }
    proof {
        assert(k.subrange(0, n as int) =~= k);
    }
    Some(out)
}

} // verus!
