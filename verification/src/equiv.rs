//! Value equality for the library's records, stated over their contents.
use crate::json::{Json, json_eq, same, text_eq};
use vstd::prelude::*;

verus! {

/// Types whose values can be compared by content.
pub trait Same: Sized {
    /// The two values hold the same content.
    spec fn same_as(&self, other: &Self) -> bool;

    /// Compares two values by content.
    fn eq_to(&self, other: &Self) -> (r: bool)
        ensures
            r == self.same_as(other),
    ;
}

impl Same for String {
    open spec fn same_as(&self, other: &Self) -> bool {
        self@ == other@
    }

    fn eq_to(&self, other: &Self) -> (r: bool) {
        text_eq(self.as_str(), other.as_str())
    }
}

impl Same for Json {
    open spec fn same_as(&self, other: &Self) -> bool {
        same(*self, *other)
    }

    fn eq_to(&self, other: &Self) -> (r: bool) {
        json_eq(self, other)
    }
}

impl<T: Same> Same for Option<T> {
    open spec fn same_as(&self, other: &Self) -> bool {
        match (self, other) {
            (Some(a), Some(b)) => a.same_as(b),
            (None, None) => true,
            _ => false,
        }
    }

    fn eq_to(&self, other: &Self) -> (r: bool) {
        match (self, other) {
            (Some(a), Some(b)) => a.eq_to(b),
            (None, None) => true,
            _ => false,
        }
    }
}

/// `prefix` is, element by element, the beginning of `whole`.
pub open spec fn starts_with<T: Same>(whole: Seq<T>, prefix: Seq<T>) -> bool {
    &&& prefix.len() <= whole.len()
    &&& forall|i: int| 0 <= i < prefix.len() ==> #[trigger] prefix[i].same_as(&whole[i])
}

/// The two lists hold the same elements in the same order.
pub open spec fn all_same<T: Same>(a: Seq<T>, b: Seq<T>) -> bool {
    &&& a.len() == b.len()
    &&& forall|i: int| 0 <= i < a.len() ==> #[trigger] a[i].same_as(&b[i])
}

/// Whether `whole` begins with `prefix`.
pub fn vec_starts_with<T: Same>(whole: &Vec<T>, prefix: &Vec<T>) -> (r: bool)
    ensures
        r == starts_with(whole@, prefix@),
{
    if prefix.len() > whole.len() {
        return false;
    }
    let mut i: usize = 0;
    while i < prefix.len()
        invariant
            i <= prefix.len(),
            prefix.len() <= whole.len(),
            forall|j: int| 0 <= j < i ==> #[trigger] prefix@[j].same_as(&whole@[j]),
        decreases prefix.len() - i,
    {
        if !prefix[i].eq_to(&whole[i]) {
            return false;
        }
        i += 1;
    }
    true
}

/// Whether two lists hold the same elements in order.
pub fn vec_same<T: Same>(a: &Vec<T>, b: &Vec<T>) -> (r: bool)
    ensures
        r == all_same(a@, b@),
{
    if a.len() != b.len() {
        return false;
    }
    vec_starts_with(b, a)
}

/// Whether a text occurs in a list.
pub fn contains_text(list: &Vec<String>, item: &str) -> (r: bool)
    ensures
        r == exists|i: int| 0 <= i < list@.len() && (#[trigger] list@[i])@ == item@,
{
    let mut i: usize = 0;
    while i < list.len()
        invariant
            i <= list.len(),
            forall|j: int| 0 <= j < i ==> (#[trigger] list@[j])@ != item@,
        decreases list.len() - i,
    {
        if text_eq(list[i].as_str(), item) {
            return true;
        }
        i += 1;
    }
    false
}

} // verus!
