//! The order of two documents as a comparison.

use crate::meta::ArticleMeta;
use crate::query::SortType;
use std::cmp::Ordering;
use vstd::prelude::*;

verus! {

impl SortType {
    /// Compares two documents in this order: `Less` where the first comes
    /// before the second, `Greater` where the second comes before the first,
    /// and `Equal` where neither does.
    pub fn sort_fn(&self, l: &(String, ArticleMeta), r: &(String, ArticleMeta)) -> (o: Ordering)
        ensures
            (o == Ordering::Less) == self.before(l.1@, r.1@),
            (o == Ordering::Greater) == (!self.before(l.1@, r.1@) && self.before(r.1@, l.1@)),
    {
        if self.comes_before(&l.1, &r.1) {
            Ordering::Less
        } else if self.comes_before(&r.1, &l.1) {
            Ordering::Greater
        } else {
            Ordering::Equal
        }
    }
}

} // verus!
