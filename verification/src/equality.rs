//! Equality and order of staged records.

use vstd::prelude::*;
use vstd::std_specs::cmp::{PartialEqSpecImpl, PartialOrdSpecImpl};
use core::cmp::Ordering;
use crate::entries::IndexEntry;
use crate::text::{lex_lt, str_lt};

verus! {

impl PartialEq for IndexEntry {
    fn eq(&self, other: &IndexEntry) -> (same: bool) {
        self.commit_id == other.commit_id && self.commit_summary == other.commit_summary
    }
}

impl Eq for IndexEntry {

}

impl PartialEqSpecImpl for IndexEntry {
    open spec fn obeys_eq_spec() -> bool {
        true
    }

    /// Two records are equal where both the identifier and the summary
    /// read the same.
    open spec fn eq_spec(&self, other: &IndexEntry) -> bool {
        self.commit_id@ == other.commit_id@ && self.commit_summary@ == other.commit_summary@
    }
}

impl PartialOrd for IndexEntry {
    fn partial_cmp(&self, other: &IndexEntry) -> (order: Option<Ordering>) {
        if str_lt(self.commit_id.as_str(), other.commit_id.as_str()) {
            Some(Ordering::Less)
        } else if self.commit_id == other.commit_id {
            Some(Ordering::Equal)
        } else {
            Some(Ordering::Greater)
        }
    }
}

impl PartialOrdSpecImpl for IndexEntry {
    open spec fn obeys_partial_cmp_spec() -> bool {
        true
    }

    /// Records are ordered by their identifiers alone: two records of one
    /// commit rank the same, whatever their summaries.
    open spec fn partial_cmp_spec(&self, other: &IndexEntry) -> Option<Ordering> {
        if lex_lt(self.commit_id@, other.commit_id@) {
            Some(Ordering::Less)
        } else if self.commit_id@ == other.commit_id@ {
            Some(Ordering::Equal)
        } else {
            Some(Ordering::Greater)
        }
    }
}

} // verus!
