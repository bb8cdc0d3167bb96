//! Stored public trades compare by their timestamps alone.
use vstd::prelude::*;
use core::cmp::Ordering;
use crate::sandbox::queries_operations::ClickhousePublicTrade;

verus! {

impl PartialEq for ClickhousePublicTrade {
    fn eq(&self, other: &Self) -> (r: bool) {
        self.timestamp == other.timestamp
    }
}

impl vstd::std_specs::cmp::PartialEqSpecImpl for ClickhousePublicTrade {
    open spec fn obeys_eq_spec() -> bool {
        true
    }

    /// Two trades are equal when they have the same timestamp.
    open spec fn eq_spec(&self, other: &Self) -> bool {
        self.timestamp == other.timestamp
    }
}

impl PartialOrd for ClickhousePublicTrade {
    fn partial_cmp(&self, other: &Self) -> (r: Option<Ordering>) {
        if self.timestamp < other.timestamp {
            Some(Ordering::Less)
        } else if self.timestamp == other.timestamp {
            Some(Ordering::Equal)
        } else {
            Some(Ordering::Greater)
        }
    }
}

impl vstd::std_specs::cmp::PartialOrdSpecImpl for ClickhousePublicTrade {
    open spec fn obeys_partial_cmp_spec() -> bool {
        true
    }

    /// Trades are ordered by timestamp, earliest first.
    open spec fn partial_cmp_spec(&self, other: &Self) -> Option<Ordering> {
        if self.timestamp < other.timestamp {
            Some(Ordering::Less)
        } else if self.timestamp == other.timestamp {
            Some(Ordering::Equal)
        } else {
            Some(Ordering::Greater)
        }
    }
}

} // verus!
