//! Chronological order on dates.
use vstd::prelude::*;
use vstd::std_specs::cmp::PartialOrdSpecImpl;
use core::cmp::Ordering;
use crate::date::{Date, date_lt};

verus! {

/// Compares year, then month, then day.
pub open spec fn date_order(a: &Date, b: &Date) -> Ordering {
    if date_lt(*a, *b) {
        Ordering::Less
    } else if *a == *b {
        Ordering::Equal
    } else {
        Ordering::Greater
    }
}

impl PartialOrd for Date {
    fn partial_cmp(&self, other: &Date) -> (r: Option<Ordering>) {
        if self.year != other.year {
            if self.year < other.year {
                Some(Ordering::Less)
            } else {
                Some(Ordering::Greater)
            }
        } else if self.month != other.month {
            if self.month < other.month {
                Some(Ordering::Less)
            } else {
                Some(Ordering::Greater)
            }
        } else if self.day < other.day {
            Some(Ordering::Less)
        } else if self.day == other.day {
            Some(Ordering::Equal)
        } else {
            Some(Ordering::Greater)
        }
    }
}

impl PartialOrdSpecImpl for Date {
    open spec fn obeys_partial_cmp_spec() -> bool {
        true
    }

    open spec fn partial_cmp_spec(&self, other: &Date) -> Option<Ordering> {
        Some(date_order(self, other))
    }
}

} // verus!
