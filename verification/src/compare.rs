//! Comparing timestamps. There are two relations. By meaning, two
//! timestamps compare as their instants do, and one that does not validate
//! compares with nothing, itself included. For sorting, every pair compares:
//! timestamps that do not validate are equal among themselves and come
//! before all that do.

use crate::datetime::{DateTime, Moment};
use crate::time::{validated, Iso8601};
use std::cmp::Ordering;
use vstd::prelude::*;

verus! {

/// How the instants of two moments compare: by the seconds first, then by
/// the nanoseconds. The offsets play no part.
pub open spec fn instant_order(a: Moment, b: Moment) -> Ordering {
    if a.seconds < b.seconds || (a.seconds == b.seconds && a.nanos < b.nanos) {
        Ordering::Less
    } else if a.seconds == b.seconds && a.nanos == b.nanos {
        Ordering::Equal
    } else {
        Ordering::Greater
    }
}

/// How two texts compare by meaning: as their instants do where both
/// validate, and not at all where one does not.
pub open spec fn meaning_order(a: Seq<char>, b: Seq<char>) -> Option<Ordering> {
    match (validated(a), validated(b)) {
        (Ok(x), Ok(y)) => Some(instant_order(x, y)),
        _ => None,
    }
}

/// How two texts compare for sorting: as their instants do where both
/// validate; one that does not validate comes before one that does; two
/// that do not validate are equal.
pub open spec fn sort_order(a: Seq<char>, b: Seq<char>) -> Ordering {
    match (validated(a), validated(b)) {
        (Ok(x), Ok(y)) => instant_order(x, y),
        (Ok(_), Err(_)) => Ordering::Greater,
        (Err(_), Ok(_)) => Ordering::Less,
        (Err(_), Err(_)) => Ordering::Equal,
    }
}

impl DateTime {
    /// Compares the instants of two date-times, whatever their offsets.
    pub fn cmp(&self, other: &DateTime) -> (r: Ordering)
        ensures
            r == instant_order(self@, other@),
    {
        let (a, b) = (self.timestamp(), other.timestamp());
        let (m, n) = (self.timestamp_subsec_nanos(), other.timestamp_subsec_nanos());
        if a < b || (a == b && m < n) {
            Ordering::Less
        } else if a == b && m == n {
            Ordering::Equal
        } else {
            Ordering::Greater
        }
    }
}

impl vstd::std_specs::cmp::PartialEqSpecImpl for DateTime {
    open spec fn obeys_eq_spec() -> bool {
        true
    }

    /// Two date-times are equal when they are the same instant.
    open spec fn eq_spec(&self, other: &DateTime) -> bool {
        instant_order(self@, other@) == Ordering::Equal
    }
}

impl PartialEq for DateTime {
    fn eq(&self, other: &DateTime) -> (r: bool) {
        self.timestamp() == other.timestamp() && self.timestamp_subsec_nanos()
            == other.timestamp_subsec_nanos()
    }
}

impl vstd::std_specs::cmp::PartialOrdSpecImpl for DateTime {
    open spec fn obeys_partial_cmp_spec() -> bool {
        true
    }

    open spec fn partial_cmp_spec(&self, other: &DateTime) -> Option<Ordering> {
        Some(instant_order(self@, other@))
    }
}

impl PartialOrd for DateTime {
    fn partial_cmp(&self, other: &DateTime) -> (r: Option<Ordering>) {
        Some(self.cmp(other))
    }
}

impl vstd::std_specs::cmp::PartialEqSpecImpl for Iso8601 {
    open spec fn obeys_eq_spec() -> bool {
        true
    }

    /// Two timestamps are equal when both validate, to the same instant.
    open spec fn eq_spec(&self, rhs: &Iso8601) -> bool {
        meaning_order(self@, rhs@) == Some(Ordering::Equal)
    }
}

impl PartialEq for Iso8601 {
    fn eq(&self, rhs: &Iso8601) -> (r: bool) {
        match DateTime::try_from(self) {
            Ok(lhs) => match DateTime::try_from(rhs) {
                Ok(rhs) => lhs.eq(&rhs),
                Err(_) => false,
            },
            Err(_) => false,
        }
    }
}

impl vstd::std_specs::cmp::PartialOrdSpecImpl for Iso8601 {
    open spec fn obeys_partial_cmp_spec() -> bool {
        true
    }

    open spec fn partial_cmp_spec(&self, rhs: &Iso8601) -> Option<Ordering> {
        meaning_order(self@, rhs@)
    }
}

impl PartialOrd for Iso8601 {
    fn partial_cmp(&self, rhs: &Iso8601) -> (r: Option<Ordering>) {
        match DateTime::try_from(self) {
            Ok(lhs) => match DateTime::try_from(rhs) {
                Ok(rhs) => lhs.partial_cmp(&rhs),
                Err(_) => None,
            },
            Err(_) => None,
        }
    }
}

impl Iso8601 {
    /// Compares two timestamps for sorting.
    pub fn cmp(&self, rhs: &Iso8601) -> (r: Ordering)
        ensures
            r == sort_order(self@, rhs@),
    {
        match DateTime::try_from(self) {
            Ok(lhs) => match DateTime::try_from(rhs) {
                Ok(rhs) => lhs.cmp(&rhs),
                Err(_) => Ordering::Greater,
            },
            Err(_) => match DateTime::try_from(rhs) {
                Ok(_) => Ordering::Less,
                Err(_) => Ordering::Equal,
            },
        }
    }
}

/// An ordering read from the other side.
pub open spec fn reversed(o: Ordering) -> Ordering {
    match o {
        Ordering::Less => Ordering::Greater,
        Ordering::Equal => Ordering::Equal,
        Ordering::Greater => Ordering::Less,
    }
}

/// The order for sorting is total: every text is equal to itself, and two
/// texts compare one way round as the reverse of the other way round.
pub proof fn law_sort_order_is_total(a: Seq<char>, b: Seq<char>)
    ensures
        sort_order(a, a) == Ordering::Equal,
        sort_order(b, a) == reversed(sort_order(a, b)),
{
}

/// The order for sorting is transitive: where `a` is not behind `b` and `b`
/// not behind `c`, `a` is not behind `c`; and `a` is before `c` where one
/// of the two is strictly so.
pub proof fn law_sort_order_is_transitive(a: Seq<char>, b: Seq<char>, c: Seq<char>)
    requires
        sort_order(a, b) != Ordering::Greater,
        sort_order(b, c) != Ordering::Greater,
    ensures
        sort_order(a, c) != Ordering::Greater,
        sort_order(a, b) == Ordering::Less || sort_order(b, c) == Ordering::Less ==> sort_order(
            a,
            c,
        ) == Ordering::Less,
{
}

/// For sorting, a text that does not validate comes before every text that
/// does, and is equal to every text that does not.
pub proof fn law_unvalidated_sorts_first(a: Seq<char>, b: Seq<char>)
    requires
        validated(a) is Err,
    ensures
        validated(b) is Ok ==> sort_order(a, b) == Ordering::Less && sort_order(b, a)
            == Ordering::Greater,
        validated(b) is Err ==> sort_order(a, b) == Ordering::Equal,
{
}

/// By meaning, a text that does not validate compares with nothing: it is
/// neither equal to any text, itself included, nor before or behind one.
pub proof fn law_unvalidated_equals_nothing(a: Seq<char>, b: Seq<char>)
    requires
        validated(a) is Err,
    ensures
        meaning_order(a, b) is None,
        meaning_order(b, a) is None,
        meaning_order(a, a) is None,
{
}

/// Two texts that validate to the same instant are equal, by meaning and
/// for sorting, whatever their offsets from UTC and however they are
/// written.
pub proof fn law_equality_ignores_offset(a: Seq<char>, b: Seq<char>)
    requires
        validated(a) is Ok,
        validated(b) is Ok,
        validated(a)->Ok_0.seconds == validated(b)->Ok_0.seconds,
        validated(a)->Ok_0.nanos == validated(b)->Ok_0.nanos,
    ensures
        meaning_order(a, b) == Some(Ordering::Equal),
        sort_order(a, b) == Ordering::Equal,
{
}

/// Where two texts compare by meaning, they compare the same way for
/// sorting.
pub proof fn law_orders_agree(a: Seq<char>, b: Seq<char>)
    ensures
        meaning_order(a, b) matches Some(o) ==> sort_order(a, b) == o,
{
}

} // verus!
