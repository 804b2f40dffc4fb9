//! The permissive pattern: which texts it matches, and the fields it takes
//! out of them.
//!
//! A text matches when it is made of, in this order: white space; a year of
//! four digits; optionally `-`, a month, `-`, a day, each of which may be
//! left out; optionally a time of day, behind a `T` or white space; white
//! space; optionally a zone designator; white space. Where the characters
//! behind the year can be read in more than one way, the readings are tried
//! in a fixed order and the first under which the whole text matches counts.

use crate::chars::{is_digit, is_space};
use crate::fields::{
    all_digits, is_day, is_hour, is_minute, is_month, is_second, FieldsView, TimeOfDayView,
    ZoneView,
};
use vstd::prelude::*;

verus! {

/// The Unicode minus sign, which a zone designator may hold for a hyphen.
pub const MINUS_SIGN: char = '\u{2212}';

/// Whether `n` characters stand at `p` in `s`.
pub open spec fn spans(s: Seq<char>, p: int, n: int) -> bool {
    0 <= p && p + n <= s.len()
}

/// Whether the character `c` stands at `p` in `s`.
pub open spec fn at(s: Seq<char>, p: int, c: char) -> bool {
    0 <= p < s.len() && s[p] == c
}

/// The first position from `p` on that holds no white space.
pub open spec fn spaces_end(s: Seq<char>, p: int) -> int
    decreases s.len() - p,
{
    if 0 <= p < s.len() && is_space(s[p]) {
        spaces_end(s, p + 1)
    } else {
        p
    }
}

/// The first position from `p` on that holds no digit.
pub open spec fn digits_end(s: Seq<char>, p: int) -> int
    decreases s.len() - p,
{
    if 0 <= p < s.len() && is_digit(s[p]) {
        digits_end(s, p + 1)
    } else {
        p
    }
}

/// Whether two digits stand at `p`.
pub open spec fn two_digits_at(s: Seq<char>, p: int) -> bool {
    spans(s, p, 2) && is_digit(s[p]) && is_digit(s[p + 1])
}

/// Whether a year stands at `p`: four digits.
pub open spec fn year_at(s: Seq<char>, p: int) -> bool {
    two_digits_at(s, p) && two_digits_at(s, p + 2)
}

/// Whether a month stands at `p`.
pub open spec fn month_at(s: Seq<char>, p: int) -> bool {
    spans(s, p, 2) && is_month(s[p], s[p + 1])
}

/// Whether a day of the month stands at `p`.
pub open spec fn day_at(s: Seq<char>, p: int) -> bool {
    spans(s, p, 2) && is_day(s[p], s[p + 1])
}

/// Whether an hour stands at `p`.
pub open spec fn hour_at(s: Seq<char>, p: int) -> bool {
    spans(s, p, 2) && is_hour(s[p], s[p + 1])
}

/// Whether a minute stands at `p`.
pub open spec fn minute_at(s: Seq<char>, p: int) -> bool {
    spans(s, p, 2) && is_minute(s[p], s[p + 1])
}

/// Whether a second stands at `p`.
pub open spec fn second_at(s: Seq<char>, p: int) -> bool {
    spans(s, p, 2) && is_second(s[p], s[p + 1])
}

/// Whether `c` opens an offset from UTC: `+`, `-` or the minus sign.
pub open spec fn is_sign(c: char) -> bool {
    c == '+' || c == '-' || c == MINUS_SIGN
}

/// One reading of the characters between the year and the time of day:
/// which of the two hyphens, of month and of day it takes to be there.
pub struct DateLayout {
    pub hyphen_before_month: bool,
    pub month: bool,
    pub hyphen_before_day: bool,
    pub day: bool,
}

/// The readings in the order in which they are tried, `k` from 0 to 15: one
/// that takes a part comes before one that leaves it out, and an earlier
/// part decides before a later one.
pub open spec fn date_layout(k: int) -> DateLayout {
    DateLayout {
        hyphen_before_month: k < 8,
        month: k % 8 < 4,
        hyphen_before_day: k % 4 < 2,
        day: k % 2 == 0,
    }
}

impl DateLayout {
    /// Where the month stands, or would stand, when the date begins at `p`.
    pub open spec fn month_start(self, p: int) -> int {
        if self.hyphen_before_month {
            p + 1
        } else {
            p
        }
    }

    /// Where the hyphen before the day stands, or would stand.
    pub open spec fn month_end(self, p: int) -> int {
        if self.month {
            self.month_start(p) + 2
        } else {
            self.month_start(p)
        }
    }

    /// Where the day stands, or would stand.
    pub open spec fn day_start(self, p: int) -> int {
        if self.hyphen_before_day {
            self.month_end(p) + 1
        } else {
            self.month_end(p)
        }
    }

    /// Where the date ends.
    pub open spec fn end(self, p: int) -> int {
        if self.day {
            self.day_start(p) + 2
        } else {
            self.day_start(p)
        }
    }

    /// Whether the characters of `s` from `p` on can be read in this way.
    pub open spec fn fits(self, s: Seq<char>, p: int) -> bool {
        &&& self.hyphen_before_month ==> at(s, p, '-')
        &&& self.month ==> month_at(s, self.month_start(p))
        &&& self.hyphen_before_day ==> at(s, self.month_end(p), '-')
        &&& self.day ==> day_at(s, self.day_start(p))
    }
}

/// Where the next field of a time of day begins, if the text goes on with
/// one at `r`: behind a colon, or at once where a digit stands.
pub open spec fn next_field(s: Seq<char>, r: int) -> Option<int> {
    if at(s, r, ':') {
        Some(r + 1)
    } else if 0 <= r < s.len() && is_digit(s[r]) {
        Some(r)
    } else {
        None
    }
}

/// The time of day whose hour stands at `h`, and where it ends; `None` where
/// no hour stands there, or where what follows the hour begins a minute, a
/// second or a fraction and is none.
pub open spec fn clock_match(s: Seq<char>, h: int) -> Option<(TimeOfDayView, int)> {
    if !hour_at(s, h) {
        None
    } else {
        let hour = s.subrange(h, h + 2);
        match next_field(s, h + 2) {
            None => Some((TimeOfDayView { hour, minute: None, second: None, fraction: None }, h + 2)),
            Some(m) => if !minute_at(s, m) {
                None
            } else {
                let minute = Some(s.subrange(m, m + 2));
                match next_field(s, m + 2) {
                    None => Some((TimeOfDayView { hour, minute, second: None, fraction: None }, m + 2)),
                    Some(x) => if !second_at(s, x) {
                        None
                    } else {
                        let second = Some(s.subrange(x, x + 2));
                        if at(s, x + 2, '.') || at(s, x + 2, ',') {
                            let e = digits_end(s, x + 3);
                            if e > x + 3 {
                                Some((TimeOfDayView { hour, minute, second, fraction: Some(s.subrange(x + 3, e)) }, e))
                            } else {
                                None
                            }
                        } else {
                            Some((TimeOfDayView { hour, minute, second, fraction: None }, x + 2))
                        }
                    },
                }
            },
        }
    }
}

/// The zone designator at `z`, and where it ends: UTC where `Z` or `z`
/// stands there, and also where none begins there; an offset behind a sign.
/// `None` where a sign stands at `z` and no offset follows it.
pub open spec fn zone_match(s: Seq<char>, z: int) -> Option<(ZoneView, int)> {
    if at(s, z, 'Z') || at(s, z, 'z') {
        Some((ZoneView::Zulu, z + 1))
    } else if 0 <= z < s.len() && is_sign(s[z]) {
        let negative = s[z] != '+';
        let hours = s.subrange(z + 1, z + 3);
        if !two_digits_at(s, z + 1) {
            None
        } else {
            match next_field(s, z + 3) {
                None => Some((ZoneView::Offset { negative, hours, minutes: None }, z + 3)),
                Some(m) => if two_digits_at(s, m) {
                    Some((ZoneView::Offset { negative, hours, minutes: Some(s.subrange(m, m + 2)) }, m + 2))
                } else {
                    None
                },
            }
        }
    } else {
        Some((ZoneView::Zulu, z))
    }
}

/// The time of day that begins at `q`, if one does, and where it ends. A
/// time of day begins with `T` or `t`, or with white space that an hour
/// follows. The outer `None` says that a `T` stands at `q` with no time of
/// day behind it.
pub open spec fn time_match(s: Seq<char>, q: int) -> Option<(Option<TimeOfDayView>, int)> {
    if at(s, q, 'T') || at(s, q, 't') {
        match clock_match(s, q + 1) {
            Some((time, e)) => Some((Some(time), e)),
            None => None,
        }
    } else if spaces_end(s, q) > q && hour_at(s, spaces_end(s, q)) {
        match clock_match(s, spaces_end(s, q)) {
            Some((time, e)) => Some((Some(time), e)),
            None => None,
        }
    } else {
        Some((None, q))
    }
}

/// What stands between the date, which ends at `q`, and the end of the
/// text: time of day and zone designator, if `s` from `q` on is made of
/// them and of white space.
pub open spec fn tail_match(s: Seq<char>, q: int) -> Option<(Option<TimeOfDayView>, ZoneView)> {
    match time_match(s, q) {
        None => None,
        Some((time, r)) => match zone_match(s, spaces_end(s, r)) {
            None => None,
            Some((zone, e)) => if spaces_end(s, e) == s.len() {
                Some((time, zone))
            } else {
                None
            },
        },
    }
}

/// The first reading from the `k`-th on under which the date fits at `p`
/// and the rest of the text matches behind it.
pub open spec fn first_reading(s: Seq<char>, p: int, k: int) -> Option<int>
    decreases 16 - k,
{
    if k < 0 || k >= 16 {
        None
    } else if date_layout(k).fits(s, p) && tail_match(s, date_layout(k).end(p)) is Some {
        Some(k)
    } else {
        first_reading(s, p, k + 1)
    }
}

/// The fields that the permissive pattern takes out of `s`, or `None` where
/// `s` does not match it.
pub open spec fn permissive_match(s: Seq<char>) -> Option<FieldsView> {
    let y = spaces_end(s, 0);
    if !year_at(s, y) {
        None
    } else {
        match first_reading(s, y + 4, 0) {
            None => None,
            Some(k) => {
                let layout = date_layout(k);
                let tail = tail_match(s, layout.end(y + 4))->0;
                let m = layout.month_start(y + 4);
                let d = layout.day_start(y + 4);
                Some(
                    FieldsView {
                        year: s.subrange(y, y + 4),
                        month: if layout.month {
                            Some(s.subrange(m, m + 2))
                        } else {
                            None
                        },
                        day: if layout.day {
                            Some(s.subrange(d, d + 2))
                        } else {
                            None
                        },
                        time: tail.0,
                        zone: tail.1,
                    },
                )
            },
        }
    }
}

/// A run of white space ends at or behind its start, inside the text, and
/// holds white space only.
pub proof fn lemma_spaces_end(s: Seq<char>, p: int)
    requires
        0 <= p <= s.len(),
    ensures
        p <= spaces_end(s, p) <= s.len(),
        forall|i: int| p <= i < spaces_end(s, p) ==> is_space(#[trigger] s[i]),
        spaces_end(s, p) < s.len() ==> !is_space(s[spaces_end(s, p)]),
    decreases s.len() - p,
{
    if p < s.len() && is_space(s[p]) {
        lemma_spaces_end(s, p + 1);
    }
}

/// A run of digits ends at or behind its start, inside the text, and holds
/// digits only.
pub proof fn lemma_digits_end(s: Seq<char>, p: int)
    requires
        0 <= p <= s.len(),
    ensures
        p <= digits_end(s, p) <= s.len(),
        forall|i: int| p <= i < digits_end(s, p) ==> is_digit(#[trigger] s[i]),
        digits_end(s, p) < s.len() ==> !is_digit(s[digits_end(s, p)]),
    decreases s.len() - p,
{
    if p < s.len() && is_digit(s[p]) {
        lemma_digits_end(s, p + 1);
    }
}

/// A time of day that the pattern reads is well formed.
pub proof fn lemma_clock_well_formed(s: Seq<char>, h: int)
    ensures
        clock_match(s, h) matches Some((time, e)) ==> time.well_formed() && h + 2 <= e <= s.len(),
{
    if hour_at(s, h) {
        if let Some(m) = next_field(s, h + 2) {
            if minute_at(s, m) {
                if let Some(x) = next_field(s, m + 2) {
                    if second_at(s, x) && (at(s, x + 2, '.') || at(s, x + 2, ',')) {
                        lemma_digits_end(s, x + 3);
                    }
                }
            }
        }
    }
}

/// A zone designator that the pattern reads is well formed.
pub proof fn lemma_zone_well_formed(s: Seq<char>, z: int)
    requires
        0 <= z <= s.len(),
    ensures
        zone_match(s, z) matches Some((zone, e)) ==> zone.well_formed() && z <= e <= s.len(),
{
}

/// What the pattern reads behind the date is well formed.
pub proof fn lemma_tail_well_formed(s: Seq<char>, q: int)
    requires
        0 <= q <= s.len(),
    ensures
        tail_match(s, q) matches Some((time, zone)) ==> zone.well_formed() && (time matches Some(t)
            ==> t.well_formed()),
{
    if let Some((time, r)) = time_match(s, q) {
        lemma_spaces_end(s, q);
        lemma_clock_well_formed(s, q + 1);
        lemma_clock_well_formed(s, spaces_end(s, q));
        assert(q <= r <= s.len());
        lemma_spaces_end(s, r);
        lemma_zone_well_formed(s, spaces_end(s, r));
    }
}

/// A reading that fits takes its characters from inside the text.
pub proof fn lemma_layout_fits(s: Seq<char>, p: int, layout: DateLayout)
    requires
        0 <= p <= s.len(),
        layout.fits(s, p),
    ensures
        p <= layout.month_start(p) <= layout.day_start(p) <= layout.end(p) <= s.len(),
        layout.month ==> month_at(s, layout.month_start(p)),
        layout.day ==> day_at(s, layout.day_start(p)),
{
}

/// The fields that the pattern takes out of a text are well formed: the
/// year is four digits, the month lies in `01..=12`, the day in `01..=31`,
/// the hour in `00..=23`, the minute in `00..=59`, the second in `00..=60`,
/// and the offset is made of digits.
pub proof fn law_match_is_well_formed(s: Seq<char>)
    ensures
        permissive_match(s) matches Some(fields) ==> fields.well_formed(),
{
    let y = spaces_end(s, 0);
    lemma_spaces_end(s, 0);
    if year_at(s, y) {
        if let Some(k) = first_reading(s, y + 4, 0) {
            lemma_first_reading(s, y + 4, 0);
            let layout = date_layout(k);
            lemma_layout_fits(s, y + 4, layout);
            lemma_tail_well_formed(s, layout.end(y + 4));
            let fields = permissive_match(s)->0;
            let m = layout.month_start(y + 4);
            let d = layout.day_start(y + 4);
            assert(fields.year == s.subrange(y, y + 4));
            assert(fields.year.len() == 4 && all_digits(fields.year));
            assert(layout.month ==> fields.month == Some(s.subrange(m, m + 2)));
            assert(layout.day ==> fields.day == Some(s.subrange(d, d + 2)));
        }
    }
}

/// The reading that is found is one of the sixteen, it fits, the rest of
/// the text matches behind it, and no earlier reading from `k` on does both.
pub proof fn lemma_first_reading(s: Seq<char>, p: int, k: int)
    requires
        0 <= k,
    ensures
        first_reading(s, p, k) matches Some(found) ==> {
            &&& k <= found < 16
            &&& date_layout(found).fits(s, p)
            &&& tail_match(s, date_layout(found).end(p)) is Some
            &&& forall|j: int|
                k <= j < found ==> !(date_layout(j).fits(s, p) && #[trigger] tail_match(
                    s,
                    date_layout(j).end(p),
                ) is Some)
        },
        first_reading(s, p, k) is None ==> forall|j: int|
            k <= j < 16 ==> !(date_layout(j).fits(s, p) && #[trigger] tail_match(
                s,
                date_layout(j).end(p),
            ) is Some),
    decreases 16 - k,
{
    if k < 16 && !(date_layout(k).fits(s, p) && tail_match(s, date_layout(k).end(p)) is Some) {
        lemma_first_reading(s, p, k + 1);
    }
}

/// No time of day has the hour `24`: where `24` stands in the place of the
/// hour, the pattern reads no time of day.
pub proof fn law_hour_24_is_no_hour(s: Seq<char>, h: int)
    requires
        at(s, h, '2'),
        at(s, h + 1, '4'),
    ensures
        clock_match(s, h) is None,
{
}

/// In a zone designator the minus sign stands for the hyphen: with either
/// as its sign the designator reads the same, as an offset to the west.
pub proof fn law_minus_sign_reads_as_hyphen(s: Seq<char>, z: int)
    requires
        at(s, z, MINUS_SIGN),
    ensures
        zone_match(s, z) == zone_match(s.update(z, '-'), z),
        zone_match(s, z) matches Some((zone, e)) ==> zone matches ZoneView::Offset {
            negative,
            ..
        } && negative,
{
    let t = s.update(z, '-');
    if two_digits_at(s, z + 1) {
        assert(t.subrange(z + 1, z + 3) =~= s.subrange(z + 1, z + 3));
        if let Some(m) = next_field(s, z + 3) {
            assert(next_field(t, z + 3) == Some(m));
            if two_digits_at(s, m) {
                assert(t.subrange(m, m + 2) =~= s.subrange(m, m + 2));
            }
        }
    }
}

/// Where the zone designator of a text that matches the pattern begins, or
/// would begin if the text had one.
pub open spec fn zone_start(s: Seq<char>) -> int {
    let y = spaces_end(s, 0);
    let layout = date_layout(first_reading(s, y + 4, 0)->0);
    spaces_end(s, (time_match(s, layout.end(y + 4))->0).1)
}

/// `t` is `s` with the minus sign in the place of a hyphen at `z`.
spec fn minus_for_hyphen(s: Seq<char>, t: Seq<char>, z: int) -> bool {
    at(s, z, '-') && t == s.update(z, MINUS_SIGN)
}

/// Runs of white space and of digits end at the same places in both texts.
proof fn lemma_same_runs(s: Seq<char>, t: Seq<char>, z: int, p: int)
    requires
        minus_for_hyphen(s, t, z),
    ensures
        spaces_end(t, p) == spaces_end(s, p),
        digits_end(t, p) == digits_end(s, p),
    decreases s.len() - p,
{
    if 0 <= p < s.len() && (is_space(s[p]) || is_digit(s[p])) {
        lemma_same_runs(s, t, z, p + 1);
    }
}

/// A time of day reads the same in both texts.
proof fn lemma_same_clock(s: Seq<char>, t: Seq<char>, z: int, h: int)
    requires
        minus_for_hyphen(s, t, z),
    ensures
        clock_match(t, h) == clock_match(s, h),
{
    if hour_at(s, h) {
        assert(t.subrange(h, h + 2) =~= s.subrange(h, h + 2));
        if let Some(m) = next_field(s, h + 2) {
            if minute_at(s, m) {
                assert(t.subrange(m, m + 2) =~= s.subrange(m, m + 2));
                if let Some(x) = next_field(s, m + 2) {
                    if second_at(s, x) {
                        assert(t.subrange(x, x + 2) =~= s.subrange(x, x + 2));
                        if at(s, x + 2, '.') || at(s, x + 2, ',') {
                            lemma_same_runs(s, t, z, x + 3);
                            lemma_digits_end(s, x + 3);
                            let e = digits_end(s, x + 3);
                            assert(t.subrange(x + 3, e) =~= s.subrange(x + 3, e));
                        }
                    }
                }
            }
        }
    }
}

/// A zone designator reads the same in both texts.
proof fn lemma_same_zone(s: Seq<char>, t: Seq<char>, z: int, p: int)
    requires
        minus_for_hyphen(s, t, z),
    ensures
        zone_match(t, p) == zone_match(s, p),
{
    if 0 <= p < s.len() && is_sign(s[p]) && two_digits_at(s, p + 1) {
        assert(t.subrange(p + 1, p + 3) =~= s.subrange(p + 1, p + 3));
        if let Some(m) = next_field(s, p + 3) {
            if two_digits_at(s, m) {
                assert(t.subrange(m, m + 2) =~= s.subrange(m, m + 2));
            }
        }
    }
}

/// What stands behind the date reads the same in both texts.
proof fn lemma_same_tail(s: Seq<char>, t: Seq<char>, z: int, q: int)
    requires
        minus_for_hyphen(s, t, z),
    ensures
        time_match(t, q) == time_match(s, q),
        tail_match(t, q) == tail_match(s, q),
{
    lemma_same_runs(s, t, z, q);
    lemma_same_clock(s, t, z, q + 1);
    lemma_same_clock(s, t, z, spaces_end(s, q));
    if let Some((time, r)) = time_match(s, q) {
        lemma_same_runs(s, t, z, r);
        lemma_same_zone(s, t, z, spaces_end(s, r));
        if let Some((zone, e)) = zone_match(s, spaces_end(s, r)) {
            lemma_same_runs(s, t, z, e);
        }
    }
}

/// A reading of the date that fits the text with the minus sign fits the
/// one with the hyphen; one that fits the latter and ends before `z` fits
/// the former; and month and day are the same in both.
proof fn lemma_same_date(s: Seq<char>, t: Seq<char>, z: int, p: int, layout: DateLayout)
    requires
        minus_for_hyphen(s, t, z),
        0 <= p <= s.len(),
    ensures
        layout.fits(t, p) ==> layout.fits(s, p),
        layout.fits(s, p) && layout.end(p) <= z ==> layout.fits(t, p),
        layout.fits(s, p) && layout.month ==> t.subrange(
            layout.month_start(p),
            layout.month_start(p) + 2,
        ) == s.subrange(layout.month_start(p), layout.month_start(p) + 2),
        layout.fits(s, p) && layout.day ==> t.subrange(layout.day_start(p), layout.day_start(p) + 2)
            == s.subrange(layout.day_start(p), layout.day_start(p) + 2),
{
    if layout.fits(s, p) {
        let m = layout.month_start(p);
        let d = layout.day_start(p);
        if layout.month {
            assert(t.subrange(m, m + 2) =~= s.subrange(m, m + 2));
        }
        if layout.day {
            assert(t.subrange(d, d + 2) =~= s.subrange(d, d + 2));
        }
    }
}

/// Where the date ends before `z`, the same reading is found in both
/// texts.
proof fn lemma_same_reading(s: Seq<char>, t: Seq<char>, z: int, p: int)
    requires
        minus_for_hyphen(s, t, z),
        0 <= p <= s.len(),
        first_reading(s, p, 0) is Some,
        date_layout(first_reading(s, p, 0)->0).end(p) <= z,
    ensures
        first_reading(t, p, 0) == first_reading(s, p, 0),
{
    let k = first_reading(s, p, 0)->0;
    lemma_first_reading(s, p, 0);
    lemma_first_reading(t, p, 0);
    lemma_same_date(s, t, z, p, date_layout(k));
    lemma_same_tail(s, t, z, date_layout(k).end(p));
    assert(date_layout(k).fits(t, p) && tail_match(t, date_layout(k).end(p)) is Some);
    let found = first_reading(t, p, 0)->0;
    lemma_same_date(s, t, z, p, date_layout(found));
    lemma_same_tail(s, t, z, date_layout(found).end(p));
    assert(date_layout(found).fits(s, p) && tail_match(s, date_layout(found).end(p)) is Some);
}

/// Where a hyphen is read as the sign of the zone designator, the minus
/// sign in its place is read in the same way: the text matches as before,
/// and the same fields are taken out of it.
pub proof fn law_minus_sign_may_stand_for_the_sign(s: Seq<char>)
    requires
        permissive_match(s) is Some,
        at(s, zone_start(s), '-'),
    ensures
        permissive_match(s.update(zone_start(s), MINUS_SIGN)) == permissive_match(s),
{
    let z = zone_start(s);
    let t = s.update(z, MINUS_SIGN);
    let y = spaces_end(s, 0);
    let p = y + 4;
    let k = first_reading(s, p, 0)->0;
    let layout = date_layout(k);
    let q = layout.end(p);
    lemma_spaces_end(s, 0);
    lemma_same_runs(s, t, z, 0);
    lemma_first_reading(s, p, 0);
    lemma_layout_fits(s, p, layout);
    let r = (time_match(s, q)->0).1;
    assert(q <= r <= s.len()) by {
        lemma_spaces_end(s, q);
        lemma_clock_well_formed(s, q + 1);
        lemma_clock_well_formed(s, spaces_end(s, q));
    }
    lemma_spaces_end(s, r);
    lemma_same_reading(s, t, z, p);
    lemma_same_date(s, t, z, p, layout);
    lemma_same_tail(s, t, z, q);
    assert(t.subrange(y, y + 4) =~= s.subrange(y, y + 4));
}

} // verus!
