//! The permissive format as a way of writing: what stands between the
//! fields of a timestamp, and the text that fields and separators spell.
//! The permissive pattern matches the texts of this format and no others:
//! every text that it matches is spelled by the fields which it takes out of
//! that text, and every text that well-formed fields spell matches it.

use crate::chars::{is_digit, is_space};
use crate::fields::{FieldsView, TimeOfDayView, ZoneView};
use crate::pattern::{
    at, clock_match, date_layout, digits_end, first_reading, hour_at, is_sign,
    lemma_clock_well_formed, lemma_first_reading, lemma_layout_fits, lemma_spaces_end,
    next_field, permissive_match, spaces_end, tail_match, time_match, year_at, zone_match,
    MINUS_SIGN,
};
use vstd::prelude::*;

verus! {

/// How a zone designator is written.
pub enum ZoneMark {
    /// Not at all: the time is UTC.
    Absent,
    /// As the letter `Z` or `z`.
    Letter(char),
    /// As an offset behind a sign, with or without a colon before the
    /// minutes.
    Sign { sign: char, colon: bool },
}

/// What stands between the fields of a timestamp in the permissive format.
pub struct Writing {
    /// White space before the year.
    pub lead: Seq<char>,
    pub hyphen_before_month: bool,
    pub hyphen_before_day: bool,
    /// What opens the time of day: `T`, `t` or white space.
    pub time_mark: Seq<char>,
    pub colon_before_minute: bool,
    pub colon_before_second: bool,
    /// What opens the fraction of a second: a point or a comma.
    pub point: char,
    /// White space before the zone designator.
    pub gap: Seq<char>,
    pub zone_mark: ZoneMark,
    /// White space behind the zone designator.
    pub trail: Seq<char>,
}

/// Whether `t` holds white space only.
pub open spec fn is_blank(t: Seq<char>) -> bool {
    forall|i: int| 0 <= i < t.len() ==> is_space(#[trigger] t[i])
}

/// `t` where `present` holds, else nothing.
pub open spec fn optional(present: bool, t: Seq<char>) -> Seq<char> {
    if present {
        t
    } else {
        Seq::empty()
    }
}

/// The text of an optional field, nothing for a field left out.
pub open spec fn or_nothing(t: Option<Seq<char>>) -> Seq<char> {
    match t {
        Some(x) => x,
        None => Seq::empty(),
    }
}

impl ZoneMark {
    /// Whether the zone `zone` can be written in this way: UTC as no
    /// designator or as `Z` or `z`; an offset to the east behind `+`, one to
    /// the west behind a hyphen or the minus sign, with a colon only where
    /// minutes follow.
    pub open spec fn suits(self, zone: ZoneView) -> bool {
        match (zone, self) {
            (ZoneView::Zulu, ZoneMark::Absent) => true,
            (ZoneView::Zulu, ZoneMark::Letter(c)) => c == 'Z' || c == 'z',
            (ZoneView::Offset { negative, hours, minutes }, ZoneMark::Sign { sign, colon }) => {
                &&& if negative {
                    sign == '-' || sign == MINUS_SIGN
                } else {
                    sign == '+'
                }
                &&& colon ==> minutes is Some
            },
            _ => false,
        }
    }
}

impl Writing {
    /// Whether the separators are such as the permissive format admits, for
    /// the fields `f`.
    pub open spec fn suits(self, f: FieldsView) -> bool {
        &&& is_blank(self.lead)
        &&& is_blank(self.gap)
        &&& is_blank(self.trail)
        &&& f.time is Some ==> self.time_mark == seq!['T'] || self.time_mark == seq!['t'] || (
        self.time_mark.len() > 0 && is_blank(self.time_mark))
        &&& self.point == '.' || self.point == ','
        &&& self.zone_mark.suits(f.zone)
    }
}

/// The fraction of a second behind its point or comma, or nothing.
pub open spec fn written_fraction(t: TimeOfDayView, w: Writing) -> Seq<char> {
    match t.fraction {
        None => Seq::empty(),
        Some(digits) => seq![w.point] + digits,
    }
}

/// The second and what follows it, or nothing.
pub open spec fn written_second(t: TimeOfDayView, w: Writing) -> Seq<char> {
    match t.second {
        None => Seq::empty(),
        Some(second) => optional(w.colon_before_second, seq![':']) + second + written_fraction(
            t,
            w,
        ),
    }
}

/// The minute and what follows it, or nothing.
pub open spec fn written_minute(t: TimeOfDayView, w: Writing) -> Seq<char> {
    match t.minute {
        None => Seq::empty(),
        Some(minute) => optional(w.colon_before_minute, seq![':']) + minute + written_second(t, w),
    }
}

/// A time of day, written with the separators of `w`.
pub open spec fn written_clock(t: TimeOfDayView, w: Writing) -> Seq<char> {
    t.hour + written_minute(t, w)
}

/// A time of day with what opens it, or nothing where there is none.
pub open spec fn written_time(time: Option<TimeOfDayView>, w: Writing) -> Seq<char> {
    match time {
        Some(t) => w.time_mark + written_clock(t, w),
        None => Seq::empty(),
    }
}

/// A zone designator, written as `mark` has it.
pub open spec fn written_zone(zone: ZoneView, mark: ZoneMark) -> Seq<char> {
    match (zone, mark) {
        (ZoneView::Offset { negative, hours, minutes }, ZoneMark::Sign { sign, colon }) => seq![
            sign,
        ] + hours + optional(colon, seq![':']) + or_nothing(minutes),
        (_, ZoneMark::Letter(c)) => seq![c],
        _ => Seq::empty(),
    }
}

/// The date behind the year, written with the separators of `w`.
pub open spec fn written_date(f: FieldsView, w: Writing) -> Seq<char> {
    optional(w.hyphen_before_month, seq!['-']) + or_nothing(f.month) + optional(
        w.hyphen_before_day,
        seq!['-'],
    ) + or_nothing(f.day)
}

/// What stands behind the date, written with the separators of `w`: the
/// time of day, white space, the zone designator, white space.
pub open spec fn written_tail(f: FieldsView, w: Writing) -> Seq<char> {
    written_time(f.time, w) + w.gap + written_zone(f.zone, w.zone_mark) + w.trail
}

/// The text that the fields `f` spell when they are written with the
/// separators of `w`.
pub open spec fn written(f: FieldsView, w: Writing) -> Seq<char> {
    w.lead + f.year + written_date(f, w) + written_tail(f, w)
}

/// The separators with which the time of day whose hour stands at `h` is
/// written.
spec fn clock_separators(s: Seq<char>, h: int) -> (bool, bool, char) {
    let colon_before_minute = at(s, h + 2, ':');
    let m = if colon_before_minute {
        h + 3
    } else {
        h + 2
    };
    let colon_before_second = at(s, m + 2, ':');
    let x = if colon_before_second {
        m + 3
    } else {
        m + 2
    };
    (
        colon_before_minute,
        colon_before_second,
        if at(s, x + 2, ',') {
            ','
        } else {
            '.'
        },
    )
}

/// The way in which the zone designator at `z` is written.
spec fn zone_mark_at(s: Seq<char>, z: int) -> ZoneMark {
    if at(s, z, 'Z') || at(s, z, 'z') {
        ZoneMark::Letter(s[z])
    } else if 0 <= z < s.len() && is_sign(s[z]) {
        ZoneMark::Sign { sign: s[z], colon: at(s, z + 3, ':') }
    } else {
        ZoneMark::Absent
    }
}

/// Where the hour stands when a time of day begins at `q`.
spec fn hour_start(s: Seq<char>, q: int) -> int {
    if at(s, q, 'T') || at(s, q, 't') {
        q + 1
    } else {
        spaces_end(s, q)
    }
}

/// The separators with which a text that matches the pattern is written.
spec fn writing_of(s: Seq<char>) -> Writing {
    let y = spaces_end(s, 0);
    let layout = date_layout(first_reading(s, y + 4, 0)->0);
    let q = layout.end(y + 4);
    let h = hour_start(s, q);
    let r = (time_match(s, q)->0).1;
    let z = spaces_end(s, r);
    let e = (zone_match(s, z)->0).1;
    let separators = clock_separators(s, h);
    Writing {
        lead: s.subrange(0, y),
        hyphen_before_month: layout.hyphen_before_month,
        hyphen_before_day: layout.hyphen_before_day,
        time_mark: s.subrange(q, h),
        colon_before_minute: separators.0,
        colon_before_second: separators.1,
        point: separators.2,
        gap: s.subrange(r, z),
        zone_mark: zone_mark_at(s, z),
        trail: s.subrange(e, s.len() as int),
    }
}

/// A time of day that the pattern reads is spelled by its fields and
/// separators.
proof fn lemma_clock_is_written(s: Seq<char>, h: int, w: Writing)
    requires
        clock_match(s, h) is Some,
        (w.colon_before_minute, w.colon_before_second, w.point) == clock_separators(s, h),
    ensures
        ({
            let (time, e) = clock_match(s, h)->0;
            s.subrange(h, e) == written_clock(time, w)
        }),
{
    let (time, e) = clock_match(s, h)->0;
    lemma_clock_well_formed(s, h);
    let m = if w.colon_before_minute {
        h + 3
    } else {
        h + 2
    };
    let x = if w.colon_before_second {
        m + 3
    } else {
        m + 2
    };
    if time.minute is None {
        assert(s.subrange(h, e) =~= written_clock(time, w));
    } else if time.second is None {
        assert(s.subrange(h, e) =~= written_clock(time, w));
    } else if time.fraction is None {
        assert(s.subrange(h, e) =~= written_clock(time, w));
    } else {
        assert(s.subrange(h, e) =~= written_clock(time, w));
    }
}

/// A zone designator that the pattern reads is spelled by its fields and
/// its mark.
proof fn lemma_zone_is_written(s: Seq<char>, z: int)
    requires
        0 <= z <= s.len(),
        zone_match(s, z) is Some,
    ensures
        ({
            let (zone, e) = zone_match(s, z)->0;
            &&& zone_mark_at(s, z).suits(zone)
            &&& z <= e <= s.len()
            &&& s.subrange(z, e) == written_zone(zone, zone_mark_at(s, z))
        }),
{
    let (zone, e) = zone_match(s, z)->0;
    assert(s.subrange(z, e) =~= written_zone(zone, zone_mark_at(s, z)));
}

/// What the pattern reads as the time of day with its opening is spelled
/// by its fields and separators.
proof fn lemma_time_is_written(s: Seq<char>, q: int, w: Writing)
    requires
        0 <= q <= s.len(),
        time_match(s, q) is Some,
        w.time_mark == s.subrange(q, hour_start(s, q)),
        (w.colon_before_minute, w.colon_before_second, w.point) == clock_separators(
            s,
            hour_start(s, q),
        ),
    ensures
        ({
            let (time, r) = time_match(s, q)->0;
            &&& q <= r <= s.len()
            &&& s.subrange(q, r) == written_time(time, w)
            &&& time is Some ==> w.time_mark == seq!['T'] || w.time_mark == seq!['t'] || (
            w.time_mark.len() > 0 && is_blank(w.time_mark))
        }),
{
    let (time, r) = time_match(s, q)->0;
    let h = hour_start(s, q);
    lemma_spaces_end(s, q);
    if time is Some {
        lemma_clock_well_formed(s, h);
        lemma_clock_is_written(s, h, w);
        assert(s.subrange(q, r) =~= s.subrange(q, h) + s.subrange(h, r));
        if at(s, q, 'T') {
            assert(w.time_mark =~= seq!['T']);
        } else if at(s, q, 't') {
            assert(w.time_mark =~= seq!['t']);
        }
    } else {
        assert(s.subrange(q, r) =~= Seq::<char>::empty());
    }
}

/// What the pattern reads behind the date is spelled by its fields and
/// separators.
proof fn lemma_tail_is_written(s: Seq<char>, q: int, f: FieldsView, w: Writing)
    requires
        0 <= q <= s.len(),
        tail_match(s, q) == Some((f.time, f.zone)),
        w.time_mark == s.subrange(q, hour_start(s, q)),
        (w.colon_before_minute, w.colon_before_second, w.point) == clock_separators(
            s,
            hour_start(s, q),
        ),
        ({
            let r = (time_match(s, q)->0).1;
            let z = spaces_end(s, r);
            let e = (zone_match(s, z)->0).1;
            &&& w.gap == s.subrange(r, z)
            &&& w.zone_mark == zone_mark_at(s, z)
            &&& w.trail == s.subrange(e, s.len() as int)
        }),
    ensures
        s.subrange(q, s.len() as int) == written_tail(f, w),
        is_blank(w.gap),
        is_blank(w.trail),
        w.zone_mark.suits(f.zone),
        f.time is Some ==> w.time_mark == seq!['T'] || w.time_mark == seq!['t'] || (
        w.time_mark.len() > 0 && is_blank(w.time_mark)),
{
    lemma_time_is_written(s, q, w);
    let (time, r) = time_match(s, q)->0;
    lemma_spaces_end(s, r);
    let z = spaces_end(s, r);
    lemma_zone_is_written(s, z);
    let (zone, e) = zone_match(s, z)->0;
    lemma_spaces_end(s, e);
    let n = s.len() as int;
    assert(s.subrange(q, n) =~= s.subrange(q, r) + s.subrange(r, z) + s.subrange(z, e)
        + s.subrange(e, n));
}

/// The date under a reading that fits is spelled by month, day and the
/// hyphens of the reading.
proof fn lemma_date_is_written(s: Seq<char>, p: int, k: int, f: FieldsView, w: Writing)
    requires
        0 <= p <= s.len(),
        date_layout(k).fits(s, p),
        w.hyphen_before_month == date_layout(k).hyphen_before_month,
        w.hyphen_before_day == date_layout(k).hyphen_before_day,
        f.month == if date_layout(k).month {
            Some(s.subrange(date_layout(k).month_start(p), date_layout(k).month_start(p) + 2))
        } else {
            None
        },
        f.day == if date_layout(k).day {
            Some(s.subrange(date_layout(k).day_start(p), date_layout(k).day_start(p) + 2))
        } else {
            None
        },
    ensures
        p <= date_layout(k).end(p) <= s.len(),
        s.subrange(p, date_layout(k).end(p)) == written_date(f, w),
{
    let layout = date_layout(k);
    lemma_layout_fits(s, p, layout);
    assert(s.subrange(p, layout.end(p)) =~= written_date(f, w));
}

/// What a match is made of: the year behind the leading white space, a
/// reading of the date that fits, and the rest of the text behind it.
proof fn lemma_match_parts(s: Seq<char>)
    requires
        permissive_match(s) is Some,
    ensures
        ({
            let f = permissive_match(s)->0;
            let y = spaces_end(s, 0);
            let k = first_reading(s, y + 4, 0)->0;
            let layout = date_layout(k);
            &&& 0 <= y && y + 4 <= s.len()
            &&& f.year == s.subrange(y, y + 4)
            &&& layout.fits(s, y + 4)
            &&& tail_match(s, layout.end(y + 4)) == Some((f.time, f.zone))
            &&& f.month == if layout.month {
                Some(s.subrange(layout.month_start(y + 4), layout.month_start(y + 4) + 2))
            } else {
                None
            }
            &&& f.day == if layout.day {
                Some(s.subrange(layout.day_start(y + 4), layout.day_start(y + 4) + 2))
            } else {
                None
            }
        }),
{
    let y = spaces_end(s, 0);
    lemma_spaces_end(s, 0);
    lemma_first_reading(s, y + 4, 0);
}

/// A text is spelled by its parts: white space, year, date and tail.
proof fn lemma_whole_is_written(s: Seq<char>, f: FieldsView, w: Writing, y: int, q: int)
    requires
        0 <= y,
        y + 4 <= q <= s.len(),
        w.lead == s.subrange(0, y),
        f.year == s.subrange(y, y + 4),
        s.subrange(y + 4, q) == written_date(f, w),
        s.subrange(q, s.len() as int) == written_tail(f, w),
    ensures
        written(f, w) == s,
{
    assert(s =~= s.subrange(0, y) + s.subrange(y, y + 4) + s.subrange(y + 4, q) + s.subrange(
        q,
        s.len() as int,
    ));
}

/// A text that matches is spelled by its fields, with the separators that
/// stand in it.
proof fn lemma_match_is_written(s: Seq<char>)
    requires
        permissive_match(s) is Some,
    ensures
        writing_of(s).suits(permissive_match(s)->0),
        written(permissive_match(s)->0, writing_of(s)) == s,
{
    let f = permissive_match(s)->0;
    let w = writing_of(s);
    let y = spaces_end(s, 0);
    let k = first_reading(s, y + 4, 0)->0;
    let q = date_layout(k).end(y + 4);
    lemma_match_parts(s);
    assert(is_blank(w.lead)) by {
        lemma_spaces_end(s, 0);
    }
    lemma_date_is_written(s, y + 4, k, f, w);
    lemma_tail_is_written(s, q, f, w);
    lemma_whole_is_written(s, f, w, y, q);
}

/// A text that the permissive pattern matches is spelled by the fields that
/// the pattern takes out of it: it is made of these fields, in their order,
/// and of separators that the permissive format admits, and of nothing
/// else.
pub proof fn law_match_is_written(s: Seq<char>)
    ensures
        permissive_match(s) matches Some(fields) ==> exists|w: Writing|
            w.suits(fields) && #[trigger] written(fields, w) == s,
{
    if permissive_match(s) is Some {
        lemma_match_is_written(s);
    }
}

/// Whether `c` can stand behind a time of day or an offset: white space,
/// or what opens a zone designator.
spec fn is_boundary(c: char) -> bool {
    is_space(c) || c == 'Z' || c == 'z' || is_sign(c)
}

/// White space from `p` to `e`, and none at `e`: the run ends at `e`.
proof fn lemma_spaces_run(s: Seq<char>, p: int, e: int)
    requires
        0 <= p <= e <= s.len(),
        forall|i: int| p <= i < e ==> is_space(#[trigger] s[i]),
        e < s.len() ==> !is_space(s[e]),
    ensures
        spaces_end(s, p) == e,
    decreases e - p,
{
    if p < e {
        lemma_spaces_run(s, p + 1, e);
    }
}

/// Digits from `p` to `e`, and none at `e`: the run ends at `e`.
proof fn lemma_digits_run(s: Seq<char>, p: int, e: int)
    requires
        0 <= p <= e <= s.len(),
        forall|i: int| p <= i < e ==> is_digit(#[trigger] s[i]),
        e < s.len() ==> !is_digit(s[e]),
    ensures
        digits_end(s, p) == e,
    decreases e - p,
{
    if p < e {
        lemma_digits_run(s, p + 1, e);
    }
}

/// A part of the text that equals `t` has the characters of `t`.
proof fn lemma_part(s: Seq<char>, a: int, t: Seq<char>)
    requires
        0 <= a,
        a + t.len() <= s.len(),
        s.subrange(a, a + t.len()) == t,
    ensures
        forall|i: int| 0 <= i < t.len() ==> s[a + i] == #[trigger] t[i],
{
    assert forall|i: int| 0 <= i < t.len() implies s[a + i] == #[trigger] t[i] by {
        assert(s.subrange(a, a + t.len())[i] == s[a + i]);
    }
}

/// A part of the text that equals `x + y` is made of a part that equals `x`
/// and one that equals `y`.
proof fn lemma_split(s: Seq<char>, a: int, x: Seq<char>, y: Seq<char>)
    requires
        0 <= a,
        a + x.len() + y.len() <= s.len(),
        s.subrange(a, a + x.len() + y.len()) == x + y,
    ensures
        s.subrange(a, a + x.len()) == x,
        s.subrange(a + x.len(), a + x.len() + y.len()) == y,
{
    let whole = s.subrange(a, a + x.len() + y.len());
    assert(s.subrange(a, a + x.len()) =~= whole.subrange(0, x.len() as int));
    assert(s.subrange(a + x.len(), a + x.len() + y.len()) =~= whole.subrange(
        x.len() as int,
        (x.len() + y.len()) as int,
    ));
    assert((x + y).subrange(0, x.len() as int) =~= x);
    assert((x + y).subrange(x.len() as int, (x.len() + y.len()) as int) =~= y);
}

/// Where the fraction of a well-formed time of day is written at `a`, and
/// what can follow a time of day follows it, a run of digits behind a point
/// or comma stands at `a`, or neither point nor comma.
proof fn lemma_written_fraction_matches(s: Seq<char>, a: int, t: TimeOfDayView, w: Writing)
    requires
        t.well_formed(),
        w.point == '.' || w.point == ',',
        0 <= a,
        a + written_fraction(t, w).len() <= s.len(),
        s.subrange(a, a + written_fraction(t, w).len()) == written_fraction(t, w),
        a + written_fraction(t, w).len() < s.len() ==> is_boundary(
            s[a + written_fraction(t, w).len()],
        ),
    ensures
        match t.fraction {
            None => !at(s, a, '.') && !at(s, a, ',') && next_field(s, a) is None,
            Some(digits) => {
                &&& at(s, a, '.') || at(s, a, ',')
                &&& digits_end(s, a + 1) == a + 1 + digits.len()
                &&& s.subrange(a + 1, a + 1 + digits.len()) == digits
                &&& written_fraction(t, w).len() == 1 + digits.len()
            },
        },
{
    match t.fraction {
        None => {},
        Some(digits) => {
            lemma_split(s, a, seq![w.point], digits);
            lemma_part(s, a, seq![w.point]);
            assert(seq![w.point][0] == w.point);
            lemma_part(s, a + 1, digits);
            assert forall|i: int| a + 1 <= i < a + 1 + digits.len() implies is_digit(
                #[trigger] s[i],
            ) by {
                assert(s[a + 1 + (i - a - 1)] == digits[i - a - 1]);
            }
            lemma_digits_run(s, a + 1, a + 1 + digits.len());
        },
    }
}

/// A field of two characters behind an optional colon, written at `a`,
/// begins where the pattern looks for the next field.
proof fn lemma_written_field_matches(s: Seq<char>, a: int, colon: bool, field: Seq<char>)
    requires
        field.len() == 2,
        is_digit(field[0]),
        0 <= a,
        a + optional(colon, seq![':']).len() + 2 <= s.len(),
        s.subrange(a, a + optional(colon, seq![':']).len() + 2) == optional(colon, seq![':'])
            + field,
    ensures
        ({
            let m = if colon {
                a + 1
            } else {
                a
            };
            &&& next_field(s, a) == Some(m)
            &&& s.subrange(m, m + 2) == field
            &&& s[m] == field[0]
            &&& s[m + 1] == field[1]
        }),
{
    let mark = optional(colon, seq![':']);
    lemma_split(s, a, mark, field);
    lemma_part(s, a + mark.len(), field);
    assert(s[a + mark.len() + 0] == field[0]);
    assert(s[a + mark.len() + 1] == field[1]);
    if colon {
        lemma_part(s, a, mark);
        assert(mark[0] == ':');
    }
}

/// Where a well-formed time of day is written at `h`, and white space, a
/// zone designator or nothing follows it, the pattern reads it there.
proof fn lemma_written_clock_matches(s: Seq<char>, h: int, t: TimeOfDayView, w: Writing)
    requires
        t.well_formed(),
        w.point == '.' || w.point == ',',
        0 <= h,
        h + written_clock(t, w).len() <= s.len(),
        s.subrange(h, h + written_clock(t, w).len()) == written_clock(t, w),
        h + written_clock(t, w).len() < s.len() ==> is_boundary(s[h + written_clock(t, w).len()]),
    ensures
        clock_match(s, h) == Some((t, h + written_clock(t, w).len())),
{
    lemma_split(s, h, t.hour, written_minute(t, w));
    lemma_part(s, h, t.hour);
    assert(s[h + 0] == t.hour[0] && s[h + 1] == t.hour[1]);
    match t.minute {
        None => {},
        Some(minute) => {
            let colon = optional(w.colon_before_minute, seq![':']);
            let m = h + 2 + colon.len();
            lemma_split(s, h + 2, colon + minute, written_second(t, w));
            lemma_written_field_matches(s, h + 2, w.colon_before_minute, minute);
            match t.second {
                None => {},
                Some(second) => {
                    let colon = optional(w.colon_before_second, seq![':']);
                    let x = m + 2 + colon.len();
                    lemma_split(s, m + 2, colon + second, written_fraction(t, w));
                    lemma_written_field_matches(s, m + 2, w.colon_before_second, second);
                    lemma_written_fraction_matches(s, x + 2, t, w);
                },
            }
        },
    }
}

/// Where a well-formed zone designator is written at `z`, and white space
/// or nothing follows it, the pattern reads it there.
proof fn lemma_written_zone_matches(s: Seq<char>, z: int, zone: ZoneView, mark: ZoneMark)
    requires
        zone.well_formed(),
        mark.suits(zone),
        0 <= z,
        z + written_zone(zone, mark).len() <= s.len(),
        s.subrange(z, z + written_zone(zone, mark).len()) == written_zone(zone, mark),
        z + written_zone(zone, mark).len() < s.len() ==> is_space(
            s[z + written_zone(zone, mark).len()],
        ),
        mark is Absent ==> z == s.len(),
    ensures
        zone_match(s, z) == Some((zone, z + written_zone(zone, mark).len())),
{
    let c = written_zone(zone, mark);
    lemma_part(s, z, c);
    match (zone, mark) {
        (ZoneView::Offset { negative, hours, minutes }, ZoneMark::Sign { sign, colon }) => {
            assert(c[0] == sign && c[1] == hours[0] && c[2] == hours[1]);
            assert(s.subrange(z + 1, z + 3) =~= hours);
            match minutes {
                None => {
                    assert(c.len() == 3);
                    assert(next_field(s, z + 3) is None);
                },
                Some(minute) => {
                    let m = if colon {
                        z + 4
                    } else {
                        z + 3
                    };
                    assert(colon ==> c[3] == ':');
                    assert(c[m - z] == minute[0] && c[m - z + 1] == minute[1]);
                    assert(next_field(s, z + 3) == Some(m));
                    assert(s.subrange(m, m + 2) =~= minute);
                },
            }
        },
        (_, ZoneMark::Letter(letter)) => {
            assert(c[0] == letter);
        },
        _ => {},
    }
}

/// A part of the text that equals a blank `t` holds white space only.
proof fn lemma_blank_part(s: Seq<char>, a: int, t: Seq<char>)
    requires
        is_blank(t),
        0 <= a,
        a + t.len() <= s.len(),
        s.subrange(a, a + t.len()) == t,
    ensures
        forall|i: int| a <= i < a + t.len() ==> is_space(#[trigger] s[i]),
{
    lemma_part(s, a, t);
    assert forall|i: int| a <= i < a + t.len() implies is_space(#[trigger] s[i]) by {
        assert(s[a + (i - a)] == t[i - a]);
    }
}

/// What stands behind the time of day, in its parts: white space from `r`,
/// the zone designator from `z`, white space from `e` to the end.
spec fn rest_stands(s: Seq<char>, r: int, z: int, e: int, f: FieldsView, w: Writing) -> bool {
    &&& 0 <= r <= z <= e <= s.len()
    &&& forall|i: int| r <= i < z ==> is_space(#[trigger] s[i])
    &&& forall|i: int| e <= i < s.len() ==> is_space(#[trigger] s[i])
    &&& e == z + written_zone(f.zone, w.zone_mark).len()
    &&& s.subrange(z, e) == written_zone(f.zone, w.zone_mark)
}

/// Behind a time of day stands white space, what opens a zone designator,
/// or nothing; and the white space ends where the designator begins, or at
/// the end of the text where there is none.
proof fn lemma_rest(s: Seq<char>, r: int, z: int, e: int, f: FieldsView, w: Writing)
    requires
        f.zone.well_formed(),
        w.zone_mark.suits(f.zone),
        rest_stands(s, r, z, e, f, w),
    ensures
        r < s.len() ==> is_boundary(s[r]),
        r < s.len() ==> !is_digit(s[r]) && s[r] != 'T' && s[r] != 't',
        w.zone_mark is Absent ==> spaces_end(s, r) == s.len() && z == e,
        !(w.zone_mark is Absent) ==> spaces_end(s, r) == z && z < e,
        !hour_at(s, spaces_end(s, r)),
        zone_match(s, spaces_end(s, r)) == Some(
            (
                f.zone,
                if w.zone_mark is Absent {
                    s.len() as int
                } else {
                    e
                },
            ),
        ),
        spaces_end(s, e) == s.len(),
{
    let c = written_zone(f.zone, w.zone_mark);
    lemma_part(s, z, c);
    lemma_spaces_run(s, e, s.len() as int);
    if w.zone_mark is Absent {
        assert(c.len() == 0);
        lemma_spaces_run(s, r, s.len() as int);
    } else {
        assert(c.len() > 0);
        assert(s[z + 0] == c[0]);
        assert(!is_space(c[0]) && !is_digit(c[0]) && is_boundary(c[0]));
        lemma_spaces_run(s, r, z);
        lemma_written_zone_matches(s, z, f.zone, w.zone_mark);
    }
}

/// Where the tail of well-formed fields is written from `q` to the end of
/// the text, the pattern reads it there.
proof fn lemma_written_tail_matches(s: Seq<char>, q: int, f: FieldsView, w: Writing)
    requires
        f.well_formed(),
        w.suits(f),
        0 <= q,
        q + written_tail(f, w).len() == s.len(),
        s.subrange(q, s.len() as int) == written_tail(f, w),
    ensures
        tail_match(s, q) is Some,
{
    let time = written_time(f.time, w);
    let zone = written_zone(f.zone, w.zone_mark);
    let r = q + time.len();
    let z = r + w.gap.len();
    let e = z + zone.len();
    lemma_split(s, q, time + w.gap + zone, w.trail);
    lemma_split(s, q, time + w.gap, zone);
    lemma_split(s, q, time, w.gap);
    lemma_blank_part(s, r, w.gap);
    lemma_blank_part(s, e, w.trail);
    assert(rest_stands(s, r, z, e, f, w));
    lemma_rest(s, r, z, e, f, w);
    match f.time {
        Some(t) => {
            let h = q + w.time_mark.len();
            lemma_split(s, q, w.time_mark, written_clock(t, w));
            lemma_written_clock_matches(s, h, t, w);
            lemma_part(s, q, w.time_mark);
            if w.time_mark == seq!['T'] || w.time_mark == seq!['t'] {
                assert(s[q + 0] == w.time_mark[0]);
            } else {
                lemma_blank_part(s, q, w.time_mark);
                assert(is_space(s[q]));
                assert(hour_at(s, h));
                lemma_spaces_run(s, q, h);
            }
            assert(time_match(s, q) == Some((f.time, r)));
        },
        None => {
            assert(time_match(s, q) == Some((f.time, r)));
        },
    }
}

/// The reading of the date under which the fields `f` are written with the
/// separators of `w`.
spec fn reading_of(f: FieldsView, w: Writing) -> int {
    (if w.hyphen_before_month {
        0int
    } else {
        8int
    }) + (if f.month is Some {
        0int
    } else {
        4int
    }) + (if w.hyphen_before_day {
        0int
    } else {
        2int
    }) + (if f.day is Some {
        0int
    } else {
        1int
    })
}

/// Where the date of well-formed fields is written at `p`, the reading
/// under which it is written fits there, and ends where the date does.
proof fn lemma_written_date_fits(s: Seq<char>, p: int, f: FieldsView, w: Writing)
    requires
        f.well_formed(),
        0 <= p,
        p + written_date(f, w).len() <= s.len(),
        s.subrange(p, p + written_date(f, w).len()) == written_date(f, w),
    ensures
        0 <= reading_of(f, w) < 16,
        date_layout(reading_of(f, w)).fits(s, p),
        date_layout(reading_of(f, w)).end(p) == p + written_date(f, w).len(),
{
    let first = optional(w.hyphen_before_month, seq!['-']);
    let second = optional(w.hyphen_before_day, seq!['-']);
    let month = or_nothing(f.month);
    let day = or_nothing(f.day);
    let layout = date_layout(reading_of(f, w));
    assert(layout.hyphen_before_month == w.hyphen_before_month);
    assert(layout.month == (f.month is Some));
    assert(layout.hyphen_before_day == w.hyphen_before_day);
    assert(layout.day == (f.day is Some));
    lemma_split(s, p, first + month + second, day);
    lemma_split(s, p, first + month, second);
    lemma_split(s, p, first, month);
    let a = p + first.len();
    let b = a + month.len();
    let c = b + second.len();
    lemma_part(s, p, first);
    lemma_part(s, a, month);
    lemma_part(s, b, second);
    lemma_part(s, c, day);
    if w.hyphen_before_month {
        assert(s[p + 0] == first[0]);
    }
    if f.month is Some {
        assert(s[a + 0] == month[0] && s[a + 1] == month[1]);
    }
    if w.hyphen_before_day {
        assert(s[b + 0] == second[0]);
    }
    if f.day is Some {
        assert(s[c + 0] == day[0] && s[c + 1] == day[1]);
    }
}

/// Every text in the permissive format matches the permissive pattern:
/// where well-formed fields are written with separators that the format
/// admits, the pattern takes fields out of the text.
pub proof fn law_written_text_matches(f: FieldsView, w: Writing)
    requires
        f.well_formed(),
        w.suits(f),
    ensures
        permissive_match(written(f, w)) is Some,
{
    let s = written(f, w);
    let date = written_date(f, w);
    let tail = written_tail(f, w);
    let y = w.lead.len() as int;
    let p = y + 4;
    let q = p + date.len();
    assert(s.subrange(0, s.len() as int) =~= s);
    lemma_split(s, 0, w.lead + f.year + date, tail);
    lemma_split(s, 0, w.lead + f.year, date);
    lemma_split(s, 0, w.lead, f.year);
    lemma_blank_part(s, 0, w.lead);
    lemma_part(s, y, f.year);
    assert(s[y + 0] == f.year[0] && s[y + 1] == f.year[1] && s[y + 2] == f.year[2] && s[y + 3]
        == f.year[3]);
    lemma_spaces_run(s, 0, y);
    assert(year_at(s, y));
    lemma_written_date_fits(s, p, f, w);
    lemma_written_tail_matches(s, q, f, w);
    let k = reading_of(f, w);
    assert(tail_match(s, date_layout(k).end(p)) is Some);
    lemma_first_reading(s, p, 0);
}

} // verus!