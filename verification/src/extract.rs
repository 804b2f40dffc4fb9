//! The extractor: it matches a text against the permissive pattern and hands
//! out the fields.

use crate::chars::{characters, digit, space};
use crate::fields::{time_view, ExtractedFields, TimeOfDay, Zone};
use crate::pattern::{
    at, clock_match, date_layout, day_at, digits_end, first_reading, hour_at,
    law_match_is_well_formed, minute_at, month_at, next_field, permissive_match, second_at,
    spaces_end, spans, tail_match, time_match, two_digits_at, year_at, zone_match, DateLayout,
    MINUS_SIGN,
};
use vstd::prelude::*;

verus! {

/// The first position from `from` on that holds no white space.
fn skip_spaces(chars: &Vec<char>, from: usize) -> (r: usize)
    requires
        from <= chars.len(),
    ensures
        r == spaces_end(chars@, from as int),
        from <= r <= chars.len(),
{
    let mut i = from;
    while i < chars.len() && space(chars[i])
        invariant
            from <= i <= chars.len(),
            spaces_end(chars@, from as int) == spaces_end(chars@, i as int),
        decreases chars.len() - i,
    {
        i = i + 1;
    }
    i
}

/// The first position from `from` on that holds no digit.
fn skip_digits(chars: &Vec<char>, from: usize) -> (r: usize)
    requires
        from <= chars.len(),
    ensures
        r == digits_end(chars@, from as int),
        from <= r <= chars.len(),
{
    let mut i = from;
    while i < chars.len() && digit(chars[i])
        invariant
            from <= i <= chars.len(),
            digits_end(chars@, from as int) == digits_end(chars@, i as int),
        decreases chars.len() - i,
    {
        i = i + 1;
    }
    i
}

/// Tells whether the character `c` stands at `p`.
fn holds(chars: &Vec<char>, p: usize, c: char) -> (r: bool)
    ensures
        r == at(chars@, p as int, c),
{
    p < chars.len() && chars[p] == c
}

/// The two characters at `p`, if two stand there.
fn pair_at(chars: &Vec<char>, p: usize) -> (r: Option<(char, char)>)
    ensures
        match r {
            Some((a, b)) => spans(chars@, p as int, 2) && a == chars@[p as int] && b == chars@[p + 1],
            None => !spans(chars@, p as int, 2),
        },
{
    if p < chars.len() && chars.len() - p >= 2 {
        Some((chars[p], chars[p + 1]))
    } else {
        None
    }
}

/// Tells whether two digits stand at `p`.
fn two_digits_stand(chars: &Vec<char>, p: usize) -> (r: bool)
    ensures
        r == two_digits_at(chars@, p as int),
{
    match pair_at(chars, p) {
        Some((a, b)) => digit(a) && digit(b),
        None => false,
    }
}

/// Tells whether a year stands at `p`.
fn year_stands(chars: &Vec<char>, p: usize) -> (r: bool)
    ensures
        r == year_at(chars@, p as int),
{
    chars.len() >= 4 && p <= chars.len() - 4 && digit(chars[p]) && digit(chars[p + 1]) && digit(
        chars[p + 2],
    ) && digit(chars[p + 3])
}

/// Tells whether a month stands at `p`.
fn month_stands(chars: &Vec<char>, p: usize) -> (r: bool)
    ensures
        r == month_at(chars@, p as int),
{
    match pair_at(chars, p) {
        Some((a, b)) => (a == '0' && '1' <= b && b <= '9') || (a == '1' && '0' <= b && b <= '2'),
        None => false,
    }
}

/// Tells whether a day of the month stands at `p`.
fn day_stands(chars: &Vec<char>, p: usize) -> (r: bool)
    ensures
        r == day_at(chars@, p as int),
{
    match pair_at(chars, p) {
        Some((a, b)) => (a == '0' && '1' <= b && b <= '9') || ('1' <= a && a <= '2' && digit(b))
            || (a == '3' && '0' <= b && b <= '1'),
        None => false,
    }
}

/// Tells whether an hour stands at `p`.
fn hour_stands(chars: &Vec<char>, p: usize) -> (r: bool)
    ensures
        r == hour_at(chars@, p as int),
{
    match pair_at(chars, p) {
        Some((a, b)) => ('0' <= a && a <= '1' && digit(b)) || (a == '2' && '0' <= b && b <= '3'),
        None => false,
    }
}

/// Tells whether a minute stands at `p`.
fn minute_stands(chars: &Vec<char>, p: usize) -> (r: bool)
    ensures
        r == minute_at(chars@, p as int),
{
    match pair_at(chars, p) {
        Some((a, b)) => '0' <= a && a <= '5' && digit(b),
        None => false,
    }
}

/// Tells whether a second stands at `p`.
fn second_stands(chars: &Vec<char>, p: usize) -> (r: bool)
    ensures
        r == second_at(chars@, p as int),
{
    match pair_at(chars, p) {
        Some((a, b)) => ('0' <= a && a <= '5' && digit(b)) || (a == '6' && b == '0'),
        None => false,
    }
}

/// Where the next field of a time of day begins, if the text goes on with
/// one at `r`.
fn next_start(chars: &Vec<char>, r: usize) -> (n: Option<usize>)
    requires
        r <= chars.len(),
    ensures
        match n {
            Some(m) => next_field(chars@, r as int) == Some(m as int) && m <= chars.len(),
            None => next_field(chars@, r as int) is None,
        },
{
    if holds(chars, r, ':') {
        Some(r + 1)
    } else if r < chars.len() && digit(chars[r]) {
        Some(r)
    } else {
        None
    }
}

/// The characters of `text` from `from` up to `to`, as a text of their own.
fn piece(text: &str, from: usize, to: usize) -> (r: String)
    requires
        from <= to <= text@.len(),
    ensures
        r@ == text@.subrange(from as int, to as int),
{
    text.substring_char(from, to).to_owned()
}

/// Reads the time of day whose hour stands at `h`.
fn scan_clock(text: &str, chars: &Vec<char>, h: usize) -> (r: Option<(TimeOfDay, usize)>)
    requires
        chars@ == text@,
        h <= chars.len(),
    ensures
        match r {
            Some((time, e)) => clock_match(chars@, h as int) == Some((time@, e as int)) && e
                <= chars.len(),
            None => clock_match(chars@, h as int) is None,
        },
{
    if !hour_stands(chars, h) {
        return None;
    }
    let hour = piece(text, h, h + 2);
    match next_start(chars, h + 2) {
        None => Some((TimeOfDay { hour, minute: None, second: None, fraction: None }, h + 2)),
        Some(m) => {
            if !minute_stands(chars, m) {
                return None;
            }
            let minute = Some(piece(text, m, m + 2));
            match next_start(chars, m + 2) {
                None => Some((TimeOfDay { hour, minute, second: None, fraction: None }, m + 2)),
                Some(x) => {
                    if !second_stands(chars, x) {
                        return None;
                    }
                    let second = Some(piece(text, x, x + 2));
                    if holds(chars, x + 2, '.') || holds(chars, x + 2, ',') {
                        let e = skip_digits(chars, x + 3);
                        if e > x + 3 {
                            let fraction = Some(piece(text, x + 3, e));
                            Some((TimeOfDay { hour, minute, second, fraction }, e))
                        } else {
                            None
                        }
                    } else {
                        Some((TimeOfDay { hour, minute, second, fraction: None }, x + 2))
                    }
                },
            }
        },
    }
}

/// Reads the zone designator at `z`.
fn scan_zone(text: &str, chars: &Vec<char>, z: usize) -> (r: Option<(Zone, usize)>)
    requires
        chars@ == text@,
        z <= chars.len(),
    ensures
        match r {
            Some((zone, e)) => zone_match(chars@, z as int) == Some((zone@, e as int)) && e
                <= chars.len(),
            None => zone_match(chars@, z as int) is None,
        },
{
    if holds(chars, z, 'Z') || holds(chars, z, 'z') {
        Some((Zone::Zulu, z + 1))
    } else if z < chars.len() && (chars[z] == '+' || chars[z] == '-' || chars[z] == MINUS_SIGN) {
        let negative = chars[z] != '+';
        if !two_digits_stand(chars, z + 1) {
            return None;
        }
        let hours = piece(text, z + 1, z + 3);
        match next_start(chars, z + 3) {
            None => Some((Zone::Offset { negative, hours, minutes: None }, z + 3)),
            Some(m) => {
                if two_digits_stand(chars, m) {
                    let minutes = Some(piece(text, m, m + 2));
                    Some((Zone::Offset { negative, hours, minutes }, m + 2))
                } else {
                    None
                }
            },
        }
    } else {
        Some((Zone::Zulu, z))
    }
}

/// Reads the time of day that begins at `q`, if one does.
fn scan_time(text: &str, chars: &Vec<char>, q: usize) -> (r: Option<(Option<TimeOfDay>, usize)>)
    requires
        chars@ == text@,
        q <= chars.len(),
    ensures
        match r {
            Some((time, e)) => time_match(chars@, q as int) == Some((time_view(time), e as int))
                && e <= chars.len(),
            None => time_match(chars@, q as int) is None,
        },
{
    let h = if holds(chars, q, 'T') || holds(chars, q, 't') {
        q + 1
    } else {
        let h = skip_spaces(chars, q);
        if !(h > q && hour_stands(chars, h)) {
            return Some((None, q));
        }
        h
    };
    match scan_clock(text, chars, h) {
        Some((time, e)) => Some((Some(time), e)),
        None => None,
    }
}

/// Reads what stands between the date, which ends at `q`, and the end of
/// the text.
fn scan_tail(text: &str, chars: &Vec<char>, q: usize) -> (r: Option<(Option<TimeOfDay>, Zone)>)
    requires
        chars@ == text@,
        q <= chars.len(),
    ensures
        match r {
            Some((time, zone)) => tail_match(chars@, q as int) == Some((time_view(time), zone@)),
            None => tail_match(chars@, q as int) is None,
        },
{
    match scan_time(text, chars, q) {
        None => None,
        Some((time, r)) => {
            let z = skip_spaces(chars, r);
            match scan_zone(text, chars, z) {
                None => None,
                Some((zone, e)) => {
                    if skip_spaces(chars, e) == chars.len() {
                        Some((time, zone))
                    } else {
                        None
                    }
                },
            }
        },
    }
}

/// The `k`-th reading of the date, in the order in which they are tried.
fn layout_of(k: u8) -> (r: DateLayout)
    requires
        k < 16,
    ensures
        r == date_layout(k as int),
{
    DateLayout {
        hyphen_before_month: k < 8,
        month: k % 8 < 4,
        hyphen_before_day: k % 4 < 2,
        day: k % 2 == 0,
    }
}

/// Reads the date at `p` as `layout` has it: where month and day stand and
/// where the date ends, if the characters fit.
fn fit(chars: &Vec<char>, p: usize, layout: &DateLayout) -> (r: Option<(usize, usize, usize)>)
    requires
        p <= chars.len(),
    ensures
        match r {
            Some((m, d, e)) => {
                &&& layout.fits(chars@, p as int)
                &&& m == layout.month_start(p as int)
                &&& d == layout.day_start(p as int)
                &&& e == layout.end(p as int)
                &&& e <= chars.len()
            },
            None => !layout.fits(chars@, p as int),
        },
{
    let mut q = p;
    if layout.hyphen_before_month {
        if !holds(chars, q, '-') {
            return None;
        }
        q = q + 1;
    }
    let m = q;
    if layout.month {
        if !month_stands(chars, q) {
            return None;
        }
        q = q + 2;
    }
    if layout.hyphen_before_day {
        if !holds(chars, q, '-') {
            return None;
        }
        q = q + 1;
    }
    let d = q;
    if layout.day {
        if !day_stands(chars, q) {
            return None;
        }
        q = q + 2;
    }
    Some((m, d, q))
}

/// Matches `text` against the permissive pattern and hands out its fields;
/// `None` where the text does not match.
pub fn extract(text: &str) -> (r: Option<ExtractedFields>)
    ensures
        match r {
            Some(fields) => permissive_match(text@) == Some(fields@) && fields@.well_formed(),
            None => permissive_match(text@) is None,
        },
{
    let chars = characters(text);
    let y = skip_spaces(&chars, 0);
    if !year_stands(&chars, y) {
        return None;
    }
    let p = y + 4;
    let mut k: u8 = 0;
    while k < 16
        invariant
            k <= 16,
            chars@ == text@,
            y == spaces_end(chars@, 0),
            year_at(chars@, y as int),
            p == y + 4,
            first_reading(chars@, p as int, 0) == first_reading(chars@, p as int, k as int),
        decreases 16 - k,
    {
        let layout = layout_of(k);
        match fit(&chars, p, &layout) {
            Some((m, d, e)) => {
                match scan_tail(text, &chars, e) {
                    Some((time, zone)) => {
                        let year = piece(text, y, p);
                        let month = if layout.month {
                            Some(piece(text, m, m + 2))
                        } else {
                            None
                        };
                        let day = if layout.day {
                            Some(piece(text, d, d + 2))
                        } else {
                            None
                        };
                        proof {
                            law_match_is_well_formed(text@);
                        }
                        return Some(ExtractedFields { year, month, day, time, zone });
                    },
                    None => {},
                }
            },
            None => {},
        }
        k = k + 1;
    }
    None
}

} // verus!
