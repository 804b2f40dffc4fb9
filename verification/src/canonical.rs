//! The canonicalizer: it fills what a text left out and writes the fields
//! as one strict-format text.

use crate::fields::{text_view, ExtractedFields, FieldsView, Zone, ZoneView};
use crate::pattern::{law_match_is_well_formed, permissive_match};
use vstd::prelude::*;
use vstd::string::StringExecFns;

verus! {

/// The text `t`, or `default` where there is none.
pub open spec fn or_default(t: Option<Seq<char>>, default: Seq<char>) -> Seq<char> {
    match t {
        Some(x) => x,
        None => default,
    }
}

/// The hour of the canonical form: `00` where the text has no time of day.
pub open spec fn hour_text(f: FieldsView) -> Seq<char> {
    match f.time {
        Some(t) => t.hour,
        None => "00"@,
    }
}

/// The minute of the canonical form: `00` where the text has none.
pub open spec fn minute_text(f: FieldsView) -> Seq<char> {
    match f.time {
        Some(t) => or_default(t.minute, "00"@),
        None => "00"@,
    }
}

/// The second of the canonical form: `00` where the text has none.
pub open spec fn second_text(f: FieldsView) -> Seq<char> {
    match f.time {
        Some(t) => or_default(t.second, "00"@),
        None => "00"@,
    }
}

/// The fraction of a second in the canonical form: the digits behind a
/// point, or nothing.
pub open spec fn fraction_text(f: FieldsView) -> Seq<char> {
    match f.time {
        Some(t) => match t.fraction {
            Some(digits) => "."@ + digits,
            None => Seq::empty(),
        },
        None => Seq::empty(),
    }
}

/// The zone designator of the canonical form: `Z` for UTC, else the sign as
/// `+` or `-`, the hours, a colon and the minutes, `00` where the text has
/// none.
pub open spec fn zone_text(z: ZoneView) -> Seq<char> {
    match z {
        ZoneView::Zulu => "Z"@,
        ZoneView::Offset { negative, hours, minutes } => (if negative {
            "-"@
        } else {
            "+"@
        }) + hours + ":"@ + or_default(minutes, "00"@),
    }
}

/// Date and time of the canonical form, to the second:
/// `YYYY-MM-DDThh:mm:ss`, with month and day `01` where the text has none.
pub open spec fn date_time_text(f: FieldsView) -> Seq<char> {
    f.year + "-"@ + or_default(f.month, "01"@) + "-"@ + or_default(f.day, "01"@) + "T"@
        + hour_text(f) + ":"@ + minute_text(f) + ":"@ + second_text(f)
}

/// The canonical form of the fields `f`:
/// `YYYY-MM-DDThh:mm:ss[.fraction]` and the zone designator.
pub open spec fn canonical_text(f: FieldsView) -> Seq<char> {
    date_time_text(f) + fraction_text(f) + zone_text(f.zone)
}

/// The canonical form of well-formed fields is fully specified: the year,
/// month, day, hour, minute and second stand at fixed places, each field
/// that the text gave as it gave it and each other as its default, with
/// `-`, `T` and `:` between them; the fraction and the zone designator
/// follow.
pub proof fn law_canonical_form_is_fully_specified(f: FieldsView)
    requires
        f.well_formed(),
    ensures
        ({
            let c = canonical_text(f);
            &&& c.len() >= 20
            &&& c.subrange(0, 4) == f.year
            &&& c[4] == '-'
            &&& c.subrange(5, 7) == or_default(f.month, "01"@)
            &&& c[7] == '-'
            &&& c.subrange(8, 10) == or_default(f.day, "01"@)
            &&& c[10] == 'T'
            &&& c.subrange(11, 13) == hour_text(f)
            &&& c[13] == ':'
            &&& c.subrange(14, 16) == minute_text(f)
            &&& c[16] == ':'
            &&& c.subrange(17, 19) == second_text(f)
            &&& c.subrange(19, c.len() as int) == fraction_text(f) + zone_text(f.zone)
        }),
{
    reveal_strlit("-");
    reveal_strlit("+");
    reveal_strlit("01");
    reveal_strlit("00");
    reveal_strlit("T");
    reveal_strlit(":");
    reveal_strlit("Z");
    let month = or_default(f.month, "01"@);
    let day = or_default(f.day, "01"@);
    assert(month.len() == 2 && day.len() == 2);
    assert(hour_text(f).len() == 2 && minute_text(f).len() == 2 && second_text(f).len() == 2);
    assert(zone_text(f.zone).len() >= 1);
    let head = date_time_text(f);
    assert(head.len() == 19);
    let c = canonical_text(f);
    assert(c.subrange(0, 19) == head);
}

/// Three fields `00` with colons between them read `00:00:00`.
proof fn lemma_midnight(c: Seq<char>)
    requires
        c.len() >= 19,
        c.subrange(11, 13) == "00"@,
        c[13] == ':',
        c.subrange(14, 16) == "00"@,
        c[16] == ':',
        c.subrange(17, 19) == "00"@,
    ensures
        c.subrange(11, 19) == "00:00:00"@,
{
    reveal_strlit("00");
    reveal_strlit("00:00:00");
    let hour = c.subrange(11, 13);
    let minute = c.subrange(14, 16);
    let second = c.subrange(17, 19);
    assert(hour[0] == '0' && hour[1] == '0');
    assert(minute[0] == '0' && minute[1] == '0');
    assert(second[0] == '0' && second[1] == '0');
    assert(c[11] == '0' && c[12] == '0' && c[14] == '0' && c[15] == '0' && c[17] == '0' && c[18]
        == '0');
    assert(c.subrange(11, 19) =~= "00:00:00"@);
}

/// Where well-formed fields have no month, no day or no time of day, their
/// canonical form has `01`, `01` and `00:00:00` in their places.
proof fn lemma_defaults(f: FieldsView)
    requires
        f.well_formed(),
    ensures
        ({
            let c = canonical_text(f);
            &&& c.len() >= 20
            &&& f.month is None ==> c.subrange(5, 7) == "01"@
            &&& f.day is None ==> c.subrange(8, 10) == "01"@
            &&& f.time is None ==> c.subrange(11, 19) == "00:00:00"@
        }),
{
    law_canonical_form_is_fully_specified(f);
    if f.time is None {
        lemma_midnight(canonical_text(f));
    }
}

/// Where a text that matches the pattern has no month, no day or no time
/// of day, its canonical form has `01`, `01` and `00:00:00` in their places.
pub proof fn law_missing_fields_take_defaults(s: Seq<char>)
    requires
        permissive_match(s) is Some,
    ensures
        ({
            let f = permissive_match(s)->0;
            let c = canonical_text(f);
            &&& c.len() >= 20
            &&& f.month is None ==> c.subrange(5, 7) == "01"@
            &&& f.day is None ==> c.subrange(8, 10) == "01"@
            &&& f.time is None ==> c.subrange(11, 19) == "00:00:00"@
        }),
{
    law_match_is_well_formed(s);
    lemma_defaults(permissive_match(s)->0);
}

/// The text `t`, or `default` where there is none.
fn text_or<'a>(t: &'a Option<String>, default: &'a str) -> (r: &'a str)
    ensures
        r@ == or_default(text_view(*t), default@),
{
    match t {
        Some(x) => x.as_str(),
        None => default,
    }
}

/// Writes the fields as one strict-format text, each field that the text
/// left out with its default.
pub fn canonicalize(fields: &ExtractedFields) -> (r: String)
    ensures
        r@ == canonical_text(fields@),
{
    let mut out = fields.year.clone();
    out.append("-");
    out.append(text_or(&fields.month, "01"));
    out.append("-");
    out.append(text_or(&fields.day, "01"));
    out.append("T");
    match &fields.time {
        Some(time) => {
            out.append(time.hour.as_str());
            out.append(":");
            out.append(text_or(&time.minute, "00"));
            out.append(":");
            out.append(text_or(&time.second, "00"));
            match &time.fraction {
                Some(digits) => {
                    out.append(".");
                    out.append(digits.as_str());
                },
                None => {},
            }
        },
        None => {
            out.append("00");
            out.append(":");
            out.append("00");
            out.append(":");
            out.append("00");
        },
    }
    match &fields.zone {
        Zone::Zulu => {
            out.append("Z");
        },
        Zone::Offset { negative, hours, minutes } => {
            if *negative {
                out.append("-");
            } else {
                out.append("+");
            }
            out.append(hours.as_str());
            out.append(":");
            out.append(text_or(minutes, "00"));
        },
    }
    out
}

} // verus!
