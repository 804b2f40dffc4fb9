//! The fields that the permissive pattern takes out of a text.

use crate::chars::is_digit;
use vstd::prelude::*;

verus! {

/// Whether the two digits `a`, `b` name a month: `01` to `12`.
pub open spec fn is_month(a: char, b: char) -> bool {
    (a == '0' && '1' <= b <= '9') || (a == '1' && '0' <= b <= '2')
}

/// Whether the two digits `a`, `b` name a day of the month: `01` to `31`.
pub open spec fn is_day(a: char, b: char) -> bool {
    (a == '0' && '1' <= b <= '9') || ('1' <= a <= '2' && is_digit(b)) || (a == '3' && '0' <= b
        <= '1')
}

/// Whether the two digits `a`, `b` name an hour: `00` to `23`.
pub open spec fn is_hour(a: char, b: char) -> bool {
    ('0' <= a <= '1' && is_digit(b)) || (a == '2' && '0' <= b <= '3')
}

/// Whether the two digits `a`, `b` name a minute: `00` to `59`.
pub open spec fn is_minute(a: char, b: char) -> bool {
    '0' <= a <= '5' && is_digit(b)
}

/// Whether the two digits `a`, `b` name a second: `00` to `59`, or the leap
/// second `60`.
pub open spec fn is_second(a: char, b: char) -> bool {
    is_minute(a, b) || (a == '6' && b == '0')
}

/// Whether `t` is made of decimal digits only.
pub open spec fn all_digits(t: Seq<char>) -> bool {
    forall|i: int| 0 <= i < t.len() ==> is_digit(#[trigger] t[i])
}

/// A time of day, as far as the text gives it.
pub struct TimeOfDayView {
    pub hour: Seq<char>,
    pub minute: Option<Seq<char>>,
    pub second: Option<Seq<char>>,
    pub fraction: Option<Seq<char>>,
}

/// A zone designator: UTC, or hours and minutes to either side of it.
pub enum ZoneView {
    Zulu,
    Offset { negative: bool, hours: Seq<char>, minutes: Option<Seq<char>> },
}

/// The fields of a timestamp, each as the text gives it; `None` where the
/// text leaves one out.
pub struct FieldsView {
    pub year: Seq<char>,
    pub month: Option<Seq<char>>,
    pub day: Option<Seq<char>>,
    pub time: Option<TimeOfDayView>,
    pub zone: ZoneView,
}

impl TimeOfDayView {
    /// The hour is in `00..=23`, the minute in `00..=59`, the second in
    /// `00..=60`, the fraction a run of digits; and none of them stands
    /// without the one before it.
    pub open spec fn well_formed(self) -> bool {
        &&& self.hour.len() == 2 && is_hour(self.hour[0], self.hour[1])
        &&& self.minute matches Some(m) ==> m.len() == 2 && is_minute(m[0], m[1])
        &&& self.second matches Some(s) ==> s.len() == 2 && is_second(s[0], s[1])
            && self.minute is Some
        &&& self.fraction matches Some(f) ==> f.len() > 0 && all_digits(f) && self.second is Some
    }
}

impl ZoneView {
    /// The hours of an offset are two digits, and so are its minutes.
    pub open spec fn well_formed(self) -> bool {
        match self {
            ZoneView::Zulu => true,
            ZoneView::Offset { negative, hours, minutes } => {
                &&& hours.len() == 2 && all_digits(hours)
                &&& minutes matches Some(m) ==> m.len() == 2 && all_digits(m)
            },
        }
    }
}

impl FieldsView {
    /// The year is four digits, the month in `01..=12`, the day in
    /// `01..=31`, and time and zone are well formed.
    pub open spec fn well_formed(self) -> bool {
        &&& self.year.len() == 4 && all_digits(self.year)
        &&& self.month matches Some(m) ==> m.len() == 2 && is_month(m[0], m[1])
        &&& self.day matches Some(d) ==> d.len() == 2 && is_day(d[0], d[1])
        &&& self.time matches Some(t) ==> t.well_formed()
        &&& self.zone.well_formed()
    }
}

/// The characters of an optional text.
pub open spec fn text_view(t: Option<String>) -> Option<Seq<char>> {
    match t {
        Some(x) => Some(x@),
        None => None,
    }
}

/// A time of day taken out of a text.
#[derive(Clone, Debug)]
pub struct TimeOfDay {
    pub hour: String,
    pub minute: Option<String>,
    pub second: Option<String>,
    pub fraction: Option<String>,
}

/// A zone designator taken out of a text.
#[derive(Clone, Debug)]
pub enum Zone {
    Zulu,
    Offset { negative: bool, hours: String, minutes: Option<String> },
}

/// The fields taken out of a text.
#[derive(Clone, Debug)]
pub struct ExtractedFields {
    pub year: String,
    pub month: Option<String>,
    pub day: Option<String>,
    pub time: Option<TimeOfDay>,
    pub zone: Zone,
}

impl View for TimeOfDay {
    type V = TimeOfDayView;

    open spec fn view(&self) -> TimeOfDayView {
        TimeOfDayView {
            hour: self.hour@,
            minute: text_view(self.minute),
            second: text_view(self.second),
            fraction: text_view(self.fraction),
        }
    }
}

impl View for Zone {
    type V = ZoneView;

    open spec fn view(&self) -> ZoneView {
        match self {
            Zone::Zulu => ZoneView::Zulu,
            Zone::Offset { negative, hours, minutes } => ZoneView::Offset {
                negative: *negative,
                hours: hours@,
                minutes: text_view(*minutes),
            },
        }
    }
}

/// What an optional time of day stands for.
pub open spec fn time_view(t: Option<TimeOfDay>) -> Option<TimeOfDayView> {
    match t {
        Some(x) => Some(x@),
        None => None,
    }
}

impl View for ExtractedFields {
    type V = FieldsView;

    open spec fn view(&self) -> FieldsView {
        FieldsView {
            year: self.year@,
            month: text_view(self.month),
            day: text_view(self.day),
            time: time_view(self.time),
            zone: self.zone@,
        }
    }
}

} // verus!
