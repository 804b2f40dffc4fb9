//! `Iso8601`: a timestamp kept as the text it came in, and validated only
//! when it is converted, compared or shown.

use crate::canonical::{canonical_text, canonicalize};
use crate::datetime::{parse_rfc3339, rfc3339_moment, DateTime, Moment};
use crate::error::HolochainError;
use crate::extract::extract;
use crate::pattern::permissive_match;
use vstd::prelude::*;
use vstd::string::StringExecFns;

verus! {

/// A timestamp in the ISO 8601 / RFC 3339 family, as the text that a
/// producer sent. Nothing is checked when one is made.
#[derive(Clone)]
pub struct Iso8601(String);

impl View for Iso8601 {
    type V = Seq<char>;

    /// The text.
    closed spec fn view(&self) -> Seq<char> {
        self.0@
    }
}

impl vstd::std_specs::convert::FromSpecImpl<String> for Iso8601 {
    /// The outcome is stated by `from` itself, over views.
    open spec fn obeys_from_spec() -> bool {
        false
    }

    open spec fn from_spec(s: String) -> Iso8601 {
        arbitrary()
    }
}

impl From<String> for Iso8601 {
    /// Takes the text as it is; nothing is checked.
    fn from(s: String) -> (r: Iso8601)
        ensures
            r@ == s@,
    {
        Iso8601(s)
    }
}

impl vstd::std_specs::convert::FromSpecImpl<&'static str> for Iso8601 {
    /// The outcome is stated by `from` itself, over views.
    open spec fn obeys_from_spec() -> bool {
        false
    }

    open spec fn from_spec(s: &'static str) -> Iso8601 {
        arbitrary()
    }
}

impl From<&'static str> for Iso8601 {
    /// Takes the text as it is; nothing is checked.
    fn from(s: &'static str) -> (r: Iso8601)
        ensures
            r@ == s@,
    {
        Iso8601(s.to_owned())
    }
}

/// The diagnostic for a text that is neither strict nor matched by the
/// permissive pattern: it names the text.
pub open spec fn unrecognized_message(raw: Seq<char>) -> Seq<char> {
    "Failed to find ISO 3339 or RFC 8601 timestamp in \""@ + raw + "\""@
}

/// The diagnostic for a text whose canonical form the strict parser
/// refuses: it names the canonical form and the text.
pub open spec fn rejected_message(candidate: Seq<char>, raw: Seq<char>) -> Seq<char> {
    "Attempting to convert RFC 3339 timestamp \""@ + candidate + "\" from ISO 8601 \""@ + raw
        + "\" to a DateTime"@
}

/// The canonical form of the text `raw`, where the permissive pattern
/// matches it: its fields, written out in full.
pub open spec fn candidate_text(raw: Seq<char>) -> Option<Seq<char>> {
    match permissive_match(raw) {
        Some(fields) => Some(canonical_text(fields)),
        None => None,
    }
}

/// What validation makes of the text `raw`. A text that the strict parser
/// accepts stands for what the parser reads. Any other text must match the
/// permissive pattern, and then stands for what the strict parser reads from
/// its canonical form.
pub open spec fn validated(raw: Seq<char>) -> Result<Moment, Seq<char>> {
    match rfc3339_moment(raw) {
        Some(moment) => Ok(moment),
        None => match candidate_text(raw) {
            None => Err(unrecognized_message(raw)),
            Some(candidate) => match rfc3339_moment(candidate) {
                Some(moment) => Ok(moment),
                None => Err(rejected_message(candidate, raw)),
            },
        },
    }
}

/// A text that the strict parser accepts is validated as it stands: it
/// stands for what the parser reads from it, and the permissive pattern has
/// no part in it.
pub proof fn law_strict_text_is_taken_as_it_stands(raw: Seq<char>)
    requires
        rfc3339_moment(raw) is Some,
    ensures
        validated(raw) == Ok::<Moment, Seq<char>>(rfc3339_moment(raw)->0),
{
}

/// The strict parser has the last word: a text validates only to what the
/// strict parser reads, from the text itself or from its canonical form; and
/// a text that matches the permissive pattern still fails where the strict
/// parser refuses both, with a diagnostic that names the canonical form.
pub proof fn law_strict_parser_is_authoritative(raw: Seq<char>)
    ensures
        validated(raw) matches Ok(moment) ==> rfc3339_moment(raw) == Some(moment) || (
        candidate_text(raw) matches Some(candidate) && rfc3339_moment(candidate) == Some(moment)),
        rfc3339_moment(raw) is None && candidate_text(raw) is Some && rfc3339_moment(
            candidate_text(raw)->0,
        ) is None ==> validated(raw) == Err::<Moment, Seq<char>>(
            rejected_message(candidate_text(raw)->0, raw),
        ),
{
}

/// A text that neither the strict parser accepts nor the permissive pattern
/// matches fails with a diagnostic that ends with the text itself, unchanged,
/// in double quotes.
pub proof fn law_unrecognized_text_is_named(raw: Seq<char>)
    requires
        rfc3339_moment(raw) is None,
        candidate_text(raw) is None,
    ensures
        validated(raw) == Err::<Moment, Seq<char>>(unrecognized_message(raw)),
        unrecognized_message(raw).skip(49) == seq!['"'] + raw + seq!['"'],
{
    reveal_strlit("Failed to find ISO 3339 or RFC 8601 timestamp in \"");
    reveal_strlit("\"");
}

/// The canonical form of `raw`, for the strict parser to judge: the fields
/// that the permissive pattern takes out of the text, written out in full.
/// Fails where the pattern does not match, with a diagnostic that names the
/// text.
pub fn permissive_candidate(raw: &str) -> (r: Result<String, HolochainError>)
    ensures
        match r {
            Ok(candidate) => candidate_text(raw@) == Some(candidate@),
            Err(e) => candidate_text(raw@) is None && e@ == unrecognized_message(raw@),
        },
{
    match extract(raw) {
        Some(fields) => Ok(canonicalize(&fields)),
        None => {
            let mut message = "Failed to find ISO 3339 or RFC 8601 timestamp in \"".to_owned();
            message.append(raw);
            message.append("\"");
            Err(HolochainError::ErrorGeneric(message))
        },
    }
}

/// The verdict on a canonical form: `parsed` is what the strict parser made
/// of `candidate`, the canonical form of `raw`. Where it refused, the
/// diagnostic names both.
pub fn revalidated(parsed: Option<DateTime>, candidate: &str, raw: &str) -> (r: Result<
    DateTime,
    HolochainError,
>)
    ensures
        match r {
            Ok(dt) => parsed == Some(dt),
            Err(e) => parsed is None && e@ == rejected_message(candidate@, raw@),
        },
{
    match parsed {
        Some(dt) => Ok(dt),
        None => {
            let mut message = "Attempting to convert RFC 3339 timestamp \"".to_owned();
            message.append(candidate);
            message.append("\" from ISO 8601 \"");
            message.append(raw);
            message.append("\" to a DateTime");
            Err(HolochainError::ErrorGeneric(message))
        },
    }
}

impl vstd::std_specs::convert::TryFromSpecImpl<&Iso8601> for DateTime {
    /// The outcome is stated by `try_from` itself, over views.
    open spec fn obeys_try_from_spec() -> bool {
        false
    }

    open spec fn try_from_spec(v: &Iso8601) -> Result<DateTime, HolochainError> {
        arbitrary()
    }
}

impl TryFrom<&Iso8601> for DateTime {
    type Error = HolochainError;

    /// Validates the timestamp: the strict parser first, then the
    /// permissive pattern and the strict parser on the canonical form.
    fn try_from(lhs: &Iso8601) -> (r: Result<DateTime, HolochainError>)
        ensures
            match r {
                Ok(dt) => validated(lhs@) == Ok::<Moment, Seq<char>>(dt@),
                Err(e) => validated(lhs@) == Err::<Moment, Seq<char>>(e@),
            },
    {
        let raw = lhs.0.as_str();
        match parse_rfc3339(raw) {
            Some(dt) => Ok(dt),
            None => match permissive_candidate(raw) {
                Err(e) => Err(e),
                Ok(candidate) => revalidated(
                    parse_rfc3339(candidate.as_str()),
                    candidate.as_str(),
                    raw,
                ),
            },
        }
    }
}

/// How a timestamp is shown: its text in double quotes.
pub open spec fn display_text(raw: Seq<char>) -> Seq<char> {
    "\""@ + raw + "\""@
}

/// How a timestamp is shown for diagnosis. One that validates shows its
/// canonical form and, where the text differs from it, the text behind `<-`;
/// one that does not shows its text and, behind `->`, why.
pub open spec fn debug_text(raw: Seq<char>) -> Seq<char> {
    match validated(raw) {
        Ok(moment) => if raw != moment.text {
            "Iso8601 { \""@ + moment.text + "\" <- \""@ + raw + "\" }"@
        } else {
            "Iso8601 { \""@ + raw + "\" }"@
        },
        Err(why) => "Iso8601 { \""@ + raw + "\" -> "@ + why + " }"@,
    }
}

impl Iso8601 {
    /// The text as it came in.
    pub fn as_str(&self) -> (r: &str)
        ensures
            r@ == self@,
    {
        self.0.as_str()
    }

    /// The timestamp as it is shown: its text in double quotes.
    pub fn to_string(&self) -> (r: String)
        ensures
            r@ == display_text(self@),
    {
        let mut out = "\"".to_owned();
        out.append(self.0.as_str());
        out.append("\"");
        out
    }

    /// The timestamp as it is shown for diagnosis, with its canonical form
    /// or with the reason why it has none.
    pub fn to_debug_string(&self) -> (r: String)
        ensures
            r@ == debug_text(self@),
    {
        let mut out = "Iso8601 { \"".to_owned();
        match DateTime::try_from(self) {
            Ok(dt) => {
                let ts = dt.to_rfc3339();
                if self.0 == ts {
                    out.append(self.0.as_str());
                    out.append("\" }");
                } else {
                    out.append(ts.as_str());
                    out.append("\" <- \"");
                    out.append(self.0.as_str());
                    out.append("\" }");
                }
            },
            Err(e) => {
                out.append(self.0.as_str());
                out.append("\" -> ");
                out.append(e.to_string().as_str());
                out.append(" }");
            },
        }
        out
    }
}

/// A timestamp for use in examples: `2018-10-11T03:23:38+00:00`.
pub fn test_iso_8601() -> (r: Iso8601)
    ensures
        r@ == "2018-10-11T03:23:38+00:00"@,
{
    Iso8601::from("2018-10-11T03:23:38+00:00")
}

} // verus!
