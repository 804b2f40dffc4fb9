//! Timestamps received as free-form text: how they are read, brought to one
//! canonical form, validated and compared.
//!
//! A text is validated in three steps. The strict RFC 3339 parser is tried
//! on the text as it stands (`datetime`). Where it refuses, the permissive
//! pattern (`pattern`, `grammar`) must match the text; the extractor
//! (`extract`) hands out its fields (`fields`), and the canonicalizer
//! (`canonical`) writes them as one strict-format text. The strict parser
//! then judges that text. `time` holds the timestamp type and these steps,
//! `compare` the two ways in which timestamps compare.

pub mod canonical;
pub mod chars;
pub mod compare;
pub mod datetime;
pub mod error;
pub mod extract;
pub mod fields;
pub mod grammar;
pub mod pattern;
pub mod time;
pub mod timeout;
