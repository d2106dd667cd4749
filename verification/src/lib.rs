//! Lookup of Unicode character records by a human-readable name fragment.
//!
//! The library pairs a packed, null-delimited name table with a linear
//! substring scanner ([`string_search`]) and the per-codepoint metadata
//! model (category, numeric value, case mappings) that each matched
//! ordinal indexes into ([`ucd`]). The table and the record array are
//! produced by an external build step from the Unicode Character Database
//! and handed in as immutable data; the library never mutates them.

use vstd::prelude::*;

pub mod decimal;
pub mod string_search;
pub mod ucd;

verus! {

/// The error kinds the library reports.
///
/// `UsageError` and `UnknownCategory` are user errors; `OutOfRange` and
/// `InvalidCodepoint` indicate a corrupted or mismatched generated table
/// (a data-integrity fault, not a user error).
#[derive(Debug, Clone, Copy, PartialEq, Eq, Structural)]
pub enum UcdError {
    /// The query is empty.
    UsageError,
    /// A category code is not one of the thirty recognized tags.
    UnknownCategory,
    /// An ordinal or a value reference points past the end of its table.
    OutOfRange,
    /// A codepoint field holds no valid Unicode scalar value.
    InvalidCodepoint,
}

} // verus!
