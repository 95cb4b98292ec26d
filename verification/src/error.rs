//! The error taxonomy shared by every parser in the crate.
//!
//! Each variant carries the offending input slice, so a caller can see what
//! was rejected.  Parsers fail on the first violated precondition and
//! propagate a collaborator's error unchanged; no partial results are
//! returned.

use vstd::prelude::*;

verus! {

/// A parse error, carrying the input (bytes or text) that was rejected.
#[derive(Debug, Clone, PartialEq, Eq)]
pub enum AprsError {
    /// The packet envelope is malformed (no `:`, no `>`, or an empty body).
    InvalidMessage(String),
    /// A callsign token is empty.
    InvalidCallsign(String),
    /// A position report is malformed (bad sigil, short input, bad
    /// coordinate or cs-field bytes).
    InvalidPosition(Vec<u8>),
    /// A status report is malformed.  No parser in this crate currently
    /// produces it: the status parser treats a bad timestamp as comment text.
    InvalidStatus(String),
    /// A timestamp is not 7 bytes, has a non-digit where a digit belongs,
    /// carries an unknown format tag, or a field is out of range.
    InvalidTimestamp(Vec<u8>),
    /// A symbol table byte is unrecognized.  Kept for API completeness; the
    /// position parser stores the symbol table byte verbatim.
    InvalidSymbolTable(Vec<u8>),
    /// A course/speed data extension has a course above 360 degrees.
    InvalidCourse(String),
    /// A 7-byte token matches none of the data extension layouts.
    InvalidDataExtension(String),
}

/// The specification-level mirror of [`AprsError`]: the same variants over
/// mathematical sequences instead of `String` / `Vec<u8>`, so that a spec
/// function can state exactly which error a parser returns and with which
/// payload.
pub enum SpecErr {
    Message(Seq<char>),
    Callsign(Seq<char>),
    Position(Seq<u8>),
    Status(Seq<char>),
    Timestamp(Seq<u8>),
    SymbolTable(Seq<u8>),
    Course(Seq<char>),
    DataExtension(Seq<char>),
}

/// An executable error equals a spec-level error when the variants coincide
/// and the payload views are equal.
pub open spec fn err_matches(e: AprsError, s: SpecErr) -> bool {
    match (e, s) {
        (AprsError::InvalidMessage(t), SpecErr::Message(u)) => t@ == u,
        (AprsError::InvalidCallsign(t), SpecErr::Callsign(u)) => t@ == u,
        (AprsError::InvalidPosition(t), SpecErr::Position(u)) => t@ == u,
        (AprsError::InvalidStatus(t), SpecErr::Status(u)) => t@ == u,
        (AprsError::InvalidTimestamp(t), SpecErr::Timestamp(u)) => t@ == u,
        (AprsError::InvalidSymbolTable(t), SpecErr::SymbolTable(u)) => t@ == u,
        (AprsError::InvalidCourse(t), SpecErr::Course(u)) => t@ == u,
        (AprsError::InvalidDataExtension(t), SpecErr::DataExtension(u)) => t@ == u,
        _ => false,
    }
}

/// An executable parse result agrees with a spec-level parse result: same
/// outcome, same value on success, matching error on failure.
pub open spec fn result_matches<T>(r: Result<T, AprsError>, s: Result<T, SpecErr>) -> bool {
    match (r, s) {
        (Ok(v), Ok(w)) => v == w,
        (Err(e), Err(se)) => err_matches(e, se),
        _ => false,
    }
}

} // verus!
