//! Error taxonomy of the core.

use vstd::prelude::*;

verus! {

/// A grammar violation in raw tool output. Parsing is all-or-nothing, so
/// one malformed line fails the whole report; `pos` is a character-position
/// hint near where parsing stopped.
#[derive(Debug, Clone, Copy, PartialEq, Eq, Structural)]
pub enum AdapterError {
    Parse { pos: usize },
}

/// A value outside the range the fixed-point statistics support, rejected
/// before any computation.
#[derive(Debug, Clone, Copy, PartialEq, Eq, Structural)]
pub enum ArithmeticError {
    OutOfRange,
}

/// Invalid threshold configuration, scoped to one metric kind's evaluation:
/// a significance level the test tables do not support.
#[derive(Debug, Clone, Copy, PartialEq, Eq, Structural)]
pub enum ConfigError {
    UnsupportedSignificance { alpha: u64 },
}

/// Errors of the surrounding API model: an identifier that is not a UUID,
/// a timestamp outside the representable range, a caller acting for
/// another user without administrator rights, a token lifetime over the
/// cap, or a report whose branch and testbed belong to different projects.
#[derive(Debug, Clone, Copy, PartialEq, Eq, Structural)]
pub enum ApiError {
    InvalidUuid,
    Timestamp(i64),
    SameUser { auth: i32, user: i32 },
    MaxTtl { requested: u64, max: u64 },
    ProjectMismatch,
}

/// Errors of the command-line model: no flag convention known for the
/// target platform.
#[derive(Debug, Clone, Copy, PartialEq, Eq, Structural)]
pub enum BencherError {
    Flag,
}

} // verus!
