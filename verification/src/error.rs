//! The error kinds raised by the library: malformed input lines, a missing
//! entity during a lookup, and a store that cannot be reached.

use vstd::prelude::*;
use vstd::string::StringExecFns;
use crate::text::dec_digits;

verus! {

/// What went wrong. Parse errors carry the reason; `NotFound` is the normal
/// outcome of a lookup with a stale id; `StoreUnavailable` stands for a
/// connection that could not be acquired and is treated as fatal.
#[derive(Debug, Clone, PartialEq)]
pub enum Error {
    EmptyFile,
    InitialPoseNotFound,
    PathNotFound,
    CoOrdinateParseError(String),
    PoseParseError(String),
    MotionParseError(String),
    NotFound,
    StoreUnavailable,
}

/// The reason carried by every rejected coordinate token.
pub open spec fn coordinate_err_msg() -> Seq<char> {
    "Co-ordinate can only be a non-negative integer"@
}

/// The reason carried when a line does not have the expected `n` fields.
pub open spec fn pose_token_count_msg(n: nat) -> Seq<char> {
    "Expected 3 parameters but found "@ + dec_digits(n)
}

/// The reason carried when the facing field is not one of the four letters.
pub open spec fn bad_direction_msg(t: Seq<char>) -> Seq<char> {
    "Invalid direction '"@ + t + "'"@
}

/// The reason carried when a motion path holds a character outside `L`,
/// `R` and `M`.
pub open spec fn bad_motion_msg(c: char) -> Seq<char> {
    "Invalid motion '"@ + seq![c] + "'"@
}

impl Error {
    /// The error rendered as a line of text.
    pub open spec fn spec_message(self) -> Seq<char> {
        match self {
            Error::EmptyFile => "Error: Empty file"@,
            Error::InitialPoseNotFound => "Error: Initial pose for the rover not found"@,
            Error::PathNotFound => "Error: Path for the rover not found"@,
            Error::CoOrdinateParseError(m) => "Error parsing co-ordinate: "@ + m@,
            Error::PoseParseError(m) => "Error parsing pose: "@ + m@,
            Error::MotionParseError(m) => "Error parsing motion: "@ + m@,
            Error::NotFound => "Error: Not found"@,
            Error::StoreUnavailable => "Error: Store unavailable"@,
        }
    }

    /// The error rendered as a line of text.
    pub fn message(&self) -> (s: String)
        ensures
            s@ == self.spec_message(),
    {
        match self {
            Error::EmptyFile => String::from_str("Error: Empty file"),
            Error::InitialPoseNotFound => String::from_str(
                "Error: Initial pose for the rover not found",
            ),
            Error::PathNotFound => String::from_str("Error: Path for the rover not found"),
            Error::CoOrdinateParseError(m) => String::from_str("Error parsing co-ordinate: ")
                .concat(m.as_str()),
            Error::PoseParseError(m) => String::from_str("Error parsing pose: ").concat(
                m.as_str(),
            ),
            Error::MotionParseError(m) => String::from_str("Error parsing motion: ").concat(
                m.as_str(),
            ),
            Error::NotFound => String::from_str("Error: Not found"),
            Error::StoreUnavailable => String::from_str("Error: Store unavailable"),
        }
    }
}

} // verus!
