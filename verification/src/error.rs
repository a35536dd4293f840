//! The failures this library reports.

use vstd::prelude::*;

verus! {

/// Why a request was turned down.
#[derive(Clone, Copy, Debug, PartialEq, Eq, Structural)]
pub enum Error {
    /// A speed that is not positive, or a delay below zero.
    InvalidTimingValue,
    /// The recording would run past the last instant its clock can show.
    RecordingTooLong,
    /// A line whose quotes do not pair up.
    MismatchedQuotes,
    /// Captured output that is not text.
    EncodingFailure,
}

impl Error {
    /// What a person is told about the failure.
    pub open spec fn spec_message(self) -> Seq<char> {
        match self {
            Error::InvalidTimingValue => "invalid timing value: the speed must be above zero and no delay below it"@,
            Error::RecordingTooLong => "the recording is too long for its clock"@,
            Error::MismatchedQuotes => "mismatched quotes"@,
            Error::EncodingFailure => "the captured output is not valid UTF-8"@,
        }
    }

    pub fn message(&self) -> (text: String)
        ensures
            text@ == self.spec_message(),
    {
        match self {
            Error::InvalidTimingValue => "invalid timing value: the speed must be above zero and no delay below it".to_owned(),
            Error::RecordingTooLong => "the recording is too long for its clock".to_owned(),
            Error::MismatchedQuotes => "mismatched quotes".to_owned(),
            Error::EncodingFailure => "the captured output is not valid UTF-8".to_owned(),
        }
    }
}

} // verus!
