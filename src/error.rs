use vstd::prelude::*;

verus! {

/// Errors reported by the library.
#[derive(Debug, PartialEq, Clone)]
pub enum Error {
    /// The secret does not decode from its expected encoding, or decodes to
    /// the wrong number of bytes.
    InvalidKey,
    /// The digit count is outside the supported set (6, 7 or 8).
    InvalidDigits,
    /// The counter of a counter based key is at its largest value and cannot
    /// advance.
    CounterExhausted,
    /// The time step of a time based key is zero.
    InvalidTimeStep,
    /// The system clock reads a time before the Unix epoch.
    ClockBeforeEpoch,
    /// A provisioning string that cannot be used, with a description.
    InvalidURI(String),
    /// A file path that cannot be used, with a description.
    InvalidPath(String),
    /// A failed read or write: a message, the path and the underlying error.
    IOError(String, String, String),
    /// A failed JSON conversion: a message, the text and the underlying error.
    SteamSerdeError(String, String, String),
}

impl Error {
    /// A human readable description of the error.
    pub fn message(&self) -> String {
        match self {
            Error::InvalidKey => String::from_str("Invalid key"),
            Error::InvalidDigits => String::from_str("Invalid digits"),
            Error::CounterExhausted => String::from_str("Counter exhausted"),
            Error::InvalidTimeStep => String::from_str("Invalid time step"),
            Error::ClockBeforeEpoch => String::from_str("Clock reads before the Unix epoch"),
            Error::InvalidURI(s) => String::from_str("Invalid URI: ").concat(s.as_str()),
            Error::InvalidPath(s) => String::from_str("Invalid path: ").concat(s.as_str()),
            Error::IOError(a, b, c) => String::from_str("IO error: ").concat(a.as_str()).concat(
                ", ",
            ).concat(b.as_str()).concat(", ").concat(c.as_str()),
            Error::SteamSerdeError(a, b, c) => String::from_str("Steam serde error: ").concat(
                a.as_str(),
            ).concat(", ").concat(b.as_str()).concat(", ").concat(c.as_str()),
        }
    }
}

} // verus!
