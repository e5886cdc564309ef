//! The library's failure taxonomy.

use vstd::prelude::*;

verus! {

/// What can go wrong while gathering report fields. I/O and clock
/// failures carry the underlying failure's text.
#[derive(Debug, Clone, PartialEq, Eq)]
pub enum Error {
    UnsupportedSystem,
    ExecFailed(String),
    IO(String),
    SystemTime(String),
    General(String),
    Unknown,
}

impl Error {
    /// The human-readable text for this error.
    pub open spec fn message_spec(&self) -> Seq<char> {
        match self {
            Error::UnsupportedSystem => "System is not supported"@,
            Error::ExecFailed(e) => "Execution failed: "@ + e@,
            Error::IO(e) => "IO error: "@ + e@,
            Error::SystemTime(e) => "System time error: "@ + e@,
            Error::General(e) => "Error: "@ + e@,
            Error::Unknown => "An unknown error occurred"@,
        }
    }

    /// Render this error as a diagnostic line.
    pub fn message(&self) -> (r: String)
        ensures
            r@ == self.message_spec(),
    {
        match self {
            Error::UnsupportedSystem => "System is not supported".to_owned(),
            Error::ExecFailed(e) => {
                let mut m = "Execution failed: ".to_owned();
                m.append(e.as_str());
                m
            },
            Error::IO(e) => {
                let mut m = "IO error: ".to_owned();
                m.append(e.as_str());
                m
            },
            Error::SystemTime(e) => {
                let mut m = "System time error: ".to_owned();
                m.append(e.as_str());
                m
            },
            Error::General(e) => {
                let mut m = "Error: ".to_owned();
                m.append(e.as_str());
                m
            },
            Error::Unknown => "An unknown error occurred".to_owned(),
        }
    }
}

} // verus!
