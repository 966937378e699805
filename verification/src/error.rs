//! What ends a run without a password delivered.

use vstd::prelude::*;
use vstd::string::StringExecFns;

verus! {

/// Run error.
///
/// Every variant but [`Error::EmptySet`] carries the failure that the
/// platform reported, untouched, for the final report.
#[derive(Debug)]
#[allow(inconsistent_fields)]
pub enum Error {
    /// No symbols are allowed to generate password with.
    EmptySet,
    /// Unable to initialize clipboard.
    InitClipboard {
        /// Source error.
        source: arboard::Error,
    },
    /// Unable to store the password to the clipboard.
    ClipboardStore {
        /// Source error.
        source: arboard::Error,
    },
    /// Unable to fork the process.
    ForkFailed {
        /// Source error.
        source: nix::errno::Errno,
    },
    /// Unable to create a session (see `man 2 setsid`).
    SessionCreate {
        /// Source error.
        source: nix::errno::Errno,
    },
}

impl Error {
    /// The line that describes the error to the user.
    pub open spec fn description(self) -> Seq<char> {
        match self {
            Error::EmptySet => "No symbols are allowed to generate password with"@,
            Error::InitClipboard { .. } => "Unable to initialize clipboard"@,
            Error::ClipboardStore { .. } => "Unable to store the password to the clipboard"@,
            Error::ForkFailed { .. } => "Unable to fork the process"@,
            Error::SessionCreate { .. } => "Unable to create a session (see `man 2 setsid`)"@,
        }
    }

    /// Returns the line that describes the error to the user.
    pub fn message(&self) -> (text: String)
        ensures
            text@ == self.description(),
    {
        match self {
            Error::EmptySet => String::from_str(
                "No symbols are allowed to generate password with",
            ),
            Error::InitClipboard { .. } => String::from_str("Unable to initialize clipboard"),
            Error::ClipboardStore { .. } => String::from_str(
                "Unable to store the password to the clipboard",
            ),
            Error::ForkFailed { .. } => String::from_str("Unable to fork the process"),
            Error::SessionCreate { .. } => String::from_str(
                "Unable to create a session (see `man 2 setsid`)",
            ),
        }
    }
}

} // verus!
