//! Error types of the launcher.

use vstd::prelude::*;

verus! {

/// A configuration error detected before any process is spawned, or a
/// request to print usage or version information instead of executing.
#[derive(Debug)]
pub enum OOError {
    CLIError { message: String },
    HelpRequested,
    VersionRequested,
}

impl OOError {
    /// The text reported to the error stream for a configuration error.
    pub fn message(&self) -> (r: String)
        ensures
            self matches OOError::CLIError { message } ==> r@ == "o-o: "@ + message@,
            self is HelpRequested ==> r@ == "o-o: help requested"@,
            self is VersionRequested ==> r@ == "o-o: version information requested"@,
    {
        match self {
            OOError::CLIError { message } => {
                let mut s = "o-o: ".to_owned();
                s.append(message.as_str());
                s
            },
            OOError::HelpRequested => "o-o: help requested".to_owned(),
            OOError::VersionRequested => "o-o: version information requested".to_owned(),
        }
    }
}

/// Constructs the configuration error carrying `message`.
pub fn cli_error(message: &str) -> (r: OOError)
    ensures
        r matches OOError::CLIError { message: m } && m@ == message@,
{
    OOError::CLIError { message: message.to_owned() }
}

/// A failure to observe a written file within a timeout, reported by the
/// file-synchronisation helpers around the execution engine.
#[derive(Debug)]
pub enum FileIOError {
    WriteFailedError(String, u64),
}

impl FileIOError {
    /// The path the failed write was addressed to.
    pub fn file_name(&self) -> (r: &String)
        ensures
            self matches FileIOError::WriteFailedError(name, _) && r@ == name@,
    {
        match self {
            FileIOError::WriteFailedError(name, _) => name,
        }
    }

    /// The timeout, in milliseconds, after which the write was given up on.
    pub fn timeout_millis(&self) -> (r: u64)
        ensures
            self matches FileIOError::WriteFailedError(_, t) && r == t,
    {
        match self {
            FileIOError::WriteFailedError(_, t) => *t,
        }
    }
}

} // verus!
