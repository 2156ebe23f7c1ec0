//! The failures that loading a configuration or resolving credentials can end in.

use vstd::prelude::*;

verus! {

/// Why an operation of this crate failed.
#[derive(Debug, Clone)]
pub enum ProbeError {
    /// The configuration path does not exist; holds the path as text.
    ConfigNotFound(String),
    /// The configuration document could not be read into the expected shape;
    /// holds the parser's message.
    ConfigParseError(String),
    /// The credentials argument is not exactly two parts separated by `:`.
    CredentialsFormatError,
    /// No source gave both a user name and a token.
    CredentialsNotFound,
}

/// The text shown for each failure.
pub open spec fn message_of(e: ProbeError) -> Seq<char> {
    match e {
        ProbeError::ConfigNotFound(path) => "Config file not found at "@ + path@,
        ProbeError::ConfigParseError(cause) => "Failed to parse config file: "@ + cause@,
        ProbeError::CredentialsFormatError =>
            "Invalid credentials format. Expected 'username:token'"@,
        ProbeError::CredentialsNotFound => "Credentials not found in environment or .env file"@,
    }
}

impl ProbeError {
    /// The message for this failure.
    pub fn message(&self) -> (r: String)
        ensures
            r@ == message_of(*self),
    {
        match self {
            ProbeError::ConfigNotFound(path) => String::from_str("Config file not found at ").concat(
                path.as_str(),
            ),
            ProbeError::ConfigParseError(cause) => String::from_str(
                "Failed to parse config file: ",
            ).concat(cause.as_str()),
            ProbeError::CredentialsFormatError => String::from_str(
                "Invalid credentials format. Expected 'username:token'",
            ),
            ProbeError::CredentialsNotFound => String::from_str(
                "Credentials not found in environment or .env file",
            ),
        }
    }
}

} // verus!
