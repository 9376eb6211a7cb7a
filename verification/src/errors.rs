//! The library's error model: every failure a caller can see, as a
//! typed value rather than a process abort.

use vstd::prelude::*;

verus! {

/// Every failure the client surfaces. `MalformedResponse` carries the
/// upstream-reported message when the endpoint supplied one.
#[derive(Debug, Clone)]
pub enum ChatError {
    CredentialMissing,
    NetworkFailure,
    MalformedResponse(String),
    ConfigIOError,
    ConfigParseError,
    InvalidConfigKey,
    InvalidConfigValue,
    InvalidRole,
    TranscriptDecodeError,
}

impl ChatError {
    /// A stable diagnostic tag for each error kind.
    pub fn kind_name(&self) -> (r: &'static str)
        ensures
            r@ == match self {
                ChatError::CredentialMissing => "credential missing"@,
                ChatError::NetworkFailure => "network failure"@,
                ChatError::MalformedResponse(_) => "malformed response"@,
                ChatError::ConfigIOError => "config io error"@,
                ChatError::ConfigParseError => "config parse error"@,
                ChatError::InvalidConfigKey => "invalid configuration key"@,
                ChatError::InvalidConfigValue => "invalid configuration value"@,
                ChatError::InvalidRole => "invalid role"@,
                ChatError::TranscriptDecodeError => "transcript decode error"@,
            },
    {
        match self {
            ChatError::CredentialMissing => "credential missing",
            ChatError::NetworkFailure => "network failure",
            ChatError::MalformedResponse(_) => "malformed response",
            ChatError::ConfigIOError => "config io error",
            ChatError::ConfigParseError => "config parse error",
            ChatError::InvalidConfigKey => "invalid configuration key",
            ChatError::InvalidConfigValue => "invalid configuration value",
            ChatError::InvalidRole => "invalid role",
            ChatError::TranscriptDecodeError => "transcript decode error",
        }
    }
}

} // verus!
