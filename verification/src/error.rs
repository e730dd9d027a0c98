//! The error type of the library.
use vstd::prelude::*;

verus! {

/// Application-level error.
#[derive(Debug, PartialEq, Eq)]
pub enum AppError {
    /// Error occurring when loading AWS configuration.
    ConfigLoadError(String),
    /// Error occurring when parsing configuration files.
    ConfigParseError(String),
    /// Error occurring when accessing the metadata repository.
    MetadataAccessError(String),
    /// Standard I/O error (its message).
    IoError(String),
    /// Error during serialization or deserialization (its message).
    SerializationError(String),
    /// The requested profile was not found.
    ProfileNotFound(String),
    /// The requested alias matched multiple profiles.
    AmbiguousProfile(String),
    /// Any other error, by its message.
    Unknown(String),
    /// The user's home directory could not be determined.
    HomeDirNotFound,
}

/// The text that describes an error.
pub open spec fn error_message(e: AppError) -> Seq<char> {
    match e {
        AppError::ConfigLoadError(s) => "Failed to load configuration: "@ + s@,
        AppError::ConfigParseError(s) => "Failed to parse configuration: "@ + s@,
        AppError::MetadataAccessError(s) => "Metadata access error: "@ + s@,
        AppError::IoError(s) => "I/O error: "@ + s@,
        AppError::SerializationError(s) => "Serialization error: "@ + s@,
        AppError::ProfileNotFound(s) => "Profile not found: "@ + s@,
        AppError::AmbiguousProfile(s) => "Ambiguous profile reference: '"@ + s@
            + "' matched multiple profiles. Please use the full profile name."@,
        AppError::Unknown(s) => "Unknown error: "@ + s@,
        AppError::HomeDirNotFound => "Could not determine home directory"@,
    }
}

impl AppError {
    /// The text that describes this error.
    pub fn message(&self) -> (r: String)
        ensures
            r@ == error_message(*self),
    {
        match self {
            AppError::ConfigLoadError(s) => "Failed to load configuration: ".to_string().concat(
                s.as_str(),
            ),
            AppError::ConfigParseError(s) => "Failed to parse configuration: ".to_string().concat(
                s.as_str(),
            ),
            AppError::MetadataAccessError(s) => "Metadata access error: ".to_string().concat(
                s.as_str(),
            ),
            AppError::IoError(s) => "I/O error: ".to_string().concat(s.as_str()),
            AppError::SerializationError(s) => "Serialization error: ".to_string().concat(
                s.as_str(),
            ),
            AppError::ProfileNotFound(s) => "Profile not found: ".to_string().concat(s.as_str()),
            AppError::AmbiguousProfile(s) => "Ambiguous profile reference: '".to_string().concat(
                s.as_str(),
            ).concat("' matched multiple profiles. Please use the full profile name."),
            AppError::Unknown(s) => "Unknown error: ".to_string().concat(s.as_str()),
            AppError::HomeDirNotFound => "Could not determine home directory".to_string(),
        }
    }
}

} // verus!
