//! The errors of the library.

use vstd::prelude::*;

use crate::text::{concat2, concat3};

verus! {

/// Everything that can make an `sbox` operation fail.
#[derive(Debug)]
pub enum SboxError {
    /// Command execution failed.
    Execution(String),
    /// The command's binary is not on `PATH`.
    BinaryNotFound(String),
    /// Setting up the Landlock restriction failed.
    Landlock(String),
    /// Setting up the network namespace failed.
    NetworkNamespace(String),
    /// An I/O operation failed.
    Io(String),
    /// A path could not be used.
    InvalidPath(String),
    /// The workspace lock could not be written or checked.
    LockError(String),
    /// The configuration is not valid.
    ConfigValidation { message: String },
    /// A profile name does not name a profile of the configuration.
    UnknownProfile { name: String },
    /// An image preset name is not known.
    UnknownPreset { name: String },
    /// No profile could be chosen for a command.
    ProfileResolutionFailed { command: String },
    /// A resolved mount has a kind that no backend knows.
    UnsupportedMountType { mount_type: String },
    /// A secret source is neither a home-relative nor a path-like reference.
    UnsupportedSecretSource { name: String, secret_source: String },
    /// A host path that a mount or secret needs does not exist.
    HostPathNotFound { kind: String, name: String, path: String },
    /// The plan would run in a way the security policy forbids.
    UnsafeExecutionPolicy { command: String, reason: String },
    /// No configuration file was found.
    ConfigNotFound { path: String },
    /// The image's signature was asked to be verified and cannot be.
    SignatureVerificationUnavailable { image: String, reason: String },
    /// A container engine command ran and failed.
    BackendCommandFailed { backend: String, command: String, status: i32 },
    /// A file could not be parsed.
    ConfigParse { path: String, message: String },
    /// The project's container setup could not be read.
    InfrastructureDetectionFailed { reason: String },
    /// A compose file could not be turned into a shadow plan.
    ShadowComposeGeneration { message: String },
}

impl SboxError {
    /// The message shown to the user for this error.
    pub fn message(&self) -> (r: String)
        ensures
            r@ == error_message(*self),
    {
        match self {
            SboxError::Execution(s) => concat2("Command execution failed: ", s.as_str()),
            SboxError::BinaryNotFound(s) => concat3("Command binary '", s.as_str(), "' not found on PATH"),
            SboxError::Landlock(s) => concat2("Landlock filesystem restriction error: ", s.as_str()),
            SboxError::NetworkNamespace(s) => concat2("Network namespace error: ", s.as_str()),
            SboxError::Io(s) => concat2("IO error: ", s.as_str()),
            SboxError::InvalidPath(s) => concat2("Invalid path: ", s.as_str()),
            SboxError::LockError(s) => concat2("Lock error: ", s.as_str()),
            SboxError::ConfigValidation { message } => concat2("invalid configuration: ", message.as_str()),
            SboxError::UnknownProfile { name } => concat3("unknown profile `", name.as_str(), "`"),
            SboxError::UnknownPreset { name } => concat3("unknown preset `", name.as_str(), "`"),
            SboxError::ProfileResolutionFailed { command } => concat3(
                "no profile could be resolved for command `",
                command.as_str(),
                "`",
            ),
            SboxError::UnsupportedMountType { mount_type } => concat3(
                "unsupported mount type `",
                mount_type.as_str(),
                "`",
            ),
            SboxError::UnsupportedSecretSource { name, secret_source } => {
                let a = concat3("secret `", name.as_str(), "` has unsupported source `");
                concat3(a.as_str(), secret_source.as_str(), "`")
            },
            SboxError::HostPathNotFound { kind, name, path } => {
                let a = concat3(kind.as_str(), " `", name.as_str());
                concat3(a.as_str(), "` not found on host: ", path.as_str())
            },
            SboxError::UnsafeExecutionPolicy { command, reason } => {
                let a = concat3("unsafe sandbox execution of `", command.as_str(), "`: ");
                concat2(a.as_str(), reason.as_str())
            },
            SboxError::ConfigNotFound { path } => concat2("configuration not found: ", path.as_str()),
            SboxError::SignatureVerificationUnavailable { image, reason } => {
                let a = concat3("signature verification unavailable for `", image.as_str(), "`: ");
                concat2(a.as_str(), reason.as_str())
            },
            SboxError::BackendCommandFailed { backend, command, status } => {
                let a = concat3(backend.as_str(), " command `", command.as_str());
                let code = crate::text::format_signed(*status);
                concat3(a.as_str(), "` exited with status ", code.as_str())
            },
            SboxError::ConfigParse { path, message } => {
                let a = concat3("failed to parse ", path.as_str(), ": ");
                concat2(a.as_str(), message.as_str())
            },
            SboxError::InfrastructureDetectionFailed { reason } => concat2(
                "infrastructure detection failed: ",
                reason.as_str(),
            ),
            SboxError::ShadowComposeGeneration { message } => concat2(
                "failed to generate shadow compose plan: ",
                message.as_str(),
            ),
        }
    }
}

/// The message of an error.
pub open spec fn error_message(e: SboxError) -> Seq<char> {
    match e {
        SboxError::Execution(s) => "Command execution failed: "@ + s@,
        SboxError::BinaryNotFound(s) => "Command binary '"@ + s@ + "' not found on PATH"@,
        SboxError::Landlock(s) => "Landlock filesystem restriction error: "@ + s@,
        SboxError::NetworkNamespace(s) => "Network namespace error: "@ + s@,
        SboxError::Io(s) => "IO error: "@ + s@,
        SboxError::InvalidPath(s) => "Invalid path: "@ + s@,
        SboxError::LockError(s) => "Lock error: "@ + s@,
        SboxError::ConfigValidation { message } => "invalid configuration: "@ + message@,
        SboxError::UnknownProfile { name } => "unknown profile `"@ + name@ + "`"@,
        SboxError::UnknownPreset { name } => "unknown preset `"@ + name@ + "`"@,
        SboxError::ProfileResolutionFailed { command } => "no profile could be resolved for command `"@
            + command@ + "`"@,
        SboxError::UnsupportedMountType { mount_type } => "unsupported mount type `"@ + mount_type@ + "`"@,
        SboxError::UnsupportedSecretSource { name, secret_source } => "secret `"@ + name@
            + "` has unsupported source `"@ + secret_source@ + "`"@,
        SboxError::HostPathNotFound { kind, name, path } => kind@ + " `"@ + name@
            + "` not found on host: "@ + path@,
        SboxError::UnsafeExecutionPolicy { command, reason } => "unsafe sandbox execution of `"@ + command@ + "`: "@ + reason@,
        SboxError::ConfigNotFound { path } => "configuration not found: "@ + path@,
        SboxError::SignatureVerificationUnavailable { image, reason } => "signature verification unavailable for `"@
            + image@ + "`: "@ + reason@,
        SboxError::BackendCommandFailed { backend, command, status } => backend@ + " command `"@ + command@
            + "` exited with status "@ + crate::text::signed_decimal(status as int),
        SboxError::ConfigParse { path, message } => "failed to parse "@ + path@ + ": "@ + message@,
        SboxError::InfrastructureDetectionFailed { reason } => "infrastructure detection failed: "@ + reason@,
        SboxError::ShadowComposeGeneration { message } => "failed to generate shadow compose plan: "@ + message@,
    }
}

} // verus!
