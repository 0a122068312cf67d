//! Error taxonomy with stable `SBH-` codes.

use vstd::prelude::*;

verus! {

/// Top-level error type. Every variant carries a stable string code.
#[derive(Debug, Clone, PartialEq, Eq)]
pub enum SbhError {
    InvalidConfig { details: String },
    MissingConfig { path: String },
    ConfigParse { context: String, details: String },
    UnsupportedPlatform { details: String },
    FsStats { path: String, details: String },
    MountParse { details: String },
    SafetyVeto { path: String, reason: String },
    Serialization { context: String, details: String },
    Sql { context: String, details: String },
    PermissionDenied { path: String },
    Io { path: String, details: String },
    ChannelClosed { component: String },
    Runtime { details: String },
}

/// The stable code of each error kind.
pub open spec fn error_code(e: SbhError) -> Seq<char> {
    match e {
        SbhError::InvalidConfig { .. } => "SBH-1001"@,
        SbhError::MissingConfig { .. } => "SBH-1002"@,
        SbhError::ConfigParse { .. } => "SBH-1003"@,
        SbhError::UnsupportedPlatform { .. } => "SBH-1101"@,
        SbhError::FsStats { .. } => "SBH-2001"@,
        SbhError::MountParse { .. } => "SBH-2002"@,
        SbhError::SafetyVeto { .. } => "SBH-2003"@,
        SbhError::Serialization { .. } => "SBH-2101"@,
        SbhError::Sql { .. } => "SBH-2102"@,
        SbhError::PermissionDenied { .. } => "SBH-3001"@,
        SbhError::Io { .. } => "SBH-3002"@,
        SbhError::ChannelClosed { .. } => "SBH-3003"@,
        SbhError::Runtime { .. } => "SBH-3900"@,
    }
}

/// Kinds for which a retry may succeed.
pub open spec fn retryable(e: SbhError) -> bool {
    e is Io || e is ChannelClosed || e is FsStats || e is Sql || e is Runtime
}

/// Process exit code of an error: 1 for what the user can correct
/// (configuration, a safety veto), 2 for runtime and I/O failures.
pub open spec fn exit_code_of(e: SbhError) -> i32 {
    if e is InvalidConfig || e is MissingConfig || e is ConfigParse || e is SafetyVeto { 1 } else { 2 }
}

impl SbhError {
    /// Process exit code for this error.
    pub fn exit_code(&self) -> (r: i32)
        ensures
            r == exit_code_of(*self),
    {
        match self {
            SbhError::InvalidConfig { .. } | SbhError::MissingConfig { .. } | SbhError::ConfigParse { .. }
            | SbhError::SafetyVeto { .. } => 1,
            _ => 2,
        }
    }

    /// Stable machine-parseable error code.
    pub fn code(&self) -> (r: &'static str)
        ensures
            r@ == error_code(*self),
    {
        match self {
            SbhError::InvalidConfig { .. } => "SBH-1001",
            SbhError::MissingConfig { .. } => "SBH-1002",
            SbhError::ConfigParse { .. } => "SBH-1003",
            SbhError::UnsupportedPlatform { .. } => "SBH-1101",
            SbhError::FsStats { .. } => "SBH-2001",
            SbhError::MountParse { .. } => "SBH-2002",
            SbhError::SafetyVeto { .. } => "SBH-2003",
            SbhError::Serialization { .. } => "SBH-2101",
            SbhError::Sql { .. } => "SBH-2102",
            SbhError::PermissionDenied { .. } => "SBH-3001",
            SbhError::Io { .. } => "SBH-3002",
            SbhError::ChannelClosed { .. } => "SBH-3003",
            SbhError::Runtime { .. } => "SBH-3900",
        }
    }

    /// Whether retrying might resolve the failure.
    pub fn is_retryable(&self) -> (r: bool)
        ensures
            r == retryable(*self),
    {
        match self {
            SbhError::Io { .. } | SbhError::ChannelClosed { .. } | SbhError::FsStats { .. }
            | SbhError::Sql { .. } | SbhError::Runtime { .. } => true,
            _ => false,
        }
    }

    /// Convenience constructor for an I/O failure at a known path.
    pub fn io(path: String, details: String) -> (r: SbhError)
        ensures
            r == (SbhError::Io { path, details }),
    {
        SbhError::Io { path, details }
    }
}

} // verus!
