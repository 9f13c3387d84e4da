use vstd::prelude::*;
use vstd::string::*;

verus! {

/// Why a server definition was rejected.
#[derive(Debug, Clone, Copy, PartialEq, Eq, Structural)]
pub enum ValidationError {
    /// The memory allocation lies outside 512..=32768 megabytes.
    MemoryOutOfRange,
    /// The port lies below 1024.
    PortTooLow,
    /// The working directory holds a parent-directory segment.
    DirectoryHasParentSegment,
    /// The launch artifact holds a path separator or a parent-directory segment.
    JarUnsafe,
    /// The identifier holds a path separator or a parent-directory segment.
    IdUnsafe,
    /// The working directory does not exist.
    DirectoryMissing,
}

/// The text that reports a validation error.
pub open spec fn validation_message(e: ValidationError) -> Seq<char> {
    match e {
        ValidationError::MemoryOutOfRange => "memory_mb must be between 512 and 32768"@,
        ValidationError::PortTooLow => "port must be between 1024 and 65535"@,
        ValidationError::DirectoryHasParentSegment => "directory must not contain a '..' segment"@,
        ValidationError::JarUnsafe => "jar must not contain '/' or be '..'"@,
        ValidationError::IdUnsafe => "id must not contain '/' or '\\', or be '..'"@,
        ValidationError::DirectoryMissing => "directory does not exist"@,
    }
}

impl ValidationError {
    /// The text that reports this error.
    pub fn message(&self) -> (r: &'static str)
        ensures
            r@ == validation_message(*self),
    {
        match self {
            ValidationError::MemoryOutOfRange => "memory_mb must be between 512 and 32768",
            ValidationError::PortTooLow => "port must be between 1024 and 65535",
            ValidationError::DirectoryHasParentSegment => "directory must not contain a '..' segment",
            ValidationError::JarUnsafe => "jar must not contain '/' or be '..'",
            ValidationError::IdUnsafe => "id must not contain '/' or '\\', or be '..'",
            ValidationError::DirectoryMissing => "directory does not exist",
        }
    }
}

/// The text that reports a validation error of a definition whose working
/// directory is `directory`: a missing directory is named.
pub open spec fn validation_report(e: ValidationError, directory: Seq<char>) -> Seq<char> {
    if e == ValidationError::DirectoryMissing {
        "directory '"@ + directory + "' does not exist"@
    } else {
        validation_message(e)
    }
}

impl ValidationError {
    /// The text that reports this error for a definition whose working
    /// directory is `directory`.
    pub fn report(&self, directory: &str) -> (r: String)
        ensures
            r@ == validation_report(*self, directory@),
    {
        match self {
            ValidationError::DirectoryMissing => String::from_str("directory '").concat(
                directory,
            ).concat("' does not exist"),
            _ => String::from_str(self.message()),
        }
    }
}

/// The broad class of an error, which the control surface maps to a status.
#[derive(Debug, Clone, Copy, PartialEq, Eq, Structural)]
pub enum ErrorKind {
    Validation,
    Conflict,
    NotFound,
    Spawn,
    Io,
    Persistence,
}

/// An error of a supervisor or configuration operation.
#[derive(Debug, Clone, Copy, PartialEq, Eq, Structural)]
pub enum AgentError {
    /// The definition failed validation.
    Invalid(ValidationError),
    /// The identifier of the request and that of the definition differ.
    IdMismatch,
    /// A definition with this identifier already exists.
    AlreadyExists,
    /// An instance with this identifier is already running.
    AlreadyRunning,
    /// No instance with this identifier is running.
    NotRunning,
    /// The server must be stopped before it is deleted.
    StillRunning,
    /// Directory or port cannot change while the server runs.
    ImmutableWhileRunning,
    /// No definition has this identifier.
    NotFound,
    /// The operating system refused to create the process.
    Spawn,
    /// A stream of a live process failed.
    Io,
    /// The configuration could not be written durably.
    Persistence,
}

impl AgentError {
    pub open spec fn spec_kind(self) -> ErrorKind {
        match self {
            AgentError::Invalid(_) => ErrorKind::Validation,
            AgentError::IdMismatch => ErrorKind::Validation,
            AgentError::AlreadyExists => ErrorKind::Conflict,
            AgentError::AlreadyRunning => ErrorKind::Conflict,
            AgentError::NotRunning => ErrorKind::Conflict,
            AgentError::StillRunning => ErrorKind::Conflict,
            AgentError::ImmutableWhileRunning => ErrorKind::Conflict,
            AgentError::NotFound => ErrorKind::NotFound,
            AgentError::Spawn => ErrorKind::Spawn,
            AgentError::Io => ErrorKind::Io,
            AgentError::Persistence => ErrorKind::Persistence,
        }
    }

    pub open spec fn spec_message(self) -> Seq<char> {
        match self {
            AgentError::Invalid(v) => validation_message(v),
            AgentError::IdMismatch => "id in path must match id in body"@,
            AgentError::AlreadyExists => "server id already exists"@,
            AgentError::AlreadyRunning => "server is already running"@,
            AgentError::NotRunning => "server is not running"@,
            AgentError::StillRunning => "server must be stopped before deletion"@,
            AgentError::ImmutableWhileRunning => "cannot change directory or port while server is running"@,
            AgentError::NotFound => "server not found"@,
            AgentError::Spawn => "failed to spawn the server process"@,
            AgentError::Io => "server stream failed"@,
            AgentError::Persistence => "failed to save the configuration"@,
        }
    }

    /// The text that reports this error.
    pub fn message(&self) -> (r: &'static str)
        ensures
            r@ == self.spec_message(),
    {
        match self {
            AgentError::Invalid(v) => v.message(),
            AgentError::IdMismatch => "id in path must match id in body",
            AgentError::AlreadyExists => "server id already exists",
            AgentError::AlreadyRunning => "server is already running",
            AgentError::NotRunning => "server is not running",
            AgentError::StillRunning => "server must be stopped before deletion",
            AgentError::ImmutableWhileRunning => "cannot change directory or port while server is running",
            AgentError::NotFound => "server not found",
            AgentError::Spawn => "failed to spawn the server process",
            AgentError::Io => "server stream failed",
            AgentError::Persistence => "failed to save the configuration",
        }
    }

    /// The text that reports this error, where `directory` is the working
    /// directory of the definition concerned.
    pub fn report(&self, directory: &str) -> (r: String)
        ensures
            r@ == match *self {
                AgentError::Invalid(v) => validation_report(v, directory@),
                _ => self.spec_message(),
            },
    {
        match self {
            AgentError::Invalid(v) => v.report(directory),
            _ => String::from_str(self.message()),
        }
    }

    /// The class of this error.
    pub fn kind(&self) -> (r: ErrorKind)
        ensures
            r == self.spec_kind(),
    {
        match self {
            AgentError::Invalid(_) => ErrorKind::Validation,
            AgentError::IdMismatch => ErrorKind::Validation,
            AgentError::AlreadyExists => ErrorKind::Conflict,
            AgentError::AlreadyRunning => ErrorKind::Conflict,
            AgentError::NotRunning => ErrorKind::Conflict,
            AgentError::StillRunning => ErrorKind::Conflict,
            AgentError::ImmutableWhileRunning => ErrorKind::Conflict,
            AgentError::NotFound => ErrorKind::NotFound,
            AgentError::Spawn => ErrorKind::Spawn,
            AgentError::Io => ErrorKind::Io,
            AgentError::Persistence => ErrorKind::Persistence,
        }
    }
}

} // verus!
