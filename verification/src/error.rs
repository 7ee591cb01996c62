//! The error taxonomy of the engine.

use vstd::prelude::*;
use vstd::string::StringExecFns;

verus! {

/// Everything that can go wrong while mediating a command.
#[derive(Debug, Clone, PartialEq, Eq)]
pub enum SandboxError {
    /// A tool is unregistered (with unknown tools disallowed), or its
    /// arguments or paths fall outside its allow-lists.
    PermissionDenied(String),
    /// A named tool could not be resolved at all.
    CommandNotFound(String),
    /// A real directory could not be mounted.
    FileSystemError(String),
    /// A shadow read or delete named a path that is not live.
    VirtualFileNotFound(String),
    /// A sandboxed runtime refused the request.
    WasiError(String),
    /// A simulation could not be carried out.
    SimulationError(String),
    /// An empty command, an unterminated quote, or an unknown approval id.
    InvalidCommand(String),
    /// An input/output failure reported by the surrounding process.
    IoError(String),
}

pub type SandboxResult<T> = Result<T, SandboxError>;

impl SandboxError {
    /// The human-readable text of this error: a fixed prefix naming the
    /// variant, followed by the detail message.
    pub open spec fn spec_message(&self) -> Seq<char> {
        match self {
            SandboxError::PermissionDenied(m) => "Permission denied: "@ + m@,
            SandboxError::CommandNotFound(m) => "Command not found: "@ + m@,
            SandboxError::FileSystemError(m) => "File system error: "@ + m@,
            SandboxError::VirtualFileNotFound(m) => "Virtual file not found: "@ + m@,
            SandboxError::WasiError(m) => "WASI error: "@ + m@,
            SandboxError::SimulationError(m) => "Simulation mode: "@ + m@,
            SandboxError::InvalidCommand(m) => "Invalid command: "@ + m@,
            SandboxError::IoError(m) => "IO error: "@ + m@,
        }
    }

    pub fn message(&self) -> (r: String)
        ensures
            r@ == self.spec_message(),
    {
        match self {
            SandboxError::PermissionDenied(m) => "Permission denied: ".to_owned().concat(
                m.as_str(),
            ),
            SandboxError::CommandNotFound(m) => "Command not found: ".to_owned().concat(m.as_str()),
            SandboxError::FileSystemError(m) => "File system error: ".to_owned().concat(m.as_str()),
            SandboxError::VirtualFileNotFound(m) => "Virtual file not found: ".to_owned().concat(
                m.as_str(),
            ),
            SandboxError::WasiError(m) => "WASI error: ".to_owned().concat(m.as_str()),
            SandboxError::SimulationError(m) => "Simulation mode: ".to_owned().concat(m.as_str()),
            SandboxError::InvalidCommand(m) => "Invalid command: ".to_owned().concat(m.as_str()),
            SandboxError::IoError(m) => "IO error: ".to_owned().concat(m.as_str()),
        }
    }
}

} // verus!
