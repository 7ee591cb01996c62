//! An execution mediation engine for command-running agents.
//!
//! A command string is tokenized, checked against a permission gate,
//! held for approval when its tool is flagged, and then either run live,
//! simulated, or previewed as a set of predicted file diffs against an
//! in-memory filesystem shadow.

pub mod diff_engine;
pub mod error;
pub mod keyed;
pub mod permissions;
pub mod sandbox;
pub mod strutil;
pub mod virtual_fs;

pub use diff_engine::{
    DiffChange, DiffChangeType, DiffEngine, DiffHunk, DiffSummary, UnifiedDiff, side_by_side_diff,
};
pub use error::{SandboxError, SandboxResult};
pub use permissions::{PermissionGate, PermissionLevel, ToolPermission};
pub use sandbox::{
    Dispatch, ExecutionMode, ExecutionResult, ExecutionStatus, LiveRequest, ProcessOutput, Sandbox,
    SandboxStatus, split,
};
pub use virtual_fs::{DiffOperation, FileDiff, MountEntry, VirtualFile, VirtualFilesystem};
