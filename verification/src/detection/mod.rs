//! The detection rules, one module per rule, each fed decoded events.
pub mod dropper;
pub mod persistence;
pub mod ptrace;
pub mod reverse_shell;
pub mod self_replace;

pub use dropper::DropperDetector;
pub use persistence::PersistenceWriteDetector;
pub use ptrace::{ParentPidLookup, PtraceDetector};
pub use reverse_shell::{FdKind, ReverseShellDetector};
pub use self_replace::SelfReplaceDetector;
pub mod procfs;
