//! Syscall tracer: the record the kernel probes emit, the stateful
//! detection rules that correlate those records per pid, and the text the
//! tracer shows and logs for them.
pub mod detection;
pub mod display;
pub mod event;
pub mod pipeline;
pub mod table;
pub mod text;

pub use event::{EventKind, TraceEvent};
