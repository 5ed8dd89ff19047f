//! Verified core of griid-trace: the trace.jsonl event model, span trees,
//! in-memory indexing, the TUI state machine, command-line grammar and the
//! span bookkeeping of the Rust adapter.
pub mod text;
pub mod trace;
pub mod tree;
pub mod index;
pub mod tui;
pub mod cli;
pub mod adapter;
pub mod startup;
pub mod watch;

pub use trace::{Trace, TraceError, TraceEvent};
pub use tree::SpanNode;
