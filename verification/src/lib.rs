//! Orchestration core of a watch-and-diff tool: it normalizes two resource
//! snapshots, strips noisy server-managed metadata, bounds the cost of the
//! comparison, and renders the outcome either as printable lines or as a pair
//! of styled panes for an interactive view.

pub mod backend;
pub mod diff;
pub mod difft;
pub mod errors;
pub mod options;
pub mod pipeline;
pub mod render;
pub mod snapshot;
