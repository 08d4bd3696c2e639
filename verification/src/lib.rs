//! Core logic of a terminal dashboard that monitors containers on a local
//! container engine: deriving percentage metrics from raw counter snapshots,
//! keeping bounded per-container history windows, reconciling those windows
//! against the latest container list, sorting that list for display, and
//! driving the view/input state machine.  All I/O (the engine API, the
//! terminal) lives outside this crate; this crate works on plain values.

pub mod models;
pub mod metrics;
pub mod history;
pub mod render;
pub mod snapshot;
pub mod sort;
pub mod text;
pub mod utils;
pub mod view;
