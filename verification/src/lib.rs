//! Incremental capture of live HLS/DASH-style broadcasts: playlist polling,
//! ordered segment bookkeeping, and multi-backend muxing of finished sessions.
//!
//! The library holds the decision logic of the pipeline — the segment chain,
//! the per-session poll state machine, the playlist parsers, and the mux
//! strategy fallback — verified against their contracts.  Network and process
//! work stays outside and hands the library plain values.

pub mod abort;
pub mod chain;
pub mod muxer;
pub mod platform;
pub mod platforms;
pub mod playlist;
pub mod registry;
pub mod session;
pub mod settings;
pub mod text;
