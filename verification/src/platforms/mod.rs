//! Per-platform playlist parsing, one module per supported platform.
//!
//! Each module offers the platform's `parse_playlist`; they all share the
//! grammar machinery of `playlist`, differing only in the platform tag
//! they pass it.

pub mod bonga;
pub mod cb;
pub mod mfc;
pub mod sc;
pub mod scvr;
pub mod soda;
