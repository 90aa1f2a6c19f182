//! Read-only diagnostics for recorded page-read traces.
//!
//! A trace is a per-connection recording of the read requests one client
//! sent to a page-serving storage backend.  Recordings are laid out on disk
//! as a three-level directory tree (tenant / timeline / connection file);
//! this crate derives each recording's identity from its path, renders the
//! decoded request stream as text, and summarizes how sequential the access
//! pattern was by a frequency distribution of consecutive block-address
//! deltas.

pub mod analyzer;
pub mod ids;
pub mod inventory;
pub mod messages;
pub mod render;
