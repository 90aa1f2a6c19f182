//! Decoded trace messages.
//!
//! The wire-format decoder is an external collaborator: it turns a byte
//! stream into a sequence of these records and stops silently at end of
//! stream or at the first malformed unit.  This crate consumes the decoded
//! sequence; only the `GetPage` variant carries information the analyzer
//! uses.

use vstd::prelude::*;

verus! {

/// One decoded client read request.
#[derive(Clone, Copy, PartialEq, Eq, Structural, Debug)]
pub enum Message {
    /// Relation-exists check; carries no analyzer-relevant state.
    Exists,
    /// Relation-size check; carries no analyzer-relevant state.
    Nblocks,
    /// Read of one block at the given block address.
    GetPage { blkno: u32 },
    /// Database-size check; carries no analyzer-relevant state.
    DbSize,
}

pub open spec fn is_get_page(m: Message) -> bool {
    m is GetPage
}

} // verus!
