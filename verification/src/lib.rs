//! Coordination core of a transient on-screen display for volume and
//! brightness changes.
//!
//! Every invocation performs its action, computes a status label, and then
//! races for an exclusive session claim.  The winner (the Owner) shows the
//! overlay and listens for refreshes; every loser (a Client) forwards its
//! label to the Owner and exits.  This crate holds the verified decision
//! logic of that protocol: the role state machine, the shared display state
//! with its saturating lifetime counter, the label formatting, and the
//! argument grammar.  The actual file lock, socket, thread and rendering
//! plumbing lives with the binary around it.

pub mod action;
pub mod cli;
pub mod color;
mod decode;
pub mod label;
pub mod session;
pub mod text;
pub mod volume;

use vstd::prelude::*;

verus! {

/// Largest refresh payload, in bytes, that the Owner accepts.
pub const MAX_REFRESH_BYTES: usize = 1024;

} // verus!
