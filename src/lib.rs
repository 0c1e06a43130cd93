//! A small file-transfer protocol: a command parser, a sandboxing path
//! resolver, a passive-mode data channel, a per-connection session state
//! machine, and a client-side synchronisation engine with bounded retries.
//!
//! Everything that touches sockets or the filesystem lives with the caller:
//! the library decides, the caller performs the decided action and reports
//! back what happened.
use vstd::prelude::*;

pub mod channel;
pub mod client;
pub mod codec;
pub mod command;
pub mod error;
pub mod listing;
pub mod path;
pub mod reply;
pub mod retry;
pub mod session;
pub mod sync;
pub mod text;

verus! {

/// Sum of two integers, exposed to foreign-language bindings.
pub fn add(left: u64, right: u64) -> (r: u64)
    requires
        left + right <= u64::MAX,
    ensures
        r == left + right,
{
    left + right
}

} // verus!
