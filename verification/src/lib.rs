//! Host-side ATT/GATT engine.
//!
//! The crate owns a fixed-capacity attribute database with handle-group
//! bookkeeping, decodes ATT request PDUs, drives the request dispatcher
//! against the database, keeps the per-connection subscription registry that
//! gates notifications, and provides the client-side discovery and
//! read/write/subscribe decision logic. Transport (ACL send/receive, channel
//! plumbing, executors) stays outside; the engine works on plain byte
//! vectors.

pub mod att;
pub mod attribute;
pub mod client;
pub mod handler;
pub mod mock;
pub mod server;
pub mod uuid;

use vstd::prelude::*;

verus! {

/// Errors surfaced outside the ATT error-code space.
#[derive(Clone, Copy, Debug, PartialEq, Eq, Structural)]
pub enum Error {
    /// The requested item does not exist.
    NotFound,
    /// The operation is not supported by the target.
    NotSupported,
    /// A peer answered with something other than the expected response.
    InvalidValue,
    /// A buffer or a bounded table cannot hold the result.
    InsufficientSpace,
    /// A value did not fit where it had to be stored.
    OutOfMemory,
    /// The peer reported an ATT protocol error.
    Att(att::AttErrorCode),
    /// An unclassified failure.
    Other,
}

/// Identifier of a logical link; `0` is used as the free marker in the
/// subscription registry.
#[derive(Clone, Copy, Debug, PartialEq, Eq, Structural)]
pub struct ConnHandle {
    /// The raw 16-bit connection identifier.
    pub raw: u16,
}

impl ConnHandle {
    /// The raw 16-bit connection identifier.
    pub open spec fn spec_raw(self) -> u16 {
        self.raw
    }

    pub fn new(raw: u16) -> (r: ConnHandle)
        ensures
            r.spec_raw() == raw,
    {
        ConnHandle { raw }
    }

    pub fn raw(self) -> (r: u16)
        ensures
            r == self.spec_raw(),
    {
        self.raw
    }
}

} // verus!
