//! A multiplexed message-passing layer between a controller context and an
//! isolated background worker context, over a byte-buffer transport that
//! preserves message boundaries and per-direction order.

pub mod codec;
pub mod envelope;
pub mod lifecycle;
pub mod private;
pub mod public;
pub mod spawn;
pub mod worker;

use vstd::prelude::*;

verus! {

/// An opaque per-client identifier scoping one logical connection to a
/// worker instance.
#[derive(Clone, Copy, Debug, PartialEq, Eq, Structural, Hash)]
pub struct HandlerId {
    pub raw: u64,
}

impl HandlerId {
    /// Builds the identifier with the given raw value.
    pub fn new(raw: u64) -> (r: HandlerId)
        ensures
            r.raw == raw,
    {
        HandlerId { raw }
    }
}

/// Implements rules to register a worker in a separate thread.
///
/// The worker-side entry point implements this: `register` obtains the
/// execution context's own handle, installs the inbound callback that
/// decodes bytes into envelopes and dispatches them through a
/// [`worker::WorkerSession`], and emits the readiness signal before the
/// first real message.  It is all platform plumbing, so no contract is
/// stated here.
pub trait Threaded {
    /// Executes an agent in the current environment.
    /// Used in the `main` function of a worker.
    fn register();
}

} // verus!
