//! The exclusive multiplexing strategy: one worker instance per
//! controller-side connection.
//!
//! There is conceptually a single client per instance; the attach and
//! detach envelopes still flow for protocol uniformity, but routing is
//! trivial — every inbound output belongs to the sole client.  The
//! buffering policy matches the shared strategy: envelopes queued before
//! readiness are flushed, in order, when the readiness signal is routed.

use vstd::prelude::*;

use crate::envelope::{FromWorker, ToWorker};
use crate::public::Routed;
use crate::HandlerId;

verus! {

/// The controller-side bridge to one exclusively owned worker instance.
pub struct Private<T> {
    /// The sole client's identifier, exchanged for protocol uniformity.
    pub id: HandlerId,
    /// Whether the readiness signal has been routed.
    pub ready: bool,
    /// Envelopes queued while the worker was not yet ready.
    pub pending: Vec<ToWorker<T>>,
    /// Whether the sole client has detached, tearing the worker down.
    pub destroyed: bool,
}

impl<T: View> Private<T> {
    /// Open the bridge.  The caller spawns the execution context; the
    /// attach envelope is queued until the worker signals readiness.
    pub fn create() -> (r: Private<T>)
        ensures
            r.id.raw == 1,
            !r.ready,
            !r.destroyed,
            r.pending@.len() == 1,
            r.pending@[0] == ToWorker::<T>::Connected(r.id),
    {
        let id = HandlerId { raw: 1 };
        let mut pending: Vec<ToWorker<T>> = Vec::new();
        pending.push(ToWorker::Connected(id));
        Private { id, ready: false, pending, destroyed: false }
    }

    /// Hand one payload to the worker.  The envelope is posted at once
    /// only when the worker is ready; otherwise it is queued.
    pub fn send(&mut self, input: T) -> (r: Option<ToWorker<T>>)
        requires
            !old(self).destroyed,
        ensures
            final(self).id == old(self).id,
            final(self).ready == old(self).ready,
            final(self).destroyed == old(self).destroyed,
            r is Some ==> old(self).ready,
            if old(self).ready {
                &&& r == Some(ToWorker::<T>::ProcessInput(old(self).id, input))
                &&& final(self).pending == old(self).pending
            } else {
                &&& r is None
                &&& final(self).pending@ == old(self).pending@.push(
                    ToWorker::<T>::ProcessInput(old(self).id, input),
                )
            },
    {
        if self.ready {
            Some(ToWorker::ProcessInput(self.id, input))
        } else {
            self.pending.push(ToWorker::ProcessInput(self.id, input));
            None
        }
    }

    /// Route one decoded message that arrived from the worker.  The
    /// first readiness signal returns the queued envelopes for posting,
    /// in order; outputs are delivered to the sole client while it is
    /// attached and dropped after it detached.
    pub fn on_message<O>(&mut self, msg: FromWorker<O>) -> (r: Routed<T, O>)
        ensures
            final(self).id == old(self).id,
            final(self).destroyed == old(self).destroyed,
            match msg {
                FromWorker::WorkerLoaded => {
                    if old(self).ready {
                        &&& r is Dropped
                        &&& *final(self) == *old(self)
                    } else {
                        &&& (r matches Routed::Flush(v) && v@ == old(self).pending@)
                        &&& final(self).ready == true
                        &&& final(self).pending@.len() == 0
                    }
                },
                FromWorker::ProcessOutput(id, out) => {
                    &&& *final(self) == *old(self)
                    &&& if !old(self).destroyed && id == old(self).id {
                        r == Routed::<T, O>::Deliver(id, out)
                    } else {
                        r is Dropped
                    }
                },
            },
    {
        match msg {
            FromWorker::WorkerLoaded => {
                if self.ready {
                    Routed::Dropped
                } else {
                    self.ready = true;
                    let mut flushed: Vec<ToWorker<T>> = Vec::new();
                    core::mem::swap(&mut flushed, &mut self.pending);
                    Routed::Flush(flushed)
                }
            },
            FromWorker::ProcessOutput(id, out) => {
                if !self.destroyed && id.raw == self.id.raw {
                    Routed::Deliver(id, out)
                } else {
                    Routed::Dropped
                }
            },
        }
    }

    /// Detach the sole client: the worker instance goes down with it.
    /// The detach and shutdown envelopes are posted at once; teardown is
    /// terminal.
    pub fn destroy(&mut self) -> (r: Vec<ToWorker<T>>)
        requires
            !old(self).destroyed,
        ensures
            final(self).destroyed,
            final(self).id == old(self).id,
            final(self).ready == old(self).ready,
            r@.len() == 2,
            r@[0] == ToWorker::<T>::Disconnected(old(self).id),
            r@[1] == ToWorker::<T>::Destroy,
    {
        self.destroyed = true;
        let mut posts: Vec<ToWorker<T>> = Vec::new();
        posts.push(ToWorker::Disconnected(self.id));
        posts.push(ToWorker::Destroy);
        posts
    }
}

} // verus!
