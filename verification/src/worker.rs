//! The worker-side half of the protocol.
//!
//! Inside the spawned execution context the platform layer decodes each
//! delivered byte buffer into a [`ToWorker`] envelope and hands it to the
//! session here, which keeps the mirror of the controller's client
//! bookkeeping and decides what must happen: run the agent, note an
//! attach or detach, halt, or drop the message.  The session enforces
//! the protocol invariant that an input is observed only between the
//! matching attach and detach, and that nothing is processed after the
//! shutdown envelope.

use vstd::prelude::*;

use crate::envelope::{FromWorker, ToWorker};
use crate::HandlerId;

verus! {

/// The worker-side mirror of the clients attached to this instance.
pub struct WorkerSession {
    /// The raw ids ever attached to this instance.
    pub attached: Vec<u64>,
    /// The raw ids attached once and detached again; never valid again.
    pub retired: Vec<u64>,
    /// Whether the shutdown envelope has been received.
    pub destroyed: bool,
}

impl WorkerSession {
    /// A client is connected when it attached and has not detached.
    pub open spec fn is_connected(self, id: u64) -> bool {
        self.attached@.contains(id) && !self.retired@.contains(id)
    }

    /// A fresh session: no client, not destroyed.  The platform
    /// bootstrap creates it, registers the inbound callback, and then
    /// emits `WorkerLoaded` before awaiting the first message.
    pub fn new() -> (s: WorkerSession)
        ensures
            s.attached@.len() == 0,
            s.retired@.len() == 0,
            !s.destroyed,
    {
        WorkerSession { attached: Vec::new(), retired: Vec::new(), destroyed: false }
    }
}

/// What the worker must do with one decoded envelope.
pub enum WorkerStep<T> {
    /// Hand this input to the agent on behalf of the client.
    RunAgent(HandlerId, T),
    /// A client attached.
    Attached(HandlerId),
    /// A client detached.
    Detached(HandlerId),
    /// Stop processing and release the execution context.
    Halt,
    /// Dropped without effect: a message after shutdown, an input for a
    /// client that is not connected, or a repeated attach or detach.
    Ignored,
}

/// True when the slice holds the value.
fn contains_u64(s: &[u64], x: u64) -> (r: bool)
    ensures
        r <==> s@.contains(x),
{
    let n = s.len();
    let mut i: usize = 0;
    while i < n
        invariant
            n == s@.len(),
            i <= n,
            forall|k: int| 0 <= k < i ==> s@[k] != x,
        decreases n - i,
    {
        if *vstd::slice::slice_index_get(s, i) == x {
            return true;
        }
        i += 1;
    }
    false
}

impl WorkerSession {
    /// Dispatch one decoded envelope.
    ///
    /// An input is handed to the agent exactly when its client is
    /// connected here — so never before the client's attach and never
    /// after its detach — and nothing at all is processed once the
    /// shutdown envelope arrived.
    pub fn handle<T>(&mut self, msg: ToWorker<T>) -> (r: WorkerStep<T>)
        ensures
            old(self).destroyed ==> r is Ignored && *final(self) == *old(self),
            !old(self).destroyed ==> match msg {
                ToWorker::Connected(id) => {
                    if !old(self).attached@.contains(id.raw) {
                        &&& r == WorkerStep::<T>::Attached(id)
                        &&& final(self).attached@ == old(self).attached@.push(id.raw)
                        &&& final(self).retired == old(self).retired
                        &&& final(self).destroyed == old(self).destroyed
                    } else {
                        r is Ignored && *final(self) == *old(self)
                    }
                },
                ToWorker::ProcessInput(id, t) => {
                    &&& *final(self) == *old(self)
                    &&& if old(self).is_connected(id.raw) {
                        r == WorkerStep::<T>::RunAgent(id, t)
                    } else {
                        r is Ignored
                    }
                },
                ToWorker::Disconnected(id) => {
                    if old(self).is_connected(id.raw) {
                        &&& r == WorkerStep::<T>::Detached(id)
                        &&& final(self).retired@ == old(self).retired@.push(id.raw)
                        &&& final(self).attached == old(self).attached
                        &&& final(self).destroyed == old(self).destroyed
                    } else {
                        r is Ignored && *final(self) == *old(self)
                    }
                },
                ToWorker::Destroy => {
                    &&& r is Halt
                    &&& final(self).destroyed
                    &&& final(self).attached == old(self).attached
                    &&& final(self).retired == old(self).retired
                },
            },
    {
        if self.destroyed {
            return WorkerStep::Ignored;
        }
        match msg {
            ToWorker::Connected(id) => {
                if !contains_u64(self.attached.as_slice(), id.raw) {
                    self.attached.push(id.raw);
                    WorkerStep::Attached(id)
                } else {
                    WorkerStep::Ignored
                }
            },
            ToWorker::ProcessInput(id, t) => {
                if contains_u64(self.attached.as_slice(), id.raw) && !contains_u64(
                    self.retired.as_slice(),
                    id.raw,
                ) {
                    WorkerStep::RunAgent(id, t)
                } else {
                    WorkerStep::Ignored
                }
            },
            ToWorker::Disconnected(id) => {
                if contains_u64(self.attached.as_slice(), id.raw) && !contains_u64(
                    self.retired.as_slice(),
                    id.raw,
                ) {
                    self.retired.push(id.raw);
                    WorkerStep::Detached(id)
                } else {
                    WorkerStep::Ignored
                }
            },
            ToWorker::Destroy => {
                self.destroyed = true;
                WorkerStep::Halt
            },
        }
    }
}

/// Append the outputs the agent produced for one input to the outbound
/// queue, each addressed to the client the input came from, keeping
/// everything already queued in place and in order.
pub fn enqueue_outputs<O>(queue: &mut Vec<FromWorker<O>>, id: HandlerId, outs: Vec<O>)
    ensures
        final(queue)@ == old(queue)@ + outs@.map_values(
            |o: O| FromWorker::<O>::ProcessOutput(id, o),
        ),
{
    let ghost orig_q = queue@;
    let ghost orig_outs = outs@;
    let mut outs = outs;
    while outs.len() > 0
        invariant
            outs@.len() <= orig_outs.len(),
            outs@ == orig_outs.skip(orig_outs.len() - outs@.len()),
            queue@.len() == orig_q.len() + orig_outs.len() - outs@.len(),
            forall|k: int| 0 <= k < orig_q.len() ==> queue@[k] == orig_q[k],
            forall|k: int|
                0 <= k < orig_outs.len() - outs@.len() ==> queue@[orig_q.len() + k]
                    == FromWorker::<O>::ProcessOutput(id, orig_outs[k]),
        decreases outs@.len(),
    {
        let ghost done: int = orig_outs.len() - outs@.len();
        let ghost before = outs@;
        let o = outs.remove(0);
        proof {
            assert(before == orig_outs.skip(done));
            assert(o == before[0]);
            assert(orig_outs.skip(done)[0] == orig_outs[0 + done]);
            assert(outs@ =~= before.skip(1));
            assert forall|k: int| 0 <= k < orig_outs.len() - done - 1 implies orig_outs.skip(
                done,
            ).skip(1)[k] == orig_outs.skip(done + 1)[k] by {
                assert(orig_outs.skip(done)[k + 1] == orig_outs[k + 1 + done]);
                assert(orig_outs.skip(done + 1)[k] == orig_outs[k + (done + 1)]);
            }
            assert(orig_outs.skip(done).skip(1) =~= orig_outs.skip(done + 1));
        }
        queue.push(FromWorker::ProcessOutput(id, o));
    }
    proof {
        assert(queue@ =~= orig_q + orig_outs.map_values(
            |o: O| FromWorker::<O>::ProcessOutput(id, o),
        ));
    }
}

/// Law: outputs keep the order of the inputs that produced them.  When
/// the agent's outputs for input `a` are enqueued and the outputs for a
/// later input `b` after them, every message of `a`'s batch stands at an
/// earlier queue position than every message of `b`'s batch, and both
/// batches carry the handler id of their own input.
pub proof fn lemma_outputs_in_input_order<O>(
    q0: Seq<FromWorker<O>>,
    a_id: HandlerId,
    a_outs: Seq<O>,
    b_id: HandlerId,
    b_outs: Seq<O>,
)
    ensures
        ({
            let q1 = q0 + a_outs.map_values(|o: O| FromWorker::<O>::ProcessOutput(a_id, o));
            let q2 = q1 + b_outs.map_values(|o: O| FromWorker::<O>::ProcessOutput(b_id, o));
            &&& q1.len() == q0.len() + a_outs.len()
            &&& (forall|i: int|
                0 <= i < a_outs.len() ==> q2[q0.len() + i] == FromWorker::<O>::ProcessOutput(
                    a_id,
                    a_outs[i],
                ))
            &&& (forall|i: int|
                0 <= i < b_outs.len() ==> q2[q1.len() + i] == FromWorker::<O>::ProcessOutput(
                    b_id,
                    b_outs[i],
                ))
        }),
{
}

} // verus!
