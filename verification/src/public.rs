//! The shared multiplexing strategy: one worker instance is spawned at
//! most once per distinct script reference and reused for every further
//! connection to the same reference, clients being told apart by their
//! [`HandlerId`].
//!
//! The registry is an explicit state object owned by the controller
//! context.  Every operation returns the envelopes the caller must post,
//! so the platform layer does the posting while the bookkeeping here is
//! verified.  The policy for traffic ahead of readiness is buffering:
//! envelopes bound for a worker that has not yet signalled
//! `WorkerLoaded` are queued and flushed, in order, when the signal is
//! routed.

use vstd::prelude::*;

use crate::envelope::{FromWorker, ToWorker};
use crate::HandlerId;

verus! {

/// The controller-side record of one spawned worker instance.
pub struct WorkerEntry<T> {
    /// The script reference this worker was spawned from.
    pub script: Vec<u8>,
    /// Which spawned instance this is; instance numbers are never reused
    /// across the registry's lifetime.
    pub instance: u64,
    /// Whether the readiness signal has been routed for this instance.
    pub ready: bool,
    /// Envelopes queued while the worker was not yet ready.
    pub pending: Vec<ToWorker<T>>,
    /// The next handler id to assign; ids `1 .. next_id` were assigned.
    pub next_id: u64,
    /// The assigned ids whose clients have detached; never reused.
    pub released: Vec<u64>,
}

/// A handler id is live for an entry when it was assigned and its client
/// has not detached.
pub open spec fn is_live<T>(e: WorkerEntry<T>, id: u64) -> bool {
    &&& 1 <= id < e.next_id
    &&& !e.released@.contains(id)
}

impl<T> WorkerEntry<T> {
    /// Internal consistency of one entry.  Once the worker is ready the
    /// queue stays empty: everything later is posted at once, so traffic
    /// for one client is never reordered around the queue.
    pub open spec fn wf(self) -> bool {
        &&& self.next_id >= 1
        &&& (forall|i: int, j: int|
            0 <= i < j < self.released@.len() ==> self.released@[i] != self.released@[j])
        &&& (forall|i: int|
            0 <= i < self.released@.len() ==> 1 <= #[trigger] self.released@[i] < self.next_id)
        &&& (self.ready ==> self.pending@.len() == 0)
    }

    /// One entry may only evolve monotonically while it is alive: ids
    /// are assigned upward, releases are never taken back, and the
    /// instance never changes.
    pub open spec fn evolves_to(self, later: Self) -> bool {
        &&& self.instance == later.instance
        &&& self.next_id <= later.next_id
        &&& (forall|id: u64| self.released@.contains(id) ==> later.released@.contains(id))
    }
}

/// The process-wide table of shared worker instances, keyed by script
/// reference.  Created empty; an entry is inserted on the first
/// connection to a reference and removed when its last client detaches.
pub struct SharedRegistry<T> {
    /// The live entries; script references are pairwise distinct.
    pub entries: Vec<WorkerEntry<T>>,
    /// How many instances were ever spawned; the source of instance
    /// numbers.
    pub spawn_count: u64,
}

/// The index of the entry for `script`, if one exists.
pub open spec fn spec_find<T>(entries: Seq<WorkerEntry<T>>, script: Seq<u8>) -> Option<int>
    decreases entries.len(),
{
    if entries.len() == 0 {
        None
    } else if entries[0].script@ == script {
        Some(0)
    } else {
        match spec_find(entries.skip(1), script) {
            Some(i) => Some(i + 1),
            None => None,
        }
    }
}

/// `spec_find` returns the first (and, under well-formedness, only)
/// index whose entry carries the script, and `None` exactly when no
/// entry does.
pub proof fn lemma_spec_find<T>(entries: Seq<WorkerEntry<T>>, script: Seq<u8>)
    ensures
        match spec_find(entries, script) {
            Some(i) => 0 <= i < entries.len() && entries[i].script@ == script && (forall|k: int|
                0 <= k < i ==> entries[k].script@ != script),
            None => forall|k: int| 0 <= k < entries.len() ==> entries[k].script@ != script,
        },
    decreases entries.len(),
{
    if entries.len() == 0 {
    } else if entries[0].script@ == script {
    } else {
        lemma_spec_find(entries.skip(1), script);
        assert(forall|k: int| 0 <= k < entries.len() - 1 ==> entries.skip(1)[k] == entries[k + 1]);
        match spec_find(entries.skip(1), script) {
            Some(i) => {
                assert(entries[i + 1].script@ == script);
                assert forall|k: int| 0 <= k < i + 1 implies entries[k].script@ != script by {
                    if k >= 1 {
                        assert(entries[k] == entries.skip(1)[k - 1]);
                    }
                }
            },
            None => {
                assert forall|k: int| 0 <= k < entries.len() implies entries[k].script@
                    != script by {
                    if k >= 1 {
                        assert(entries[k] == entries.skip(1)[k - 1]);
                    }
                }
            },
        }
    }
}

impl<T> SharedRegistry<T> {
    /// Internal consistency of the registry.
    pub open spec fn wf(self) -> bool {
        &&& (forall|i: int|
            0 <= i < self.entries@.len() ==> (#[trigger] self.entries@[i]).wf())
        &&& (forall|i: int, j: int|
            0 <= i < j < self.entries@.len() ==> self.entries@[i].script@
                != self.entries@[j].script@)
        &&& (forall|i: int|
            0 <= i < self.entries@.len() ==> (#[trigger] self.entries@[i]).instance
                <= self.spawn_count)
    }

    /// An empty registry: no worker has been spawned yet.
    pub fn new() -> (r: SharedRegistry<T>)
        ensures
            r.wf(),
            r.entries@.len() == 0,
            r.spawn_count == 0,
    {
        SharedRegistry { entries: Vec::new(), spawn_count: 0 }
    }
}

/// The outcome of one connection request.
pub struct ConnectOutcome<T> {
    /// The fresh identifier assigned to the client.
    pub id: HandlerId,
    /// True when the caller must spawn a fresh execution context for the
    /// script; the attach envelope is then queued until readiness.
    pub spawned: bool,
    /// The envelope to post at once, when the worker is already ready.
    pub post: Option<ToWorker<T>>,
}

/// How one connection request changes the registry.
pub open spec fn connect_post<T: View>(
    pre: SharedRegistry<T>,
    post: SharedRegistry<T>,
    script: Seq<u8>,
    oc: ConnectOutcome<T>,
) -> bool {
    match spec_find(pre.entries@, script) {
        Some(j) => {
            let e0 = pre.entries@[j];
            let e1 = post.entries@[j];
            &&& oc.spawned == false
            &&& oc.id.raw == e0.next_id
            &&& post.entries@.len() == pre.entries@.len()
            &&& (forall|k: int|
                0 <= k < pre.entries@.len() && k != j ==> post.entries@[k] == pre.entries@[k])
            &&& e1.script == e0.script
            &&& e1.instance == e0.instance
            &&& e1.ready == e0.ready
            &&& e1.next_id == e0.next_id + 1
            &&& e1.released == e0.released
            &&& if e0.ready {
                &&& (oc.post matches Some(p) && p == ToWorker::<T>::Connected(oc.id))
                &&& e1.pending == e0.pending
            } else {
                &&& oc.post is None
                &&& e1.pending@ == e0.pending@.push(ToWorker::<T>::Connected(oc.id))
            }
            &&& e0.evolves_to(e1)
            &&& post.spawn_count == pre.spawn_count
        },
        None => {
            let e1 = post.entries@.last();
            &&& oc.spawned == true
            &&& oc.id.raw == 1
            &&& oc.post is None
            &&& post.entries@.len() == pre.entries@.len() + 1
            &&& (forall|k: int|
                0 <= k < pre.entries@.len() ==> post.entries@[k] == pre.entries@[k])
            &&& e1.script@ == script
            &&& post.spawn_count == pre.spawn_count + 1
            &&& e1.instance == post.spawn_count
            &&& e1.ready == false
            &&& e1.next_id == 2
            &&& e1.released@.len() == 0
            &&& e1.pending@.len() == 1
            &&& e1.pending@[0] == ToWorker::<T>::Connected(oc.id)
        },
    }
}

/// The outcome of one disconnection.
pub struct DisconnectOutcome<T> {
    /// The envelopes to post at once, in order.
    pub posts: Vec<ToWorker<T>>,
    /// True when this was the last client: the worker was told to shut
    /// down and its entry removed.
    pub destroyed: bool,
}

/// How one disconnection changes the registry.  On the last client's
/// departure the detach and the shutdown envelope are posted at once,
/// whether or not the worker reached readiness: teardown is terminal.
pub open spec fn disconnect_post<T: View>(
    pre: SharedRegistry<T>,
    post: SharedRegistry<T>,
    script: Seq<u8>,
    id: HandlerId,
    oc: DisconnectOutcome<T>,
) -> bool {
    match spec_find(pre.entries@, script) {
        Some(j) => {
            let e0 = pre.entries@[j];
            let rel1 = e0.released@.push(id.raw);
            &&& post.spawn_count == pre.spawn_count
            &&& if rel1.len() == e0.next_id - 1 {
                &&& oc.destroyed == true
                &&& post.entries@ == pre.entries@.remove(j)
                &&& oc.posts@.len() == 2
                &&& oc.posts@[0] == ToWorker::<T>::Disconnected(id)
                &&& oc.posts@[1] == ToWorker::<T>::Destroy
            } else {
                let e1 = post.entries@[j];
                &&& oc.destroyed == false
                &&& post.entries@.len() == pre.entries@.len()
                &&& (forall|k: int|
                    0 <= k < pre.entries@.len() && k != j ==> post.entries@[k]
                        == pre.entries@[k])
                &&& e1.script == e0.script
                &&& e1.instance == e0.instance
                &&& e1.ready == e0.ready
                &&& e1.next_id == e0.next_id
                &&& e1.released@ == rel1
                &&& !is_live(e1, id.raw)
                &&& if e0.ready {
                    &&& oc.posts@.len() == 1
                    &&& oc.posts@[0] == ToWorker::<T>::Disconnected(id)
                    &&& e1.pending == e0.pending
                } else {
                    &&& oc.posts@.len() == 0
                    &&& e1.pending@ == e0.pending@.push(ToWorker::<T>::Disconnected(id))
                }
                &&& e0.evolves_to(e1)
            }
        },
        None => false,
    }
}

/// What the routing of one inbound worker message decided.
pub enum Routed<T, O> {
    /// The readiness signal arrived: post these queued envelopes now, in
    /// this order.
    Flush(Vec<ToWorker<T>>),
    /// An output for a live client: hand it to that client's callback.
    Deliver(HandlerId, O),
    /// Silently dropped: unknown worker instance, repeated readiness
    /// signal, or a client that already detached.
    Dropped,
}

/// How routing one inbound message changes the registry.
pub open spec fn route_post<T: View, O>(
    pre: SharedRegistry<T>,
    post: SharedRegistry<T>,
    script: Seq<u8>,
    msg: FromWorker<O>,
    r: Routed<T, O>,
) -> bool {
    match spec_find(pre.entries@, script) {
        None => {
            &&& r is Dropped
            &&& post == pre
        },
        Some(j) => {
            let e0 = pre.entries@[j];
            match msg {
                FromWorker::WorkerLoaded => {
                    if e0.ready {
                        &&& r is Dropped
                        &&& post == pre
                    } else {
                        let e1 = post.entries@[j];
                        &&& (r matches Routed::Flush(v) && v@ == e0.pending@)
                        &&& post.entries@.len() == pre.entries@.len()
                        &&& (forall|k: int|
                            0 <= k < pre.entries@.len() && k != j ==> post.entries@[k]
                                == pre.entries@[k])
                        &&& e1.script == e0.script
                        &&& e1.instance == e0.instance
                        &&& e1.ready == true
                        &&& e1.next_id == e0.next_id
                        &&& e1.released == e0.released
                        &&& e1.pending@.len() == 0
                        &&& e0.evolves_to(e1)
                        &&& post.spawn_count == pre.spawn_count
                    }
                },
                FromWorker::ProcessOutput(id, out) => {
                    &&& post == pre
                    &&& if is_live(e0, id.raw) {
                        r == Routed::<T, O>::Deliver(id, out)
                    } else {
                        r is Dropped
                    }
                },
            }
        },
    }
}

/// True when the two byte strings hold the same bytes.
fn bytes_eq(a: &[u8], b: &[u8]) -> (r: bool)
    ensures
        r <==> a@ == b@,
{
    if a.len() != b.len() {
        return false;
    }
    let n = a.len();
    let mut i: usize = 0;
    while i < n
        invariant
            n == a@.len(),
            n == b@.len(),
            i <= n,
            forall|k: int| 0 <= k < i ==> a@[k] == b@[k],
        decreases n - i,
    {
        if *vstd::slice::slice_index_get(a, i) != *vstd::slice::slice_index_get(b, i) {
            proof {
                assert(a@[i as int] != b@[i as int]);
            }
            return false;
        }
        i += 1;
    }
    proof {
        assert(a@ =~= b@);
    }
    true
}

impl<T> SharedRegistry<T> {
    /// The index of the entry for `script`, if any.
    fn find(&self, script: &[u8]) -> (r: Option<usize>)
        ensures
            match r {
                Some(i) => i < self.entries@.len() && spec_find(self.entries@, script@) == Some(
                    i as int,
                ) && self.entries@[i as int].script@ == script@,
                None => spec_find(self.entries@, script@) is None,
            },
    {
        let n = self.entries.len();
        let mut i: usize = 0;
        while i < n
            invariant
                n == self.entries@.len(),
                i <= n,
                forall|k: int| 0 <= k < i ==> self.entries@[k].script@ != script@,
            decreases n - i,
        {
            if bytes_eq(self.entries[i].script.as_slice(), script) {
                proof {
                    lemma_spec_find(self.entries@, script@);
                }
                return Some(i);
            }
            i += 1;
        }
        proof {
            lemma_spec_find(self.entries@, script@);
        }
        None
    }
}

impl<T: View> SharedRegistry<T> {
    /// Attach a new logical client to the worker for `script`, spawning
    /// the worker first when none serves that reference yet.
    ///
    /// The fresh identifier is never one that this worker instance has
    /// assigned before.  The attach envelope is posted at once only when
    /// the worker is ready; otherwise it is queued.
    pub fn connect(&mut self, script: &[u8]) -> (r: ConnectOutcome<T>)
        requires
            old(self).wf(),
            match spec_find(old(self).entries@, script@) {
                Some(j) => old(self).entries@[j].next_id < u64::MAX,
                None => old(self).spawn_count < u64::MAX,
            },
        ensures
            final(self).wf(),
            connect_post(*old(self), *final(self), script@, r),
    {
        match self.find(script) {
            Some(i) => {
                let ghost pre = *self;
                let e = vstd::std_specs::vec::vec_index_mut(&mut self.entries, i);
                let id = HandlerId { raw: e.next_id };
                e.next_id = e.next_id + 1;
                let post = if e.ready {
                    Some(ToWorker::Connected(id))
                } else {
                    e.pending.push(ToWorker::Connected(id));
                    None
                };
                proof {
                    assert forall|k: int|
                        0 <= k < self.entries@.len() implies (
                    #[trigger] self.entries@[k]).wf() by {
                        if k != i {
                            assert(self.entries@[k] == pre.entries@[k]);
                        }
                    }
                }
                ConnectOutcome { id, spawned: false, post }
            },
            None => {
                let ghost pre = *self;
                let id = HandlerId { raw: 1 };
                let mut pending: Vec<ToWorker<T>> = Vec::new();
                pending.push(ToWorker::Connected(id));
                self.spawn_count = self.spawn_count + 1;
                let entry = WorkerEntry {
                    script: vstd::slice::slice_to_vec(script),
                    instance: self.spawn_count,
                    ready: false,
                    pending,
                    next_id: 2,
                    released: Vec::new(),
                };
                self.entries.push(entry);
                proof {
                    lemma_spec_find(pre.entries@, script@);
                    assert forall|k: int|
                        0 <= k < self.entries@.len() implies (
                    #[trigger] self.entries@[k]).wf() by {
                        if k < pre.entries@.len() {
                            assert(self.entries@[k] == pre.entries@[k]);
                        }
                    }
                }
                ConnectOutcome { id, spawned: true, post: None }
            },
        }
    }

    /// Detach the client `id` from the worker for `script`.
    ///
    /// A detach envelope goes out (at once when ready, queued when not);
    /// when this was the worker's last client, the shutdown envelope
    /// follows at once and the entry is removed: the worker is not kept
    /// alive speculatively.  The teardown trigger — every assigned id
    /// released — leaves no client stranded:
    /// [`lemma_teardown_means_no_live`] proves that no id is live then.
    pub fn disconnect(&mut self, script: &[u8], id: HandlerId) -> (r: DisconnectOutcome<T>)
        requires
            old(self).wf(),
            spec_find(old(self).entries@, script@) is Some,
            is_live(
                old(self).entries@[spec_find(old(self).entries@, script@)->Some_0],
                id.raw,
            ),
        ensures
            final(self).wf(),
            disconnect_post(*old(self), *final(self), script@, id, r),
    {
        let i = match self.find(script) {
            Some(i) => i,
            None => vstd::pervasive::unreached(),
        };
        let ghost pre = *self;
        let e = vstd::std_specs::vec::vec_index_mut(&mut self.entries, i);
        e.released.push(id.raw);
        let last = e.released.len() as u64 == e.next_id - 1;
        if last {
            self.entries.remove(i);
            let mut posts: Vec<ToWorker<T>> = Vec::new();
            posts.push(ToWorker::Disconnected(id));
            posts.push(ToWorker::Destroy);
            proof {
                assert(self.entries@ =~= pre.entries@.remove(i as int));
                assert forall|k: int|
                    0 <= k < self.entries@.len() implies (
                #[trigger] self.entries@[k]).wf() by {
                    if k < i {
                        assert(self.entries@[k] == pre.entries@[k]);
                    } else {
                        assert(self.entries@[k] == pre.entries@[k + 1]);
                    }
                }
                assert forall|a: int, b: int|
                    0 <= a < b < final(self).entries@.len() implies final(self).entries@[a].script@
                    != final(self).entries@[b].script@ by {
                    let a0: int = if a < i {
                        a
                    } else {
                        a + 1
                    };
                    let b0: int = if b < i {
                        b
                    } else {
                        b + 1
                    };
                    assert(final(self).entries@[a] == pre.entries@[a0]);
                    assert(final(self).entries@[b] == pre.entries@[b0]);
                }
            }
            DisconnectOutcome { posts, destroyed: true }
        } else {
            let posts = if e.ready {
                let mut posts: Vec<ToWorker<T>> = Vec::new();
                posts.push(ToWorker::Disconnected(id));
                posts
            } else {
                e.pending.push(ToWorker::Disconnected(id));
                Vec::new()
            };
            proof {
                assert forall|k: int|
                    0 <= k < self.entries@.len() implies (
                #[trigger] self.entries@[k]).wf() by {
                    if k != i {
                        assert(self.entries@[k] == pre.entries@[k]);
                    }
                }
                let rel0 = pre.entries@[i as int].released@;
                let rel1 = self.entries@[i as int].released@;
                assert(rel1 == rel0.push(id.raw));
                assert forall|y: u64| rel0.contains(y) implies rel1.contains(y) by {
                    let k = choose|k: int| 0 <= k < rel0.len() && rel0[k] == y;
                    assert(rel1[k] == y);
                }
                assert(rel1[rel0.len() as int] == id.raw);
                assert(rel1.contains(id.raw));
            }
            DisconnectOutcome { posts, destroyed: false }
        }
    }

    /// Hand one payload from the client `id` to the worker for `script`.
    ///
    /// The envelope is posted at once only when the worker is ready —
    /// never before its readiness signal was routed — and is queued
    /// otherwise.
    pub fn post_input(&mut self, script: &[u8], id: HandlerId, input: T) -> (r: Option<
        ToWorker<T>,
    >)
        requires
            old(self).wf(),
            spec_find(old(self).entries@, script@) is Some,
            is_live(
                old(self).entries@[spec_find(old(self).entries@, script@)->Some_0],
                id.raw,
            ),
        ensures
            final(self).wf(),
            ({
                let j = spec_find(old(self).entries@, script@)->Some_0;
                let e0 = old(self).entries@[j];
                let e1 = final(self).entries@[j];
                &&& final(self).spawn_count == old(self).spawn_count
                &&& final(self).entries@.len() == old(self).entries@.len()
                &&& (forall|k: int|
                    0 <= k < old(self).entries@.len() && k != j ==> final(self).entries@[k]
                        == old(self).entries@[k])
                &&& r is Some ==> e0.ready
                &&& if e0.ready {
                    &&& r == Some(ToWorker::<T>::ProcessInput(id, input))
                    &&& e1 == e0
                } else {
                    &&& r is None
                    &&& e1.pending@ == e0.pending@.push(ToWorker::<T>::ProcessInput(id, input))
                    &&& e1.script == e0.script
                    &&& e1.instance == e0.instance
                    &&& e1.ready == e0.ready
                    &&& e1.next_id == e0.next_id
                    &&& e1.released == e0.released
                }
                &&& e0.evolves_to(e1)
            }),
    {
        let i = match self.find(script) {
            Some(i) => i,
            None => vstd::pervasive::unreached(),
        };
        let ghost pre = *self;
        let e = vstd::std_specs::vec::vec_index_mut(&mut self.entries, i);
        let r = if e.ready {
            Some(ToWorker::ProcessInput(id, input))
        } else {
            e.pending.push(ToWorker::ProcessInput(id, input));
            None
        };
        proof {
            assert forall|k: int|
                0 <= k < self.entries@.len() implies (
            #[trigger] self.entries@[k]).wf() by {
                if k != i {
                    assert(self.entries@[k] == pre.entries@[k]);
                }
            }
        }
        r
    }

    /// Route one decoded message that arrived from the worker for
    /// `script`.
    ///
    /// The first readiness signal makes the worker ready and returns the
    /// queued envelopes for posting, in order.  An output for a client
    /// that is not live — it already detached, or the whole instance is
    /// unknown by now — is silently dropped: an accepted race, not an
    /// error.
    pub fn route<O>(&mut self, script: &[u8], msg: FromWorker<O>) -> (r: Routed<T, O>)
        requires
            old(self).wf(),
        ensures
            final(self).wf(),
            route_post(*old(self), *final(self), script@, msg, r),
    {
        let i = match self.find(script) {
            Some(i) => i,
            None => {
                return Routed::Dropped;
            },
        };
        let ghost pre = *self;
        match msg {
            FromWorker::WorkerLoaded => {
                if self.entries[i].ready {
                    Routed::Dropped
                } else {
                    let e = vstd::std_specs::vec::vec_index_mut(&mut self.entries, i);
                    e.ready = true;
                    let mut flushed: Vec<ToWorker<T>> = Vec::new();
                    core::mem::swap(&mut flushed, &mut e.pending);
                    proof {
                        assert forall|k: int|
                            0 <= k < self.entries@.len() implies (
                        #[trigger] self.entries@[k]).wf() by {
                            if k != i {
                                assert(self.entries@[k] == pre.entries@[k]);
                            }
                        }
                    }
                    Routed::Flush(flushed)
                }
            },
            FromWorker::ProcessOutput(id, out) => {
                let e = &self.entries[i];
                let live = 1 <= id.raw && id.raw < e.next_id && !contains_u64(
                    e.released.as_slice(),
                    id.raw,
                );
                if live {
                    Routed::Deliver(id, out)
                } else {
                    Routed::Dropped
                }
            },
        }
    }
}

/// The converse characterization: an index whose entry carries the
/// script, with no earlier match, is the one `spec_find` returns.
pub proof fn lemma_spec_find_unique<T>(entries: Seq<WorkerEntry<T>>, script: Seq<u8>, i: int)
    requires
        0 <= i < entries.len(),
        entries[i].script@ == script,
        forall|k: int| 0 <= k < i ==> entries[k].script@ != script,
    ensures
        spec_find(entries, script) == Some(i),
    decreases entries.len(),
{
    if i == 0 {
    } else {
        assert(entries[0].script@ != script);
        assert(entries.skip(1)[i - 1] == entries[i]);
        assert forall|k: int| 0 <= k < i - 1 implies entries.skip(1)[k].script@ != script by {
            assert(entries.skip(1)[k] == entries[k + 1]);
        }
        lemma_spec_find_unique(entries.skip(1), script, i - 1);
    }
}

/// Law: the teardown condition means what it says.  When every id this
/// instance ever assigned has been released — the reference count
/// reached zero — no id is live any more, so removing the entry and
/// shutting the worker down strands no client.
pub proof fn lemma_teardown_means_no_live<T>(e: WorkerEntry<T>)
    requires
        e.wf(),
        e.released@.len() == e.next_id - 1,
    ensures
        forall|id: u64| !is_live(e, id),
{
    broadcast use vstd::set::group_set_axioms;

    let rel = e.released@.map_values(|x: u64| x as int);
    assert forall|i: int, j: int|
        0 <= i < rel.len() && 0 <= j < rel.len() && i != j implies rel[i] != rel[j] by {
        if i < j {
            assert(e.released@[i] != e.released@[j]);
        } else {
            assert(e.released@[j] != e.released@[i]);
        }
    }
    rel.unique_seq_to_set();
    let s = rel.to_set();
    let interval = vstd::set_lib::set_int_range(1, e.next_id as int);
    vstd::set_lib::lemma_int_range(1, e.next_id as int);
    assert forall|x: int| s.contains(x) implies interval.contains(x) by {
        let k = choose|k: int| 0 <= k < rel.len() && rel[k] == x;
        assert(1 <= e.released@[k] < e.next_id);
    }
    assert forall|id: u64| !is_live(e, id) by {
        if 1 <= id < e.next_id && !e.released@.contains(id) {
            assert(!s.contains(id as int)) by {
                if s.contains(id as int) {
                    let k = choose|k: int| 0 <= k < rel.len() && rel[k] == id as int;
                    assert(e.released@[k] == id);
                    assert(e.released@.contains(id));
                }
            }
            let smaller = interval.remove(id as int);
            assert(s.subset_of(smaller));
            vstd::set::axiom_set_remove_finite(interval, id as int);
            vstd::set::axiom_set_remove_len(interval, id as int);
            vstd::set_lib::lemma_len_subset(s, smaller);
            assert(smaller.len() == interval.len() - 1);
            assert(false);
        }
    }
}

/// Law: once a client has detached, its id is dead for good in that
/// worker instance.  However the entry evolves afterwards, the id is
/// still not live, so [`SharedRegistry::route`] drops any output still
/// addressed to it instead of delivering it.
pub proof fn lemma_no_delivery_after_disconnect<T>(
    e1: WorkerEntry<T>,
    e2: WorkerEntry<T>,
    id: u64,
)
    requires
        1 <= id < e1.next_id,
        !is_live(e1, id),
        e1.evolves_to(e2),
    ensures
        !is_live(e2, id),
{
}

/// Law: a second connection request for a script whose worker is still
/// serving its first client reuses that worker — nothing is spawned —
/// and is told apart from the first client by a distinct handler id.
pub proof fn lemma_shared_worker_reuse<T: View>(
    r0: SharedRegistry<T>,
    r1: SharedRegistry<T>,
    r2: SharedRegistry<T>,
    script: Seq<u8>,
    c1: ConnectOutcome<T>,
    c2: ConnectOutcome<T>,
)
    requires
        r0.wf(),
        connect_post(r0, r1, script, c1),
        connect_post(r1, r2, script, c2),
    ensures
        c2.spawned == false,
        c1.id != c2.id,
{
    lemma_spec_find(r0.entries@, script);
    match spec_find(r0.entries@, script) {
        Some(j) => {
            assert(r1.entries@[j].script@ == script);
            assert forall|k: int| 0 <= k < j implies r1.entries@[k].script@ != script by {
                assert(r1.entries@[k] == r0.entries@[k]);
            }
            lemma_spec_find_unique(r1.entries@, script, j);
            assert(c2.id.raw == c1.id.raw + 1);
        },
        None => {
            let j = r0.entries@.len() as int;
            assert(r1.entries@[j].script@ == script);
            assert forall|k: int| 0 <= k < j implies r1.entries@[k].script@ != script by {
                assert(r1.entries@[k] == r0.entries@[k]);
            }
            lemma_spec_find_unique(r1.entries@, script, j);
            assert(c1.id.raw == 1 && c2.id.raw == 2);
        },
    }
}

/// Law: when the last client of a script's worker detaches — tearing
/// the worker down and removing its entry — a later connection request
/// for the same script spawns a fresh worker instance, never the old
/// one.
pub proof fn lemma_respawn_after_teardown<T: View>(
    r0: SharedRegistry<T>,
    r1: SharedRegistry<T>,
    r2: SharedRegistry<T>,
    script: Seq<u8>,
    id: HandlerId,
    d: DisconnectOutcome<T>,
    c: ConnectOutcome<T>,
)
    requires
        r0.wf(),
        spec_find(r0.entries@, script) is Some,
        disconnect_post(r0, r1, script, id, d),
        d.destroyed == true,
        connect_post(r1, r2, script, c),
    ensures
        c.spawned == true,
        r2.entries@.last().instance > r0.entries@[spec_find(
            r0.entries@,
            script,
        )->Some_0].instance,
{
    let j = spec_find(r0.entries@, script)->Some_0;
    lemma_spec_find(r0.entries@, script);
    r0.entries@.remove_ensures(j);
    assert forall|k: int| 0 <= k < r1.entries@.len() implies r1.entries@[k].script@
        != script by {
        if k < j {
            assert(r1.entries@[k] == r0.entries@[k]);
        } else {
            assert(r1.entries@[k] == r0.entries@[k + 1]);
        }
    }
    lemma_spec_find(r1.entries@, script);
    if spec_find(r1.entries@, script) is Some {
        let i = spec_find(r1.entries@, script)->Some_0;
        assert(r1.entries@[i].script@ != script);
        assert(false);
    }
}

/// True when the slice holds the value.
fn contains_u64(s: &[u64], x: u64) -> (r: bool)
    ensures
        r <==> s@.contains(x),
{
    let n = s.len();
    let mut i: usize = 0;
    while i < n
        invariant
            n == s@.len(),
            i <= n,
            forall|k: int| 0 <= k < i ==> s@[k] != x,
        decreases n - i,
    {
        if *vstd::slice::slice_index_get(s, i) == x {
            return true;
        }
        i += 1;
    }
    false
}

} // verus!
