//! The worker lifecycle on the controller side.
//!
//! One spawned execution context moves along
//! `Unspawned → Spawning → AwaitingReady → Ready → Destroyed`, and only
//! along it: the readiness signal is the sole door into `Ready`, and
//! teardown is terminal.

use vstd::prelude::*;

verus! {

/// Where one worker instance stands between creation and teardown.
#[derive(Clone, Copy, Debug, PartialEq, Eq, Structural)]
pub enum LifecycleState {
    /// No execution context exists yet.
    Unspawned,
    /// The spawn was requested with a resolved script reference.
    Spawning,
    /// The handle exists and its message callback is registered, so the
    /// readiness signal cannot be lost; traffic is still held back.
    AwaitingReady,
    /// The readiness signal was decoded: the channel carries traffic.
    Ready,
    /// The shutdown envelope was posted or the context was torn down.
    Destroyed,
}

/// What moves the lifecycle.
#[derive(Clone, Copy, Debug, PartialEq, Eq, Structural)]
pub enum LifecycleEvent {
    /// A spawn was invoked with a resolved script reference.
    SpawnRequested,
    /// The context's handle exists and the inbound callback is
    /// registered.
    HandleCreated,
    /// A decoded `WorkerLoaded` arrived from this instance.
    LoadedDecoded,
    /// The shutdown envelope was posted, or the hosting process is
    /// tearing the context down.
    TeardownStarted,
}

/// The transition relation: each state accepts the one event that moves
/// it forward, teardown is accepted everywhere and is terminal, and any
/// other event leaves the state alone.
pub open spec fn spec_lifecycle_next(s: LifecycleState, ev: LifecycleEvent) -> LifecycleState {
    match (s, ev) {
        (_, LifecycleEvent::TeardownStarted) => LifecycleState::Destroyed,
        (LifecycleState::Unspawned, LifecycleEvent::SpawnRequested) => LifecycleState::Spawning,
        (LifecycleState::Spawning, LifecycleEvent::HandleCreated) => LifecycleState::AwaitingReady,
        (LifecycleState::AwaitingReady, LifecycleEvent::LoadedDecoded) => LifecycleState::Ready,
        (_, _) => s,
    }
}

/// The state after a whole run of events, first event first.
pub open spec fn spec_lifecycle_run(s: LifecycleState, evs: Seq<LifecycleEvent>) -> LifecycleState
    decreases evs.len(),
{
    if evs.len() == 0 {
        s
    } else {
        spec_lifecycle_run(spec_lifecycle_next(s, evs[0]), evs.skip(1))
    }
}

/// The lifecycle of one worker instance, as the controller tracks it.
pub struct Lifecycle {
    /// The current state.
    pub state: LifecycleState,
}

impl Lifecycle {
    /// A lifecycle before anything was spawned.
    pub fn new() -> (r: Lifecycle)
        ensures
            r.state == LifecycleState::Unspawned,
    {
        Lifecycle { state: LifecycleState::Unspawned }
    }

    /// Whether traffic may flow to the worker now.
    pub fn is_ready(&self) -> (r: bool)
        ensures
            r == (self.state == LifecycleState::Ready),
    {
        match self.state {
            LifecycleState::Ready => true,
            _ => false,
        }
    }

    /// Feed one event through the transition relation.
    pub fn step(&mut self, ev: LifecycleEvent)
        ensures
            final(self).state == spec_lifecycle_next(old(self).state, ev),
    {
        let next = match (self.state, ev) {
            (_, LifecycleEvent::TeardownStarted) => LifecycleState::Destroyed,
            (LifecycleState::Unspawned, LifecycleEvent::SpawnRequested) => LifecycleState::Spawning,
            (
                LifecycleState::Spawning,
                LifecycleEvent::HandleCreated,
            ) => LifecycleState::AwaitingReady,
            (LifecycleState::AwaitingReady, LifecycleEvent::LoadedDecoded) => LifecycleState::Ready,
            (s, _) => s,
        };
        self.state = next;
    }
}

/// Law: a run that ends `Ready` without starting there contains a
/// decoded readiness signal.  Since inputs are handed out for posting
/// only in the `Ready` state, no input reaches a worker before its
/// `WorkerLoaded` was decoded.
pub proof fn lemma_ready_needs_loaded(s0: LifecycleState, evs: Seq<LifecycleEvent>)
    requires
        s0 != LifecycleState::Ready,
        spec_lifecycle_run(s0, evs) == LifecycleState::Ready,
    ensures
        exists|i: int| 0 <= i < evs.len() && evs[i] == LifecycleEvent::LoadedDecoded,
    decreases evs.len(),
{
    let s1 = spec_lifecycle_next(s0, evs[0]);
    if s1 == LifecycleState::Ready {
        assert(evs[0] == LifecycleEvent::LoadedDecoded);
    } else {
        lemma_ready_needs_loaded(s1, evs.skip(1));
        let i = choose|i: int|
            0 <= i < evs.skip(1).len() && evs.skip(1)[i] == LifecycleEvent::LoadedDecoded;
        assert(evs[i + 1] == LifecycleEvent::LoadedDecoded);
    }
}

} // verus!
