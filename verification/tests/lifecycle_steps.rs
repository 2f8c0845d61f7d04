//! The worker lifecycle moves only forward along its chain.

use worker_agent::lifecycle::{Lifecycle, LifecycleEvent, LifecycleState};

#[test]
fn lifecycle_walks_the_chain() {
    let mut l = Lifecycle::new();
    assert_eq!(l.state, LifecycleState::Unspawned);
    assert!(!l.is_ready());
    l.step(LifecycleEvent::SpawnRequested);
    assert_eq!(l.state, LifecycleState::Spawning);
    l.step(LifecycleEvent::HandleCreated);
    assert_eq!(l.state, LifecycleState::AwaitingReady);
    assert!(!l.is_ready());
    l.step(LifecycleEvent::LoadedDecoded);
    assert_eq!(l.state, LifecycleState::Ready);
    assert!(l.is_ready());
    l.step(LifecycleEvent::TeardownStarted);
    assert_eq!(l.state, LifecycleState::Destroyed);
}

#[test]
fn readiness_needs_the_decoded_signal() {
    // Without a decoded readiness signal the machine never reaches
    // Ready, however the other events arrive.
    let mut l = Lifecycle::new();
    l.step(LifecycleEvent::SpawnRequested);
    l.step(LifecycleEvent::HandleCreated);
    l.step(LifecycleEvent::SpawnRequested);
    l.step(LifecycleEvent::HandleCreated);
    assert_ne!(l.state, LifecycleState::Ready);
}

#[test]
fn out_of_order_events_leave_the_state_alone() {
    let mut l = Lifecycle::new();
    l.step(LifecycleEvent::LoadedDecoded);
    assert_eq!(l.state, LifecycleState::Unspawned);
    l.step(LifecycleEvent::HandleCreated);
    assert_eq!(l.state, LifecycleState::Unspawned);
}

#[test]
fn teardown_is_terminal() {
    let mut l = Lifecycle::new();
    l.step(LifecycleEvent::TeardownStarted);
    assert_eq!(l.state, LifecycleState::Destroyed);
    l.step(LifecycleEvent::SpawnRequested);
    assert_eq!(l.state, LifecycleState::Destroyed);
    l.step(LifecycleEvent::LoadedDecoded);
    assert_eq!(l.state, LifecycleState::Destroyed);
}
