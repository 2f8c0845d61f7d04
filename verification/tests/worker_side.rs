//! The worker-side session: attach/detach mirroring, input gating, and
//! terminal shutdown.

use worker_agent::envelope::ToWorker;
use worker_agent::worker::{WorkerSession, WorkerStep};
use worker_agent::HandlerId;

#[test]
fn input_before_attach_is_ignored() {
    let mut s = WorkerSession::new();
    match s.handle(ToWorker::ProcessInput(HandlerId::new(1), 10u64)) {
        WorkerStep::Ignored => {}
        _ => panic!("an input may not reach the agent before the attach"),
    }
}

#[test]
fn input_between_attach_and_detach_runs_agent() {
    let mut s = WorkerSession::new();
    let id = HandlerId::new(1);
    match s.handle(ToWorker::Connected::<u64>(id)) {
        WorkerStep::Attached(got) => assert_eq!(got, id),
        _ => panic!("a fresh attach is accepted"),
    }
    match s.handle(ToWorker::ProcessInput(id, 10u64)) {
        WorkerStep::RunAgent(got, input) => {
            assert_eq!(got, id);
            assert_eq!(input, 10);
        }
        _ => panic!("a connected client's input reaches the agent"),
    }
}

#[test]
fn input_after_detach_is_ignored() {
    let mut s = WorkerSession::new();
    let id = HandlerId::new(1);
    s.handle(ToWorker::Connected::<u64>(id));
    match s.handle(ToWorker::Disconnected::<u64>(id)) {
        WorkerStep::Detached(got) => assert_eq!(got, id),
        _ => panic!("a connected client may detach"),
    }
    match s.handle(ToWorker::ProcessInput(id, 10u64)) {
        WorkerStep::Ignored => {}
        _ => panic!("no input is attributed to a detached client"),
    }
}

#[test]
fn repeated_attach_is_ignored() {
    let mut s = WorkerSession::new();
    let id = HandlerId::new(1);
    s.handle(ToWorker::Connected::<u64>(id));
    match s.handle(ToWorker::Connected::<u64>(id)) {
        WorkerStep::Ignored => {}
        _ => panic!("an id attaches at most once per instance"),
    }
}

#[test]
fn detached_id_cannot_reattach() {
    let mut s = WorkerSession::new();
    let id = HandlerId::new(1);
    s.handle(ToWorker::Connected::<u64>(id));
    s.handle(ToWorker::Disconnected::<u64>(id));
    match s.handle(ToWorker::Connected::<u64>(id)) {
        WorkerStep::Ignored => {}
        _ => panic!("a retired id is never valid again"),
    }
}

#[test]
fn destroy_is_terminal() {
    let mut s = WorkerSession::new();
    let id = HandlerId::new(1);
    s.handle(ToWorker::Connected::<u64>(id));
    match s.handle(ToWorker::Destroy::<u64>) {
        WorkerStep::Halt => {}
        _ => panic!("the shutdown envelope halts the worker"),
    }
    match s.handle(ToWorker::ProcessInput(id, 10u64)) {
        WorkerStep::Ignored => {}
        _ => panic!("nothing is processed after shutdown"),
    }
    match s.handle(ToWorker::Connected::<u64>(HandlerId::new(2))) {
        WorkerStep::Ignored => {}
        _ => panic!("nothing is processed after shutdown"),
    }
}
