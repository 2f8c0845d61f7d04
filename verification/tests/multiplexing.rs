//! The shared strategy end to end: one worker per script reference,
//! many clients told apart by handler id, outputs routed or dropped.

use worker_agent::codec::Packed;
use worker_agent::envelope::{FromWorker, ToWorker};
use worker_agent::public::{Routed, SharedRegistry};
use worker_agent::worker::{enqueue_outputs, WorkerSession, WorkerStep};
use worker_agent::HandlerId;

/// Feed controller-side byte buffers through a worker session with an
/// echoing agent; returns the worker's outbound queue.
fn run_echo_worker(
    session: &mut WorkerSession,
    inbound: &[Vec<u8>],
) -> Vec<FromWorker<Vec<u8>>> {
    let mut out_queue: Vec<FromWorker<Vec<u8>>> = Vec::new();
    for bytes in inbound {
        let msg = <ToWorker<Vec<u8>>>::unpack(bytes).expect("a trusted peer sent these bytes");
        match session.handle(msg) {
            WorkerStep::RunAgent(id, input) => {
                // the echoing agent: one output, the input itself
                enqueue_outputs(&mut out_queue, id, vec![input]);
            }
            _ => {}
        }
    }
    out_queue
}

#[test]
fn shared_worker_echo_scenario() {
    let mut reg: SharedRegistry<Vec<u8>> = SharedRegistry::new();

    // Connect client A: first connection spawns, id 1, attach queued.
    let c_a = reg.connect(b"echo");
    assert!(c_a.spawned);
    assert_eq!(c_a.id, HandlerId::new(1));
    assert!(c_a.post.is_none());

    // Connect client B: same reference, the worker is reused, id 2.
    let c_b = reg.connect(b"echo");
    assert!(!c_b.spawned);
    assert_eq!(c_b.id, HandlerId::new(2));
    assert!(c_b.post.is_none());

    // Inputs sent before readiness are buffered, not posted.
    assert!(reg.post_input(b"echo", c_a.id, b"x".to_vec()).is_none());
    assert!(reg.post_input(b"echo", c_b.id, b"y".to_vec()).is_none());

    // The worker loads; everything queued is flushed in order.
    let mut wire_to_worker: Vec<Vec<u8>> = Vec::new();
    match reg.route::<Vec<u8>>(b"echo", FromWorker::WorkerLoaded) {
        Routed::Flush(msgs) => {
            assert_eq!(
                msgs,
                vec![
                    ToWorker::Connected(c_a.id),
                    ToWorker::Connected(c_b.id),
                    ToWorker::ProcessInput(c_a.id, b"x".to_vec()),
                    ToWorker::ProcessInput(c_b.id, b"y".to_vec()),
                ]
            );
            for m in &msgs {
                wire_to_worker.push(m.pack());
            }
        }
        _ => panic!("the first readiness signal must flush the queue"),
    }

    // The worker observes the flushed traffic and echoes per client.
    let mut session = WorkerSession::new();
    let out_queue = run_echo_worker(&mut session, &wire_to_worker);
    assert_eq!(
        out_queue,
        vec![
            FromWorker::ProcessOutput(c_a.id, b"x".to_vec()),
            FromWorker::ProcessOutput(c_b.id, b"y".to_vec()),
        ]
    );

    // The controller routes the outputs to the right clients, in order.
    let mut delivered: Vec<(u64, Vec<u8>)> = Vec::new();
    for m in out_queue {
        let bytes = m.pack();
        let m = <FromWorker<Vec<u8>>>::unpack(&bytes).expect("worker bytes decode");
        match reg.route::<Vec<u8>>(b"echo", m) {
            Routed::Deliver(id, out) => delivered.push((id.raw, out)),
            _ => panic!("both clients are live, both outputs must arrive"),
        }
    }
    assert_eq!(delivered, vec![(1, b"x".to_vec()), (2, b"y".to_vec())]);

    // A detaches; the worker survives for B.
    let d_a = reg.disconnect(b"echo", c_a.id);
    assert!(!d_a.destroyed);
    assert_eq!(d_a.posts, vec![ToWorker::Disconnected(c_a.id)]);

    // An in-flight output for A is now silently dropped, not delivered.
    match reg.route::<Vec<u8>>(b"echo", FromWorker::ProcessOutput(c_a.id, b"late".to_vec())) {
        Routed::Dropped => {}
        _ => panic!("output for a detached client must be dropped"),
    }

    // B keeps working after A left.
    let posted = reg.post_input(b"echo", c_b.id, b"z".to_vec());
    assert_eq!(posted, Some(ToWorker::ProcessInput(c_b.id, b"z".to_vec())));
    let mut wire: Vec<Vec<u8>> = vec![d_a.posts[0].pack(), posted.unwrap().pack()];
    let out_queue = run_echo_worker(&mut session, &wire);
    assert_eq!(out_queue, vec![FromWorker::ProcessOutput(c_b.id, b"z".to_vec())]);
    match reg.route::<Vec<u8>>(b"echo", FromWorker::ProcessOutput(c_b.id, b"z".to_vec())) {
        Routed::Deliver(id, out) => {
            assert_eq!(id, c_b.id);
            assert_eq!(out, b"z".to_vec());
        }
        _ => panic!("B is still live"),
    }

    // The last client detaches: detach plus shutdown go out, the entry
    // is removed.
    let d_b = reg.disconnect(b"echo", c_b.id);
    assert!(d_b.destroyed);
    assert_eq!(
        d_b.posts,
        vec![ToWorker::Disconnected(c_b.id), ToWorker::Destroy]
    );
    wire = vec![d_b.posts[0].pack(), d_b.posts[1].pack()];
    let out_queue = run_echo_worker(&mut session, &wire);
    assert!(out_queue.is_empty());

    // A message for the torn-down worker is dropped.
    match reg.route::<Vec<u8>>(b"echo", FromWorker::ProcessOutput(c_b.id, b"gone".to_vec())) {
        Routed::Dropped => {}
        _ => panic!("no entry is left for this reference"),
    }

    // A third connection after both detached spawns a fresh instance.
    let c_c = reg.connect(b"echo");
    assert!(c_c.spawned);
    assert_eq!(c_c.id, HandlerId::new(1));
}

#[test]
fn distinct_scripts_get_distinct_workers() {
    let mut reg: SharedRegistry<u64> = SharedRegistry::new();
    let c1 = reg.connect(b"alpha.js");
    let c2 = reg.connect(b"beta.js");
    assert!(c1.spawned);
    assert!(c2.spawned);
    let c3 = reg.connect(b"alpha.js");
    assert!(!c3.spawned);
    assert_eq!(c3.id, HandlerId::new(2));
}

#[test]
fn ready_worker_gets_attach_posted_at_once() {
    let mut reg: SharedRegistry<u64> = SharedRegistry::new();
    let c1 = reg.connect(b"w.js");
    match reg.route::<u64>(b"w.js", FromWorker::WorkerLoaded) {
        Routed::Flush(msgs) => assert_eq!(msgs, vec![ToWorker::Connected(c1.id)]),
        _ => panic!("readiness must flush"),
    }
    let c2 = reg.connect(b"w.js");
    assert_eq!(c2.post, Some(ToWorker::Connected(c2.id)));
    let posted = reg.post_input(b"w.js", c2.id, 41);
    assert_eq!(posted, Some(ToWorker::ProcessInput(c2.id, 41)));
}

#[test]
fn repeated_readiness_signal_is_dropped() {
    let mut reg: SharedRegistry<u64> = SharedRegistry::new();
    let _ = reg.connect(b"w.js");
    match reg.route::<u64>(b"w.js", FromWorker::WorkerLoaded) {
        Routed::Flush(_) => {}
        _ => panic!("first readiness must flush"),
    }
    match reg.route::<u64>(b"w.js", FromWorker::WorkerLoaded) {
        Routed::Dropped => {}
        _ => panic!("a repeated readiness signal is dropped"),
    }
}

#[test]
fn unknown_worker_output_is_dropped() {
    let mut reg: SharedRegistry<u64> = SharedRegistry::new();
    match reg.route::<u64>(b"nobody.js", FromWorker::ProcessOutput(HandlerId::new(1), 5)) {
        Routed::Dropped => {}
        _ => panic!("no worker serves this reference"),
    }
}
