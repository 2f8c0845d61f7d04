//! The codec and envelope byte round trip, exercised on concrete values.

use worker_agent::codec::Packed;
use worker_agent::envelope::{FromWorker, ToWorker};
use worker_agent::HandlerId;

#[test]
fn u64_round_trip() {
    let v: u64 = 0x0102030405060708;
    let bytes = v.pack();
    assert_eq!(bytes, vec![8, 7, 6, 5, 4, 3, 2, 1]);
    assert_eq!(u64::unpack(&bytes), Some(v));
}

#[test]
fn u64_unpack_rejects_wrong_length() {
    assert_eq!(u64::unpack(&[1, 2, 3]), None);
    assert_eq!(u64::unpack(&[]), None);
}

#[test]
fn bytes_payload_round_trip() {
    let v: Vec<u8> = b"payload".to_vec();
    let bytes = v.pack();
    assert_eq!(bytes, b"payload".to_vec());
    assert_eq!(<Vec<u8>>::unpack(&bytes), Some(v));
}

#[test]
fn to_worker_connected_exact_bytes() {
    let m: ToWorker<u64> = ToWorker::Connected(HandlerId::new(1));
    let bytes = m.pack();
    assert_eq!(bytes, vec![0, 1, 0, 0, 0, 0, 0, 0, 0]);
    assert_eq!(<ToWorker<u64>>::unpack(&bytes), Some(m));
}

#[test]
fn to_worker_process_input_round_trip() {
    let m: ToWorker<Vec<u8>> = ToWorker::ProcessInput(HandlerId::new(7), b"x".to_vec());
    let bytes = m.pack();
    assert_eq!(bytes, vec![1, 7, 0, 0, 0, 0, 0, 0, 0, b'x']);
    assert_eq!(<ToWorker<Vec<u8>>>::unpack(&bytes), Some(m));
}

#[test]
fn to_worker_disconnected_round_trip() {
    let m: ToWorker<u64> = ToWorker::Disconnected(HandlerId::new(300));
    let bytes = m.pack();
    assert_eq!(bytes, vec![2, 44, 1, 0, 0, 0, 0, 0, 0]);
    assert_eq!(<ToWorker<u64>>::unpack(&bytes), Some(m));
}

#[test]
fn to_worker_destroy_round_trip() {
    let m: ToWorker<u64> = ToWorker::Destroy;
    let bytes = m.pack();
    assert_eq!(bytes, vec![3]);
    assert_eq!(<ToWorker<u64>>::unpack(&bytes), Some(m));
}

#[test]
fn from_worker_loaded_round_trip() {
    let m: FromWorker<Vec<u8>> = FromWorker::WorkerLoaded;
    let bytes = m.pack();
    assert_eq!(bytes, vec![0]);
    assert_eq!(<FromWorker<Vec<u8>>>::unpack(&bytes), Some(m));
}

#[test]
fn from_worker_process_output_round_trip() {
    let m: FromWorker<Vec<u8>> = FromWorker::ProcessOutput(HandlerId::new(2), b"out".to_vec());
    let bytes = m.pack();
    assert_eq!(<FromWorker<Vec<u8>>>::unpack(&bytes), Some(m));
}

#[test]
fn unpack_rejects_foreign_bytes() {
    // empty buffer
    assert_eq!(<ToWorker<u64>>::unpack(&[]), None);
    // unknown tag
    assert_eq!(<ToWorker<u64>>::unpack(&[9, 0, 0, 0, 0, 0, 0, 0, 0]), None);
    // attach envelope with a truncated id
    assert_eq!(<ToWorker<u64>>::unpack(&[0, 1, 2]), None);
    // attach envelope with trailing bytes
    assert_eq!(
        <ToWorker<u64>>::unpack(&[0, 1, 0, 0, 0, 0, 0, 0, 0, 5]),
        None
    );
    // shutdown envelope with trailing bytes
    assert_eq!(<ToWorker<u64>>::unpack(&[3, 0]), None);
    // input envelope whose payload is not a valid u64
    assert_eq!(
        <ToWorker<u64>>::unpack(&[1, 1, 0, 0, 0, 0, 0, 0, 0, 1, 2]),
        None
    );
    // readiness signal with trailing bytes
    assert_eq!(<FromWorker<u64>>::unpack(&[0, 0]), None);
    assert_eq!(<FromWorker<u64>>::unpack(&[]), None);
}
