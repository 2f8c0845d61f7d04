//! The two closed tagged-union wire types exchanged between the controller
//! and the worker, and their byte encodings.
//!
//! An envelope packs to a one-byte tag, followed by the eight
//! little-endian bytes of the handler identifier for the variants that
//! carry one, followed by the packed payload for the variants that carry
//! one.  The transport preserves message boundaries, so the payload needs
//! no length framing: it is everything after the header.

use vstd::prelude::*;

use crate::codec::Packed;
use crate::HandlerId;

verus! {

/// Messages sent by the controller to the worker.
#[derive(Debug, PartialEq, Eq)]
pub enum ToWorker<T> {
    /// A new logical client has attached.
    Connected(HandlerId),
    /// A client delivered one payload.
    ProcessInput(HandlerId, T),
    /// A client has detached; no further input with this id is valid.
    Disconnected(HandlerId),
    /// The worker instance itself must shut down.
    Destroy,
}

/// The view of a [`ToWorker`] message: the same shape over the payload's
/// view.
pub enum ToWorkerView<TV> {
    Connected(HandlerId),
    ProcessInput(HandlerId, TV),
    Disconnected(HandlerId),
    Destroy,
}

impl<T: View> View for ToWorker<T> {
    type V = ToWorkerView<T::V>;

    open spec fn view(&self) -> ToWorkerView<T::V> {
        match self {
            ToWorker::Connected(id) => ToWorkerView::Connected(*id),
            ToWorker::ProcessInput(id, t) => ToWorkerView::ProcessInput(*id, t@),
            ToWorker::Disconnected(id) => ToWorkerView::Disconnected(*id),
            ToWorker::Destroy => ToWorkerView::Destroy,
        }
    }
}

/// Messages sent by the worker back to the controller.
#[derive(Debug, PartialEq, Eq)]
pub enum FromWorker<T> {
    /// Emitted exactly once, when the worker's executable has finished
    /// initializing; the channel is ready for traffic.
    WorkerLoaded,
    /// One response addressed back to a specific client.
    ProcessOutput(HandlerId, T),
}

/// The view of a [`FromWorker`] message.
pub enum FromWorkerView<TV> {
    WorkerLoaded,
    ProcessOutput(HandlerId, TV),
}

impl<T: View> View for FromWorker<T> {
    type V = FromWorkerView<T::V>;

    open spec fn view(&self) -> FromWorkerView<T::V> {
        match self {
            FromWorker::WorkerLoaded => FromWorkerView::WorkerLoaded,
            FromWorker::ProcessOutput(id, t) => FromWorkerView::ProcessOutput(*id, t@),
        }
    }
}

impl<T: Packed> Packed for ToWorker<T> {
    open spec fn spec_pack(&self) -> Seq<u8> {
        match self {
            ToWorker::Connected(id) => seq![0u8] + vstd::bytes::spec_u64_to_le_bytes(id.raw),
            ToWorker::ProcessInput(id, t) => seq![1u8] + vstd::bytes::spec_u64_to_le_bytes(
                id.raw,
            ) + t.spec_pack(),
            ToWorker::Disconnected(id) => seq![2u8] + vstd::bytes::spec_u64_to_le_bytes(id.raw),
            ToWorker::Destroy => seq![3u8],
        }
    }

    open spec fn spec_unpack(data: Seq<u8>) -> Option<ToWorkerView<T::V>> {
        if data.len() == 0 {
            None
        } else if data[0] == 0 && data.len() == 9 {
            Some(
                ToWorkerView::Connected(
                    HandlerId {
                        raw: vstd::bytes::spec_u64_from_le_bytes(data.subrange(1, 9)),
                    },
                ),
            )
        } else if data[0] == 1 && data.len() >= 9 {
            match T::spec_unpack(data.subrange(9, data.len() as int)) {
                Some(tv) => Some(
                    ToWorkerView::ProcessInput(
                        HandlerId {
                            raw: vstd::bytes::spec_u64_from_le_bytes(data.subrange(1, 9)),
                        },
                        tv,
                    ),
                ),
                None => None,
            }
        } else if data[0] == 2 && data.len() == 9 {
            Some(
                ToWorkerView::Disconnected(
                    HandlerId {
                        raw: vstd::bytes::spec_u64_from_le_bytes(data.subrange(1, 9)),
                    },
                ),
            )
        } else if data[0] == 3 && data.len() == 1 {
            Some(ToWorkerView::Destroy)
        } else {
            None
        }
    }

    proof fn lemma_pack_round_trip(&self) {
        vstd::bytes::lemma_auto_spec_u64_to_from_le_bytes();
        let s = self.spec_pack();
        match self {
            ToWorker::Connected(id) => {
                assert(s.subrange(1, 9) =~= vstd::bytes::spec_u64_to_le_bytes(id.raw));
            },
            ToWorker::ProcessInput(id, t) => {
                assert(s.subrange(1, 9) =~= vstd::bytes::spec_u64_to_le_bytes(id.raw));
                assert(s.subrange(9, s.len() as int) =~= t.spec_pack());
                t.lemma_pack_round_trip();
            },
            ToWorker::Disconnected(id) => {
                assert(s.subrange(1, 9) =~= vstd::bytes::spec_u64_to_le_bytes(id.raw));
            },
            ToWorker::Destroy => {},
        }
    }

    fn pack(&self) -> (r: Vec<u8>) {
        let mut r: Vec<u8> = Vec::new();
        match self {
            ToWorker::Connected(id) => {
                r.push(0u8);
                let mut b = vstd::bytes::u64_to_le_bytes(id.raw);
                r.append(&mut b);
                proof {
                    assert(r@ =~= self.spec_pack());
                }
            },
            ToWorker::ProcessInput(id, t) => {
                r.push(1u8);
                let mut b = vstd::bytes::u64_to_le_bytes(id.raw);
                r.append(&mut b);
                let mut p = t.pack();
                r.append(&mut p);
                proof {
                    assert(r@ =~= self.spec_pack());
                }
            },
            ToWorker::Disconnected(id) => {
                r.push(2u8);
                let mut b = vstd::bytes::u64_to_le_bytes(id.raw);
                r.append(&mut b);
                proof {
                    assert(r@ =~= self.spec_pack());
                }
            },
            ToWorker::Destroy => {
                r.push(3u8);
                proof {
                    assert(r@ =~= self.spec_pack());
                }
            },
        }
        r
    }

    fn unpack(data: &[u8]) -> (r: Option<ToWorker<T>>) {
        let n = data.len();
        if n == 0 {
            return None;
        }
        let tag = *vstd::slice::slice_index_get(data, 0);
        if tag == 0 && n == 9 {
            let raw = vstd::bytes::u64_from_le_bytes(vstd::slice::slice_subrange(data, 1, 9));
            Some(ToWorker::Connected(HandlerId { raw }))
        } else if tag == 1 && n >= 9 {
            let raw = vstd::bytes::u64_from_le_bytes(vstd::slice::slice_subrange(data, 1, 9));
            match T::unpack(vstd::slice::slice_subrange(data, 9, n)) {
                Some(t) => Some(ToWorker::ProcessInput(HandlerId { raw }, t)),
                None => None,
            }
        } else if tag == 2 && n == 9 {
            let raw = vstd::bytes::u64_from_le_bytes(vstd::slice::slice_subrange(data, 1, 9));
            Some(ToWorker::Disconnected(HandlerId { raw }))
        } else if tag == 3 && n == 1 {
            Some(ToWorker::Destroy)
        } else {
            None
        }
    }
}

impl<T: Packed> Packed for FromWorker<T> {
    open spec fn spec_pack(&self) -> Seq<u8> {
        match self {
            FromWorker::WorkerLoaded => seq![0u8],
            FromWorker::ProcessOutput(id, t) => seq![1u8] + vstd::bytes::spec_u64_to_le_bytes(
                id.raw,
            ) + t.spec_pack(),
        }
    }

    open spec fn spec_unpack(data: Seq<u8>) -> Option<FromWorkerView<T::V>> {
        if data.len() == 0 {
            None
        } else if data[0] == 0 && data.len() == 1 {
            Some(FromWorkerView::WorkerLoaded)
        } else if data[0] == 1 && data.len() >= 9 {
            match T::spec_unpack(data.subrange(9, data.len() as int)) {
                Some(tv) => Some(
                    FromWorkerView::ProcessOutput(
                        HandlerId {
                            raw: vstd::bytes::spec_u64_from_le_bytes(data.subrange(1, 9)),
                        },
                        tv,
                    ),
                ),
                None => None,
            }
        } else {
            None
        }
    }

    proof fn lemma_pack_round_trip(&self) {
        vstd::bytes::lemma_auto_spec_u64_to_from_le_bytes();
        let s = self.spec_pack();
        match self {
            FromWorker::WorkerLoaded => {},
            FromWorker::ProcessOutput(id, t) => {
                assert(s.subrange(1, 9) =~= vstd::bytes::spec_u64_to_le_bytes(id.raw));
                assert(s.subrange(9, s.len() as int) =~= t.spec_pack());
                t.lemma_pack_round_trip();
            },
        }
    }

    fn pack(&self) -> (r: Vec<u8>) {
        let mut r: Vec<u8> = Vec::new();
        match self {
            FromWorker::WorkerLoaded => {
                r.push(0u8);
                proof {
                    assert(r@ =~= self.spec_pack());
                }
            },
            FromWorker::ProcessOutput(id, t) => {
                r.push(1u8);
                let mut b = vstd::bytes::u64_to_le_bytes(id.raw);
                r.append(&mut b);
                let mut p = t.pack();
                r.append(&mut p);
                proof {
                    assert(r@ =~= self.spec_pack());
                }
            },
        }
        r
    }

    fn unpack(data: &[u8]) -> (r: Option<FromWorker<T>>) {
        let n = data.len();
        if n == 0 {
            return None;
        }
        let tag = *vstd::slice::slice_index_get(data, 0);
        if tag == 0 && n == 1 {
            Some(FromWorker::WorkerLoaded)
        } else if tag == 1 && n >= 9 {
            let raw = vstd::bytes::u64_from_le_bytes(vstd::slice::slice_subrange(data, 1, 9));
            match T::unpack(vstd::slice::slice_subrange(data, 9, n)) {
                Some(t) => Some(FromWorker::ProcessOutput(HandlerId { raw }, t)),
                None => None,
            }
        } else {
            None
        }
    }
}

/// Law: for every controller-to-worker message, decoding what was encoded
/// yields the message back.
pub proof fn lemma_to_worker_round_trip<T: Packed>(m: ToWorker<T>)
    ensures
        <ToWorker<T> as Packed>::spec_unpack(m.spec_pack()) == Some(m@),
{
    m.lemma_pack_round_trip();
}

/// Law: for every worker-to-controller message, decoding what was encoded
/// yields the message back.
pub proof fn lemma_from_worker_round_trip<T: Packed>(m: FromWorker<T>)
    ensures
        <FromWorker<T> as Packed>::spec_unpack(m.spec_pack()) == Some(m@),
{
    m.lemma_pack_round_trip();
}

} // verus!
