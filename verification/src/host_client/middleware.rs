//! Buffered wrappers around the transmit and receive halves of a host's wire.
//!
//! The transmit wrapper reads each outgoing frame and stamps this node's
//! address as its source before it hands the frame on. The receive wrapper
//! checks each incoming frame and hands it on as it came.

use vstd::prelude::*;
use core::marker::PhantomData;
use crate::header::{
    Address,
    HeaderMode,
    RpcMessage,
    frame_bytes,
    parse_frame,
    Route,
    VarHeader,
    lemma_frame_roundtrip,
};

verus! {

/// The bytes that the transmit wrapper hands on for the frame `data`, on a wire
/// whose headers are routed exactly when `routed` holds: the same frame with
/// this node as its source. `None` where `data` holds no frame of that wire.
pub open spec fn stamped_frame(data: Seq<u8>, routed: bool) -> Option<Seq<u8>> {
    match parse_frame(data, routed) {
        Some((h, body)) => Some(frame_bytes(h.spec_with_src(Address::spec_localhost()), body)),
        None => None,
    }
}

/// Transmit half of a host's wire that stamps the source of every frame.
pub struct ClientBufferedTx<T, Mode> {
    tx: T,
    _pd: PhantomData<Mode>,
}

impl<T, Mode: HeaderMode> ClientBufferedTx<T, Mode> {
    /// The wrapped transmit half.
    pub closed spec fn spec_inner(&self) -> T {
        self.tx
    }

    pub fn new(tx: T) -> (s: Self)
        ensures
            s.spec_inner() == tx,
    {
        ClientBufferedTx { tx, _pd: PhantomData }
    }

    pub fn inner(&self) -> (r: &T)
        ensures
            *r == self.spec_inner(),
    {
        &self.tx
    }

    pub fn inner_mut(&mut self) -> (r: &mut T)
        ensures
            *r == old(self).spec_inner(),
            final(self).spec_inner() == *final(r),
    {
        &mut self.tx
    }

    /// The frame to hand on in place of `data`: `data` read as a frame of this
    /// wire's mode, with this node's address as its source, written back.
    /// `data` must hold a frame of this wire's mode.
    pub fn outgoing_frame(&self, data: &[u8]) -> (v: Vec<u8>)
        requires
            parse_frame(data@, Mode::spec_routed()) is Some,
        ensures
            stamped_frame(data@, Mode::spec_routed()) == Some(v@),
    {
        let msg = RpcMessage::from_vec::<Mode>(data).unwrap();
        let stamped = RpcMessage {
            header: msg.header.with_src(Address::localhost()),
            body: msg.body,
        };
        stamped.to_vec()
    }
}

/// Receive half of a host's wire that checks every frame and hands it on unchanged.
pub struct ClientBufferedRx<T, Mode> {
    rx: T,
    _pd: PhantomData<Mode>,
}

impl<T, Mode: HeaderMode> ClientBufferedRx<T, Mode> {
    /// The wrapped receive half.
    pub closed spec fn spec_inner(&self) -> T {
        self.rx
    }

    pub fn new(rx: T) -> (s: Self)
        ensures
            s.spec_inner() == rx,
    {
        ClientBufferedRx { rx, _pd: PhantomData }
    }

    pub fn inner(&self) -> (r: &T)
        ensures
            *r == self.spec_inner(),
    {
        &self.rx
    }

    pub fn inner_mut(&mut self) -> (r: &mut T)
        ensures
            *r == old(self).spec_inner(),
            final(self).spec_inner() == *final(r),
    {
        &mut self.rx
    }

    /// The frame to hand on for the received `data`: `data` itself. `data`
    /// must hold a frame of this wire's mode.
    pub fn incoming_frame(&self, data: Vec<u8>) -> (v: Vec<u8>)
        requires
            parse_frame(data@, Mode::spec_routed()) is Some,
        ensures
            v@ == data@,
    {
        let msg = RpcMessage::from_vec::<Mode>(&data).unwrap();
        // The header is read with this node as its destination, but the frame
        // is handed on as it came.
        let _seen = msg.header.with_dst(Address::localhost());
        data
    }
}

/// A stamped frame reads back as the frame it came from, with this node as its
/// source: key, sequence number, destination and body are kept.
pub proof fn lemma_stamped_frame_reads_back(data: Seq<u8>, routed: bool)
    ensures
        parse_frame(data, routed) matches Some((h, body)) ==> stamped_frame(data, routed)
            matches Some(out) && parse_frame(out, routed) == Some(
            (h.spec_with_src(Address::spec_localhost()), body),
        ),
{
    if let Some((h, body)) = parse_frame(data, routed) {
        lemma_frame_roundtrip(h.spec_with_src(Address::spec_localhost()), body);
    }
}

/// The frame that the transmit wrapper hands on for any frame of its wire reads
/// back with the address `0` as its source and with the key, the sequence
/// number, the destination and the body of the frame it came from, whatever
/// that destination is; a frame without a route reads back as it came.
pub proof fn lemma_stamped_frame_has_local_source(data: Seq<u8>, routed: bool)
    ensures
        parse_frame(data, routed) matches Some((h, body)) ==> stamped_frame(data, routed)
            matches Some(out) && parse_frame(out, routed) == Some(
            (
                (VarHeader {
                    key: h.key,
                    seq_no: h.seq_no,
                    route: match h.route {
                        Some(r) => Some(Route { src: Address(0), dst: r.dst }),
                        None => None,
                    },
                }),
                body,
            ),
        ),
{
    lemma_stamped_frame_reads_back(data, routed);
}

/// Stamping a frame that is already stamped changes nothing.
pub proof fn lemma_stamped_frame_idempotent(data: Seq<u8>, routed: bool)
    ensures
        stamped_frame(data, routed) matches Some(out) ==> stamped_frame(out, routed) == Some(out),
{
    lemma_stamped_frame_reads_back(data, routed);
    if let Some((h, body)) = parse_frame(data, routed) {
        let h1 = h.spec_with_src(Address::spec_localhost());
        assert(h1.spec_with_src(Address::spec_localhost()) == h1);
    }
}

} // verus!
