//! The decisions of an in-process wire that links a client to a fake server,
//! for doctests and integration tests.
//!
//! The channels, the stop signal and the waiting belong to the caller; the
//! functions here say what each half returns for what it saw, and build and
//! read the frames that the fake server exchanges.

use vstd::prelude::*;
use crate::header::{
    RpcMessage,
    VarHeader,
    VarKey,
    VarSeq,
    frame_bytes,
    header_bytes,
    parse_header,
    lemma_header_roundtrip,
};
use crate::le::lemma_le_bytes_len;

verus! {

/// Local error type
#[derive(Clone, Copy, Debug, PartialEq, Eq, Structural)]
pub enum LocalError {
    /// RxClosed
    RxClosed,
    /// TxClosed
    TxClosed,
    /// BadFrame
    BadFrame,
    /// FatalError
    FatalError,
}

impl LocalError {
    /// The text of the error: the name of its variant.
    pub fn to_string(&self) -> (s: String)
        ensures
            s@ == match *self {
                LocalError::RxClosed => "RxClosed"@,
                LocalError::TxClosed => "TxClosed"@,
                LocalError::BadFrame => "BadFrame"@,
                LocalError::FatalError => "FatalError"@,
            },
    {
        match self {
            LocalError::RxClosed => "RxClosed".to_owned(),
            LocalError::TxClosed => "TxClosed".to_owned(),
            LocalError::BadFrame => "BadFrame".to_owned(),
            LocalError::FatalError => "FatalError".to_owned(),
        }
    }
}

/// Spawn helper type
pub struct LocalSpawn;

/// What the receive half of a local wire saw while it waited for a frame.
pub enum RxEvent {
    /// The stop signal was raised, before or while it waited.
    Stopped,
    /// The channel from the server answered: a frame, or `None` once it is closed.
    Received(Option<Vec<u8>>),
}

/// What the transmit half of a local wire saw while it handed a frame on.
pub enum TxEvent {
    /// The stop signal was raised, before or while it waited.
    Stopped,
    /// The channel to the server took the frame (`true`) or was closed (`false`).
    Sent(bool),
}

/// What the receive half of a local wire returns for what it saw.
pub fn local_rx_result(event: RxEvent) -> (r: Result<Vec<u8>, LocalError>)
    ensures
        match event {
            RxEvent::Stopped => r == Err::<Vec<u8>, LocalError>(LocalError::FatalError),
            RxEvent::Received(None) => r == Err::<Vec<u8>, LocalError>(LocalError::RxClosed),
            RxEvent::Received(Some(frame)) => r matches Ok(v) && v@ == frame@,
        },
{
    match event {
        RxEvent::Stopped => Err(LocalError::FatalError),
        RxEvent::Received(None) => Err(LocalError::RxClosed),
        RxEvent::Received(Some(frame)) => Ok(frame),
    }
}

/// What the transmit half of a local wire returns for what it saw.
pub fn local_tx_result(event: TxEvent) -> (r: Result<(), LocalError>)
    ensures
        r == match event {
            TxEvent::Stopped => Err(LocalError::FatalError),
            TxEvent::Sent(true) => Ok(()),
            TxEvent::Sent(false) => Err(LocalError::TxClosed),
        },
{
    match event {
        TxEvent::Stopped => Err(LocalError::FatalError),
        TxEvent::Sent(true) => Ok(()),
        TxEvent::Sent(false) => Err(LocalError::TxClosed),
    }
}

/// The header of a frame that the fake server sends to the client.
pub open spec fn server_header(key: u64, seq_no: u32) -> VarHeader {
    VarHeader { key: VarKey::Key8(key), seq_no: VarSeq::Seq4(seq_no), route: None }
}

/// The keys of an endpoint: requests come with `req_key`, responses go with `resp_key`.
#[derive(Clone, Copy, Debug, PartialEq, Eq, Structural)]
pub struct EndpointKeys {
    pub req_key: u64,
    pub resp_key: u64,
}

/// The key of a topic, with which its messages go.
#[derive(Clone, Copy, Debug, PartialEq, Eq, Structural)]
pub struct TopicKey {
    pub topic_key: u64,
}

/// A frame from the fake server to the client: an eight-byte key, a four-byte
/// sequence number, no route, and the already serialized `body`.
fn frame_to_client(key: u64, seq_no: u32, body: Vec<u8>) -> (v: Vec<u8>)
    ensures
        v@ == frame_bytes(server_header(key, seq_no), body@),
        v@ == frame_bytes(
            (VarHeader { key: VarKey::Key8(key), seq_no: VarSeq::Seq4(seq_no), route: None }),
            body@,
        ),
{
    let frame = RpcMessage {
        header: VarHeader { key: VarKey::Key8(key), seq_no: VarSeq::Seq4(seq_no), route: None },
        body,
    };
    frame.to_vec()
}

/// The frame with which the fake server answers the request `seq_no` of
/// `endpoint`: keyed with the endpoint's response key, the serialized
/// response as its body.
pub fn reply_frame(endpoint: &EndpointKeys, seq_no: u32, body: Vec<u8>) -> (v: Vec<u8>)
    ensures
        v@ == frame_bytes(server_header(endpoint.resp_key, seq_no), body@),
        v@ == frame_bytes(
            (VarHeader {
                key: VarKey::Key8(endpoint.resp_key),
                seq_no: VarSeq::Seq4(seq_no),
                route: None,
            }),
            body@,
        ),
{
    frame_to_client(endpoint.resp_key, seq_no, body)
}

/// The frame with which the fake server publishes on `topic`: keyed with the
/// topic's key, the serialized message as its body.
pub fn publish_frame(topic: &TopicKey, seq_no: u32, body: Vec<u8>) -> (v: Vec<u8>)
    ensures
        v@ == frame_bytes(server_header(topic.topic_key, seq_no), body@),
        v@ == frame_bytes(
            (VarHeader {
                key: VarKey::Key8(topic.topic_key),
                seq_no: VarSeq::Seq4(seq_no),
                route: None,
            }),
            body@,
        ),
{
    frame_to_client(topic.topic_key, seq_no, body)
}

/// What the fake server makes of what came from the client: `TxClosed` once the
/// channel is closed (`None`), `BadFrame` where the bytes start with no header,
/// else the header and the bytes after it.
pub fn frame_from_client(msg: Option<Vec<u8>>) -> (r: Result<RpcMessage, LocalError>)
    ensures
        match msg {
            None => r == Err::<RpcMessage, LocalError>(LocalError::TxClosed),
            Some(bytes) => match parse_header(bytes@) {
                None => r == Err::<RpcMessage, LocalError>(LocalError::BadFrame),
                Some((h, n)) => r matches Ok(m) && m.header == h && m.body@ == bytes@.skip(
                    n as int,
                ),
            },
        },
{
    match msg {
        None => Err(LocalError::TxClosed),
        Some(bytes) => match VarHeader::take_from_slice(&bytes) {
            None => Err(LocalError::BadFrame),
            Some((header, body)) => Ok(RpcMessage { header, body: vstd::slice::slice_to_vec(body) }),
        },
    }
}

/// A frame that the fake server builds for key `key` and sequence number
/// `seq_no` is read back, by the same reading that it applies to what comes
/// from the client, as the header with the eight-byte key `key`, the four-byte
/// sequence number `seq_no` and no route, followed by its body: for every key
/// and every sequence number.
pub proof fn lemma_server_frame_reads_back(key: u64, seq_no: u32, body: Seq<u8>)
    ensures
        server_header(key, seq_no) == (VarHeader {
            key: VarKey::Key8(key),
            seq_no: VarSeq::Seq4(seq_no),
            route: None,
        }),
        parse_header(frame_bytes(server_header(key, seq_no), body)) matches Some((h, n)) && h
            == (VarHeader { key: VarKey::Key8(key), seq_no: VarSeq::Seq4(seq_no), route: None })
            && n == 13 && frame_bytes(server_header(key, seq_no), body).skip(n as int) == body,
{
    let h = server_header(key, seq_no);
    lemma_header_roundtrip(h, body);
    lemma_le_bytes_len(key as nat, 8);
    lemma_le_bytes_len(seq_no as nat, 4);
    assert(frame_bytes(h, body).skip(header_bytes(h).len() as int) =~= body);
}

} // verus!
