use postcard_rpc::header::{Address, Broadcast, RpcMessage, Route, Unicast, VarHeader, VarKey, VarSeq};
use postcard_rpc::host_client::middleware::{ClientBufferedRx, ClientBufferedTx};
use postcard_rpc::server::middleware::{BufferedRx, BufferedTx};
use postcard_rpc::test_utils::{
    frame_from_client, local_rx_result, local_tx_result, publish_frame, reply_frame,
    EndpointKeys, LocalError, LocalSpawn, RxEvent, TopicKey, TxEvent,
};

fn frame_to_client(key: u64, seq_no: u32, body: Vec<u8>) -> Vec<u8> {
    reply_frame(&EndpointKeys { req_key: !key, resp_key: key }, seq_no, body)
}

fn routed_header(src: u8, dst: u8) -> VarHeader {
    VarHeader {
        key: VarKey::Key2(0x1234),
        seq_no: VarSeq::Seq1(9),
        route: Some(Route { src: Address(src), dst: Address(dst) }),
    }
}

fn encode(header: VarHeader, body: &[u8]) -> Vec<u8> {
    RpcMessage { header, body: body.to_vec() }.to_vec()
}

#[test]
fn addresses_are_zeros_and_ones() {
    assert_eq!(Address::localhost(), Address(0));
    assert_eq!(Address::broadcast(), Address(0xff));
}

#[test]
fn unicast_header_bytes() {
    let header = VarHeader {
        key: VarKey::Key8(0x0807_0605_0403_0201),
        seq_no: VarSeq::Seq4(0x0d0c_0b0a),
        route: None,
    };
    let bytes = encode(header, &[0xaa, 0xbb]);
    assert_eq!(
        bytes,
        vec![14, 1, 2, 3, 4, 5, 6, 7, 8, 0x0a, 0x0b, 0x0c, 0x0d, 0xaa, 0xbb]
    );
}

#[test]
fn routed_header_bytes() {
    let bytes = encode(routed_header(5, 7), &[1]);
    assert_eq!(bytes, vec![20, 0x34, 0x12, 9, 5, 7, 1]);
}

#[test]
fn header_roundtrip_each_width() {
    let keys = [
        VarKey::Key1(0xfe),
        VarKey::Key2(0xfedc),
        VarKey::Key4(0xfedc_ba98),
        VarKey::Key8(0xfedc_ba98_7654_3210),
    ];
    let seqs = [VarSeq::Seq1(0x81), VarSeq::Seq2(0x8182), VarSeq::Seq4(0x8182_8384)];
    let routes = [None, Some(Route { src: Address(3), dst: Address(0xff) })];
    for key in keys {
        for seq_no in seqs {
            for route in routes {
                let header = VarHeader { key, seq_no, route };
                let bytes = encode(header, &[7, 8, 9]);
                let (read, rest) = VarHeader::take_from_slice(&bytes).unwrap();
                assert_eq!(read, header);
                assert_eq!(rest, &[7u8, 8, 9][..]);
            }
        }
    }
}

#[test]
fn take_from_slice_refuses_bad_headers() {
    assert!(VarHeader::take_from_slice(&[]).is_none());
    // bits 5 to 7 set
    assert!(VarHeader::take_from_slice(&[32, 0, 0, 0, 0, 0]).is_none());
    // sequence width code 3
    assert!(VarHeader::take_from_slice(&[3, 0, 0, 0, 0, 0]).is_none());
    // too short for an eight-byte key
    assert!(VarHeader::take_from_slice(&[12, 1, 2, 3]).is_none());
    // routed, but the destination byte is missing
    assert!(VarHeader::take_from_slice(&[16, 1, 2, 3]).is_none());
    // shortest header: one-byte key and sequence number, nothing after
    let (h, rest) = VarHeader::take_from_slice(&[0, 4, 5]).unwrap();
    assert_eq!(h, VarHeader { key: VarKey::Key1(4), seq_no: VarSeq::Seq1(5), route: None });
    assert!(rest.is_empty());
}

#[test]
fn from_vec_checks_the_mode() {
    let routed = encode(routed_header(1, 2), &[3]);
    let m = RpcMessage::from_vec::<Broadcast>(&routed).unwrap();
    assert_eq!(m.header, routed_header(1, 2));
    assert_eq!(m.body, vec![3]);
    assert!(RpcMessage::from_vec::<Unicast>(&routed).is_none());

    let plain = frame_to_client(1, 2, vec![3]);
    assert!(RpcMessage::from_vec::<Unicast>(&plain).is_some());
    assert!(RpcMessage::from_vec::<Broadcast>(&plain).is_none());
}

#[test]
fn with_src_and_with_dst() {
    let h = routed_header(5, 7);
    assert_eq!(h.with_src(Address(1)), routed_header(1, 7));
    assert_eq!(h.with_dst(Address(1)), routed_header(5, 1));
    let plain = VarHeader { key: VarKey::Key1(1), seq_no: VarSeq::Seq1(2), route: None };
    assert_eq!(plain.with_src(Address(9)), plain);
    assert_eq!(plain.with_dst(Address(9)), plain);
}

#[test]
fn client_tx_stamps_the_source() {
    let tx: ClientBufferedTx<u32, Broadcast> = ClientBufferedTx::new(17);
    assert_eq!(*tx.inner(), 17);
    let data = encode(routed_header(5, 7), &[0xde, 0xad]);
    let out = tx.outgoing_frame(&data);
    assert_eq!(out, encode(routed_header(0, 7), &[0xde, 0xad]));
    assert_ne!(out, data);
    // stamping again changes nothing
    assert_eq!(tx.outgoing_frame(&out), out);
}

#[test]
fn client_tx_keeps_unrouted_frames() {
    let tx: ClientBufferedTx<(), Unicast> = ClientBufferedTx::new(());
    let data = frame_to_client(0x55, 3, vec![1, 2, 3]);
    assert_eq!(tx.outgoing_frame(&data), data);
}

#[test]
fn client_tx_inner_mut() {
    let mut tx: ClientBufferedTx<Vec<u8>, Unicast> = ClientBufferedTx::new(vec![]);
    tx.inner_mut().push(4);
    assert_eq!(*tx.inner(), vec![4]);
}

#[test]
fn client_rx_hands_frames_on_unchanged() {
    let mut rx: ClientBufferedRx<u8, Broadcast> = ClientBufferedRx::new(3);
    *rx.inner_mut() = 4;
    assert_eq!(*rx.inner(), 4);
    let data = encode(routed_header(5, 7), &[1, 2]);
    assert_eq!(rx.incoming_frame(data.clone()), data);
    let mut plain_rx: ClientBufferedRx<(), Unicast> = ClientBufferedRx::new(());
    *plain_rx.inner_mut() = ();
    let plain = frame_to_client(1, 2, vec![5]);
    assert_eq!(plain_rx.incoming_frame(plain.clone()), plain);
}

#[test]
fn server_wrappers_hold_the_inner_half() {
    let tx = BufferedTx::new(String::from("tx"));
    assert_eq!(tx.inner(), "tx");
    let mut rx = BufferedRx::new(vec![1u8]);
    rx.inner_mut().push(2);
    assert_eq!(*rx.inner_mut(), vec![1, 2]);
}

#[test]
fn local_error_text() {
    assert_eq!(LocalError::RxClosed.to_string(), "RxClosed");
    assert_eq!(LocalError::TxClosed.to_string(), "TxClosed");
    assert_eq!(LocalError::BadFrame.to_string(), "BadFrame");
    assert_eq!(LocalError::FatalError.to_string(), "FatalError");
    assert_eq!(format!("{:?}", LocalError::BadFrame), "BadFrame");
}

#[test]
fn local_rx_outcomes() {
    assert_eq!(local_rx_result(RxEvent::Stopped), Err(LocalError::FatalError));
    assert_eq!(local_rx_result(RxEvent::Received(None)), Err(LocalError::RxClosed));
    assert_eq!(local_rx_result(RxEvent::Received(Some(vec![1, 2]))), Ok(vec![1, 2]));
}

#[test]
fn local_tx_outcomes() {
    assert_eq!(local_tx_result(TxEvent::Stopped), Err(LocalError::FatalError));
    assert_eq!(local_tx_result(TxEvent::Sent(false)), Err(LocalError::TxClosed));
    assert_eq!(local_tx_result(TxEvent::Sent(true)), Ok(()));
}

#[test]
fn fake_server_frames() {
    let _spawn = LocalSpawn;
    let frame = frame_to_client(0x0102_0304_0506_0708, 1234, vec![42]);
    assert_eq!(frame, vec![14, 8, 7, 6, 5, 4, 3, 2, 1, 0xd2, 0x04, 0, 0, 42]);
    let m = frame_from_client(Some(frame)).unwrap();
    assert_eq!(m.header.key, VarKey::Key8(0x0102_0304_0506_0708));
    assert_eq!(m.header.seq_no, VarSeq::Seq4(1234));
    assert_eq!(m.header.route, None);
    assert_eq!(m.body, vec![42]);
}

#[test]
fn fake_server_errors() {
    assert_eq!(frame_from_client(None).unwrap_err(), LocalError::TxClosed);
    assert_eq!(frame_from_client(Some(vec![])).unwrap_err(), LocalError::BadFrame);
    assert_eq!(frame_from_client(Some(vec![12, 1])).unwrap_err(), LocalError::BadFrame);
    // a routed frame is read as well
    let m = frame_from_client(Some(encode(routed_header(5, 7), &[]))).unwrap();
    assert_eq!(m.header, routed_header(5, 7));
    assert!(m.body.is_empty());
}

#[test]
fn reply_uses_the_response_key_and_publish_the_topic_key() {
    let endpoint = EndpointKeys { req_key: 0x1111, resp_key: 0x2222 };
    let reply = reply_frame(&endpoint, 7, vec![1]);
    let m = frame_from_client(Some(reply)).unwrap();
    assert_eq!(m.header.key, VarKey::Key8(0x2222));
    assert_eq!(m.header.seq_no, VarSeq::Seq4(7));
    assert_eq!(m.body, vec![1]);

    let topic = TopicKey { topic_key: 0x3333 };
    let publication = publish_frame(&topic, 8, vec![2, 3]);
    assert_eq!(publication, vec![14, 0x33, 0x33, 0, 0, 0, 0, 0, 0, 8, 0, 0, 0, 2, 3]);
}
