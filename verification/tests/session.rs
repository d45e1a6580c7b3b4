use nex_prudp::compression::{CompressionAlgorithm, Dummy as DummyCompression, Lzo, Zlib};
use nex_prudp::connection::{
    connection_step, CloseReason, ConnectionAction, ConnectionEvent, ConnectionState,
    PingDecision, PingMonitor, PrudpConnection, DISCONNECT_REPEAT,
};
use nex_prudp::encryption::PayloadCipher;
use nex_prudp::constants::{PrudpPacketFlags, PrudpPacketType, FLAG_RELIABLE};
use nex_prudp::encryption::{rc4, Cipher, Dummy as DummyCipher, Rc4};
use nex_prudp::endpoint::PrudpEndpoint;
use nex_prudp::error::NexError;
use nex_prudp::io::{ByteStreamIn, ByteStreamOut, ByteStreamSettings};
use nex_prudp::packet::{PrudpHeader, PrudpPacket, V1Options};
use nex_prudp::packet_v1::{decode_v1, encode_v1};
use nex_prudp::pid::Pid;
use nex_prudp::result_codes::result_code_to_name;
use nex_prudp::signature::{
    compute_checksum, compute_key_byte, compute_v0_signature, compute_v1_signature, hmac_md5,
    v1_signature_matches,
};
use nex_prudp::socket_connection::SocketConnection;
use nex_prudp::station_url::StationUrl;

#[test]
fn client_handshake_reaches_established() {
    let s = ConnectionState::Idle;
    let (s, a) = connection_step(s, ConnectionEvent::StartConnect);
    assert_eq!(a, ConnectionAction::SendSyn);
    assert_eq!(s, ConnectionState::SynSent);
    let (s, a) = connection_step(s, ConnectionEvent::ReceiveSynAck);
    assert_eq!(a, ConnectionAction::SendConnect);
    assert_eq!(s, ConnectionState::ConnectSent);
    let (s, a) = connection_step(s, ConnectionEvent::ReceiveConnectAck);
    assert_eq!(a, ConnectionAction::Nothing);
    assert_eq!(s, ConnectionState::Established);
}

#[test]
fn server_handshake_reaches_established() {
    let s = ConnectionState::Idle;
    let (s, a) = connection_step(s, ConnectionEvent::ReceiveSyn);
    assert_eq!(a, ConnectionAction::SendSynAck);
    assert_eq!(s, ConnectionState::SynReceived);
    let (s, a) = connection_step(s, ConnectionEvent::ReceiveConnect);
    assert_eq!(a, ConnectionAction::SendConnectAck);
    assert_eq!(s, ConnectionState::ConnectReceived);
    let (s, a) = connection_step(s, ConnectionEvent::ReceiveData);
    assert_eq!(a, ConnectionAction::AcceptData);
    assert_eq!(s, ConnectionState::Established);
}

#[test]
fn handshake_packets_carry_the_session_id() {
    // SYN with session 0 and an all-zero signature, as a fresh client
    // sends it; the server answers with a connection signature; the data
    // phase then carries the client session id in every packet.
    let access_key = b"ridfebb9";
    let key_byte = compute_key_byte(access_key);
    assert_eq!(key_byte, access_key.iter().map(|b| *b as u32).sum::<u32>() as u8);
    let syn = PrudpPacket {
        header: PrudpHeader {
            version: 1,
            source: 0xAF,
            destination: 0xA1,
            type_id: PrudpPacketType::Syn,
            flags: PrudpPacketFlags { bits: 0 },
            session_id: 0,
            signature: 0,
        },
        sequence_id: 0,
        fragment_id: 0,
        substream_id: 0,
        options: V1Options {
            supported_functions: Some(4),
            connection_signature: Some(vec![0; 16]),
            initial_sequence: None,
            max_substream_id: Some(0),
        },
        signature_v1: vec![0; 16],
        payload: Vec::new(),
    };
    let at_server = decode_v1(encode_v1(&syn)).unwrap();
    assert!(matches!(at_server.header.type_id, PrudpPacketType::Syn));
    assert_eq!(at_server.header.session_id, 0);
    let connection_signature = vec![0xC1u8; 16];
    let session_id = 0x42u8;
    let mut data = at_server;
    data.header.type_id = PrudpPacketType::Data;
    data.header.session_id = session_id;
    data.header.flags = PrudpPacketFlags { bits: FLAG_RELIABLE };
    data.options = V1Options {
        supported_functions: None,
        connection_signature: None,
        initial_sequence: None,
        max_substream_id: None,
    };
    data.sequence_id = 1;
    data.payload = vec![1, 2, 3];
    let sig = compute_v1_signature(access_key, &[0u8; 8], &connection_signature, &data.payload);
    data.signature_v1 = sig;
    let seen = decode_v1(encode_v1(&data)).unwrap();
    assert_eq!(seen.header.session_id, session_id);
    assert_eq!(
        seen.signature_v1,
        compute_v1_signature(access_key, &[0u8; 8], &connection_signature, &seen.payload)
    );
}

#[test]
fn disconnect_closes_from_every_state() {
    for s in [
        ConnectionState::Idle,
        ConnectionState::SynSent,
        ConnectionState::SynReceived,
        ConnectionState::ConnectSent,
        ConnectionState::ConnectReceived,
        ConnectionState::Established,
        ConnectionState::Disconnecting,
        ConnectionState::Closed,
    ] {
        let (s1, _) = connection_step(s, ConnectionEvent::ReceiveDisconnect);
        assert_eq!(s1, ConnectionState::Closed);
        let (s2, _) = connection_step(s1, ConnectionEvent::ReceiveDisconnect);
        assert_eq!(s2, ConnectionState::Closed);
    }
}

#[test]
fn graceful_close_walks_through_disconnecting() {
    let (s, a) = connection_step(ConnectionState::Established, ConnectionEvent::CloseRequested);
    assert_eq!(s, ConnectionState::Disconnecting);
    // The DISCONNECT goes out three times, unreliably.
    assert_eq!(a, ConnectionAction::SendDisconnect(DISCONNECT_REPEAT));
    assert_eq!(a, ConnectionAction::SendDisconnect(3));
    let (s, _) = connection_step(s, ConnectionEvent::DisconnectSent);
    assert_eq!(s, ConnectionState::Closed);
}

#[test]
fn ping_timeout_closes_the_connection() {
    // ping_interval 10 ms, ping_timeout 30 ms: after silence from the
    // peer, the connection is closed with reason Timeout within 40 ms.
    let mut pings = PingMonitor::new(0, 10, 30);
    assert_eq!(pings.poll(5), PingDecision::Nothing);
    assert_eq!(pings.poll(10), PingDecision::SendPing(0));
    assert_eq!(pings.poll(20), PingDecision::Nothing);
    let decision = pings.poll(40);
    assert_eq!(decision, PingDecision::TimedOut);
    let (s, a) = connection_step(ConnectionState::Established, ConnectionEvent::PingTimeout);
    assert_eq!(s, ConnectionState::Closed);
    assert_eq!(a, ConnectionAction::TearDown(CloseReason::Timeout));
}

#[test]
fn ping_acknowledgement_restarts_the_clock() {
    let mut pings = PingMonitor::new(0, 10, 30);
    assert_eq!(pings.poll(12), PingDecision::SendPing(0));
    pings.note_activity(15);
    assert_eq!(pings.poll(20), PingDecision::Nothing);
    assert_eq!(pings.poll(25), PingDecision::SendPing(1));
}

#[test]
fn rc4_matches_the_classic_vector() {
    let out = rc4(b"Key", b"Plaintext");
    assert_eq!(out, vec![0xBB, 0xF3, 0x16, 0xE8, 0xD9, 0x40, 0xAF, 0x0A, 0xD3]);
}

#[test]
fn rc4_is_symmetric() {
    let key = b"session-key";
    let data: Vec<u8> = (0..257u32).map(|i| i as u8).collect();
    let once = rc4(key, &data);
    assert_ne!(once, data);
    assert_eq!(rc4(key, &once), data);
    let cipher = Rc4::new(key.to_vec());
    assert_eq!(cipher.decrypt(&cipher.encrypt(&data).unwrap()).unwrap(), data);
}

#[test]
fn dummy_cipher_is_identity() {
    let d = DummyCipher;
    assert_eq!(d.encrypt(&[1, 2, 3]).unwrap(), vec![1, 2, 3]);
    assert_eq!(d.decrypt(&[]).unwrap(), Vec::<u8>::new());
}

#[test]
fn hmac_md5_matches_the_reference_vector() {
    let key = [0x0Bu8; 16];
    let tag = hmac_md5(&key, b"Hi There");
    assert_eq!(
        tag,
        vec![
            0x92, 0x94, 0x72, 0x7A, 0x36, 0x38, 0xBB, 0x1C, 0x13, 0xF4, 0x8E, 0xF8, 0x15,
            0x8B, 0xFC, 0x9D,
        ]
    );
}

#[test]
fn v0_signature_depends_on_both_inputs() {
    let a = compute_v0_signature(b"ridfebb9", &[1; 16]);
    let b = compute_v0_signature(b"ridfebb9", &[2; 16]);
    let c = compute_v0_signature(b"other-key", &[1; 16]);
    assert_eq!(a, compute_v0_signature(b"ridfebb9", &[1; 16]));
    assert_ne!(a, b);
    assert_ne!(a, c);
}

#[test]
fn v0_checksum_folds_the_byte_sum() {
    assert_eq!(compute_checksum(&[1, 2, 3], 0), 6);
    assert_eq!(compute_checksum(&[1, 2, 3], 0xFF), 6 ^ 0xFF);
    assert_eq!(compute_checksum(&[255, 2], 0), 1);
    assert_eq!(compute_checksum(&[], 0x5A), 0x5A);
}

#[test]
fn zlib_framing_round_trips() {
    let payload = vec![7u8; 5000];
    let framed = Zlib::compress_bytes(&payload).unwrap();
    // Highly repetitive data compresses well: the ratio byte is over 1.
    assert!(framed[0] >= 1);
    assert_eq!(Zlib::decompress_bytes(&framed).unwrap(), payload);
    let text = b"the quick brown fox jumps over the lazy dog".to_vec();
    let framed = Zlib::compress_bytes(&text).unwrap();
    assert_eq!(Zlib::decompress_bytes(&framed).unwrap(), text);
}

#[test]
fn zlib_decompress_handles_the_frame_cases() {
    assert_eq!(Zlib::decompress_bytes(&[]).unwrap(), Vec::<u8>::new());
    // Ratio zero marks an uncompressed remainder.
    assert_eq!(Zlib::decompress_bytes(&[0, 9, 8, 7]).unwrap(), vec![9, 8, 7]);
    // A wrong ratio byte is rejected.
    let payload = vec![1u8; 1000];
    let mut framed = Zlib::compress_bytes(&payload).unwrap();
    framed[0] = framed[0].wrapping_add(1);
    assert!(matches!(Zlib::decompress_bytes(&framed), Err(NexError::Parse(_))));
}

#[test]
fn dummy_compression_is_identity() {
    let d = DummyCompression;
    assert_eq!(d.compress(&[4, 5]).unwrap(), vec![4, 5]);
    assert_eq!(d.decompress(&[4, 5]).unwrap(), vec![4, 5]);
}

#[test]
fn lzo_is_reported_unsupported() {
    let l = Lzo;
    assert!(matches!(l.compress(&[1]), Err(NexError::Unsupported(_))));
    assert!(matches!(l.decompress(&[1]), Err(NexError::Unsupported(_))));
}

#[test]
fn station_url_classifies_schemes() {
    let u = StationUrl::new("prudp:/address=10.0.0.1;port=60000".to_string());
    assert_eq!(u.url(), "prudp:/");
    assert!(!u.is_public());
    assert!(!u.is_behind_nat());
    assert_eq!(StationUrl::new("prudps:/address=h".to_string()).url(), "prudps:/");
    assert_eq!(StationUrl::new("udp:/x".to_string()).url(), "udp:/");
    assert_eq!(StationUrl::new(String::new()).url(), "");
    assert_eq!(StationUrl::new("http://example".to_string()).url(), "");
}

#[test]
fn pid_width_follows_the_settings() {
    let wide = ByteStreamSettings { string_length_size: 2, pid_size: 8, use_structure_header: false };
    let mut out = ByteStreamOut::new(None, Some(wide));
    Pid(0x1122334455667788).write_to(&mut out);
    let bytes = out.into_bytes();
    assert_eq!(bytes.len(), 8);
    let mut input = ByteStreamIn::new(
        bytes,
        None,
        Some(ByteStreamSettings { string_length_size: 2, pid_size: 8, use_structure_header: false }),
    );
    assert_eq!(Pid::read_from(&mut input).unwrap(), Pid(0x1122334455667788));
    let mut narrow_out = ByteStreamOut::new(None, None);
    Pid(0x1122334455667788).write_to(&mut narrow_out);
    let bytes = narrow_out.into_bytes();
    assert_eq!(bytes.len(), 4);
    let mut input = ByteStreamIn::new(bytes, None, None);
    assert_eq!(Pid::read_from(&mut input).unwrap(), Pid(0x55667788));
}

#[test]
fn result_codes_name_the_known_entries() {
    assert_eq!(result_code_to_name(0x00010001), "Core::Unknown");
    assert_eq!(result_code_to_name(0x0001000B), "Core::Timeout");
    assert_eq!(result_code_to_name(0x00030001), "RendezVous::ConnectionFailure");
    assert_eq!(result_code_to_name(0xDEAD0000), "Invalid Result Code");
}

#[test]
fn endpoint_stubs_accept_traffic() {
    let e = PrudpEndpoint::new();
    assert!(e.send(&[1, 2]).is_ok());
    assert_eq!(e.receive().unwrap(), Vec::<u8>::new());
    let s = SocketConnection::new();
    assert!(s.send(&[1, 2]).is_ok());
    assert_eq!(s.receive().unwrap(), Vec::<u8>::new());
}

#[test]
fn connection_object_freezes_identity_after_handshake() {
    let mut c = PrudpConnection::new(b"ridfebb9".to_vec(), 7, 0, 10_000, 30_000, 8);
    assert_eq!(c.state(), ConnectionState::Idle);
    assert_eq!(c.handle_event(ConnectionEvent::StartConnect), ConnectionAction::SendSyn);
    c.adopt_remote_identity(0x42, vec![0xC1; 16]);
    assert_eq!(c.handle_event(ConnectionEvent::ReceiveSynAck), ConnectionAction::SendConnect);
    assert_eq!(c.handle_event(ConnectionEvent::ReceiveConnectAck), ConnectionAction::Nothing);
    assert_eq!(c.state(), ConnectionState::Established);
    assert_eq!(c.local_session_id(), 7);
    assert_eq!(c.remote_session_id(), 0x42);
    // Data flows over the connection's substream without touching the ids.
    let sent = c.substream.send_payload(&[1, 2, 3], true, 1300, 0, 500);
    assert_eq!(sent.len(), 1);
    assert_eq!(c.handle_event(ConnectionEvent::ReceiveData), ConnectionAction::AcceptData);
    assert_eq!(c.local_session_id(), 7);
    assert_eq!(c.remote_session_id(), 0x42);
    assert_eq!(c.handle_event(ConnectionEvent::ReceiveDisconnect), ConnectionAction::Nothing);
    assert_eq!(c.state(), ConnectionState::Closed);
}


#[test]
fn station_url_classifies_non_ascii_texts_by_prefix() {
    // The scheme is decided by the leading characters alone; the rest of
    // the text may hold any characters.
    let u = StationUrl::new("prudp:/address=caf\u{e9}.example".to_string());
    assert_eq!(u.url(), "prudp:/");
    let v = StationUrl::new("caf\u{e9}:/x".to_string());
    assert_eq!(v.url(), "");
}

#[test]
fn station_url_write_extract_round_trips() {
    let s = StationUrl::new("prudps:/address=10.0.0.1".to_string());
    let mut out = ByteStreamOut::new(None, None);
    s.write_to(&mut out);
    let wire = out.into_bytes();
    // The length prefix counts the trailing NUL: "prudps:/" plus one.
    assert_eq!(wire[0], 9);
    assert_eq!(wire[1], 0);
    assert_eq!(*wire.last().unwrap(), 0);
    let mut input = ByteStreamIn::new(wire, None, None);
    let back = StationUrl::extract_from(&mut input).unwrap();
    assert_eq!(back.url(), "prudps:/");
    assert_eq!(input.remaining(), 0);
}

#[test]
fn station_url_extract_rejects_truncated_streams() {
    // The prefix declares more bytes than the stream holds.
    let mut input = ByteStreamIn::new(vec![9, 0, 1, 2], None, None);
    assert!(matches!(StationUrl::extract_from(&mut input), Err(NexError::Parse(_))));
    let mut short = ByteStreamIn::new(vec![5], None, None);
    assert!(StationUrl::extract_from(&mut short).is_err());
}

#[test]
fn read_error_names_the_attempted_length() {
    let mut input = ByteStreamIn::new(vec![1, 2], None, None);
    match input.read(9) {
        Err(NexError::Parse(message)) => assert!(message.contains("9")),
        _ => panic!("overlong read must fail with Parse"),
    }
}

#[test]
fn signature_mismatches_reach_the_ceiling() {
    let mut c = PrudpConnection::new(b"ridfebb9".to_vec(), 1, 0, 10_000, 30_000, 3);
    assert_eq!(c.handle_event(ConnectionEvent::StartConnect), ConnectionAction::SendSyn);
    assert!(c.note_signature_failure().is_none());
    assert!(c.note_signature_failure().is_none());
    match c.note_signature_failure() {
        Some(NexError::Signature(_)) => {},
        _ => panic!("the third mismatch must tear the connection down"),
    }
    assert_eq!(c.state(), ConnectionState::Closed);
}

#[test]
fn signature_comparison_is_exact() {
    let tag = compute_v1_signature(b"ridfebb9", &[1; 8], &[2; 16], &[3, 4]);
    assert!(v1_signature_matches(b"ridfebb9", &[1; 8], &[2; 16], &[3, 4], &tag));
    let mut bad = tag.clone();
    bad[0] ^= 1;
    assert!(!v1_signature_matches(b"ridfebb9", &[1; 8], &[2; 16], &[3, 4], &bad));
}

#[test]
fn connection_ciphers_the_payload_path() {
    let key = b"session-key".to_vec();
    let mut c = PrudpConnection::new(b"ridfebb9".to_vec(), 1, 0, 10_000, 30_000, 8);
    c.set_ciphers(PayloadCipher::rc4(key.clone()), PayloadCipher::rc4(key.clone()));
    let payload = vec![1u8, 2, 3, 4];
    let on_wire = c.encipher_outbound(&payload);
    assert_ne!(on_wire, payload);
    assert_eq!(on_wire, rc4(&key, &payload));
    // The receive path deciphers before reordering and reassembly:
    // a single in-order fragment 0 comes out as the plain payload.
    let got = c.receive_ciphered_data(1, 0, &on_wire).unwrap();
    assert_eq!(got, vec![payload]);
}

#[test]
fn pass_through_transforms_are_identity() {
    assert_eq!(
        nex_prudp::compression::Dummy::compress_bytes(&[1, 2, 3]).unwrap(),
        vec![1, 2, 3]
    );
    assert_eq!(
        nex_prudp::compression::Dummy::decompress_bytes(&[4, 5]).unwrap(),
        vec![4, 5]
    );
    let d = DummyCipher;
    assert_eq!(d.apply(&[9, 8, 7]), vec![9, 8, 7]);
}

#[test]
fn zlib_compression_always_succeeds() {
    assert!(Zlib::compress_bytes(&[]).is_ok());
    assert!(Zlib::compress_bytes(&[0u8; 100_000]).is_ok());
}
