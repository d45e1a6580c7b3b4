use nex_prudp::constants::{PrudpPacketFlags, PrudpPacketType, FLAG_HAS_SIZE, FLAG_RELIABLE};
use nex_prudp::io::{ByteStreamIn, ByteStreamOut, ByteStreamSettings};
use nex_prudp::packet::{decode_v0, encode_v0, PrudpHeader, PrudpPacket, V1Options};
use nex_prudp::packet_v1::{decode_packet, decode_v1, encode_v1};
use nex_prudp::rmc_message::RmcMessage;

fn sample_v0_packet(payload: Vec<u8>, flags: u16) -> PrudpPacket {
    PrudpPacket {
        header: PrudpHeader {
            version: 0,
            source: 0xAF,
            destination: 0xA1,
            type_id: PrudpPacketType::Data,
            flags: PrudpPacketFlags { bits: flags },
            session_id: 0x42,
            signature: 0xDEADBEEF,
        },
        sequence_id: 7,
        fragment_id: 0,
        substream_id: 0,
        options: V1Options {
            supported_functions: None,
            connection_signature: None,
            initial_sequence: None,
            max_substream_id: None,
        },
        signature_v1: Vec::new(),
        payload,
    }
}

#[test]
fn byte_stream_round_trips_integers() {
    let mut out = ByteStreamOut::new(None, None);
    out.write_u8(0xAB);
    out.write_u16_le(0x1234);
    out.write_u32_le(0xCAFEBABE);
    out.write_u64_le(0x0123456789ABCDEF);
    out.write_i32_le(-7);
    out.write_bool(true);
    let mut input = ByteStreamIn::new(out.into_bytes(), None, None);
    assert_eq!(input.read_u8().unwrap(), 0xAB);
    assert_eq!(input.read_u16_le().unwrap(), 0x1234);
    assert_eq!(input.read_u32_le().unwrap(), 0xCAFEBABE);
    assert_eq!(input.read_u64_le().unwrap(), 0x0123456789ABCDEF);
    assert_eq!(input.read_i32_le().unwrap(), -7);
    assert!(input.read_bool().unwrap());
    assert_eq!(input.remaining(), 0);
}

#[test]
fn byte_stream_rejects_short_reads() {
    let mut input = ByteStreamIn::new(vec![1, 2, 3], None, None);
    assert!(input.read_u32_le().is_err());
    // The failed read leaves the cursor alone.
    assert_eq!(input.read_u16_le().unwrap(), 0x0201);
}

#[test]
fn byte_stream_settings_govern_widths() {
    let settings = ByteStreamSettings {
        string_length_size: 4,
        pid_size: 8,
        use_structure_header: true,
    };
    let input = ByteStreamIn::new(Vec::new(), None, Some(settings));
    assert_eq!(input.string_length_size(), 4);
    assert_eq!(input.pid_size(), 8);
    assert!(input.use_structure_header());
    let bare = ByteStreamIn::new(Vec::new(), None, None);
    assert_eq!(bare.string_length_size(), 2);
    assert_eq!(bare.pid_size(), 4);
    assert!(!bare.use_structure_header());
}

#[test]
fn v0_codec_round_trips() {
    let p = sample_v0_packet(vec![1, 2, 3, 4, 5], FLAG_RELIABLE);
    let wire = encode_v0(&p, 0x5A);
    let q = decode_v0(wire, 0x5A).unwrap();
    assert_eq!(p, q);
}

#[test]
fn v0_codec_round_trips_with_size_field() {
    let p = sample_v0_packet(vec![9; 300], FLAG_RELIABLE | FLAG_HAS_SIZE);
    let wire = encode_v0(&p, 0x00);
    let q = decode_v0(wire, 0x00).unwrap();
    assert_eq!(p, q);
}

#[test]
fn v0_codec_rejects_truncation_and_bad_checksum() {
    let p = sample_v0_packet(vec![1, 2, 3], 0);
    let wire = encode_v0(&p, 0x11);
    // Declared lengths past the buffer are rejected.
    let truncated = wire[..wire.len() - 2].to_vec();
    assert!(decode_v0(truncated, 0x11).is_err());
    // A checksum under the wrong key byte is rejected.
    assert!(decode_v0(wire, 0x12).is_err());
    assert!(decode_v0(vec![0; 5], 0x11).is_err());
}

#[test]
fn v1_codec_round_trips_with_options() {
    let p = PrudpPacket {
        header: PrudpHeader {
            version: 1,
            source: 0xAF,
            destination: 0xA1,
            type_id: PrudpPacketType::Data,
            flags: PrudpPacketFlags { bits: FLAG_RELIABLE },
            session_id: 3,
            signature: 0,
        },
        sequence_id: 0x1234,
        fragment_id: 2,
        substream_id: 1,
        options: V1Options {
            supported_functions: Some(4),
            connection_signature: Some(vec![7; 16]),
            initial_sequence: Some(0xABCD),
            max_substream_id: Some(1),
        },
        signature_v1: vec![0xEE; 16],
        payload: vec![10, 20, 30],
    };
    let wire = encode_v1(&p);
    assert_eq!(wire[0], 0xEA);
    assert_eq!(wire[1], 0xD0);
    let q = decode_v1(wire).unwrap();
    assert_eq!(p, q);
}

#[test]
fn v1_codec_round_trips_syn_shape() {
    let p = PrudpPacket {
        header: PrudpHeader {
            version: 1,
            source: 0xAF,
            destination: 0xA1,
            type_id: PrudpPacketType::Syn,
            flags: PrudpPacketFlags { bits: 0 },
            session_id: 0,
            signature: 0,
        },
        sequence_id: 0,
        fragment_id: 0,
        substream_id: 0,
        options: V1Options {
            supported_functions: Some(0x104),
            connection_signature: Some(vec![0; 16]),
            initial_sequence: None,
            max_substream_id: Some(0),
        },
        signature_v1: vec![0; 16],
        payload: Vec::new(),
    };
    let wire = encode_v1(&p);
    let q = decode_v1(wire).unwrap();
    assert_eq!(p, q);
}

#[test]
fn v1_codec_rejects_bad_magic_and_lengths() {
    assert!(decode_v1(vec![0, 1, 2]).is_err());
    let mut wire = vec![0xEA, 0xD0, 1, 0, 5, 0, 1, 2, 0, 0, 3, 0, 0, 0];
    // Declared payload length exceeds the buffer.
    assert!(decode_v1(wire.clone()).is_err());
    wire[0] = 0xEB;
    assert!(decode_v1(wire).is_err());
}

#[test]
fn rmc_packed_round_trip_request() {
    let m = RmcMessage {
        is_request: true,
        is_success: false,
        is_hpp: false,
        protocol_id: 0x1D,
        call_id: 42,
        method_id: 3,
        error_code: 0,
        parameters: vec![0xDE, 0xAD],
    };
    let wire = m.to_bytes_packed();
    assert_eq!(&wire[..4], &[0x0B, 0x00, 0x00, 0x00]);
    let back = RmcMessage::from_bytes_packed(wire).unwrap();
    assert_eq!(m, back);
}

#[test]
fn rmc_packed_round_trip_wide_protocol() {
    let m = RmcMessage {
        is_request: true,
        is_success: false,
        is_hpp: false,
        protocol_id: 0x1234,
        call_id: 1,
        method_id: 2,
        error_code: 0,
        parameters: vec![],
    };
    let back = RmcMessage::from_bytes_packed(m.to_bytes_packed()).unwrap();
    assert_eq!(m, back);
}

#[test]
fn rmc_packed_round_trip_responses() {
    let ok = RmcMessage {
        is_request: false,
        is_success: true,
        is_hpp: false,
        protocol_id: 0x10,
        call_id: 99,
        method_id: 0x11,
        error_code: 0,
        parameters: vec![5, 6, 7],
    };
    assert_eq!(ok, RmcMessage::from_bytes_packed(ok.to_bytes_packed()).unwrap());
    let fail = RmcMessage {
        is_request: false,
        is_success: false,
        is_hpp: false,
        protocol_id: 0x10,
        call_id: 99,
        method_id: 0,
        error_code: 0x00010001,
        parameters: vec![],
    };
    assert_eq!(fail, RmcMessage::from_bytes_packed(fail.to_bytes_packed()).unwrap());
}

#[test]
fn rmc_rejects_truncated_frames() {
    assert!(RmcMessage::from_bytes_packed(vec![1, 2, 3]).is_err());
    assert!(RmcMessage::from_bytes_packed(vec![9, 0, 0, 0, 0x80, 1]).is_err());
}

#[test]
fn rmc_hpp_response_omits_the_protocol_byte() {
    let m = RmcMessage {
        is_request: false,
        is_success: true,
        is_hpp: true,
        protocol_id: 0x10,
        call_id: 1,
        method_id: 2,
        error_code: 0,
        parameters: vec![0xAA],
    };
    let wire = m.to_bytes_packed();
    // Length prefix of 10: success flag, call id, method id, one byte of
    // parameters — and no protocol byte in front.
    assert_eq!(&wire[..4], &[10, 0, 0, 0]);
    assert_eq!(wire[4], 1);
    // An HPP request still carries its protocol byte.
    let req = RmcMessage { is_request: true, is_success: false, ..m };
    let wire = req.to_bytes_packed();
    assert_eq!(wire[4], 0x90);
}

#[test]
fn packet_decoder_selects_the_framing_by_leading_bytes() {
    let v0 = sample_v0_packet(vec![1, 2, 3], FLAG_RELIABLE);
    let wire = encode_v0(&v0, 0x33);
    assert_eq!(decode_packet(wire, 0x33).unwrap(), v0);
    let v1 = PrudpPacket {
        header: PrudpHeader {
            version: 1,
            source: 1,
            destination: 2,
            type_id: PrudpPacketType::Ping,
            flags: PrudpPacketFlags { bits: 0 },
            session_id: 9,
            signature: 0,
        },
        sequence_id: 3,
        fragment_id: 0,
        substream_id: 0,
        options: V1Options {
            supported_functions: None,
            connection_signature: None,
            initial_sequence: None,
            max_substream_id: None,
        },
        signature_v1: vec![4; 16],
        payload: vec![0xAA],
    };
    assert_eq!(decode_packet(encode_v1(&v1), 0x00).unwrap(), v1);
}
