use vstd::prelude::*;

use crate::bytes::{le16_val, le32_val, u16_bytes, u32_bytes, lemma_u16_bytes_val,
    lemma_u32_bytes_val};
use crate::constants::{PrudpPacketType, PrudpPacketFlags};
use crate::error::NexError;
use crate::io::{ByteStreamIn, ByteStreamOut};
use crate::signature::{checksum_spec, compute_checksum};

verus! {

/// The PRUDP header fields shared by both framings. `signature` carries the
/// 32-bit v0 integrity tag; the v1 framing carries its 16-byte tag in
/// `PrudpPacket::signature_v1` instead.
#[derive(Debug, Clone, PartialEq)]
#[verifier::ext_equal]
pub struct PrudpHeader {
    pub version: u8,
    pub source: u8,
    pub destination: u8,
    pub type_id: PrudpPacketType,
    pub flags: PrudpPacketFlags,
    pub session_id: u8,
    pub signature: u32,
}

/// The v1 option fields, each encoded as one TLV when present.
#[derive(Debug, Clone, PartialEq)]
#[verifier::ext_equal]
pub struct V1Options {
    pub supported_functions: Option<u32>,
    pub connection_signature: Option<Vec<u8>>,
    pub initial_sequence: Option<u16>,
    pub max_substream_id: Option<u8>,
}

/// A PRUDP packet: the header, the sequencing fields, the v1 options and
/// 16-byte signature, and the payload.
#[derive(Debug, Clone, PartialEq)]
#[verifier::ext_equal]
pub struct PrudpPacket {
    pub header: PrudpHeader,
    pub sequence_id: u16,
    pub fragment_id: u8,
    pub substream_id: u8,
    pub options: V1Options,
    pub signature_v1: Vec<u8>,
    pub payload: Vec<u8>,
}

/// The mathematical value of the v1 options.
pub ghost struct OptionsModel {
    pub supported_functions: Option<u32>,
    pub connection_signature: Option<Seq<u8>>,
    pub initial_sequence: Option<u16>,
    pub max_substream_id: Option<u8>,
}

/// The mathematical value of a packet.
pub ghost struct PacketModel {
    pub version: u8,
    pub source: u8,
    pub destination: u8,
    pub type_id: PrudpPacketType,
    pub flags_bits: u16,
    pub session_id: u8,
    pub signature: u32,
    pub sequence_id: u16,
    pub fragment_id: u8,
    pub substream_id: u8,
    pub options: OptionsModel,
    pub signature_v1: Seq<u8>,
    pub payload: Seq<u8>,
}

impl V1Options {
    /// The mathematical value of these options.
    pub open spec fn model(self) -> OptionsModel {
        OptionsModel {
            supported_functions: self.supported_functions,
            connection_signature: match self.connection_signature {
                Some(v) => Some(v@),
                None => None,
            },
            initial_sequence: self.initial_sequence,
            max_substream_id: self.max_substream_id,
        }
    }

    /// Options with every field absent.
    pub fn none() -> (r: Self)
        ensures
            r.model() == (OptionsModel {
                supported_functions: None,
                connection_signature: None,
                initial_sequence: None,
                max_substream_id: None,
            }),
    {
        V1Options {
            supported_functions: None,
            connection_signature: None,
            initial_sequence: None,
            max_substream_id: None,
        }
    }
}

impl PrudpPacket {
    /// The mathematical value of this packet.
    pub open spec fn model(self) -> PacketModel {
        PacketModel {
            version: self.header.version,
            source: self.header.source,
            destination: self.header.destination,
            type_id: self.header.type_id,
            flags_bits: self.header.flags.bits,
            session_id: self.header.session_id,
            signature: self.header.signature,
            sequence_id: self.sequence_id,
            fragment_id: self.fragment_id,
            substream_id: self.substream_id,
            options: self.options.model(),
            signature_v1: self.signature_v1@,
            payload: self.payload@,
        }
    }
}

/// The `type_flags` field: the packet type in the low 4 bits, the flags in
/// the high 12.
pub open spec fn type_flags_value(p: PacketModel) -> u16 {
    (p.type_id.value_spec() + p.flags_bits * 16) as u16
}

/// Whether the model sets a given header flag.
pub open spec fn model_has_flag(p: PacketModel, flag: u16) -> bool {
    p.flags_bits & flag != 0
}

/// The v0 frame before the checksum byte: the 11-byte header, the fragment
/// id on DATA packets, the payload size when HAS_SIZE is set, the payload.
pub open spec fn v0_frame_bytes(p: PacketModel) -> Seq<u8> {
    seq![p.source, p.destination] + u16_bytes(type_flags_value(p)) + seq![p.session_id]
        + u32_bytes(p.signature) + u16_bytes(p.sequence_id) + (if p.type_id is Data {
        seq![p.fragment_id]
    } else {
        Seq::<u8>::empty()
    }) + (if model_has_flag(p, crate::constants::FLAG_HAS_SIZE) {
        u16_bytes(p.payload.len() as u16)
    } else {
        Seq::<u8>::empty()
    }) + p.payload
}

/// The complete v0 frame under a checksum key byte.
pub open spec fn v0_encode(p: PacketModel, key: u8) -> Seq<u8> {
    v0_frame_bytes(p) + seq![checksum_spec(v0_frame_bytes(p), key)]
}

/// A packet the v0 framing can carry and return unchanged: version 0, flags
/// within their 12 bits, and the v1-only fields at their defaults.
pub open spec fn v0_wf(p: PacketModel) -> bool {
    &&& p.version == 0
    &&& p.flags_bits < 0x1000
    &&& p.payload.len() <= 0xFFFF
    &&& !(p.type_id is Data) ==> p.fragment_id == 0
    &&& p.substream_id == 0
    &&& p.options == OptionsModel {
        supported_functions: None,
        connection_signature: None,
        initial_sequence: None,
        max_substream_id: None,
    }
    &&& p.signature_v1 == Seq::<u8>::empty()
}

/// What decoding a v0 frame under a checksum key byte yields: `None` marks
/// a malformed or truncated frame, a checksum mismatch, or a size field
/// that disagrees with the payload.
pub open spec fn v0_decode(b: Seq<u8>, key: u8) -> Option<PacketModel> {
    if b.len() < 12 {
        None
    } else {
        let tf = le16_val(b.subrange(2, 4)) as u16;
        let flags_bits = tf / 16;
        match PrudpPacketType::from_value_spec(tf % 16) {
            None => None,
            Some(type_id) => {
                let frag_len: int = if type_id is Data {
                    1
                } else {
                    0
                };
                let size_len: int = if flags_bits & crate::constants::FLAG_HAS_SIZE != 0 {
                    2
                } else {
                    0
                };
                let pos = 11 + frag_len + size_len;
                if b.len() < pos + 1 {
                    None
                } else if b.last() != checksum_spec(b.drop_last(), key) {
                    None
                } else {
                    let payload = b.subrange(pos, b.len() - 1);
                    if size_len == 2 && le16_val(b.subrange(11 + frag_len, 11 + frag_len + 2))
                        != payload.len() {
                        None
                    } else {
                        Some(
                            PacketModel {
                                version: 0,
                                source: b[0],
                                destination: b[1],
                                type_id,
                                flags_bits: flags_bits as u16,
                                session_id: b[4],
                                signature: le32_val(b.subrange(5, 9)) as u32,
                                sequence_id: le16_val(b.subrange(9, 11)) as u16,
                                fragment_id: if type_id is Data {
                                    b[11]
                                } else {
                                    0
                                },
                                substream_id: 0,
                                options: OptionsModel {
                                    supported_functions: None,
                                    connection_signature: None,
                                    initial_sequence: None,
                                    max_substream_id: None,
                                },
                                signature_v1: Seq::empty(),
                                payload,
                            },
                        )
                    }
                }
            },
        }
    }
}

/// Encodes a packet in the v0 framing under a checksum key byte.
pub fn encode_v0(p: &PrudpPacket, key: u8) -> (r: Vec<u8>)
    requires
        p.header.flags.bits < 0x1000,
        p.payload@.len() <= 0xFFFF,
    ensures
        r@ == v0_encode(p.model(), key),
{
    let mut s = ByteStreamOut::new(None, None);
    s.write_u8(p.header.source);
    s.write_u8(p.header.destination);
    let tf: u16 = p.header.type_id.value() + p.header.flags.bits * 16;
    s.write_u16_le(tf);
    s.write_u8(p.header.session_id);
    s.write_u32_le(p.header.signature);
    s.write_u16_le(p.sequence_id);
    if matches!(p.header.type_id, PrudpPacketType::Data) {
        s.write_u8(p.fragment_id);
    }
    if p.header.flags.has_size() {
        s.write_u16_le(p.payload.len() as u16);
    }
    s.write(p.payload.as_slice());
    proof {
        assert(s.out() =~= v0_frame_bytes(p.model()));
    }
    let chk = compute_checksum(s.bytes(), key);
    s.write_u8(chk);
    proof {
        assert(s.out() =~= v0_encode(p.model(), key));
    }
    s.into_bytes()
}

/// Decodes a v0 frame under a checksum key byte; fails with `Parse` exactly
/// when the frame does not decode.
pub fn decode_v0(data: Vec<u8>, key: u8) -> (r: Result<PrudpPacket, NexError>)
    ensures
        r matches Ok(p) ==> v0_decode(data@, key) == Some(p.model()),
        r matches Err(e) ==> e is Parse && v0_decode(data@, key) is None,
{
    let ghost gdata: Seq<u8> = data@;
    if data.len() < 12 {
        return Err(NexError::Parse("v0 frame is too short".to_owned()));
    }
    let whole_len = data.len();
    let chk_expected = compute_checksum(
        vstd::slice::slice_subrange(data.as_slice(), 0, whole_len - 1),
        key,
    );
    let chk_actual = data[whole_len - 1];
    proof {
        assert(gdata.subrange(0, gdata.len() - 1) =~= gdata.drop_last());
    }
    let mut s = ByteStreamIn::new(data, None, None);
    let source = match s.read_u8() {
        Ok(v) => v,
        Err(e) => {
            return Err(e);
        },
    };
    let destination = match s.read_u8() {
        Ok(v) => v,
        Err(e) => {
            return Err(e);
        },
    };
    let tf = match s.read_u16_le() {
        Ok(v) => v,
        Err(e) => {
            return Err(e);
        },
    };
    let type_id = match PrudpPacketType::from_value(tf % 16) {
        Some(t) => t,
        None => {
            return Err(NexError::Parse("v0 frame names no packet type".to_owned()));
        },
    };
    let flags_bits: u16 = tf / 16;
    let session_id = match s.read_u8() {
        Ok(v) => v,
        Err(e) => {
            return Err(e);
        },
    };
    let signature = match s.read_u32_le() {
        Ok(v) => v,
        Err(e) => {
            return Err(e);
        },
    };
    let sequence_id = match s.read_u16_le() {
        Ok(v) => v,
        Err(e) => {
            return Err(e);
        },
    };
    let is_data = matches!(type_id, PrudpPacketType::Data);
    let fragment_id: u8 = if is_data {
        match s.read_u8() {
            Ok(v) => v,
            Err(e) => {
                return Err(e);
            },
        }
    } else {
        0
    };
    let has_size = flags_bits & crate::constants::FLAG_HAS_SIZE != 0;
    let size: u16 = if has_size {
        match s.read_u16_le() {
            Ok(v) => v,
            Err(e) => {
                return Err(e);
            },
        }
    } else {
        0
    };
    if s.remaining() < 1 {
        return Err(NexError::Parse("v0 frame is missing its checksum".to_owned()));
    }
    if chk_actual != chk_expected {
        return Err(NexError::Parse("v0 checksum mismatch".to_owned()));
    }
    let rest = s.read_remaining();
    let mut payload = rest;
    let plen = payload.len();
    // The final byte is the checksum, not payload.
    let _ = payload.pop();
    proof {
        assert(payload@ =~= gdata.subrange(s.position() - plen, gdata.len() - 1));
    }
    if has_size {
        if size as usize != payload.len() {
            return Err(NexError::Parse("v0 size field disagrees with payload".to_owned()));
        }
    }
    let p = PrudpPacket {
        header: PrudpHeader {
            version: 0,
            source,
            destination,
            type_id,
            flags: PrudpPacketFlags { bits: flags_bits },
            session_id,
            signature,
        },
        sequence_id,
        fragment_id,
        substream_id: 0,
        options: V1Options::none(),
        signature_v1: Vec::new(),
        payload,
    };
    proof {
        assert(p.model().signature_v1 =~= Seq::<u8>::empty());
        assert(v0_decode(gdata, key) == Some(p.model()));
    }
    Ok(p)
}

/// A v0 round trip: a well-formed packet decodes from its own v0 frame
/// unchanged, under any checksum key byte.
pub proof fn lemma_v0_round_trip(p: PacketModel, key: u8)
    requires
        v0_wf(p),
    ensures
        v0_decode(v0_encode(p, key), key) == Some(p),
{
    let frame = v0_frame_bytes(p);
    let b = v0_encode(p, key);
    assert(b.drop_last() =~= frame);
    assert(b.last() == checksum_spec(frame, key));
    let tf = type_flags_value(p);
    assert(b.subrange(2, 4) =~= u16_bytes(tf));
    lemma_u16_bytes_val(tf);
    assert(p.type_id.value_spec() < 16);
    vstd::arithmetic::div_mod::lemma_fundamental_div_mod_converse(
        tf as int,
        16,
        p.flags_bits as int,
        p.type_id.value_spec() as int,
    );
    assert(tf % 16 == p.type_id.value_spec());
    assert(tf / 16 == p.flags_bits);
    crate::constants::lemma_packet_type_value_round_trip(p.type_id);
    let frag_len: int = if p.type_id is Data {
        1
    } else {
        0
    };
    let size_len: int = if p.flags_bits & crate::constants::FLAG_HAS_SIZE != 0 {
        2
    } else {
        0
    };
    let pos = 11 + frag_len + size_len;
    assert(b.len() == pos + p.payload.len() + 1);
    assert(b.subrange(5, 9) =~= u32_bytes(p.signature));
    lemma_u32_bytes_val(p.signature);
    assert(b.subrange(9, 11) =~= u16_bytes(p.sequence_id));
    lemma_u16_bytes_val(p.sequence_id);
    assert(b.subrange(pos, b.len() - 1) =~= p.payload);
    if size_len == 2 {
        assert(b.subrange(11 + frag_len, 11 + frag_len + 2) =~= u16_bytes(
            p.payload.len() as u16,
        ));
        lemma_u16_bytes_val(p.payload.len() as u16);
    }
    if p.type_id is Data {
        assert(b[11] == p.fragment_id);
    }
}

} // verus!
