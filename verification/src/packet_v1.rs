use vstd::prelude::*;

use crate::bytes::{le16_val, le32_val, u16_bytes, u32_bytes, lemma_u16_bytes_val,
    lemma_u32_bytes_val};
use crate::constants::{PrudpPacketType, PrudpPacketFlags};
use crate::error::NexError;
use crate::packet::{OptionsModel, PacketModel, PrudpHeader, PrudpPacket, V1Options,
    type_flags_value};

verus! {

// The v1 framing: a fixed 14-byte header behind the 0xEA 0xD0 magic, a TLV
// option region, the 16-byte signature, and the payload.

/// The option fields as the TLV scan accumulates them.
pub ghost struct OptState {
    pub supported_functions: Option<u32>,
    pub connection_signature: Option<Seq<u8>>,
    pub fragment_id: Option<u8>,
    pub initial_sequence: Option<u16>,
    pub max_substream_id: Option<u8>,
}

/// The scan state before any option is read.
pub open spec fn opt_state_empty() -> OptState {
    OptState {
        supported_functions: None,
        connection_signature: None,
        fragment_id: None,
        initial_sequence: None,
        max_substream_id: None,
    }
}

/// One TLV per present option, in ascending type order, so that the encoded
/// frame — and with it the signature — is reproducible by the peer.
pub open spec fn v1_options_bytes(p: PacketModel) -> Seq<u8> {
    (match p.options.supported_functions {
        Some(sf) => seq![0u8, 4u8] + u32_bytes(sf),
        None => Seq::<u8>::empty(),
    }) + (match p.options.connection_signature {
        Some(cs) => seq![1u8, 16u8] + cs,
        None => Seq::<u8>::empty(),
    }) + (if p.type_id is Data {
        seq![2u8, 1u8, p.fragment_id]
    } else {
        Seq::<u8>::empty()
    }) + (match p.options.initial_sequence {
        Some(sq) => seq![3u8, 2u8] + u16_bytes(sq),
        None => Seq::<u8>::empty(),
    }) + (match p.options.max_substream_id {
        Some(ms) => seq![4u8, 1u8, ms],
        None => Seq::<u8>::empty(),
    })
}

/// What scanning a TLV region yields: each known type updates its field and
/// must carry its fixed length; unknown types are skipped by their length
/// byte; a region that ends inside a TLV yields `None`.
pub open spec fn v1_decode_options(b: Seq<u8>, st: OptState) -> Option<OptState>
    decreases b.len(),
{
    if b.len() == 0 {
        Some(st)
    } else if b.len() < 2 {
        None
    } else {
        let t = b[0];
        let l = b[1] as int;
        if b.len() < 2 + l {
            None
        } else {
            let v = b.subrange(2, 2 + l);
            let rest = b.subrange(2 + l, b.len() as int);
            if t == 0 {
                if l == 4 {
                    v1_decode_options(
                        rest,
                        OptState { supported_functions: Some(le32_val(v) as u32), ..st },
                    )
                } else {
                    None
                }
            } else if t == 1 {
                if l == 16 {
                    v1_decode_options(rest, OptState { connection_signature: Some(v), ..st })
                } else {
                    None
                }
            } else if t == 2 {
                if l == 1 {
                    v1_decode_options(rest, OptState { fragment_id: Some(v[0]), ..st })
                } else {
                    None
                }
            } else if t == 3 {
                if l == 2 {
                    v1_decode_options(
                        rest,
                        OptState { initial_sequence: Some(le16_val(v) as u16), ..st },
                    )
                } else {
                    None
                }
            } else if t == 4 {
                if l == 1 {
                    v1_decode_options(rest, OptState { max_substream_id: Some(v[0]), ..st })
                } else {
                    None
                }
            } else {
                v1_decode_options(rest, st)
            }
        }
    }
}

/// The 14-byte v1 header.
pub open spec fn v1_header_bytes(p: PacketModel) -> Seq<u8> {
    seq![0xEAu8, 0xD0u8, 1u8, v1_options_bytes(p).len() as u8] + u16_bytes(
        p.payload.len() as u16,
    ) + seq![p.source, p.destination] + u16_bytes(type_flags_value(p)) + seq![
        p.session_id,
        p.substream_id,
    ] + u16_bytes(p.sequence_id)
}

/// The complete v1 frame.
pub open spec fn v1_encode(p: PacketModel) -> Seq<u8> {
    v1_header_bytes(p) + v1_options_bytes(p) + p.signature_v1 + p.payload
}

/// A packet the v1 framing can carry and return unchanged: version 1, flags
/// within their 12 bits, a 16-byte signature, a 16-byte connection
/// signature when present, and the v0-only fields at their defaults.
pub open spec fn v1_wf(p: PacketModel) -> bool {
    &&& p.version == 1
    &&& p.flags_bits < 0x1000
    &&& p.payload.len() <= 0xFFFF
    &&& p.signature_v1.len() == 16
    &&& (p.options.connection_signature matches Some(cs) ==> cs.len() == 16)
    &&& !(p.type_id is Data) ==> p.fragment_id == 0
    &&& p.signature == 0
}

/// The packet a finished option scan and the fixed fields make up.
pub open spec fn v1_packet_of(b: Seq<u8>, type_id: PrudpPacketType, st: OptState) -> PacketModel {
    let olen = b[3] as int;
    PacketModel {
        version: 1,
        source: b[6],
        destination: b[7],
        type_id,
        flags_bits: (le16_val(b.subrange(8, 10)) as u16 / 16) as u16,
        session_id: b[10],
        signature: 0,
        sequence_id: le16_val(b.subrange(12, 14)) as u16,
        fragment_id: match st.fragment_id {
            Some(f) => f,
            None => 0,
        },
        substream_id: b[11],
        options: OptionsModel {
            supported_functions: st.supported_functions,
            connection_signature: st.connection_signature,
            initial_sequence: st.initial_sequence,
            max_substream_id: st.max_substream_id,
        },
        signature_v1: b.subrange(14 + olen, 14 + olen + 16),
        payload: b.subrange(14 + olen + 16, b.len() as int),
    }
}

/// What decoding a v1 frame yields: `None` marks a bad magic or version, an
/// unknown packet type, declared lengths that disagree with the buffer, or
/// a malformed option region.
pub open spec fn v1_decode(b: Seq<u8>) -> Option<PacketModel> {
    if b.len() < 14 {
        None
    } else if b[0] != 0xEA || b[1] != 0xD0 || b[2] != 1 {
        None
    } else {
        let olen = b[3] as int;
        let plen = le16_val(b.subrange(4, 6));
        let tf = le16_val(b.subrange(8, 10)) as u16;
        match PrudpPacketType::from_value_spec(tf % 16) {
            None => None,
            Some(type_id) => {
                if b.len() != 14 + olen + 16 + plen {
                    None
                } else {
                    match v1_decode_options(b.subrange(14, 14 + olen), opt_state_empty()) {
                        None => None,
                        Some(st) => Some(v1_packet_of(b, type_id, st)),
                    }
                }
            },
        }
    }
}

/// Writes the canonical option region of a packet.
#[verifier::rlimit(100)]
fn encode_v1_options(p: &PrudpPacket) -> (r: Vec<u8>)
    requires
        p.options.connection_signature matches Some(cs) ==> cs@.len() == 16,
    ensures
        r@ == v1_options_bytes(p.model()),
        r@.len() <= 34,
{
    let ghost c0: Seq<u8> = match p.model().options.supported_functions {
        Some(sf) => seq![0u8, 4u8] + u32_bytes(sf),
        None => Seq::<u8>::empty(),
    };
    let ghost c1: Seq<u8> = match p.model().options.connection_signature {
        Some(cs) => seq![1u8, 16u8] + cs,
        None => Seq::<u8>::empty(),
    };
    let ghost c2: Seq<u8> = if p.model().type_id is Data {
        seq![2u8, 1u8, p.model().fragment_id]
    } else {
        Seq::<u8>::empty()
    };
    let ghost c3: Seq<u8> = match p.model().options.initial_sequence {
        Some(sq) => seq![3u8, 2u8] + u16_bytes(sq),
        None => Seq::<u8>::empty(),
    };
    let ghost c4: Seq<u8> = match p.model().options.max_substream_id {
        Some(ms) => seq![4u8, 1u8, ms],
        None => Seq::<u8>::empty(),
    };
    let mut s = crate::io::ByteStreamOut::new(None, None);
    match &p.options.supported_functions {
        Some(sf) => {
            s.write_u8(0);
            s.write_u8(4);
            s.write_u32_le(*sf);
        },
        None => {},
    }
    proof {
        assert(s.out() =~= c0);
    }
    match &p.options.connection_signature {
        Some(cs) => {
            s.write_u8(1);
            s.write_u8(16);
            s.write(cs.as_slice());
        },
        None => {},
    }
    proof {
        assert(s.out() =~= c0 + c1);
    }
    if matches!(p.header.type_id, PrudpPacketType::Data) {
        s.write_u8(2);
        s.write_u8(1);
        s.write_u8(p.fragment_id);
    }
    proof {
        assert(s.out() =~= (c0 + c1) + c2);
    }
    match &p.options.initial_sequence {
        Some(sq) => {
            s.write_u8(3);
            s.write_u8(2);
            s.write_u16_le(*sq);
        },
        None => {},
    }
    proof {
        assert(s.out() =~= ((c0 + c1) + c2) + c3);
    }
    match &p.options.max_substream_id {
        Some(ms) => {
            s.write_u8(4);
            s.write_u8(1);
            s.write_u8(*ms);
        },
        None => {},
    }
    proof {
        assert(s.out() =~= (((c0 + c1) + c2) + c3) + c4);
        assert(s.out() =~= v1_options_bytes(p.model()));
    }
    s.into_bytes()
}

/// Encodes a packet in the v1 framing.
#[verifier::rlimit(100)]
pub fn encode_v1(p: &PrudpPacket) -> (r: Vec<u8>)
    requires
        p.header.flags.bits < 0x1000,
        p.payload@.len() <= 0xFFFF,
        p.options.connection_signature matches Some(cs) ==> cs@.len() == 16,
    ensures
        r@ == v1_encode(p.model()),
{
    let options = encode_v1_options(p);
    let olen: u8 = options.len() as u8;
    let mut s = crate::io::ByteStreamOut::new(None, None);
    s.write_u8(0xEA);
    s.write_u8(0xD0);
    s.write_u8(1);
    s.write_u8(olen);
    s.write_u16_le(p.payload.len() as u16);
    s.write_u8(p.header.source);
    s.write_u8(p.header.destination);
    let tf: u16 = p.header.type_id.value() + p.header.flags.bits * 16;
    s.write_u16_le(tf);
    s.write_u8(p.header.session_id);
    s.write_u8(p.substream_id);
    s.write_u16_le(p.sequence_id);
    proof {
        assert(s.out() =~= v1_header_bytes(p.model()));
    }
    let ghost head: Seq<u8> = s.out();
    s.write(options.as_slice());
    s.write(p.signature_v1.as_slice());
    s.write(p.payload.as_slice());
    proof {
        assert(s.out() =~= ((head + v1_options_bytes(p.model())) + p.model().signature_v1)
            + p.model().payload);
        assert(s.out() =~= v1_encode(p.model()));
    }
    s.into_bytes()
}

/// The option scan state the exec fields stand for.
pub open spec fn mk_opt_state(
    sf: Option<u32>,
    cs: Option<Vec<u8>>,
    fr: Option<u8>,
    sq: Option<u16>,
    ms: Option<u8>,
) -> OptState {
    OptState {
        supported_functions: sf,
        connection_signature: match cs {
            Some(v) => Some(v@),
            None => None,
        },
        fragment_id: fr,
        initial_sequence: sq,
        max_substream_id: ms,
    }
}

/// Decodes a v1 frame; fails with `Parse` exactly when the frame does not
/// decode.
#[verifier::rlimit(100)]
pub fn decode_v1(data: Vec<u8>) -> (r: Result<PrudpPacket, NexError>)
    ensures
        r matches Ok(p) ==> v1_decode(data@) == Some(p.model()),
        r matches Err(e) ==> e is Parse && v1_decode(data@) is None,
{
    let ghost gdata: Seq<u8> = data@;
    if data.len() < 14 {
        return Err(NexError::Parse("v1 frame is too short".to_owned()));
    }
    if data[0] != 0xEA || data[1] != 0xD0 || data[2] != 1 {
        return Err(NexError::Parse("v1 frame lacks the magic or version".to_owned()));
    }
    let olen: usize = data[3] as usize;
    let plen: usize = (data[4] as u16 + data[5] as u16 * 0x100) as usize;
    proof {
        assert(gdata.subrange(4, 6)[0] == gdata[4]);
        assert(gdata.subrange(4, 6)[1] == gdata[5]);
    }
    let source = data[6];
    let destination = data[7];
    let tf: u16 = data[8] as u16 + data[9] as u16 * 0x100;
    proof {
        assert(gdata.subrange(8, 10)[0] == gdata[8]);
        assert(gdata.subrange(8, 10)[1] == gdata[9]);
    }
    let type_id = match PrudpPacketType::from_value(tf % 16) {
        Some(t) => t,
        None => {
            return Err(NexError::Parse("v1 frame names no packet type".to_owned()));
        },
    };
    let flags_bits: u16 = tf / 16;
    let session_id = data[10];
    let substream_id = data[11];
    let sequence_id: u16 = data[12] as u16 + data[13] as u16 * 0x100;
    proof {
        assert(gdata.subrange(12, 14)[0] == gdata[12]);
        assert(gdata.subrange(12, 14)[1] == gdata[13]);
    }
    if data.len() - 14 < olen || data.len() - 14 - olen < 16 || data.len() - 14 - olen - 16
        != plen {
        return Err(NexError::Parse("v1 declared lengths disagree with the buffer".to_owned()));
    }
    let opts = vstd::slice::slice_subrange(data.as_slice(), 14, 14 + olen);
    let ghost opts_seq: Seq<u8> = opts@;
    proof {
        assert(le16_val(gdata.subrange(4, 6)) == plen);
        assert(le16_val(gdata.subrange(8, 10)) as u16 == tf);
        assert(gdata.len() == 14 + olen + 16 + plen);
        assert(v1_decode(gdata) == (match v1_decode_options(opts_seq, opt_state_empty()) {
            None => None::<PacketModel>,
            Some(st) => Some(v1_packet_of(gdata, type_id, st)),
        }));
    }
    let mut i: usize = 0;
    let mut sf: Option<u32> = None;
    let mut cs: Option<Vec<u8>> = None;
    let mut fr: Option<u8> = None;
    let mut sq: Option<u16> = None;
    let mut ms: Option<u8> = None;
    proof {
        assert(opts_seq.subrange(0, opts_seq.len() as int) =~= opts_seq);
        assert(mk_opt_state(None, None, None, None, None) == opt_state_empty());
    }
    while i < opts.len()
        invariant
            i <= opts_seq.len(),
            gdata == data@,
            opts_seq == opts@,
            opts_seq.len() == olen,
            v1_decode(gdata) == (match v1_decode_options(opts_seq, opt_state_empty()) {
                None => None::<PacketModel>,
                Some(st) => Some(v1_packet_of(gdata, type_id, st)),
            }),
            v1_decode_options(opts_seq, opt_state_empty()) == v1_decode_options(
                opts_seq.subrange(i as int, opts_seq.len() as int),
                mk_opt_state(sf, cs, fr, sq, ms),
            ),
        decreases opts_seq.len() - i,
    {
        let ghost pre_rest: Seq<u8> = opts_seq.subrange(i as int, opts_seq.len() as int);
        let ghost pre_st: OptState = mk_opt_state(sf, cs, fr, sq, ms);
        if opts.len() - i < 2 {
            proof {
                assert(v1_decode_options(pre_rest, pre_st) is None);
                assert(v1_decode(gdata) is None);
            }
            return Err(NexError::Parse("v1 option region ends inside an option".to_owned()));
        }
        let t = opts[i];
        let l: usize = opts[i + 1] as usize;
        proof {
            assert(pre_rest[0] == opts_seq[i as int]);
            assert(pre_rest[1] == opts_seq[i + 1]);
        }
        if opts.len() - i - 2 < l {
            proof {
                assert(pre_rest.len() < 2 + l);
                assert(v1_decode_options(pre_rest, pre_st) is None);
                assert(v1_decode(gdata) is None);
            }
            return Err(NexError::Parse("v1 option value exceeds the region".to_owned()));
        }
        let ghost value: Seq<u8> = pre_rest.subrange(2, 2 + l);
        let ghost rest: Seq<u8> = pre_rest.subrange(2 + l, pre_rest.len() as int);
        proof {
            assert(rest =~= opts_seq.subrange(i + 2 + l, opts_seq.len() as int));
            assert forall|k: int| 0 <= k < l implies value[k] == opts_seq[i + 2 + k] by {
                assert(value[k] == pre_rest[2 + k]);
            }
        }
        if t == 0 {
            if l != 4 {
                proof {
                    assert(v1_decode_options(pre_rest, pre_st) is None);
                }
                return Err(NexError::Parse("v1 supported-functions option is malformed".to_owned()));
            }
            let v: u32 = opts[i + 2] as u32 + opts[i + 3] as u32 * 0x100 + opts[i + 4] as u32
                * 0x10000 + opts[i + 5] as u32 * 0x1000000;
            sf = Some(v);
            proof {
                assert(le32_val(value) == v);
            }
        } else if t == 1 {
            if l != 16 {
                proof {
                    assert(v1_decode_options(pre_rest, pre_st) is None);
                }
                return Err(NexError::Parse("v1 connection-signature option is malformed".to_owned()));
            }
            let v = vstd::slice::slice_to_vec(
                vstd::slice::slice_subrange(opts, i + 2, i + 2 + 16),
            );
            proof {
                assert(v@ =~= value);
            }
            cs = Some(v);
        } else if t == 2 {
            if l != 1 {
                proof {
                    assert(v1_decode_options(pre_rest, pre_st) is None);
                }
                return Err(NexError::Parse("v1 fragment option is malformed".to_owned()));
            }
            fr = Some(opts[i + 2]);
        } else if t == 3 {
            if l != 2 {
                proof {
                    assert(v1_decode_options(pre_rest, pre_st) is None);
                }
                return Err(NexError::Parse("v1 initial-sequence option is malformed".to_owned()));
            }
            let v: u16 = opts[i + 2] as u16 + opts[i + 3] as u16 * 0x100;
            sq = Some(v);
            proof {
                assert(le16_val(value) == v);
            }
        } else if t == 4 {
            if l != 1 {
                proof {
                    assert(v1_decode_options(pre_rest, pre_st) is None);
                }
                return Err(NexError::Parse("v1 max-substream option is malformed".to_owned()));
            }
            ms = Some(opts[i + 2]);
        }
        i = i + 2 + l;
        proof {
            assert(v1_decode_options(pre_rest, pre_st) == v1_decode_options(
                opts_seq.subrange(i as int, opts_seq.len() as int),
                mk_opt_state(sf, cs, fr, sq, ms),
            ));
        }
    }
    proof {
        assert(opts_seq.subrange(opts_seq.len() as int, opts_seq.len() as int)
            =~= Seq::<u8>::empty());
        assert(v1_decode_options(opts_seq, opt_state_empty()) == Some(
            mk_opt_state(sf, cs, fr, sq, ms),
        ));
    }
    let sig_start = 14 + olen;
    let signature_v1 = vstd::slice::slice_to_vec(
        vstd::slice::slice_subrange(data.as_slice(), sig_start, sig_start + 16),
    );
    let payload = vstd::slice::slice_to_vec(
        vstd::slice::slice_subrange(data.as_slice(), sig_start + 16, data.len()),
    );
    let fragment_id: u8 = match fr {
        Some(f) => f,
        None => 0,
    };
    let p = PrudpPacket {
        header: PrudpHeader {
            version: 1,
            source,
            destination,
            type_id,
            flags: PrudpPacketFlags { bits: flags_bits },
            session_id,
            signature: 0,
        },
        sequence_id,
        fragment_id,
        substream_id,
        options: V1Options {
            supported_functions: sf,
            connection_signature: cs,
            initial_sequence: sq,
            max_substream_id: ms,
        },
        signature_v1,
        payload,
    };
    proof {
        assert(v1_decode(gdata) == Some(p.model()));
    }
    Ok(p)
}

// The five option step lemmas: scanning one well-formed TLV updates its
// field and hands the rest of the region on.

proof fn lemma_opt_step_sf(sf: u32, rest: Seq<u8>, st: OptState)
    ensures
        v1_decode_options((seq![0u8, 4u8] + u32_bytes(sf)) + rest, st) == v1_decode_options(
            rest,
            OptState { supported_functions: Some(sf), ..st },
        ),
{
    let b = (seq![0u8, 4u8] + u32_bytes(sf)) + rest;
    assert(b.subrange(2, 6) =~= u32_bytes(sf));
    lemma_u32_bytes_val(sf);
    assert(b.subrange(6, b.len() as int) =~= rest);
}

proof fn lemma_opt_step_cs(cs: Seq<u8>, rest: Seq<u8>, st: OptState)
    requires
        cs.len() == 16,
    ensures
        v1_decode_options((seq![1u8, 16u8] + cs) + rest, st) == v1_decode_options(
            rest,
            OptState { connection_signature: Some(cs), ..st },
        ),
{
    let b = (seq![1u8, 16u8] + cs) + rest;
    assert(b.subrange(2, 18) =~= cs);
    assert(b.subrange(18, b.len() as int) =~= rest);
}

proof fn lemma_opt_step_frag(f: u8, rest: Seq<u8>, st: OptState)
    ensures
        v1_decode_options(seq![2u8, 1u8, f] + rest, st) == v1_decode_options(
            rest,
            OptState { fragment_id: Some(f), ..st },
        ),
{
    let b = seq![2u8, 1u8, f] + rest;
    assert(b.subrange(2, 3) =~= seq![f]);
    assert(b.subrange(3, b.len() as int) =~= rest);
}

proof fn lemma_opt_step_sq(sq: u16, rest: Seq<u8>, st: OptState)
    ensures
        v1_decode_options((seq![3u8, 2u8] + u16_bytes(sq)) + rest, st) == v1_decode_options(
            rest,
            OptState { initial_sequence: Some(sq), ..st },
        ),
{
    let b = (seq![3u8, 2u8] + u16_bytes(sq)) + rest;
    assert(b.subrange(2, 4) =~= u16_bytes(sq));
    lemma_u16_bytes_val(sq);
    assert(b.subrange(4, b.len() as int) =~= rest);
}

proof fn lemma_opt_step_ms(ms: u8, rest: Seq<u8>, st: OptState)
    ensures
        v1_decode_options(seq![4u8, 1u8, ms] + rest, st) == v1_decode_options(
            rest,
            OptState { max_substream_id: Some(ms), ..st },
        ),
{
    let b = seq![4u8, 1u8, ms] + rest;
    assert(b.subrange(2, 3) =~= seq![ms]);
    assert(b.subrange(3, b.len() as int) =~= rest);
}

/// Scanning a canonical option region recovers exactly the encoded options.
#[verifier::rlimit(100)]
#[verifier::spinoff_prover]
proof fn lemma_v1_options_round_trip(p: PacketModel)
    requires
        v1_wf(p),
    ensures
        v1_decode_options(v1_options_bytes(p), opt_state_empty()) == Some(
            OptState {
                supported_functions: p.options.supported_functions,
                connection_signature: p.options.connection_signature,
                fragment_id: if p.type_id is Data {
                    Some(p.fragment_id)
                } else {
                    None
                },
                initial_sequence: p.options.initial_sequence,
                max_substream_id: p.options.max_substream_id,
            },
        ),
{
    let c0: Seq<u8> = match p.options.supported_functions {
        Some(sf) => seq![0u8, 4u8] + u32_bytes(sf),
        None => Seq::<u8>::empty(),
    };
    let c1: Seq<u8> = match p.options.connection_signature {
        Some(cs) => seq![1u8, 16u8] + cs,
        None => Seq::<u8>::empty(),
    };
    let c2: Seq<u8> = if p.type_id is Data {
        seq![2u8, 1u8, p.fragment_id]
    } else {
        Seq::<u8>::empty()
    };
    let c3: Seq<u8> = match p.options.initial_sequence {
        Some(sq) => seq![3u8, 2u8] + u16_bytes(sq),
        None => Seq::<u8>::empty(),
    };
    let c4: Seq<u8> = match p.options.max_substream_id {
        Some(ms) => seq![4u8, 1u8, ms],
        None => Seq::<u8>::empty(),
    };
    let r4 = c4;
    let r3 = c3 + r4;
    let r2 = c2 + r3;
    let r1 = c1 + r2;
    let r0 = c0 + r1;
    assert(v1_options_bytes(p) =~= r0);
    let st0 = opt_state_empty();
    let st1 = match p.options.supported_functions {
        Some(sf) => OptState { supported_functions: Some(sf), ..st0 },
        None => st0,
    };
    match p.options.supported_functions {
        Some(sf) => {
            assert(r0 =~= (seq![0u8, 4u8] + u32_bytes(sf)) + r1);
            lemma_opt_step_sf(sf, r1, st0);
        },
        None => {
            assert(r0 =~= r1);
        },
    }
    assert(v1_decode_options(r0, st0) == v1_decode_options(r1, st1));
    let st2 = match p.options.connection_signature {
        Some(cs) => OptState { connection_signature: Some(cs), ..st1 },
        None => st1,
    };
    match p.options.connection_signature {
        Some(cs) => {
            assert(r1 =~= (seq![1u8, 16u8] + cs) + r2);
            lemma_opt_step_cs(cs, r2, st1);
        },
        None => {
            assert(r1 =~= r2);
        },
    }
    assert(v1_decode_options(r1, st1) == v1_decode_options(r2, st2));
    let st3 = if p.type_id is Data {
        OptState { fragment_id: Some(p.fragment_id), ..st2 }
    } else {
        st2
    };
    if p.type_id is Data {
        assert(r2 =~= seq![2u8, 1u8, p.fragment_id] + r3);
        lemma_opt_step_frag(p.fragment_id, r3, st2);
    } else {
        assert(r2 =~= r3);
    }
    assert(v1_decode_options(r2, st2) == v1_decode_options(r3, st3));
    let st4 = match p.options.initial_sequence {
        Some(sq) => OptState { initial_sequence: Some(sq), ..st3 },
        None => st3,
    };
    match p.options.initial_sequence {
        Some(sq) => {
            assert(r3 =~= (seq![3u8, 2u8] + u16_bytes(sq)) + r4);
            lemma_opt_step_sq(sq, r4, st3);
        },
        None => {
            assert(r3 =~= r4);
        },
    }
    assert(v1_decode_options(r3, st3) == v1_decode_options(r4, st4));
    let st5 = match p.options.max_substream_id {
        Some(ms) => OptState { max_substream_id: Some(ms), ..st4 },
        None => st4,
    };
    match p.options.max_substream_id {
        Some(ms) => {
            lemma_opt_step_ms(ms, Seq::<u8>::empty(), st4);
            assert(r4 =~= seq![4u8, 1u8, ms] + Seq::<u8>::empty());
        },
        None => {
            assert(r4 =~= Seq::<u8>::empty());
        },
    }
    assert(v1_decode_options(r4, st4) == Some(st5));
}

/// What decoding a frame of either framing yields: the 0xEA 0xD0 magic
/// selects the v1 framing, anything else is read as v0 under the checksum
/// key byte.
pub open spec fn packet_decode(b: Seq<u8>, key: u8) -> Option<PacketModel> {
    if b.len() >= 2 && b[0] == 0xEA && b[1] == 0xD0 {
        v1_decode(b)
    } else {
        crate::packet::v0_decode(b, key)
    }
}

/// Decodes a frame of either framing, selected by the leading bytes.
pub fn decode_packet(data: Vec<u8>, key: u8) -> (r: Result<PrudpPacket, NexError>)
    ensures
        r matches Ok(p) ==> packet_decode(data@, key) == Some(p.model()),
        r matches Err(e) ==> e is Parse && packet_decode(data@, key) is None,
{
    if data.len() >= 2 && data[0] == 0xEA && data[1] == 0xD0 {
        decode_v1(data)
    } else {
        crate::packet::decode_v0(data, key)
    }
}

/// A v1 round trip: a well-formed packet decodes from its own v1 frame
/// unchanged.
#[verifier::rlimit(100)]
pub proof fn lemma_v1_round_trip(p: PacketModel)
    requires
        v1_wf(p),
    ensures
        v1_decode(v1_encode(p)) == Some(p),
{
    let b = v1_encode(p);
    let opts = v1_options_bytes(p);
    let olen = opts.len() as int;
    assert(olen <= 34);
    assert(b.len() == 14 + olen + 16 + p.payload.len());
    assert(b[0] == 0xEA && b[1] == 0xD0 && b[2] == 1);
    assert(b[3] == olen as u8);
    assert(b.subrange(4, 6) =~= u16_bytes(p.payload.len() as u16));
    lemma_u16_bytes_val(p.payload.len() as u16);
    assert(b.subrange(8, 10) =~= u16_bytes(type_flags_value(p)));
    lemma_u16_bytes_val(type_flags_value(p));
    let tf = type_flags_value(p);
    assert(p.type_id.value_spec() < 16);
    vstd::arithmetic::div_mod::lemma_fundamental_div_mod_converse(
        tf as int,
        16,
        p.flags_bits as int,
        p.type_id.value_spec() as int,
    );
    crate::constants::lemma_packet_type_value_round_trip(p.type_id);
    assert(b.subrange(12, 14) =~= u16_bytes(p.sequence_id));
    lemma_u16_bytes_val(p.sequence_id);
    assert(b.subrange(14, 14 + olen) =~= opts);
    lemma_v1_options_round_trip(p);
    assert(b.subrange(14 + olen, 14 + olen + 16) =~= p.signature_v1);
    assert(b.subrange(14 + olen + 16, b.len() as int) =~= p.payload);
}

} // verus!
