use vstd::prelude::*;

use crate::bytes::{le16_val, le32_val, u16_bytes, u32_bytes, lemma_u16_bytes_val,
    lemma_u32_bytes_val};
use crate::error::NexError;
use crate::io::{ByteStreamIn, ByteStreamOut};

verus! {

/// The mathematical value of an RMC message: its fields with the parameter
/// bytes as a sequence.
pub ghost struct RmcModel {
    pub is_request: bool,
    pub is_success: bool,
    pub is_hpp: bool,
    pub protocol_id: u16,
    pub call_id: u32,
    pub method_id: u32,
    pub error_code: u32,
    pub parameters: Seq<u8>,
}

/// A remote method call frame: a request (call id, method id, parameters) or
/// a response (success with results, or an error code).
#[derive(Debug, Clone, PartialEq)]
#[verifier::ext_equal]
pub struct RmcMessage {
    pub is_request: bool,
    pub is_success: bool,
    pub is_hpp: bool,
    pub protocol_id: u16,
    pub call_id: u32,
    pub method_id: u32,
    pub error_code: u32,
    pub parameters: Vec<u8>,
}

/// The protocol byte(s) that open a packed body: the protocol id with the
/// request bit, widened through the 0x7F escape when it does not fit 7 bits.
pub open spec fn rmc_proto_bytes(m: RmcModel) -> Seq<u8> {
    let flag: u8 = if m.is_request {
        0x80u8
    } else {
        0u8
    };
    if m.protocol_id < 0x80 {
        seq![(m.protocol_id as u8) | flag]
    } else {
        seq![0x7Fu8 | flag] + u16_bytes(m.protocol_id)
    }
}

/// The packed body after the protocol byte(s).
pub open spec fn rmc_payload_bytes(m: RmcModel) -> Seq<u8> {
    if m.is_request {
        u32_bytes(m.call_id) + u32_bytes(m.method_id) + m.parameters
    } else {
        seq![
            if m.is_success {
                1u8
            } else {
                0u8
            },
        ] + if m.is_success {
            u32_bytes(m.call_id) + u32_bytes(m.method_id | 0x8000u32) + m.parameters
        } else {
            u32_bytes(m.error_code) + u32_bytes(m.call_id)
        }
    }
}

/// The packed body: protocol byte(s) — omitted on HPP responses — then the
/// request or response payload.
pub open spec fn rmc_body_bytes(m: RmcModel) -> Seq<u8> {
    let proto = if !m.is_hpp || m.is_request {
        rmc_proto_bytes(m)
    } else {
        Seq::<u8>::empty()
    };
    proto + rmc_payload_bytes(m)
}

/// The full packed frame: the body length as a 32-bit prefix, then the body.
pub open spec fn rmc_packed_bytes(m: RmcModel) -> Seq<u8> {
    u32_bytes(rmc_body_bytes(m).len() as u32) + rmc_body_bytes(m)
}

/// A message whose packed frame decodes back to the same message: no HPP
/// framing, a protocol id that avoids the 0x7F escape byte itself, and the
/// fields that the chosen variant does not carry left at their defaults.
pub open spec fn rmc_legal(m: RmcModel) -> bool {
    &&& !m.is_hpp
    &&& m.protocol_id != 0x7F
    &&& m.parameters.len() + 16 <= u32::MAX
    &&& m.is_request ==> !m.is_success && m.error_code == 0
    &&& (!m.is_request && m.is_success) ==> m.error_code == 0 && m.method_id & 0x8000u32 == 0
    &&& (!m.is_request && !m.is_success) ==> m.method_id == 0 && m.parameters.len() == 0
}

/// What decoding a packed frame yields, once the length prefix and protocol
/// byte(s) are consumed: `off` is the payload offset, `pid` the protocol id,
/// `protocol` the protocol byte.
pub open spec fn rmc_decode_payload(b: Seq<u8>, off: int, pid: u16, protocol: u8) -> Option<
    RmcModel,
> {
    if protocol & 0x80u8 != 0 {
        if b.len() < off + 8 {
            None
        } else {
            Some(
                RmcModel {
                    is_request: true,
                    is_success: false,
                    is_hpp: false,
                    protocol_id: pid,
                    call_id: le32_val(b.subrange(off, off + 4)) as u32,
                    method_id: le32_val(b.subrange(off + 4, off + 8)) as u32,
                    error_code: 0,
                    parameters: b.subrange(off + 8, b.len() as int),
                },
            )
        }
    } else {
        if b.len() < off + 1 {
            None
        } else if b[off] == 1 {
            if b.len() < off + 9 {
                None
            } else {
                Some(
                    RmcModel {
                        is_request: false,
                        is_success: true,
                        is_hpp: false,
                        protocol_id: pid,
                        call_id: le32_val(b.subrange(off + 1, off + 5)) as u32,
                        method_id: (le32_val(b.subrange(off + 5, off + 9)) as u32)
                            & 0xFFFF7FFFu32,
                        error_code: 0,
                        parameters: b.subrange(off + 9, b.len() as int),
                    },
                )
            }
        } else {
            if b.len() < off + 9 {
                None
            } else {
                Some(
                    RmcModel {
                        is_request: false,
                        is_success: false,
                        is_hpp: false,
                        protocol_id: pid,
                        call_id: le32_val(b.subrange(off + 5, off + 9)) as u32,
                        method_id: 0,
                        error_code: le32_val(b.subrange(off + 1, off + 5)) as u32,
                        parameters: Seq::empty(),
                    },
                )
            }
        }
    }
}

/// What decoding a packed frame yields: `None` marks a truncated frame.
/// The length prefix is read but, as in the wire peers, not checked.
pub open spec fn rmc_decode(b: Seq<u8>) -> Option<RmcModel> {
    if b.len() < 5 {
        None
    } else {
        let protocol = b[4];
        let base = (protocol & 0x7Fu8) as u16;
        if base == 0x7F {
            if b.len() < 7 {
                None
            } else {
                rmc_decode_payload(b, 7, le16_val(b.subrange(5, 7)) as u16, protocol)
            }
        } else {
            rmc_decode_payload(b, 5, base, protocol)
        }
    }
}

impl RmcMessage {
    /// The mathematical value of this message.
    pub open spec fn model(self) -> RmcModel {
        RmcModel {
            is_request: self.is_request,
            is_success: self.is_success,
            is_hpp: self.is_hpp,
            protocol_id: self.protocol_id,
            call_id: self.call_id,
            method_id: self.method_id,
            error_code: self.error_code,
            parameters: self.parameters@,
        }
    }

    /// Decodes a packed frame; fails with `Parse` exactly when the frame is
    /// truncated.
    pub fn from_bytes_packed(data: Vec<u8>) -> (r: Result<RmcMessage, NexError>)
        ensures
            r matches Ok(m) ==> rmc_decode(data@) == Some(m.model()),
            r matches Err(e) ==> e is Parse && rmc_decode(data@) is None,
    {
        let ghost gdata: Seq<u8> = data@;
        let mut s = ByteStreamIn::new(data, None, None);
        let _length = match s.read_u32_le() {
            Ok(v) => v,
            Err(e) => {
                return Err(e);
            },
        };
        let protocol = match s.read_u8() {
            Ok(v) => v,
            Err(e) => {
                return Err(e);
            },
        };
        let base: u16 = (protocol & 0x7F) as u16;
        let (protocol_id, ghost_off): (u16, Ghost<int>) = if base == 0x7F {
            let ext = match s.read_u16_le() {
                Ok(v) => v,
                Err(e) => {
                    return Err(e);
                },
            };
            (ext, Ghost(7int))
        } else {
            (base, Ghost(5int))
        };
        if protocol & 0x80 != 0 {
            let call_id = match s.read_u32_le() {
                Ok(v) => v,
                Err(e) => {
                    return Err(e);
                },
            };
            let method_id = match s.read_u32_le() {
                Ok(v) => v,
                Err(e) => {
                    return Err(e);
                },
            };
            let parameters = s.read_remaining();
            let m = RmcMessage {
                is_request: true,
                is_success: false,
                is_hpp: false,
                protocol_id,
                call_id,
                method_id,
                error_code: 0,
                parameters,
            };
            proof {
                assert(rmc_decode(gdata) == Some(m.model()));
            }
            Ok(m)
        } else {
            let is_success = match s.read_bool() {
                Ok(v) => v,
                Err(e) => {
                    return Err(e);
                },
            };
            if is_success {
                let call_id = match s.read_u32_le() {
                    Ok(v) => v,
                    Err(e) => {
                        return Err(e);
                    },
                };
                let method_id = match s.read_u32_le() {
                    Ok(v) => v,
                    Err(e) => {
                        return Err(e);
                    },
                };
                let method_id = method_id & 0xFFFF7FFF;
                let parameters = s.read_remaining();
                let m = RmcMessage {
                    is_request: false,
                    is_success: true,
                    is_hpp: false,
                    protocol_id,
                    call_id,
                    method_id,
                    error_code: 0,
                    parameters,
                };
                proof {
                    assert(rmc_decode(gdata) == Some(m.model()));
                }
                Ok(m)
            } else {
                let error_code = match s.read_u32_le() {
                    Ok(v) => v,
                    Err(e) => {
                        return Err(e);
                    },
                };
                let call_id = match s.read_u32_le() {
                    Ok(v) => v,
                    Err(e) => {
                        return Err(e);
                    },
                };
                let m = RmcMessage {
                    is_request: false,
                    is_success: false,
                    is_hpp: false,
                    protocol_id,
                    call_id,
                    method_id: 0,
                    error_code,
                    parameters: Vec::new(),
                };
                proof {
                    assert(m.model().parameters =~= Seq::<u8>::empty());
                    assert(rmc_decode(gdata) == Some(m.model()));
                }
                Ok(m)
            }
        }
    }

    /// Encodes this message as a packed frame.
    pub fn to_bytes_packed(&self) -> (r: Vec<u8>)
        requires
            self.parameters@.len() + 16 <= u32::MAX,
        ensures
            r@ == rmc_packed_bytes(self.model()),
    {
        let mut inner = ByteStreamOut::new(None, None);
        let flag: u8 = if self.is_request {
            0x80
        } else {
            0
        };
        if !self.is_hpp || self.is_request {
            if self.protocol_id < 0x80 {
                inner.write_u8((self.protocol_id as u8) | flag);
            } else {
                inner.write_u8(0x7F | flag);
                inner.write_u16_le(self.protocol_id);
            }
            proof {
                assert(inner.out() =~= rmc_proto_bytes(self.model()));
            }
        }
        let ghost proto_out: Seq<u8> = inner.out();
        if self.is_request {
            inner.write_u32_le(self.call_id);
            inner.write_u32_le(self.method_id);
            inner.write(self.parameters.as_slice());
        } else {
            inner.write_bool(self.is_success);
            if self.is_success {
                inner.write_u32_le(self.call_id);
                inner.write_u32_le(self.method_id | 0x8000);
                inner.write(self.parameters.as_slice());
            } else {
                inner.write_u32_le(self.error_code);
                inner.write_u32_le(self.call_id);
            }
        }
        proof {
            assert(inner.out() =~= proto_out + rmc_payload_bytes(self.model()));
            assert(inner.out() =~= rmc_body_bytes(self.model()));
        }
        let body = inner.bytes();
        let body_len: u32 = body.len() as u32;
        let mut msg = ByteStreamOut::new(None, None);
        msg.write_u32_le(body_len);
        msg.write(body);
        let r = msg.into_bytes();
        proof {
            assert(r@ =~= rmc_packed_bytes(self.model()));
        }
        r
    }
}

/// An RMC packed round trip: every legal message decodes from its own
/// packed frame unchanged.
pub proof fn lemma_rmc_packed_round_trip(m: RmcModel)
    requires
        rmc_legal(m),
    ensures
        rmc_decode(rmc_packed_bytes(m)) == Some(m),
{
    let body = rmc_body_bytes(m);
    let b = rmc_packed_bytes(m);
    lemma_u32_bytes_val(body.len() as u32);
    assert(b.len() == 4 + body.len());
    let proto_byte: u8 = if m.protocol_id < 0x80 {
        (m.protocol_id as u8) | (if m.is_request {
            0x80u8
        } else {
            0u8
        })
    } else {
        0x7Fu8 | (if m.is_request {
            0x80u8
        } else {
            0u8
        })
    };
    assert(b[4] == proto_byte);
    if m.protocol_id < 0x80 {
        let pid8 = m.protocol_id as u8;
        assert(pid8 < 0x80 && pid8 != 0x7F ==> ((pid8 | 0x80u8) & 0x7Fu8) == pid8 && ((pid8
            | 0u8) & 0x7Fu8) == pid8 && ((pid8 | 0x80u8) & 0x80u8) != 0 && ((pid8 | 0u8)
            & 0x80u8) == 0) by (bit_vector);
        let off: int = 5;
        lemma_rmc_payload_round_trip(m, b, off);
    } else {
        assert(((0x7Fu8 | 0x80u8) & 0x7Fu8) == 0x7F && ((0x7Fu8 | 0u8) & 0x7Fu8) == 0x7F && ((
        0x7Fu8 | 0x80u8) & 0x80u8) != 0 && ((0x7Fu8 | 0u8) & 0x80u8) == 0) by (bit_vector);
        assert(b.subrange(5, 7) =~= u16_bytes(m.protocol_id));
        lemma_u16_bytes_val(m.protocol_id);
        let off: int = 7;
        lemma_rmc_payload_round_trip(m, b, off);
    }
}

/// The payload half of the packed round trip: with the length prefix and the
/// protocol byte(s) consumed at `off`, the payload decodes back to `m`.
proof fn lemma_rmc_payload_round_trip(m: RmcModel, b: Seq<u8>, off: int)
    requires
        rmc_legal(m),
        b == rmc_packed_bytes(m),
        off == 4 + rmc_proto_bytes(m).len(),
    ensures
        forall|protocol: u8|
            ((protocol & 0x80u8 != 0) == m.is_request) ==> rmc_decode_payload(
                b,
                off,
                m.protocol_id,
                protocol,
            ) == Some(m),
{
    let payload = rmc_payload_bytes(m);
    assert(b.len() == off + payload.len());
    assert(b.subrange(off, b.len() as int) =~= payload);
    assert forall|protocol: u8| ((protocol & 0x80u8 != 0) == m.is_request) implies rmc_decode_payload(
        b,
        off,
        m.protocol_id,
        protocol,
    ) == Some(m) by {
        if m.is_request {
            assert(b.subrange(off, off + 4) =~= u32_bytes(m.call_id));
            assert(b.subrange(off + 4, off + 8) =~= u32_bytes(m.method_id));
            assert(b.subrange(off + 8, b.len() as int) =~= m.parameters);
            lemma_u32_bytes_val(m.call_id);
            lemma_u32_bytes_val(m.method_id);
        } else if m.is_success {
            assert(b[off] == 1);
            assert(b.subrange(off + 1, off + 5) =~= u32_bytes(m.call_id));
            assert(b.subrange(off + 5, off + 9) =~= u32_bytes(m.method_id | 0x8000u32));
            assert(b.subrange(off + 9, b.len() as int) =~= m.parameters);
            lemma_u32_bytes_val(m.call_id);
            lemma_u32_bytes_val(m.method_id | 0x8000u32);
            let mid = m.method_id;
            assert(mid & 0x8000u32 == 0 ==> ((mid | 0x8000u32) & 0xFFFF7FFFu32) == mid)
                by (bit_vector);
        } else {
            assert(b[off] == 0);
            assert(b.subrange(off + 1, off + 5) =~= u32_bytes(m.error_code));
            assert(b.subrange(off + 5, off + 9) =~= u32_bytes(m.call_id));
            lemma_u32_bytes_val(m.error_code);
            lemma_u32_bytes_val(m.call_id);
            assert(m.parameters =~= Seq::<u8>::empty());
        }
    }
}

} // verus!
