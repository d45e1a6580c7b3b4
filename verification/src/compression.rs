use vstd::prelude::*;

use crate::error::NexError;

verus! {

// Payload compression: the pass-through transform, the zlib transform with
// its one-byte ratio framing, and the unimplemented LZO placeholder.

/// What flate2's zlib encoder produces for an input. With the bundled
/// backend the stream depends on the input bytes alone.
pub uninterp spec fn deflated(data: Seq<u8>) -> Seq<u8>;

/// What flate2's zlib decoder produces for a well-formed stream.
pub uninterp spec fn inflated(data: Seq<u8>) -> Seq<u8>;

/// Relies on flate2::write::ZlibEncoder into a Vec: compression at the
/// default level is a pure function of the input bytes, and it cannot
/// fail, since the Vec sink never errors and the fixed parameters are
/// valid.
#[verifier::external_body]
fn zlib_deflate(input: &[u8]) -> (r: Result<Vec<u8>, NexError>)
    ensures
        r is Ok,
        r matches Ok(v) ==> v@ == deflated(input@) && v@.len() >= 1,
{
    let mut enc = flate2::write::ZlibEncoder::new(Vec::new(), flate2::Compression::default());
    match std::io::Write::write_all(&mut enc, input) {
        Ok(()) => {},
        Err(e) => {
            return Err(NexError::Io(format!("{}", e)));
        },
    }
    match enc.finish() {
        Ok(v) => Ok(v),
        Err(e) => Err(NexError::Io(format!("{}", e))),
    }
}

/// Relies on flate2::read::ZlibDecoder: decompression is a pure function of
/// the stream, and decompressing what the encoder produced yields the
/// original input back.
#[verifier::external_body]
fn zlib_inflate(input: &[u8]) -> (r: Result<Vec<u8>, NexError>)
    ensures
        r matches Ok(v) ==> v@ == inflated(input@),
        r matches Ok(v) ==> forall|p: Seq<u8>| input@ == deflated(p) ==> v@ == p,
        r matches Err(e) ==> e is Parse && forall|p: Seq<u8>| input@ != deflated(p),
{
    let mut dec = flate2::read::ZlibDecoder::new(input);
    let mut out = Vec::new();
    match std::io::Read::read_to_end(&mut dec, &mut out) {
        Ok(_) => Ok(out),
        Err(e) => Err(NexError::Parse(format!("{}", e))),
    }
}

/// The ratio byte of the zlib framing: how many times the plain text
/// outweighs the compressed stream, plus one, reduced to a byte; zero for
/// an empty stream.
pub open spec fn zlib_ratio_byte(plain_len: int, compressed_len: int) -> u8 {
    if compressed_len == 0 {
        0u8
    } else {
        ((plain_len / compressed_len + 1) % 256) as u8
    }
}

/// The framed zlib transform of an input: the ratio byte, then the stream.
pub open spec fn zlib_frame_bytes(input: Seq<u8>) -> Seq<u8> {
    seq![zlib_ratio_byte(input.len() as int, deflated(input).len() as int)] + deflated(input)
}

/// A byte-transform capability: compression and decompression over buffers.
pub trait CompressionAlgorithm {
    fn compress(&self, input: &[u8]) -> Result<Vec<u8>, NexError>;

    fn decompress(&self, input: &[u8]) -> Result<Vec<u8>, NexError>;
}

/// The pass-through transform.
pub struct Dummy;

impl Dummy {
    /// The pass-through of a buffer: compression is the identity.
    pub fn compress_bytes(input: &[u8]) -> (r: Result<Vec<u8>, NexError>)
        ensures
            r matches Ok(v) && v@ == input@,
    {
        Ok(vstd::slice::slice_to_vec(input))
    }

    /// The pass-through of a buffer: decompression is the identity.
    pub fn decompress_bytes(input: &[u8]) -> (r: Result<Vec<u8>, NexError>)
        ensures
            r matches Ok(v) && v@ == input@,
    {
        Ok(vstd::slice::slice_to_vec(input))
    }
}

impl CompressionAlgorithm for Dummy {
    fn compress(&self, input: &[u8]) -> Result<Vec<u8>, NexError> {
        Dummy::compress_bytes(input)
    }

    fn decompress(&self, input: &[u8]) -> Result<Vec<u8>, NexError> {
        Dummy::decompress_bytes(input)
    }
}

pub fn new_dummy() -> Dummy {
    Dummy
}

/// The zlib transform with the ratio-byte framing.
pub struct Zlib;

impl Zlib {
    /// Compresses and frames a payload; the framed bytes are exactly the
    /// ratio byte followed by the zlib stream, and framing always
    /// succeeds.
    pub fn compress_bytes(input: &[u8]) -> (r: Result<Vec<u8>, NexError>)
        ensures
            r matches Ok(v) && v@ == zlib_frame_bytes(input@),
    {
        let compressed = match zlib_deflate(input) {
            Ok(v) => v,
            Err(e) => {
                return Err(e);
            },
        };
        let ratio: u8 = if compressed.len() == 0 {
            0
        } else {
            let q: usize = input.len() / compressed.len();
            let rm: usize = q % 256;
            let rb: usize = (rm + 1) % 256;
            proof {
                vstd::arithmetic::div_mod::lemma_add_mod_noop(q as int, 1, 256);
                vstd::arithmetic::div_mod::lemma_mod_twice(q as int, 256);
                vstd::arithmetic::div_mod::lemma_small_mod(1nat, 256nat);
                assert(rb == (q + 1) % 256);
            }
            rb as u8
        };
        let mut out: Vec<u8> = Vec::new();
        out.push(ratio);
        out.extend_from_slice(compressed.as_slice());
        proof {
            assert(out@ =~= zlib_frame_bytes(input@));
        }
        Ok(out)
    }

    /// Unframes and decompresses a payload. An empty buffer stays empty; a
    /// zero ratio byte marks an uncompressed remainder; otherwise the
    /// remainder is inflated and the ratio byte must match the recomputed
    /// value. Every frame that `compress_bytes` produced with a ratio under
    /// 256 comes back as the original input.
    pub fn decompress_bytes(input: &[u8]) -> (r: Result<Vec<u8>, NexError>)
        ensures
            input@.len() == 0 ==> (r matches Ok(v) && v@ == Seq::<u8>::empty()),
            input@.len() > 0 && input@[0] == 0 ==> (r matches Ok(v) && v@ == input@.skip(1)),
            r matches Ok(v) ==> (input@.len() > 0 && input@[0] != 0 ==> v@ == inflated(
                input@.skip(1),
            ) && input@[0] == v@.len() as int / (input@.len() - 1) + 1),
            forall|p: Seq<u8>|
                (input@ == zlib_frame_bytes(p) && deflated(p).len() >= 1 && p.len() as int
                    / deflated(p).len() as int + 1 < 256) ==> (r matches Ok(v) && v@ == p),
            r matches Err(e) ==> e is Parse,
    {
        if input.len() == 0 {
            return Ok(Vec::new());
        }
        let ratio = input[0];
        let rest = vstd::slice::slice_subrange(input, 1, input.len());
        if ratio == 0 {
            return Ok(vstd::slice::slice_to_vec(rest));
        }
        let out = match zlib_inflate(rest) {
            Ok(v) => v,
            Err(e) => {
                proof {
                    assert forall|p: Seq<u8>|
                        input@ == zlib_frame_bytes(p) && deflated(p).len() >= 1 implies false by {
                        assert(rest@ =~= deflated(p));
                    }
                }
                return Err(e);
            },
        };
        if rest.len() == 0 {
            return Err(
                NexError::Parse("zlib ratio byte disagrees with the recomputed value".to_owned()),
            );
        }
        let q: usize = out.len() / rest.len();
        if q >= 255 || q + 1 != ratio as usize {
            proof {
                assert forall|p: Seq<u8>|
                    (input@ == zlib_frame_bytes(p) && deflated(p).len() >= 1 && p.len() as int
                        / deflated(p).len() as int + 1 < 256) implies false by {
                    assert(rest@ =~= deflated(p));
                    assert(out@ == p);
                    vstd::arithmetic::div_mod::lemma_small_mod(
                        (p.len() as int / deflated(p).len() as int + 1) as nat,
                        256nat,
                    );
                }
            }
            return Err(
                NexError::Parse("zlib ratio byte disagrees with the recomputed value".to_owned()),
            );
        }
        proof {
            assert forall|p: Seq<u8>|
                (input@ == zlib_frame_bytes(p) && deflated(p).len() >= 1 && p.len() as int
                    / deflated(p).len() as int + 1 < 256) implies out@ == p by {
                assert(rest@ =~= deflated(p));
            }
        }
        Ok(out)
    }
}

impl CompressionAlgorithm for Zlib {
    fn compress(&self, input: &[u8]) -> Result<Vec<u8>, NexError> {
        Zlib::compress_bytes(input)
    }

    fn decompress(&self, input: &[u8]) -> Result<Vec<u8>, NexError> {
        Zlib::decompress_bytes(input)
    }
}

pub fn new_zlib() -> Zlib {
    Zlib
}

/// The LZO transform is referenced by the wire protocol but not
/// implemented; both directions report it as unsupported.
pub struct Lzo;

impl Lzo {
    /// Compression under LZO is not offered.
    pub fn compress_bytes(_input: &[u8]) -> (r: Result<Vec<u8>, NexError>)
        ensures
            r matches Err(e) && e is Unsupported,
    {
        Err(NexError::Unsupported("LZO compression not implemented".to_owned()))
    }

    /// Decompression under LZO is not offered.
    pub fn decompress_bytes(_input: &[u8]) -> (r: Result<Vec<u8>, NexError>)
        ensures
            r matches Err(e) && e is Unsupported,
    {
        Err(NexError::Unsupported("LZO decompression not implemented".to_owned()))
    }
}

impl CompressionAlgorithm for Lzo {
    fn compress(&self, input: &[u8]) -> Result<Vec<u8>, NexError> {
        Lzo::compress_bytes(input)
    }

    fn decompress(&self, input: &[u8]) -> Result<Vec<u8>, NexError> {
        Lzo::decompress_bytes(input)
    }
}

pub fn new_lzo() -> Lzo {
    Lzo
}

} // verus!
