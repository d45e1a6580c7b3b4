use vstd::prelude::*;

use crate::bytes::{le32_val, sum_bytes};

verus! {

/// The v0 trailing checksum: the byte sum of the framed bytes, reduced
/// modulo 256 and folded with the key byte derived from the access key.
pub open spec fn checksum_spec(s: Seq<u8>, key: u8) -> u8 {
    ((sum_bytes(s) % 256) as u8) ^ key
}

/// The key byte an access key yields: its byte sum modulo 256.
pub open spec fn key_byte_spec(key: Seq<u8>) -> u8 {
    (sum_bytes(key) % 256) as u8
}

/// The byte sum of a buffer, modulo 256.
pub fn sum_mod256(data: &[u8]) -> (r: u8)
    ensures
        r == sum_bytes(data@) % 256,
{
    let mut acc: u8 = 0;
    let mut i: usize = 0;
    while i < data.len()
        invariant
            i <= data@.len(),
            acc == sum_bytes(data@.take(i as int)) % 256,
        decreases data@.len() - i,
    {
        proof {
            assert(data@.take(i + 1).drop_last() =~= data@.take(i as int));
            assert(data@.take(i + 1).last() == data@[i as int]);
        }
        acc = acc.wrapping_add(data[i]);
        proof {
            let s = sum_bytes(data@.take(i as int));
            let b = data@[i as int] as int;
            assert((s % 256 + b) % 256 == (s + b) % 256) by {
                vstd::arithmetic::div_mod::lemma_add_mod_noop(s, b, 256);
                vstd::arithmetic::div_mod::lemma_mod_twice(s, 256);
                vstd::arithmetic::div_mod::lemma_mod_twice(b, 256);
                vstd::arithmetic::div_mod::lemma_add_mod_noop(s % 256, b, 256);
            }
        }
        i += 1;
    }
    proof {
        assert(data@.take(data@.len() as int) =~= data@);
    }
    acc
}

/// The v0 trailing checksum of a framed buffer under the given key byte.
pub fn compute_checksum(data: &[u8], key: u8) -> (r: u8)
    ensures
        r == checksum_spec(data@, key),
{
    sum_mod256(data) ^ key
}

/// The key byte of an access key.
pub fn compute_key_byte(access_key: &[u8]) -> (r: u8)
    ensures
        r == key_byte_spec(access_key@),
{
    sum_mod256(access_key)
}

/// What md5::compute yields for an input: a pure 16-byte digest.
pub uninterp spec fn md5_of(data: Seq<u8>) -> Seq<u8>;

/// Relies on md5::compute: the digest depends on the input bytes alone and
/// is 16 bytes long.
#[verifier::external_body]
fn md5_digest(data: &[u8]) -> (r: Vec<u8>)
    ensures
        r@ == md5_of(data@),
        r@.len() == 16,
{
    md5::compute(data).0.to_vec()
}

/// An HMAC key brought to the 64-byte block size: digested when longer,
/// zero-padded when shorter.
pub open spec fn hmac_block_key(key: Seq<u8>) -> Seq<u8> {
    let k = if key.len() > 64 {
        md5_of(key)
    } else {
        key
    };
    if k.len() >= 64 {
        k.take(64)
    } else {
        k + Seq::new((64 - k.len()) as nat, |i: int| 0u8)
    }
}

/// HMAC-MD5 of a message under a key.
pub open spec fn hmac_md5_spec(key: Seq<u8>, msg: Seq<u8>) -> Seq<u8> {
    let k0 = hmac_block_key(key);
    let ikey = Seq::new(64, |i: int| k0[i] ^ 0x36u8);
    let okey = Seq::new(64, |i: int| k0[i] ^ 0x5Cu8);
    md5_of(okey + md5_of(ikey + msg))
}

/// HMAC-MD5 of a message under a key: the inner digest over the 0x36 pad,
/// the outer digest over the 0x5C pad.
pub fn hmac_md5(key: &[u8], msg: &[u8]) -> (r: Vec<u8>)
    ensures
        r@ == hmac_md5_spec(key@, msg@),
        r@.len() == 16,
{
    let digested_key: Vec<u8>;
    let short_key: &[u8] = if key.len() > 64 {
        digested_key = md5_digest(key);
        digested_key.as_slice()
    } else {
        key
    };
    let mut k0: Vec<u8> = Vec::new();
    let mut i: usize = 0;
    while i < 64
        invariant
            i <= 64,
            k0@.len() == i,
            forall|j: int|
                0 <= j < i ==> k0@[j] == (if j < short_key@.len() {
                    short_key@[j]
                } else {
                    0u8
                }),
        decreases 64 - i,
    {
        if i < short_key.len() {
            let b = short_key[i];
            k0.push(b);
        } else {
            k0.push(0);
        }
        i += 1;
    }
    proof {
        assert(k0@ =~= hmac_block_key(key@));
    }
    let mut inner: Vec<u8> = Vec::new();
    let mut outer: Vec<u8> = Vec::new();
    let mut i: usize = 0;
    while i < 64
        invariant
            i <= 64,
            k0@.len() == 64,
            k0@ == hmac_block_key(key@),
            inner@ == Seq::new(i as nat, |j: int| k0@[j] ^ 0x36u8),
            outer@ == Seq::new(i as nat, |j: int| k0@[j] ^ 0x5Cu8),
        decreases 64 - i,
    {
        let b = k0[i];
        inner.push(b ^ 0x36);
        outer.push(b ^ 0x5C);
        proof {
            assert(inner@ =~= Seq::new((i + 1) as nat, |j: int| k0@[j] ^ 0x36u8));
            assert(outer@ =~= Seq::new((i + 1) as nat, |j: int| k0@[j] ^ 0x5Cu8));
        }
        i += 1;
    }
    let mut inner_msg = inner;
    inner_msg.extend_from_slice(msg);
    let inner_digest = md5_digest(inner_msg.as_slice());
    let mut outer_msg = outer;
    outer_msg.extend_from_slice(inner_digest.as_slice());
    let r = md5_digest(outer_msg.as_slice());
    proof {
        let k0s = hmac_block_key(key@);
        let ikey = Seq::new(64, |j: int| k0s[j] ^ 0x36u8);
        let okey = Seq::new(64, |j: int| k0s[j] ^ 0x5Cu8);
        assert(inner_msg@ =~= ikey + msg@);
        assert(outer_msg@ =~= okey + md5_of(ikey + msg@));
    }
    r
}

/// The v1 packet signature: HMAC-MD5 over the header without its signature
/// field, the packet-specific seed, and the payload, keyed by the digest of
/// the access key.
pub open spec fn v1_signature_spec(
    access_key: Seq<u8>,
    header: Seq<u8>,
    seed: Seq<u8>,
    payload: Seq<u8>,
) -> Seq<u8> {
    hmac_md5_spec(md5_of(access_key), header + seed + payload)
}

/// Computes the v1 packet signature.
pub fn compute_v1_signature(access_key: &[u8], header: &[u8], seed: &[u8], payload: &[u8]) -> (r:
    Vec<u8>)
    ensures
        r@ == v1_signature_spec(access_key@, header@, seed@, payload@),
        r@.len() == 16,
{
    let key = md5_digest(access_key);
    let mut msg: Vec<u8> = Vec::new();
    msg.extend_from_slice(header);
    msg.extend_from_slice(seed);
    msg.extend_from_slice(payload);
    let r = hmac_md5(key.as_slice(), msg.as_slice());
    proof {
        assert(msg@ =~= header@ + seed@ + payload@);
    }
    r
}

/// The v0 packet signature: the 32-bit reduction of the digest over the
/// access key followed by the connection signature — the first four digest
/// bytes read little-endian.
pub open spec fn v0_signature_spec(access_key: Seq<u8>, connection_signature: Seq<u8>) -> int {
    le32_val(md5_of(access_key + connection_signature).take(4))
}

/// Computes the v0 packet signature.
pub fn compute_v0_signature(access_key: &[u8], connection_signature: &[u8]) -> (r: u32)
    ensures
        r == v0_signature_spec(access_key@, connection_signature@),
{
    let mut msg: Vec<u8> = Vec::new();
    msg.extend_from_slice(access_key);
    msg.extend_from_slice(connection_signature);
    let d = md5_digest(msg.as_slice());
    let r = d[0] as u32 + d[1] as u32 * 0x100 + d[2] as u32 * 0x10000 + d[3] as u32 * 0x1000000;
    proof {
        assert(msg@ =~= access_key@ + connection_signature@);
        let dg = md5_of(access_key@ + connection_signature@);
        assert(dg.take(4)[0] == dg[0]);
        assert(dg.take(4)[1] == dg[1]);
        assert(dg.take(4)[2] == dg[2]);
        assert(dg.take(4)[3] == dg[3]);
    }
    r
}


/// Whether two byte buffers hold the same bytes.
pub fn bytes_equal(a: &[u8], b: &[u8]) -> (r: bool)
    ensures
        r == (a@ == b@),
{
    if a.len() != b.len() {
        return false;
    }
    let mut i: usize = 0;
    while i < a.len()
        invariant
            a@.len() == b@.len(),
            i <= a@.len(),
            forall|j: int| 0 <= j < i ==> a@[j] == b@[j],
        decreases a@.len() - i,
    {
        if a[i] != b[i] {
            return false;
        }
        i += 1;
    }
    proof {
        assert(a@ =~= b@);
    }
    true
}

/// Whether a received 16-byte tag is the v1 signature of the packet.
pub fn v1_signature_matches(
    access_key: &[u8],
    header: &[u8],
    seed: &[u8],
    payload: &[u8],
    received: &[u8],
) -> (r: bool)
    ensures
        r == (v1_signature_spec(access_key@, header@, seed@, payload@) == received@),
{
    let computed = compute_v1_signature(access_key, header, seed, payload);
    bytes_equal(computed.as_slice(), received)
}

/// Mismatched packet signatures are dropped silently but counted; past the
/// configured ceiling the connection is to be torn down.
pub struct SignatureMonitor {
    failures: u32,
    ceiling: u32,
}

impl SignatureMonitor {
    /// How many mismatches have been seen.
    pub closed spec fn failures_spec(&self) -> u32 {
        self.failures
    }

    /// How many mismatches the connection tolerates.
    pub closed spec fn ceiling_spec(&self) -> u32 {
        self.ceiling
    }

    pub fn new(ceiling: u32) -> (r: Self)
        requires
            ceiling >= 1,
        ensures
            r.failures_spec() == 0,
            r.ceiling_spec() == ceiling,
    {
        SignatureMonitor { failures: 0, ceiling }
    }

    /// Counts one mismatched signature; the answer says whether the count
    /// has reached the ceiling and the connection must be torn down.
    pub fn record_failure(&mut self) -> (tear_down: bool)
        ensures
            final(self).ceiling_spec() == old(self).ceiling_spec(),
            old(self).failures_spec() < u32::MAX ==> final(self).failures_spec() == old(
                self,
            ).failures_spec() + 1,
            old(self).failures_spec() == u32::MAX ==> final(self).failures_spec()
                == u32::MAX,
            tear_down == (final(self).failures_spec() >= final(self).ceiling_spec()),
    {
        if self.failures < u32::MAX {
            self.failures = self.failures + 1;
        }
        self.failures >= self.ceiling
    }
}

} // verus!

