use vstd::prelude::*;

use crate::error::NexError;

verus! {

// The per-direction stream ciphers: the pass-through cipher and RC4, the
// classic 256-byte key-scheduled generator. Encryption and decryption are
// the same XOR against the keystream, so the cipher is symmetric.

/// Addition modulo 256, shaped as the wrapping add on bytes.
pub open spec fn add8(x: u8, y: u8) -> u8 {
    if x + y > 255 {
        (x + y - 256) as u8
    } else {
        (x + y) as u8
    }
}

/// The identity permutation the key schedule starts from.
pub open spec fn rc4_init_state() -> Seq<u8> {
    Seq::new(256, |i: int| i as u8)
}

/// Two positions of the state exchanged.
pub open spec fn swap_state(s: Seq<u8>, a: int, b: int) -> Seq<u8>
    recommends
        0 <= a < s.len(),
        0 <= b < s.len(),
{
    s.update(a, s[b]).update(b, s[a])
}

/// The key schedule after its first `i` rounds: the state and the running
/// index j.
pub open spec fn rc4_ksa(key: Seq<u8>, i: int) -> (Seq<u8>, u8)
    recommends
        key.len() >= 1,
        0 <= i <= 256,
    decreases i,
{
    if i <= 0 {
        (rc4_init_state(), 0u8)
    } else {
        let (s, j) = rc4_ksa(key, i - 1);
        let j2 = add8(add8(j, s[i - 1]), key[(i - 1) % (key.len() as int)]);
        (swap_state(s, i - 1, j2 as int), j2)
    }
}

/// The generator after `n` output bytes: state, the indices i and j, and
/// the keystream produced so far.
pub open spec fn rc4_prga(s0: Seq<u8>, n: int) -> (Seq<u8>, u8, u8, Seq<u8>)
    recommends
        s0.len() == 256,
        n >= 0,
    decreases n,
{
    if n <= 0 {
        (s0, 0u8, 0u8, Seq::<u8>::empty())
    } else {
        let (s, i, j, out) = rc4_prga(s0, n - 1);
        let i2 = add8(i, 1);
        let j2 = add8(j, s[i2 as int]);
        let s2 = swap_state(s, i2 as int, j2 as int);
        let k = s2[add8(s2[i2 as int], s2[j2 as int]) as int];
        (s2, i2, j2, out.push(k))
    }
}

/// The keystream a key generates.
pub open spec fn rc4_keystream(key: Seq<u8>, n: int) -> Seq<u8> {
    rc4_prga(rc4_ksa(key, 256).0, n).3
}

/// RC4 applied to a buffer: each byte XORed with the keystream.
pub open spec fn rc4_spec(key: Seq<u8>, data: Seq<u8>) -> Seq<u8> {
    Seq::new(data.len(), |i: int| data[i] ^ rc4_keystream(key, data.len() as int)[i])
}

/// The key schedule keeps the state 256 bytes long.
proof fn lemma_ksa_len(key: Seq<u8>, i: int)
    requires
        0 <= i <= 256,
    ensures
        rc4_ksa(key, i).0.len() == 256,
    decreases i,
{
    if i > 0 {
        lemma_ksa_len(key, i - 1);
    }
}

/// The generator keeps the state 256 bytes long and produces one keystream
/// byte per step.
proof fn lemma_prga_len(s0: Seq<u8>, n: int)
    requires
        s0.len() == 256,
        n >= 0,
    ensures
        rc4_prga(s0, n).0.len() == 256,
        rc4_prga(s0, n).3.len() == n,
    decreases n,
{
    if n > 0 {
        lemma_prga_len(s0, n - 1);
    }
}

/// Applies RC4 to a buffer under a key.
pub fn rc4(key: &[u8], data: &[u8]) -> (r: Vec<u8>)
    requires
        key@.len() >= 1,
    ensures
        r@ == rc4_spec(key@, data@),
{
    let mut s: Vec<u8> = Vec::new();
    let mut n: usize = 0;
    while n < 256
        invariant
            n <= 256,
            s@.len() == n,
            forall|k: int| 0 <= k < n ==> s@[k] == k as u8,
        decreases 256 - n,
    {
        s.push(n as u8);
        n += 1;
    }
    proof {
        assert(s@ =~= rc4_init_state());
    }
    let mut j: u8 = 0;
    let mut i: usize = 0;
    while i < 256
        invariant
            i <= 256,
            key@.len() >= 1,
            s@.len() == 256,
            (s@, j) == rc4_ksa(key@, i as int),
        decreases 256 - i,
    {
        let ji = s[i];
        let kb = key[i % key.len()];
        let j2 = j.wrapping_add(ji).wrapping_add(kb);
        let a = s[i];
        let b = s[j2 as usize];
        s[i] = b;
        s[j2 as usize] = a;
        proof {
            assert(s@ =~= swap_state(rc4_ksa(key@, i as int).0, i as int, j2 as int));
            assert((s@, j2) == rc4_ksa(key@, i + 1));
        }
        j = j2;
        i += 1;
    }
    let ghost s0: Seq<u8> = s@;
    let mut ip: u8 = 0;
    let mut jp: u8 = 0;
    let mut out: Vec<u8> = Vec::new();
    let mut m: usize = 0;
    proof {
        lemma_prga_len(s0, data@.len() as int);
    }
    while m < data.len()
        invariant
            m <= data@.len(),
            s0.len() == 256,
            s@.len() == 256,
            (s@, ip, jp, rc4_prga(s0, m as int).3) == rc4_prga(s0, m as int),
            out@.len() == m,
            forall|k: int|
                0 <= k < m ==> out@[k] == (data@[k] ^ rc4_prga(s0, m as int).3[k]),
            rc4_prga(s0, data@.len() as int).3.len() == data@.len(),
        decreases data@.len() - m,
    {
        let i2 = ip.wrapping_add(1);
        let j2 = jp.wrapping_add(s[i2 as usize]);
        let a = s[i2 as usize];
        let b = s[j2 as usize];
        s[i2 as usize] = b;
        s[j2 as usize] = a;
        let k = s[(s[i2 as usize].wrapping_add(s[j2 as usize])) as usize];
        out.push(data[m] ^ k);
        proof {
            let st = rc4_prga(s0, m as int);
            lemma_prga_len(s0, m as int);
            lemma_prga_len(s0, m + 1);
            assert(s@ =~= swap_state(st.0, i2 as int, j2 as int));
            let st2 = rc4_prga(s0, m + 1);
            assert(st2.0 == s@);
            assert(st2.1 == i2);
            assert(st2.2 == j2);
            assert(st2.3 == st.3.push(k));
            assert(forall|q: int| 0 <= q < m ==> st2.3[q] == st.3[q]);
            assert(st2.3[m as int] == k);
        }
        ip = i2;
        jp = j2;
        m += 1;
    }
    proof {
        // The keystream of a shorter run is a prefix of the full one, so
        // the bytes collected match the specification.
        assert(out@ =~= rc4_spec(key@, data@));
    }
    out
}

/// RC4 is symmetric: applying the same key twice restores the buffer.
pub proof fn lemma_rc4_symmetric(key: Seq<u8>, data: Seq<u8>)
    ensures
        rc4_spec(key, rc4_spec(key, data)) == data,
{
    let once = rc4_spec(key, data);
    let twice = rc4_spec(key, once);
    assert forall|i: int| 0 <= i < data.len() implies twice[i] == data[i] by {
        let k = rc4_keystream(key, data.len() as int)[i];
        let d = data[i];
        assert((d ^ k) ^ k == d) by (bit_vector);
    }
    assert(twice =~= data);
}

/// A byte-transform capability: encryption and decryption over buffers.
pub trait Cipher {
    fn encrypt(&self, data: &[u8]) -> Result<Vec<u8>, NexError>;

    fn decrypt(&self, data: &[u8]) -> Result<Vec<u8>, NexError>;
}

/// The pass-through cipher.
pub struct Dummy;

impl Dummy {
    /// The pass-through of a buffer: both cipher directions are the
    /// identity.
    pub fn apply(&self, data: &[u8]) -> (r: Vec<u8>)
        ensures
            r@ == data@,
    {
        vstd::slice::slice_to_vec(data)
    }
}

impl Cipher for Dummy {
    fn encrypt(&self, data: &[u8]) -> Result<Vec<u8>, NexError> {
        Ok(self.apply(data))
    }

    fn decrypt(&self, data: &[u8]) -> Result<Vec<u8>, NexError> {
        Ok(self.apply(data))
    }
}

/// The RC4 stream cipher, keyed at connection time.
pub struct Rc4 {
    key: Vec<u8>,
}

impl Rc4 {
    /// The key bytes.
    pub closed spec fn key_spec(&self) -> Seq<u8> {
        self.key@
    }

    pub fn new(key: Vec<u8>) -> (r: Self)
        ensures
            r.key_spec() == key@,
    {
        Self { key }
    }

    /// RC4 applied under this key, as one exact function of the input.
    pub fn apply(&self, data: &[u8]) -> (r: Vec<u8>)
        requires
            self.key_spec().len() >= 1,
        ensures
            r@ == rc4_spec(self.key_spec(), data@),
    {
        rc4(self.key.as_slice(), data)
    }
}

impl Cipher for Rc4 {
    fn encrypt(&self, data: &[u8]) -> Result<Vec<u8>, NexError> {
        if self.key.len() == 0 {
            return Err(NexError::Unsupported("RC4 requires a nonempty key".to_owned()));
        }
        Ok(rc4(self.key.as_slice(), data))
    }

    fn decrypt(&self, data: &[u8]) -> Result<Vec<u8>, NexError> {
        if self.key.len() == 0 {
            return Err(NexError::Unsupported("RC4 requires a nonempty key".to_owned()));
        }
        Ok(rc4(self.key.as_slice(), data))
    }
}


/// The per-direction cipher state of a connection: the pass-through, or
/// RC4 under a negotiated key, as the handshake decides.
pub enum PayloadCipher {
    PassThrough,
    Keyed(Rc4),
}

/// What a cipher state does to a payload.
pub open spec fn cipher_apply_spec(c: PayloadCipher, data: Seq<u8>) -> Seq<u8> {
    match c {
        PayloadCipher::PassThrough => data,
        PayloadCipher::Keyed(r) => rc4_spec(r.key_spec(), data),
    }
}

/// A keyed cipher state carries a usable key.
pub open spec fn cipher_wf(c: PayloadCipher) -> bool {
    c matches PayloadCipher::Keyed(r) ==> r.key_spec().len() >= 1
}

impl PayloadCipher {
    /// An RC4 cipher state under the given key.
    pub fn rc4(key: Vec<u8>) -> (r: PayloadCipher)
        requires
            key@.len() >= 1,
        ensures
            cipher_wf(r),
            r matches PayloadCipher::Keyed(c) && c.key_spec() == key@,
    {
        PayloadCipher::Keyed(Rc4::new(key))
    }

    /// Applies the cipher to a payload; both directions are this same
    /// transform.
    pub fn apply(&self, data: &[u8]) -> (r: Vec<u8>)
        requires
            cipher_wf(*self),
        ensures
            r@ == cipher_apply_spec(*self, data@),
    {
        match self {
            PayloadCipher::PassThrough => vstd::slice::slice_to_vec(data),
            PayloadCipher::Keyed(c) => c.apply(data),
        }
    }
}

/// Every cipher state is symmetric: applying it twice restores the
/// payload.
pub proof fn lemma_cipher_symmetric(c: PayloadCipher, data: Seq<u8>)
    ensures
        cipher_apply_spec(c, cipher_apply_spec(c, data)) == data,
{
    match c {
        PayloadCipher::PassThrough => {},
        PayloadCipher::Keyed(r) => {
            lemma_rc4_symmetric(r.key_spec(), data);
        },
    }
}

} // verus!

