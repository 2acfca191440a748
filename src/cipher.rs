//! Cipher state, one per direction: `aes256-ctr` with `hmac-sha2-256`, no compression.

use crate::crypto::{
    aes256_block, aes256_encrypt_block, hmac_sha256, hmac_sha256_of, hmac_sha256_verify,
};
use crate::wire::{append_bytes, append_u32, be_value, lemma_be_value_push, pow256, u32_be};
use crate::Error;
use vstd::prelude::*;

verus! {

/// The counter after adding one, as an unsigned big-endian number: the carry ripples from
/// the last octet, and all ones wrap to all zeros.
pub open spec fn increment(c: Seq<u8>) -> Seq<u8>
    decreases c.len(),
{
    if c.len() == 0 {
        c
    } else if c.last() == 0xFFu8 {
        increment(c.drop_last()).push(0u8)
    } else {
        c.drop_last().push((c.last() + 1) as u8)
    }
}

/// The counter after `n` increments.
pub open spec fn advance(iv: Seq<u8>, n: nat) -> Seq<u8>
    decreases n,
{
    if n == 0 {
        iv
    } else {
        increment(advance(iv, (n - 1) as nat))
    }
}

/// `n` zero octets.
pub open spec fn zeros(n: nat) -> Seq<u8> {
    Seq::new(n, |i: int| 0u8)
}

/// Octet-wise exclusive or of `a` with the first `a.len()` octets of `b`.
pub open spec fn xor_bytes(a: Seq<u8>, b: Seq<u8>) -> Seq<u8> {
    Seq::new(a.len(), |i: int| a[i] ^ b[i])
}

/// AES-256 in counter mode: each 16-octet chunk of `data` is combined with the encryption
/// of the counter, which is incremented after every chunk.
pub open spec fn ctr_apply(key: Seq<u8>, iv: Seq<u8>, data: Seq<u8>) -> Seq<u8>
    decreases data.len(),
{
    if data.len() < 16 {
        Seq::empty()
    } else {
        xor_bytes(data.take(16), aes256_block(key, iv)) + ctr_apply(key, increment(iv), data.skip(16))
    }
}

/// Whether `aes256-ctr` can process `data` under this key and counter: whole blocks, and a
/// 32-octet key with a 16-octet counter unless there is nothing to do.
pub open spec fn ctr_accepts(key: Seq<u8>, iv: Seq<u8>, data: Seq<u8>) -> bool {
    data.len() % 16 == 0 && (data.len() == 0 || (key.len() == 32 && iv.len() == 16))
}

/// The octets that the MAC covers: the sequence number, then the cleartext record.
pub open spec fn mac_input(seq: u32, record: Seq<u8>) -> Seq<u8> {
    u32_be(seq) + record
}

/// The sequence number that follows `n`, modulo 2^32.
pub open spec fn next_seq(n: u32) -> u32 {
    if n == u32::MAX {
        0
    } else {
        (n + 1) as u32
    }
}

/// Incrementing keeps the length.
pub proof fn lemma_increment_len(c: Seq<u8>)
    ensures
        increment(c).len() == c.len(),
    decreases c.len(),
{
    if c.len() > 0 && c.last() == 0xFFu8 {
        lemma_increment_len(c.drop_last());
    }
}

/// An all-ones counter wraps to all zeros.
pub proof fn lemma_increment_all_ones(c: Seq<u8>)
    requires
        forall|i: int| 0 <= i < c.len() ==> c[i] == 0xFFu8,
    ensures
        increment(c) == zeros(c.len()),
    decreases c.len(),
{
    if c.len() > 0 {
        lemma_increment_all_ones(c.drop_last());
        assert(zeros((c.len() - 1) as nat).push(0u8) =~= zeros(c.len()));
    }
}

/// A trailing `0xFF` carries into the octet before it: `... x FF` becomes `... x+1 00`.
pub proof fn lemma_increment_carry(p: Seq<u8>, x: u8)
    requires
        x < 0xFFu8,
    ensures
        increment(p + seq![x, 0xFFu8]) == p + seq![(x + 1) as u8, 0u8],
{
    let c = p + seq![x, 0xFFu8];
    assert(c.drop_last() == p + seq![x]);
    assert((p + seq![x]).drop_last() == p);
    assert(increment(p + seq![x]) == p.push((x + 1) as u8));
    assert(p.push((x + 1) as u8).push(0u8) =~= p + seq![(x + 1) as u8, 0u8]);
}

/// Incrementing adds one to the counter as an unsigned big-endian number, modulo
/// 256 to the power of its length.
pub proof fn lemma_increment_value(c: Seq<u8>)
    ensures
        be_value(increment(c)) as int == (be_value(c) + 1) as int % (pow256(c.len()) as int),
    decreases c.len(),
{
    if c.len() > 0 {
        let p = c.drop_last();
        let x = c.last();
        assert(c == p.push(x));
        lemma_be_value_push(p, x);
        let q = pow256(p.len()) as int;
        let v = be_value(p) as int;
        assert(pow256(c.len()) == 256 * q);
        if x == 0xFFu8 {
            lemma_increment_value(p);
            lemma_be_value_push(increment(p), 0u8);
            if v + 1 < q {
                assert((v + 1) % q == v + 1) by (nonlinear_arith)
                    requires 0 <= v + 1 < q;
                assert((v * 256 + 255 + 1) % (256 * q) == (v + 1) * 256) by (nonlinear_arith)
                    requires 0 <= v + 1 < q;
            } else {
                assert((v + 1) % q == 0) by (nonlinear_arith)
                    requires v + 1 == q, q > 0;
                assert((v * 256 + 255 + 1) % (256 * q) == 0) by (nonlinear_arith)
                    requires v + 1 == q, q > 0;
            }
        } else {
            lemma_be_value_push(p, (x + 1) as u8);
            assert((v * 256 + x + 1) % (256 * q) == v * 256 + x + 1) by (nonlinear_arith)
                requires
                    0 <= v < q,
                    0 <= x < 255,
            ;
        }
    }
}

/// Applying counter mode twice with the same key and counter gives the data back.
pub proof fn lemma_ctr_involution(key: Seq<u8>, iv: Seq<u8>, data: Seq<u8>)
    requires
        data.len() % 16 == 0,
    ensures
        ctr_apply(key, iv, data).len() == data.len(),
        ctr_apply(key, iv, ctr_apply(key, iv, data)) == data,
    decreases data.len(),
{
    if data.len() >= 16 {
        let k = aes256_block(key, iv);
        let head = xor_bytes(data.take(16), k);
        lemma_ctr_involution(key, increment(iv), data.skip(16));
        let tail = ctr_apply(key, increment(iv), data.skip(16));
        let c = head + tail;
        assert(c.take(16) == head);
        assert(c.skip(16) == tail);
        assert forall|i: int| 0 <= i < 16 implies #[trigger] xor_bytes(head, k)[i] == data[i] by {
            let a = data[i];
            let b = k[i];
            assert((a ^ b) ^ b == a) by (bit_vector);
        }
        assert(xor_bytes(head, k) =~= data.take(16));
        assert(data =~= data.take(16) + data.skip(16));
    }
}

/// Adds one to a big-endian counter in place.
pub fn increment_counter(counter: &mut [u8])
    ensures
        final(counter)@ == increment(old(counter)@),
{
    let ghost orig = counter@;
    let len = counter.len();
    let mut i: usize = len;
    assert(orig.take(len as int) =~= orig);
    assert(increment(orig) + zeros(0) =~= increment(orig));
    assert(counter@ =~= orig + zeros(0));
    while i > 0
        invariant
            i <= len == orig.len() == counter@.len(),
            orig == old(counter)@,
            counter@.take(i as int) == orig.take(i as int),
            increment(orig) == increment(orig.take(i as int)) + zeros((len - i) as nat),
            counter@ == orig.take(i as int) + zeros((len - i) as nat),
        decreases i,
    {
        let d = counter[i - 1];
        assert(orig.take(i as int).drop_last() == orig.take(i - 1));
        assert(orig.take(i as int).last() == d);
        if d == 0xFFu8 {
            counter[i - 1] = 0u8;
            assert(increment(orig.take(i as int)) == increment(orig.take(i - 1)).push(0u8));
            assert(increment(orig.take(i - 1)).push(0u8) + zeros((len - i) as nat) =~= increment(
                orig.take(i - 1),
            ) + zeros((len - i + 1) as nat));
            i -= 1;
            assert(counter@ =~= orig.take(i as int) + zeros((len - i) as nat));
            assert(counter@.take(i as int) =~= orig.take(i as int));
        } else {
            counter[i - 1] = d + 1;
            assert(increment(orig.take(i as int)) == orig.take(i - 1).push((d + 1) as u8));
            assert(counter@ =~= orig.take(i - 1).push((d + 1) as u8) + zeros((len - i) as nat));
            return;
        }
    }
    assert(orig.take(0) =~= Seq::<u8>::empty());
    assert(counter@ =~= zeros(len as nat));
    assert(increment(orig) =~= zeros(len as nat));
}

/// Counter-mode transformation shared by both directions: returns the transformed data and
/// advances `iv` by one step per 16-octet chunk.
fn aes256_ctr_apply(key: &Vec<u8>, iv: &mut Vec<u8>, data: Vec<u8>) -> (r: Result<Vec<u8>, Error>)
    ensures
        match r {
            Ok(out) => ctr_accepts(key@, old(iv)@, data@) && out@ == ctr_apply(key@, old(iv)@, data@)
                && final(iv)@ == advance(old(iv)@, data@.len() / 16),
            Err(e) => !ctr_accepts(key@, old(iv)@, data@) && e is Internal && final(iv)@ == old(iv)@,
        },
{
    if data.len() % 16 != 0 {
        return Err(Error::Internal);
    }
    if data.len() == 0 {
        return Ok(Vec::new());
    }
    if key.len() != 32 || iv.len() != 16 {
        return Err(Error::Internal);
    }
    let ghost iv0 = iv@;
    let mut out: Vec<u8> = Vec::new();
    let mut i: usize = 0;
    assert(data@.skip(0) =~= data@);
    assert(out@ + ctr_apply(key@, iv@, data@) =~= ctr_apply(key@, iv@, data@));
    while i < data.len()
        invariant
            i % 16 == 0,
            i <= data@.len(),
            data@.len() % 16 == 0,
            key@.len() == 32,
            iv@.len() == 16,
            ctr_apply(key@, iv0, data@) == out@ + ctr_apply(key@, iv@, data@.skip(i as int)),
            iv@ == advance(iv0, (i / 16) as nat),
        decreases data@.len() - i,
    {
        let block = aes256_encrypt_block(key.as_slice(), iv.as_slice());
        let ghost before = out@;
        assert(i + 16 <= data@.len());
        let mut j: usize = 0;
        while j < 16
            invariant
                j <= 16,
                i + 16 <= data@.len(),
                data@.len() <= usize::MAX,
                block@.len() == 16,
                out@ == before + xor_bytes(data@.subrange(i as int, i + j), block@),
            decreases 16 - j,
        {
            out.push(data[i + j] ^ block[j]);
            j += 1;
            assert(out@ =~= before + xor_bytes(data@.subrange(i as int, i + j), block@));
        }
        let ghost rest = data@.skip(i as int);
        assert(rest.take(16) == data@.subrange(i as int, i + 16));
        assert(rest.skip(16) == data@.skip(i + 16));
        proof {
            lemma_increment_len(iv@);
        }
        increment_counter(iv.as_mut_slice());
        i += 16;
        assert(out@ == before + xor_bytes(rest.take(16), aes256_block(key@, advance(iv0, ((i - 16) / 16) as nat))));
        assert((i / 16) as nat == ((i - 16) / 16) as nat + 1);
    }
    assert(data@.skip(i as int) =~= Seq::<u8>::empty());
    Ok(out)
}

/// The symmetric ciphers this client supports.
pub enum EncryptAlg {
    /// `aes256-ctr`: 16-octet blocks, a 32-octet key and a 16-octet counter.
    Aes256Ctr,
}

/// The MAC algorithms this client supports.
pub enum MacAlg {
    /// `hmac-sha2-256`: a 32-octet key and a 32-octet tag.
    HmacSha256,
}

/// The compression methods this client supports.
pub enum CompressAlg {
    /// `none`: the payload is sent as it is.
    Plain,
}

/// Everything needed to encrypt, MAC and compress the records sent on a connection.
pub struct Encrypter {
    encrypt: EncryptAlg,
    mac: MacAlg,
    compress: CompressAlg,
    iv: Vec<u8>,
    key: Vec<u8>,
    mac_key: Vec<u8>,
    /// Sequence number of the next record sent, counted from the first record of the
    /// connection.
    pub packet_num: u32,
    session_id: Vec<u8>,
}

/// Everything needed to decrypt, verify and decompress the records received on a connection.
pub struct Decrypter {
    decrypt: EncryptAlg,
    verify: MacAlg,
    decompress: CompressAlg,
    iv: Vec<u8>,
    key: Vec<u8>,
    verify_key: Vec<u8>,
    /// Sequence number of the next record received, counted from the first record of the
    /// connection.
    pub packet_num: u32,
}

impl Encrypter {
    /// The sequence number of the next record sent.
    pub closed spec fn seq(&self) -> u32 {
        self.packet_num
    }

    /// The sequence number of the next record sent.
    pub fn sequence_number(&self) -> (r: u32)
        ensures
            r == self.seq(),
    {
        self.packet_num
    }

    /// The current counter block.
    pub closed spec fn iv_view(&self) -> Seq<u8> {
        self.iv@
    }

    /// The cipher key.
    pub closed spec fn key_view(&self) -> Seq<u8> {
        self.key@
    }

    /// The MAC key.
    pub closed spec fn mac_key_view(&self) -> Seq<u8> {
        self.mac_key@
    }

    /// The session identifier: the first exchange hash of the connection.
    pub closed spec fn session_id_view(&self) -> Seq<u8> {
        self.session_id@
    }

    /// An `aes256-ctr` / `hmac-sha2-256` / `none` sender state from its key material.
    pub fn new(iv: Vec<u8>, key: Vec<u8>, mac_key: Vec<u8>, packet_num: u32, session_id: Vec<u8>) -> (r:
        Encrypter)
        ensures
            r.iv_view() == iv@,
            r.key_view() == key@,
            r.mac_key_view() == mac_key@,
            r.seq() == packet_num,
            r.session_id_view() == session_id@,
    {
        Encrypter {
            encrypt: EncryptAlg::Aes256Ctr,
            mac: MacAlg::HmacSha256,
            compress: CompressAlg::Plain,
            iv,
            key,
            mac_key,
            packet_num,
            session_id,
        }
    }

    /// The session identifier.
    pub fn session_id(&self) -> (r: &Vec<u8>)
        ensures
            r@ == self.session_id_view(),
    {
        &self.session_id
    }

    /// Encrypts a cleartext record (whole 16-octet blocks) and advances the counter by one
    /// per block. Fails with `Internal` when the length is not a multiple of 16 or, for a
    /// non-empty record, the key or counter has the wrong length; the state is then unchanged.
    pub fn encrypt(&mut self, plaintext: Vec<u8>) -> (r: Result<Vec<u8>, Error>)
        ensures
            final(self).key_view() == old(self).key_view(),
            final(self).mac_key_view() == old(self).mac_key_view(),
            final(self).session_id_view() == old(self).session_id_view(),
            final(self).seq() == old(self).seq(),
            match r {
                Ok(c) => ctr_accepts(old(self).key_view(), old(self).iv_view(), plaintext@) && c@
                    == ctr_apply(old(self).key_view(), old(self).iv_view(), plaintext@)
                    && final(self).iv_view() == advance(old(self).iv_view(), plaintext@.len() / 16),
                Err(e) => !ctr_accepts(old(self).key_view(), old(self).iv_view(), plaintext@)
                    && e is Internal && final(self).iv_view() == old(self).iv_view(),
            },
    {
        match self.encrypt {
            EncryptAlg::Aes256Ctr => self.aes256_ctr(plaintext),
        }
    }

    /// The cipher's block size in octets.
    pub fn block_size(&self) -> (r: u32)
        ensures
            r == 16,
    {
        match self.encrypt {
            EncryptAlg::Aes256Ctr => 16,
        }
    }

    fn aes256_ctr(&mut self, plaintext: Vec<u8>) -> (r: Result<Vec<u8>, Error>)
        ensures
            final(self).key_view() == old(self).key_view(),
            final(self).mac_key_view() == old(self).mac_key_view(),
            final(self).session_id_view() == old(self).session_id_view(),
            final(self).seq() == old(self).seq(),
            match r {
                Ok(c) => ctr_accepts(old(self).key_view(), old(self).iv_view(), plaintext@) && c@
                    == ctr_apply(old(self).key_view(), old(self).iv_view(), plaintext@)
                    && final(self).iv_view() == advance(old(self).iv_view(), plaintext@.len() / 16),
                Err(e) => !ctr_accepts(old(self).key_view(), old(self).iv_view(), plaintext@)
                    && e is Internal && final(self).iv_view() == old(self).iv_view(),
            },
    {
        aes256_ctr_apply(&self.key, &mut self.iv, plaintext)
    }

    /// The MAC of a cleartext record under the current sequence number, which then advances
    /// by one (modulo 2^32).
    pub fn mac(&mut self, message: &[u8]) -> (r: Vec<u8>)
        ensures
            r@ == hmac_sha256_of(old(self).mac_key_view(), mac_input(old(self).seq(), message@)),
            r@.len() == 32,
            final(self).seq() == next_seq(old(self).seq()),
            final(self).key_view() == old(self).key_view(),
            final(self).iv_view() == old(self).iv_view(),
            final(self).mac_key_view() == old(self).mac_key_view(),
            final(self).session_id_view() == old(self).session_id_view(),
    {
        let result = match self.mac {
            MacAlg::HmacSha256 => self.hmac_sha256(message),
        };
        self.packet_num = self.packet_num.wrapping_add(1);
        result
    }

    fn hmac_sha256(&self, message: &[u8]) -> (r: Vec<u8>)
        ensures
            r@ == hmac_sha256_of(self.mac_key_view(), mac_input(self.seq(), message@)),
            r@.len() == 32,
    {
        let mut mac_message: Vec<u8> = Vec::new();
        append_u32(&mut mac_message, self.packet_num);
        append_bytes(&mut mac_message, message);
        hmac_sha256(self.mac_key.as_slice(), mac_message.as_slice())
    }

    /// Compresses a payload with the negotiated method (`none`: a copy).
    pub fn compress(&self, payload: &[u8]) -> (r: Vec<u8>)
        ensures
            r@ == payload@,
    {
        match self.compress {
            CompressAlg::Plain => {
                let mut out: Vec<u8> = Vec::new();
                append_bytes(&mut out, payload);
                out
            },
        }
    }
}

impl Decrypter {
    /// The sequence number of the next record received.
    pub closed spec fn seq(&self) -> u32 {
        self.packet_num
    }

    /// The sequence number of the next record received.
    pub fn sequence_number(&self) -> (r: u32)
        ensures
            r == self.seq(),
    {
        self.packet_num
    }

    /// The current counter block.
    pub closed spec fn iv_view(&self) -> Seq<u8> {
        self.iv@
    }

    /// The cipher key.
    pub closed spec fn key_view(&self) -> Seq<u8> {
        self.key@
    }

    /// The MAC key.
    pub closed spec fn verify_key_view(&self) -> Seq<u8> {
        self.verify_key@
    }

    /// An `aes256-ctr` / `hmac-sha2-256` / `none` receiver state from its key material.
    pub fn new(iv: Vec<u8>, key: Vec<u8>, verify_key: Vec<u8>, packet_num: u32) -> (r: Decrypter)
        ensures
            r.iv_view() == iv@,
            r.key_view() == key@,
            r.verify_key_view() == verify_key@,
            r.seq() == packet_num,
    {
        Decrypter {
            decrypt: EncryptAlg::Aes256Ctr,
            verify: MacAlg::HmacSha256,
            decompress: CompressAlg::Plain,
            iv,
            key,
            verify_key,
            packet_num,
        }
    }

    /// Decrypts received ciphertext (whole 16-octet blocks) and advances the counter by one
    /// per block. Fails with `Internal` when the length is not a multiple of 16 or, for
    /// non-empty input, the key or counter has the wrong length; the state is then unchanged.
    pub fn decrypt(&mut self, cyphertext: Vec<u8>) -> (r: Result<Vec<u8>, Error>)
        ensures
            final(self).key_view() == old(self).key_view(),
            final(self).verify_key_view() == old(self).verify_key_view(),
            final(self).seq() == old(self).seq(),
            match r {
                Ok(p) => ctr_accepts(old(self).key_view(), old(self).iv_view(), cyphertext@) && p@
                    == ctr_apply(old(self).key_view(), old(self).iv_view(), cyphertext@)
                    && final(self).iv_view() == advance(old(self).iv_view(), cyphertext@.len() / 16),
                Err(e) => !ctr_accepts(old(self).key_view(), old(self).iv_view(), cyphertext@)
                    && e is Internal && final(self).iv_view() == old(self).iv_view(),
            },
    {
        match self.decrypt {
            EncryptAlg::Aes256Ctr => self.aes256_ctr(cyphertext),
        }
    }

    /// The cipher's block size in octets.
    pub fn block_size(&self) -> (r: u32)
        ensures
            r == 16,
    {
        match self.decrypt {
            EncryptAlg::Aes256Ctr => 16,
        }
    }

    fn aes256_ctr(&mut self, cyphertext: Vec<u8>) -> (r: Result<Vec<u8>, Error>)
        ensures
            final(self).key_view() == old(self).key_view(),
            final(self).verify_key_view() == old(self).verify_key_view(),
            final(self).seq() == old(self).seq(),
            match r {
                Ok(p) => ctr_accepts(old(self).key_view(), old(self).iv_view(), cyphertext@) && p@
                    == ctr_apply(old(self).key_view(), old(self).iv_view(), cyphertext@)
                    && final(self).iv_view() == advance(old(self).iv_view(), cyphertext@.len() / 16),
                Err(e) => !ctr_accepts(old(self).key_view(), old(self).iv_view(), cyphertext@)
                    && e is Internal && final(self).iv_view() == old(self).iv_view(),
            },
    {
        aes256_ctr_apply(&self.key, &mut self.iv, cyphertext)
    }

    /// Decrypts `cyphertext` as `decrypt` would, but leaves the counter where it is: used to
    /// read the length field of a record before the whole record is there.
    pub fn peek(&self, cyphertext: Vec<u8>) -> (r: Result<Vec<u8>, Error>)
        ensures
            match r {
                Ok(p) => ctr_accepts(self.key_view(), self.iv_view(), cyphertext@) && p@ == ctr_apply(
                    self.key_view(),
                    self.iv_view(),
                    cyphertext@,
                ),
                Err(e) => !ctr_accepts(self.key_view(), self.iv_view(), cyphertext@) && e is Internal,
            },
    {
        let mut iv: Vec<u8> = Vec::new();
        append_bytes(&mut iv, self.iv.as_slice());
        aes256_ctr_apply(&self.key, &mut iv, cyphertext)
    }

    /// Checks the MAC of a cleartext record under the current sequence number, which then
    /// advances by one (modulo 2^32). Accepts exactly the tag computed over the sequence
    /// number and the record.
    pub fn verify(&mut self, message: &[u8], mac: &[u8]) -> (r: bool)
        ensures
            r == (mac@ == hmac_sha256_of(
                old(self).verify_key_view(),
                mac_input(old(self).seq(), message@),
            )),
            final(self).seq() == next_seq(old(self).seq()),
            final(self).key_view() == old(self).key_view(),
            final(self).iv_view() == old(self).iv_view(),
            final(self).verify_key_view() == old(self).verify_key_view(),
    {
        let result = match self.verify {
            MacAlg::HmacSha256 => self.hmac_sha256(message, mac),
        };
        self.packet_num = self.packet_num.wrapping_add(1);
        result
    }

    /// The length of the tag that `verify` expects.
    pub fn verify_length(&self) -> (r: usize)
        ensures
            r == 32,
    {
        match self.verify {
            MacAlg::HmacSha256 => 32,
        }
    }

    fn hmac_sha256(&self, message: &[u8], mac: &[u8]) -> (r: bool)
        ensures
            r == (mac@ == hmac_sha256_of(self.verify_key_view(), mac_input(self.seq(), message@))),
    {
        let mut mac_message: Vec<u8> = Vec::new();
        append_u32(&mut mac_message, self.packet_num);
        append_bytes(&mut mac_message, message);
        hmac_sha256_verify(self.verify_key.as_slice(), mac_message.as_slice(), mac)
    }

    /// Decompresses a payload with the negotiated method (`none`: a copy).
    pub fn decompress(&self, payload: &[u8]) -> (r: Vec<u8>)
        ensures
            r@ == payload@,
    {
        match self.decompress {
            CompressAlg::Plain => {
                let mut out: Vec<u8> = Vec::new();
                append_bytes(&mut out, payload);
                out
            },
        }
    }
}

/// Counter mode works block by block: a prefix of whole blocks of the output is the output
/// for that prefix of the input.
pub proof fn lemma_ctr_prefix(key: Seq<u8>, iv: Seq<u8>, data: Seq<u8>, m: nat)
    requires
        data.len() % 16 == 0,
        m % 16 == 0,
        m <= data.len(),
    ensures
        ctr_apply(key, iv, data).take(m as int) == ctr_apply(key, iv, data.take(m as int)),
    decreases m,
{
    lemma_ctr_involution(key, iv, data);
    if m == 0 {
        assert(data.take(0) =~= Seq::<u8>::empty());
        assert(ctr_apply(key, iv, data).take(0) =~= Seq::<u8>::empty());
    } else {
        let d = data.take(m as int);
        assert(d.take(16) == data.take(16));
        assert(d.skip(16) == data.skip(16).take(m - 16));
        lemma_ctr_prefix(key, increment(iv), data.skip(16), (m - 16) as nat);
        lemma_ctr_involution(key, increment(iv), data.skip(16));
        let head = xor_bytes(data.take(16), aes256_block(key, iv));
        let tail = ctr_apply(key, increment(iv), data.skip(16));
        assert((head + tail).take(m as int) =~= head + tail.take(m - 16));
    }
}

} // verus!
