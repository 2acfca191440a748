//! Binary packet framing: padding, the length field, encryption and the MAC.
//!
//! Sending turns a payload into the octets to write. Receiving goes in two steps, since the
//! record's length is known only from its first block: `*_packet_size` reads it from the
//! first block, and `open_*` takes the whole record, MAC included.

use crate::cipher::{
    advance, ctr_accepts, ctr_apply, lemma_ctr_involution, lemma_ctr_prefix, mac_input, next_seq,
    zeros, Decrypter, Encrypter,
};
use crate::crypto::{aes256_block, hmac_sha256_of, random_bytes};
use crate::wire::{append_bytes, append_u32, be_u32_value, lemma_u32_round_trip, read_u32, u32_be};
use crate::Error;
use vstd::prelude::*;
use vstd::slice::slice_subrange;

verus! {

/// The block size used before any cipher is installed.
pub const PLAIN_BLOCK_SIZE: usize = 8;

/// The largest `packet_length` accepted from the peer.
pub const MAX_PACKET_LENGTH: u32 = 34996;

/// The length of the tag that `hmac-sha2-256` appends.
pub const TAG_LENGTH: usize = 32;

/// The smallest padding, at least 4, that makes `4 + 1 + payload_len + padding` a multiple
/// of `block`.
pub open spec fn padding_for(payload_len: nat, block: nat) -> nat
    recommends
        block > 0,
{
    let r = (block as int - (payload_len + 5) as int % (block as int)) as nat;
    if r < 4 {
        r + block
    } else {
        r
    }
}

/// A cleartext record: `packet_length`, `padding_length`, the payload, and the padding.
pub open spec fn record(payload: Seq<u8>, padding: Seq<u8>) -> Seq<u8> {
    u32_be((payload.len() + padding.len() + 1) as u32) + seq![padding.len() as u8] + payload
        + padding
}

/// The record that frames `payload` with zero padding for block size `block`.
pub open spec fn framed(payload: Seq<u8>, block: nat) -> Seq<u8> {
    record(payload, zeros(padding_for(payload.len(), block)))
}

/// What `seal_packet` emits for a given padding: the encrypted record followed by its MAC.
pub open spec fn sealed(
    key: Seq<u8>,
    iv: Seq<u8>,
    mac_key: Seq<u8>,
    seq: u32,
    payload: Seq<u8>,
    padding: Seq<u8>,
) -> Seq<u8> {
    ctr_apply(key, iv, record(payload, padding)) + hmac_sha256_of(
        mac_key,
        mac_input(seq, record(payload, padding)),
    )
}

/// Whether a `packet_length` is acceptable for block size `block`.
pub open spec fn packet_length_ok(len: u32, block: nat) -> bool {
    12 <= len <= MAX_PACKET_LENGTH && (len + 4) % (block as int) == 0
}

/// The message type and the rest of the payload of a cleartext record whose length field has
/// been checked; `MalformedPacket` when the padding is under 4 or leaves no payload.
pub open spec fn record_payload(rec: Seq<u8>) -> Result<(u8, Seq<u8>), Error> {
    let len = be_u32_value(rec);
    let pad = rec[4];
    if pad < 4 || pad > len - 2 {
        Err(Error::MalformedPacket)
    } else {
        Ok((rec[5], rec.subrange(6, 4 + len - pad)))
    }
}

/// What receiving a record without a cipher gives: `bytes` is the whole record.
pub open spec fn open_plain_spec(bytes: Seq<u8>) -> Result<(u8, Seq<u8>), Error> {
    if bytes.len() < 8 {
        Err(Error::MalformedPacket)
    } else {
        let len = be_u32_value(bytes);
        if !packet_length_ok(len, 8) || len + 4 != bytes.len() {
            Err(Error::MalformedPacket)
        } else {
            record_payload(bytes)
        }
    }
}

/// What receiving `bytes` (the encrypted record, then its tag) gives under a receiving state:
/// the length comes from the first decrypted block, the tag is what follows the record.
pub open spec fn open_spec(key: Seq<u8>, iv: Seq<u8>, mac_key: Seq<u8>, seq: u32, bytes: Seq<u8>) -> Result<
    (u8, Seq<u8>),
    Error,
> {
    if bytes.len() < 16 {
        Err(Error::MalformedPacket)
    } else if !ctr_accepts(key, iv, bytes.take(16)) {
        Err(Error::Internal)
    } else {
        let len = be_u32_value(ctr_apply(key, iv, bytes.take(16)));
        if !packet_length_ok(len, 16) || bytes.len() < len + 4 {
            Err(Error::MalformedPacket)
        } else {
            let rec = ctr_apply(key, iv, bytes.take(len + 4));
            if bytes.skip(len + 4) != hmac_sha256_of(mac_key, mac_input(seq, rec)) {
                Err(Error::MacMismatch)
            } else {
                record_payload(rec)
            }
        }
    }
}

/// The padding for a payload of `payload_len` octets and a block size of 8 or 16: the framed
/// record is a whole number of blocks, and the padding is between 4 and 255.
pub fn padding_length(payload_len: usize, block_size: usize) -> (r: u8)
    requires
        block_size == 8 || block_size == 16,
    ensures
        r == padding_for(payload_len as nat, block_size as nat),
        (payload_len + r + 5) % (block_size as int) == 0,
        4 <= r <= 255,
        r < 4 + block_size,
{
    let rem = (payload_len % block_size + 5) % block_size;
    let mut pad = block_size - rem;
    if pad < 4 {
        pad = pad + block_size;
    }
    proof {
        let b = block_size as int;
        let p = payload_len as int;
        assert((p % b + 5) % b == (p + 5) % b) by (nonlinear_arith)
            requires b == 8 || b == 16, p >= 0;
        assert((p + (b - (p + 5) % b) + 5) % b == 0) by (nonlinear_arith)
            requires b == 8 || b == 16, p >= 0;
        assert((p + (b - (p + 5) % b) + b + 5) % b == 0) by (nonlinear_arith)
            requires b == 8 || b == 16, p >= 0;
    }
    pad as u8
}

/// Builds the cleartext record for `payload` with the given padding.
fn build_record(payload: &[u8], padding: &[u8]) -> (r: Vec<u8>)
    requires
        payload@.len() <= u32::MAX - 300,
        padding@.len() <= 255,
    ensures
        r@ == record(payload@, padding@),
{
    let mut rec: Vec<u8> = Vec::new();
    append_u32(&mut rec, (payload.len() + padding.len() + 1) as u32);
    rec.push(padding.len() as u8);
    append_bytes(&mut rec, payload);
    append_bytes(&mut rec, padding);
    rec
}

/// Frames a payload for sending before any cipher is installed: block size 8, no MAC.
pub fn frame_plain(payload: &[u8]) -> (r: Vec<u8>)
    requires
        payload@.len() <= u32::MAX - 300,
    ensures
        r@ == framed(payload@, 8),
{
    let pad = padding_length(payload.len(), PLAIN_BLOCK_SIZE);
    let mut padding: Vec<u8> = Vec::new();
    let mut i: u8 = 0;
    while i < pad
        invariant
            i <= pad,
            padding@ == zeros(i as nat),
        decreases pad - i,
    {
        padding.push(0u8);
        i += 1;
        assert(padding@ =~= zeros(i as nat));
    }
    build_record(payload, padding.as_slice())
}

/// Frames a payload under a sending state: compresses it, pads it with random octets to the
/// cipher's block size, computes the MAC over the sequence number and the cleartext record,
/// encrypts the record and appends the MAC. The sequence number advances by one. Fails with
/// `Internal` when the state's key or counter has the wrong length.
pub fn seal_packet(payload: &[u8], encrypter: &mut Encrypter) -> (r: Result<Vec<u8>, Error>)
    requires
        payload@.len() <= u32::MAX - 300,
    ensures
        final(encrypter).seq() == next_seq(old(encrypter).seq()),
        final(encrypter).key_view() == old(encrypter).key_view(),
        final(encrypter).mac_key_view() == old(encrypter).mac_key_view(),
        final(encrypter).session_id_view() == old(encrypter).session_id_view(),
        match r {
            Ok(bytes) => ctr_accepts(
                old(encrypter).key_view(),
                old(encrypter).iv_view(),
                framed(payload@, 16),
            ) && (exists|padding: Seq<u8>|
                padding.len() == padding_for(payload@.len(), 16) && bytes@ == sealed(
                    old(encrypter).key_view(),
                    old(encrypter).iv_view(),
                    old(encrypter).mac_key_view(),
                    old(encrypter).seq(),
                    payload@,
                    padding,
                )) && final(encrypter).iv_view() == advance(
                old(encrypter).iv_view(),
                framed(payload@, 16).len() / 16,
            ),
            Err(e) => !ctr_accepts(
                old(encrypter).key_view(),
                old(encrypter).iv_view(),
                framed(payload@, 16),
            ) && e is Internal && final(encrypter).iv_view() == old(encrypter).iv_view(),
        },
{
    let ghost start = *encrypter;
    let compressed = encrypter.compress(payload);
    let block_size = encrypter.block_size() as usize;
    let pad = padding_length(compressed.len(), block_size);
    let padding = random_bytes(pad as usize);
    let rec = build_record(compressed.as_slice(), padding.as_slice());
    assert(rec@.len() == framed(payload@, 16).len());
    let tag = encrypter.mac(rec.as_slice());
    let mut out = encrypter.encrypt(rec)?;
    append_bytes(&mut out, tag.as_slice());
    assert(out@ == sealed(
        start.key_view(),
        start.iv_view(),
        start.mac_key_view(),
        start.seq(),
        payload@,
        padding@,
    ));
    Ok(out)
}

/// The whole size of a record without a cipher, read from its first 8 octets; fails with
/// `MalformedPacket` when the length is out of range or not a multiple of 8.
pub fn plain_packet_size(head: &[u8]) -> (r: Result<usize, Error>)
    requires
        head@.len() >= 4,
    ensures
        match r {
            Ok(n) => packet_length_ok(be_u32_value(head@), 8) && n == be_u32_value(head@) + 4,
            Err(e) => !packet_length_ok(be_u32_value(head@), 8) && e is MalformedPacket,
        },
{
    let len = read_u32(head);
    if len < 12 || len > MAX_PACKET_LENGTH || (len + 4) % 8 != 0 {
        return Err(Error::MalformedPacket);
    }
    Ok(len as usize + 4)
}

/// Checks the padding of a cleartext record whose length field is valid, and splits the
/// payload into its message type and the rest.
fn split_record(rec: &[u8]) -> (r: Result<(u8, Vec<u8>), Error>)
    requires
        rec@.len() >= 16,
        rec@.len() == be_u32_value(rec@) + 4,
    ensures
        match r {
            Ok((t, p)) => record_payload(rec@) == Ok::<(u8, Seq<u8>), Error>((t, p@)),
            Err(e) => record_payload(rec@) == Err::<(u8, Seq<u8>), Error>(e),
        },
{
    let len = read_u32(rec);
    let pad = rec[4];
    if pad < 4 || pad as u32 > len - 2 {
        return Err(Error::MalformedPacket);
    }
    let mut payload: Vec<u8> = Vec::new();
    append_bytes(&mut payload, slice_subrange(rec, 6, 4 + len as usize - pad as usize));
    Ok((rec[5], payload))
}

/// Reads a whole record received without a cipher: checks the length field and the padding
/// and returns the message type and the rest of the payload.
pub fn open_plain(bytes: &[u8]) -> (r: Result<(u8, Vec<u8>), Error>)
    ensures
        match r {
            Ok((t, p)) => open_plain_spec(bytes@) == Ok::<(u8, Seq<u8>), Error>((t, p@)),
            Err(e) => open_plain_spec(bytes@) == Err::<(u8, Seq<u8>), Error>(e),
        },
{
    if bytes.len() < 8 {
        return Err(Error::MalformedPacket);
    }
    let len = read_u32(bytes);
    if len < 12 || len > MAX_PACKET_LENGTH || (len + 4) % 8 != 0 || len as usize + 4 != bytes.len() {
        return Err(Error::MalformedPacket);
    }
    split_record(bytes)
}

/// The `packet_length` field of an encrypted record, read from its first decrypted block.
pub open spec fn head_length(key: Seq<u8>, iv: Seq<u8>, bytes: Seq<u8>) -> u32 {
    be_u32_value(ctr_apply(key, iv, bytes.take(16)))
}

/// Copies `s[from..to]` into a new vector.
fn copy_range(s: &[u8], from: usize, to: usize) -> (r: Vec<u8>)
    requires
        from <= to <= s@.len(),
    ensures
        r@ == s@.subrange(from as int, to as int),
{
    let mut out: Vec<u8> = Vec::new();
    append_bytes(&mut out, slice_subrange(s, from, to));
    out
}

/// The whole size of an encrypted record and its tag, read from the first 16 octets (the
/// receiving state is left as it is). Fails with `MalformedPacket` when the length is out of
/// range or not a multiple of 16, and with `Internal` when the state's key or counter has
/// the wrong length.
pub fn encrypted_packet_size(head: &[u8], decrypter: &Decrypter) -> (r: Result<usize, Error>)
    requires
        head@.len() >= 16,
    ensures
        match r {
            Ok(n) => ctr_accepts(decrypter.key_view(), decrypter.iv_view(), head@.take(16))
                && packet_length_ok(head_length(decrypter.key_view(), decrypter.iv_view(), head@), 16)
                && n == head_length(decrypter.key_view(), decrypter.iv_view(), head@) + 4 + TAG_LENGTH,
            Err(e) => if !ctr_accepts(decrypter.key_view(), decrypter.iv_view(), head@.take(16)) {
                e is Internal
            } else {
                !packet_length_ok(head_length(decrypter.key_view(), decrypter.iv_view(), head@), 16)
                    && e is MalformedPacket
            },
        },
{
    let first = decrypter.peek(copy_range(head, 0, 16))?;
    let len = read_u32(first.as_slice());
    if len < 12 || len > MAX_PACKET_LENGTH || (len + 4) % 16 != 0 {
        return Err(Error::MalformedPacket);
    }
    Ok(len as usize + 4 + TAG_LENGTH)
}

/// Reads a whole encrypted record and its tag under a receiving state: decrypts it, checks
/// the length field, verifies the MAC over the sequence number and the cleartext record,
/// checks the padding, decompresses, and returns the message type and the rest of the
/// payload. On success the sequence number advances by one and the counter by one step per
/// block.
pub fn open_packet(bytes: &[u8], decrypter: &mut Decrypter) -> (r: Result<(u8, Vec<u8>), Error>)
    ensures
        final(decrypter).key_view() == old(decrypter).key_view(),
        final(decrypter).verify_key_view() == old(decrypter).verify_key_view(),
        match r {
            Ok((t, p)) => open_spec(
                old(decrypter).key_view(),
                old(decrypter).iv_view(),
                old(decrypter).verify_key_view(),
                old(decrypter).seq(),
                bytes@,
            ) == Ok::<(u8, Seq<u8>), Error>((t, p@)) && final(decrypter).seq() == next_seq(
                old(decrypter).seq(),
            ) && final(decrypter).iv_view() == advance(
                old(decrypter).iv_view(),
                ((head_length(old(decrypter).key_view(), old(decrypter).iv_view(), bytes@) + 4)
                    / 16) as nat,
            ),
            Err(e) => open_spec(
                old(decrypter).key_view(),
                old(decrypter).iv_view(),
                old(decrypter).verify_key_view(),
                old(decrypter).seq(),
                bytes@,
            ) == Err::<(u8, Seq<u8>), Error>(e),
        },
{
    let ghost key = decrypter.key_view();
    let ghost iv = decrypter.iv_view();
    if bytes.len() < 16 {
        return Err(Error::MalformedPacket);
    }
    let first = decrypter.peek(copy_range(bytes, 0, 16))?;
    let len = read_u32(first.as_slice());
    if len < 12 || len > MAX_PACKET_LENGTH || (len + 4) % 16 != 0 || bytes.len() < len as usize + 4 {
        return Err(Error::MalformedPacket);
    }
    let n = len as usize + 4;
    proof {
        lemma_ctr_involution(key, iv, bytes@.take(n as int));
        lemma_ctr_prefix(key, iv, bytes@.take(n as int), 16);
        assert(bytes@.take(n as int).take(16) == bytes@.take(16));
    }
    let rec = decrypter.decrypt(copy_range(bytes, 0, n))?;
    let ok = decrypter.verify(rec.as_slice(), slice_subrange(bytes, n, bytes.len()));
    if !ok {
        return Err(Error::MacMismatch);
    }
    let (t, p) = split_record(rec.as_slice())?;
    let payload = decrypter.decompress(p.as_slice());
    Ok((t, payload))
}

/// The facts about a padded record that both round trips use: its length field, its size,
/// and where the payload lies.
proof fn lemma_record(payload: Seq<u8>, block: nat, padding: Seq<u8>)
    requires
        block == 8 || block == 16,
        1 <= payload.len() <= MAX_PACKET_LENGTH - 20,
        padding.len() == padding_for(payload.len(), block),
    ensures
        record(payload, padding).len() == be_u32_value(record(payload, padding)) + 4,
        record(payload, padding).len() as int % (block as int) == 0,
        packet_length_ok(be_u32_value(record(payload, padding)), block),
        record_payload(record(payload, padding)) == Ok::<(u8, Seq<u8>), Error>(
            (payload[0], payload.drop_first()),
        ),
{
    let b = block as int;
    let p = payload.len() as int;
    assert((p + (b - (p + 5) % b) + 5) % b == 0) by (nonlinear_arith)
        requires b == 8 || b == 16, p >= 0;
    assert((p + (b - (p + 5) % b) + b + 5) % b == 0) by (nonlinear_arith)
        requires b == 8 || b == 16, p >= 0;
    assert(1 <= b - (p + 5) % b <= b) by (nonlinear_arith)
        requires b == 8 || b == 16, p >= 0;
    let len = (payload.len() + padding.len() + 1) as u32;
    let rec = record(payload, padding);
    lemma_u32_round_trip(len);
    assert(rec.take(4) == u32_be(len));
    assert(be_u32_value(rec) == be_u32_value(u32_be(len)));
    assert(rec[4] == padding.len() as u8);
    assert(rec.subrange(6, 4 + len - padding.len()) =~= payload.drop_first());
}

/// A payload framed without a cipher reads back as its message type and the rest.
pub proof fn lemma_plain_round_trip(payload: Seq<u8>)
    requires
        1 <= payload.len() <= MAX_PACKET_LENGTH - 20,
    ensures
        open_plain_spec(framed(payload, 8)) == Ok::<(u8, Seq<u8>), Error>(
            (payload[0], payload.drop_first()),
        ),
{
    lemma_record(payload, 8, zeros(padding_for(payload.len(), 8)));
}

/// A payload sealed under a sending state, whatever its padding, opens under the receiving
/// state with the same key, counter, MAC key and sequence number: the first block gives the
/// record's size, the MAC matches, and the message type and the rest of the payload come back.
pub proof fn lemma_frame_round_trip(
    key: Seq<u8>,
    iv: Seq<u8>,
    mac_key: Seq<u8>,
    seq: u32,
    payload: Seq<u8>,
    padding: Seq<u8>,
)
    requires
        key.len() == 32,
        iv.len() == 16,
        1 <= payload.len() <= MAX_PACKET_LENGTH - 20,
        padding.len() == padding_for(payload.len(), 16),
    ensures
        head_length(key, iv, sealed(key, iv, mac_key, seq, payload, padding)) + 4 == record(
            payload,
            padding,
        ).len(),
        open_spec(key, iv, mac_key, seq, sealed(key, iv, mac_key, seq, payload, padding)) == Ok::<
            (u8, Seq<u8>),
            Error,
        >((payload[0], payload.drop_first())),
{
    let rec = record(payload, padding);
    lemma_record(payload, 16, padding);
    let c = ctr_apply(key, iv, rec);
    let t = hmac_sha256_of(mac_key, mac_input(seq, rec));
    let bytes = c + t;
    lemma_ctr_involution(key, iv, rec);
    lemma_ctr_prefix(key, iv, rec, 16);
    lemma_ctr_involution(key, iv, rec.take(16));
    assert(bytes.take(16) == c.take(16));
    assert(ctr_apply(key, iv, bytes.take(16)) == rec.take(16));
    assert(be_u32_value(rec.take(16)) == be_u32_value(rec));
    assert(bytes.take(rec.len() as int) == c);
    assert(bytes.skip(rec.len() as int) == t);
}

/// Changing the sequence number, or any octet of an encrypted record, changes the octets
/// that the receiver's MAC covers: the record decrypts to a different cleartext. A tag made
/// for the original is then accepted only if HMAC-SHA-256 gives both inputs the same tag.
pub proof fn lemma_mac_input_changes(
    key: Seq<u8>,
    iv: Seq<u8>,
    seq1: u32,
    seq2: u32,
    cipher1: Seq<u8>,
    cipher2: Seq<u8>,
)
    requires
        cipher1.len() % 16 == 0,
        cipher2.len() == cipher1.len(),
        seq1 != seq2 || cipher1 != cipher2,
    ensures
        mac_input(seq1, ctr_apply(key, iv, cipher1)) != mac_input(seq2, ctr_apply(key, iv, cipher2)),
{
    let r1 = ctr_apply(key, iv, cipher1);
    let r2 = ctr_apply(key, iv, cipher2);
    lemma_ctr_involution(key, iv, cipher1);
    lemma_ctr_involution(key, iv, cipher2);
    lemma_u32_round_trip(seq1);
    lemma_u32_round_trip(seq2);
    if mac_input(seq1, r1) == mac_input(seq2, r2) {
        let m = mac_input(seq1, r1);
        assert(m.take(4) == u32_be(seq1));
        assert(mac_input(seq2, r2).take(4) == u32_be(seq2));
        assert(be_u32_value(u32_be(seq1)) == be_u32_value(u32_be(seq2)));
        assert(m.skip(4) == r1);
        assert(mac_input(seq2, r2).skip(4) == r2);
        assert(cipher1 == ctr_apply(key, iv, r1));
    }
}

/// The first block of counter-mode output is the input combined octet by octet with the
/// encrypted counter.
proof fn lemma_ctr_first_block(key: Seq<u8>, iv: Seq<u8>, data: Seq<u8>, j: int)
    requires
        data.len() >= 16,
        0 <= j < 16,
    ensures
        ctr_apply(key, iv, data)[j] == data[j] ^ aes256_block(key, iv)[j],
{
}

/// A sealed record changed at one octet past its length field is refused with `MacMismatch`,
/// unless HMAC-SHA-256 gives the changed cleartext the tag of the original: the length field
/// still decrypts to the same size, and the MAC is checked before anything else is read.
pub proof fn lemma_tampered_record_rejected(
    key: Seq<u8>,
    iv: Seq<u8>,
    mac_key: Seq<u8>,
    seq: u32,
    payload: Seq<u8>,
    padding: Seq<u8>,
    i: int,
    b: u8,
)
    requires
        key.len() == 32,
        iv.len() == 16,
        1 <= payload.len() <= MAX_PACKET_LENGTH - 20,
        padding.len() == padding_for(payload.len(), 16),
        4 <= i < record(payload, padding).len(),
        hmac_sha256_of(
            mac_key,
            mac_input(
                seq,
                ctr_apply(
                    key,
                    iv,
                    sealed(key, iv, mac_key, seq, payload, padding).update(i, b).take(
                        record(payload, padding).len() as int,
                    ),
                ),
            ),
        ) != hmac_sha256_of(mac_key, mac_input(seq, record(payload, padding))),
    ensures
        open_spec(
            key,
            iv,
            mac_key,
            seq,
            sealed(key, iv, mac_key, seq, payload, padding).update(i, b),
        ) == Err::<(u8, Seq<u8>), Error>(Error::MacMismatch),
{
    let rec = record(payload, padding);
    let bytes = sealed(key, iv, mac_key, seq, payload, padding);
    let changed = bytes.update(i, b);
    lemma_frame_round_trip(key, iv, mac_key, seq, payload, padding);
    lemma_record(payload, 16, padding);
    lemma_ctr_involution(key, iv, rec);
    let n = rec.len() as int;
    assert forall|j: int| 0 <= j < 4 implies #[trigger] ctr_apply(key, iv, changed.take(16))[j]
        == ctr_apply(key, iv, bytes.take(16))[j] by {
        lemma_ctr_first_block(key, iv, changed.take(16), j);
        lemma_ctr_first_block(key, iv, bytes.take(16), j);
    }
    assert(head_length(key, iv, changed) == head_length(key, iv, bytes));
    assert(changed.skip(n) == bytes.skip(n));
    assert(bytes.skip(n) == hmac_sha256_of(mac_key, mac_input(seq, rec)));
}

/// A sealed record opened under a different sequence number is refused with `MacMismatch`,
/// unless HMAC-SHA-256 gives both sequence numbers the same tag for the record.
pub proof fn lemma_wrong_sequence_rejected(
    key: Seq<u8>,
    iv: Seq<u8>,
    mac_key: Seq<u8>,
    seq: u32,
    other: u32,
    payload: Seq<u8>,
    padding: Seq<u8>,
)
    requires
        key.len() == 32,
        iv.len() == 16,
        1 <= payload.len() <= MAX_PACKET_LENGTH - 20,
        padding.len() == padding_for(payload.len(), 16),
        hmac_sha256_of(mac_key, mac_input(other, record(payload, padding))) != hmac_sha256_of(
            mac_key,
            mac_input(seq, record(payload, padding)),
        ),
    ensures
        open_spec(key, iv, mac_key, other, sealed(key, iv, mac_key, seq, payload, padding)) == Err::<
            (u8, Seq<u8>),
            Error,
        >(Error::MacMismatch),
{
    let rec = record(payload, padding);
    let bytes = sealed(key, iv, mac_key, seq, payload, padding);
    lemma_frame_round_trip(key, iv, mac_key, seq, payload, padding);
    lemma_record(payload, 16, padding);
    lemma_ctr_involution(key, iv, rec);
    let n = rec.len() as int;
    assert(bytes.take(n) == ctr_apply(key, iv, rec));
    assert(bytes.skip(n) == hmac_sha256_of(mac_key, mac_input(seq, rec)));
}

} // verus!
