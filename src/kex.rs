//! The key-exchange engine: version lines, `KEXINIT` and algorithm negotiation,
//! ECDH over P-256 with an RSA-signed exchange hash, and key derivation.

use crate::cipher::{Decrypter, Encrypter};
use crate::crypto::{
    p256_new_secret, p256_public_key, p256_public_of, p256_shared_of, p256_shared_secret,
    random_bytes, rsa_key_accepted, rsa_sha512_accepted, rsa_sha512_verify, sha256, sha256_of,
};
use crate::names::{
    cipher_alg, cipher_alg_name, client_version, client_version_name, compress_alg,
    compress_alg_name, host_key_alg, host_key_alg_name, kex_alg, kex_alg_name, mac_alg,
    mac_alg_name, rsa_key_type, rsa_key_type_name, version_2_marker, version_2_marker_name,
    version_marker, version_marker_name,
};
use crate::wire::{
    append_bytes, append_mpint, append_name_list, append_string, byte_lists, bytes_eq,
    extract_mpint_unsigned, extract_name_list, extract_string, join_names, mpint_body,
    parse_string, split_names, ssh_string, starts_with, strip_leading,
};
use crate::Error;
use vstd::prelude::*;
use vstd::slice::slice_subrange;

verus! {

/// `SSH_MSG_KEXINIT`.
pub const SSH_MSG_KEXINIT: u8 = 20;

/// `SSH_MSG_NEWKEYS`.
pub const SSH_MSG_NEWKEYS: u8 = 21;

/// `SSH_MSG_KEX_ECDH_INIT`.
pub const SSH_MSG_KEX_ECDH_INIT: u8 = 30;

/// `SSH_MSG_KEX_ECDH_REPLY`.
pub const SSH_MSG_KEX_ECDH_REPLY: u8 = 31;

/// The longest version line accepted, line end included.
pub const MAX_VERSION_LINE: usize = 255;

/// The first name of `client` that `server` also lists.
pub open spec fn negotiated(client: Seq<Seq<u8>>, server: Seq<Seq<u8>>) -> Option<Seq<u8>>
    decreases client.len(),
{
    if client.len() == 0 {
        None
    } else if server.contains(client[0]) {
        Some(client[0])
    } else {
        negotiated(client.drop_first(), server)
    }
}

/// The negotiated name is the first of the client's names that the server lists: every
/// client name before it is missing from the server's list. With no such name there is none.
pub proof fn lemma_negotiated_is_first_shared(client: Seq<Seq<u8>>, server: Seq<Seq<u8>>)
    ensures
        match negotiated(client, server) {
            Some(name) => exists|i: int|
                0 <= i < client.len() && client[i] == name && server.contains(name) && forall|j: int|
                    0 <= j < i ==> !server.contains(#[trigger] client[j]),
            None => forall|j: int| 0 <= j < client.len() ==> !server.contains(#[trigger] client[j]),
        },
    decreases client.len(),
{
    if client.len() > 0 && !server.contains(client[0]) {
        let rest = client.drop_first();
        lemma_negotiated_is_first_shared(rest, server);
        match negotiated(rest, server) {
            Some(name) => {
                let i = choose|i: int|
                    0 <= i < rest.len() && rest[i] == name && server.contains(name) && forall|j: int|
                        0 <= j < i ==> !server.contains(#[trigger] rest[j]);
                assert(client[i + 1] == name);
                assert forall|j: int| 0 <= j < i + 1 implies !server.contains(#[trigger] client[j]) by {
                    if j > 0 {
                        assert(client[j] == rest[j - 1]);
                    }
                }
            },
            None => {
                assert forall|j: int| 0 <= j < client.len() implies !server.contains(
                    #[trigger] client[j],
                ) by {
                    if j > 0 {
                        assert(client[j] == rest[j - 1]);
                    }
                }
            },
        }
    }
}

/// A fresh copy of `s`.
fn copy_bytes(s: &[u8]) -> (r: Vec<u8>)
    ensures
        r@ == s@,
{
    let mut out: Vec<u8> = Vec::new();
    append_bytes(&mut out, s);
    out
}

/// Walks the client's preferences in order and picks the first name that the server also
/// lists; fails with `NoCommonAlgorithm` when there is none.
pub fn negotiate_alg(client: &[Vec<u8>], server: &Vec<Vec<u8>>) -> (r: Result<Vec<u8>, Error>)
    ensures
        match r {
            Ok(name) => negotiated(byte_lists(client@), byte_lists(server@)) == Some(name@),
            Err(e) => negotiated(byte_lists(client@), byte_lists(server@)) is None
                && e is NoCommonAlgorithm,
        },
{
    let ghost cs = byte_lists(client@);
    let ghost ss = byte_lists(server@);
    let mut i: usize = 0;
    assert(cs.skip(0) == cs);
    while i < client.len()
        invariant
            i <= client@.len(),
            cs == byte_lists(client@),
            ss == byte_lists(server@),
            negotiated(cs, ss) == negotiated(cs.skip(i as int), ss),
        decreases client@.len() - i,
    {
        assert(cs.skip(i as int)[0] == cs[i as int]);
        assert(cs.skip(i as int).drop_first() == cs.skip(i + 1));
        let mut j: usize = 0;
        while j < server.len()
            invariant
                j <= server@.len(),
                i < client@.len(),
                cs == byte_lists(client@),
                ss == byte_lists(server@),
                negotiated(cs, ss) == negotiated(cs.skip(i as int), ss),
                forall|k: int| 0 <= k < j ==> ss[k] != cs[i as int],
            decreases server@.len() - j,
        {
            if bytes_eq(server[j].as_slice(), client[i].as_slice()) {
                assert(ss[j as int] == cs[i as int]);
                return Ok(copy_bytes(client[i].as_slice()));
            }
            j += 1;
        }
        assert(!ss.contains(cs[i as int]));
        i += 1;
    }
    Err(Error::NoCommonAlgorithm)
}

/// An SSH `name-list`.
pub open spec fn name_list(names: Seq<Seq<u8>>) -> Seq<u8> {
    ssh_string(join_names(names))
}

/// The `KEXINIT` payload for a cookie: type byte, cookie, one supported name per slot (both
/// directions for cipher, MAC and compression), empty language lists, first-kex-follows false
/// and a zero reserved field.
pub open spec fn kexinit_payload(cookie: Seq<u8>) -> Seq<u8> {
    seq![SSH_MSG_KEXINIT] + cookie + name_list(seq![kex_alg_name()]) + name_list(
        seq![host_key_alg_name()],
    ) + name_list(seq![cipher_alg_name()]) + name_list(seq![cipher_alg_name()]) + name_list(
        seq![mac_alg_name()],
    ) + name_list(seq![mac_alg_name()]) + name_list(seq![compress_alg_name()]) + name_list(
        seq![compress_alg_name()],
    ) + Seq::new(13, |i: int| 0u8)
}

/// A one-name list.
fn single(name: Vec<u8>) -> (r: Vec<Vec<u8>>)
    ensures
        byte_lists(r@) == seq![name@],
{
    let mut v: Vec<Vec<u8>> = Vec::new();
    v.push(name);
    assert(byte_lists(v@) =~= seq![v@[0]@]);
    v
}

/// The `KEXINIT` payload that carries `cookie`.
pub fn kexinit_with_cookie(cookie: &[u8]) -> (r: Vec<u8>)
    requires
        cookie@.len() == 16,
    ensures
        r@ == kexinit_payload(cookie@),
{
    let mut payload: Vec<u8> = Vec::new();
    payload.push(SSH_MSG_KEXINIT);
    append_bytes(&mut payload, cookie);
    append_name_list(&mut payload, single(kex_alg()).as_slice());
    append_name_list(&mut payload, single(host_key_alg()).as_slice());
    append_name_list(&mut payload, single(cipher_alg()).as_slice());
    append_name_list(&mut payload, single(cipher_alg()).as_slice());
    append_name_list(&mut payload, single(mac_alg()).as_slice());
    append_name_list(&mut payload, single(mac_alg()).as_slice());
    append_name_list(&mut payload, single(compress_alg()).as_slice());
    append_name_list(&mut payload, single(compress_alg()).as_slice());
    let ghost before = payload@;
    let mut i: usize = 0;
    while i < 13
        invariant
            i <= 13,
            payload@ == before + Seq::new(i as nat, |k: int| 0u8),
        decreases 13 - i,
    {
        payload.push(0u8);
        i += 1;
        assert(payload@ =~= before + Seq::new(i as nat, |k: int| 0u8));
    }
    payload
}

/// Checks the body of the peer's `SSH_MSG_NEWKEYS`: it must be empty.
pub fn check_newkeys(body: &[u8]) -> (r: Result<(), Error>)
    ensures
        body@.len() == 0 ==> r is Ok,
        body@.len() != 0 ==> r matches Err(Error::MalformedPacket),
{
    if body.len() == 0 {
        Ok(())
    } else {
        Err(Error::MalformedPacket)
    }
}

/// The `KEXINIT` payload with a fresh random cookie.
pub fn gen_kexinit_payload() -> (r: Vec<u8>)
    ensures
        exists|cookie: Seq<u8>| cookie.len() == 16 && r@ == kexinit_payload(cookie),
{
    let cookie = random_bytes(16);
    kexinit_with_cookie(cookie.as_slice())
}

/// The algorithms agreed for each slot of the key exchange.
pub struct Algorithms {
    pub kex: Vec<u8>,
    pub host_key: Vec<u8>,
    pub encrypt: Vec<u8>,
    pub decrypt: Vec<u8>,
    pub mac: Vec<u8>,
    pub verify: Vec<u8>,
    pub compress: Vec<u8>,
    pub decompress: Vec<u8>,
}

/// The first `n` name-lists at the front of `b`, each split into its names.
pub open spec fn parse_name_lists(b: Seq<u8>, n: nat) -> Option<Seq<Seq<Seq<u8>>>>
    decreases n,
{
    if n == 0 {
        Some(Seq::empty())
    } else {
        match parse_string(b) {
            Some((content, rest)) => match parse_name_lists(rest, (n - 1) as nat) {
                Some(more) => Some(seq![split_names(content)] + more),
                None => None,
            },
            None => None,
        }
    }
}

/// The ten name-lists of a peer's `KEXINIT` body (the payload after its type byte): they
/// follow the 16-octet cookie. `None` when the body is shorter than 61 octets or a list
/// overruns it.
pub open spec fn kexinit_lists(body: Seq<u8>) -> Option<Seq<Seq<Seq<u8>>>> {
    if body.len() < 61 {
        None
    } else {
        parse_name_lists(body.skip(16), 10)
    }
}

/// The one name this client offers in negotiated slot `i` (kex, host key, cipher both ways,
/// MAC both ways, compression both ways).
pub open spec fn slot_name(i: int) -> Seq<u8> {
    if i == 0 {
        kex_alg_name()
    } else if i == 1 {
        host_key_alg_name()
    } else if i < 4 {
        cipher_alg_name()
    } else if i < 6 {
        mac_alg_name()
    } else {
        compress_alg_name()
    }
}

/// Whether the server lists this client's name in each of the eight negotiated slots.
pub open spec fn kexinit_agrees(lists: Seq<Seq<Seq<u8>>>) -> bool {
    forall|i: int| 0 <= i < 8 ==> #[trigger] lists[i].contains(slot_name(i))
}

/// The names of each list in `v`.
pub open spec fn name_lists_view(v: Seq<Vec<Vec<u8>>>) -> Seq<Seq<Seq<u8>>> {
    v.map_values(|l: Vec<Vec<u8>>| byte_lists(l@))
}

/// Negotiates one slot in which this client offers the single name `name`.
fn negotiate_slot(name: Vec<u8>, server: &Vec<Vec<u8>>) -> (r: Result<Vec<u8>, Error>)
    ensures
        match r {
            Ok(n) => byte_lists(server@).contains(name@) && n@ == name@,
            Err(e) => !byte_lists(server@).contains(name@) && e is NoCommonAlgorithm,
        },
{
    let client = single(name);
    proof {
        let cs = byte_lists(client@);
        assert(cs.drop_first() =~= Seq::<Seq<u8>>::empty());
        assert(negotiated(Seq::<Seq<u8>>::empty(), byte_lists(server@)) is None);
    }
    negotiate_alg(client.as_slice(), server)
}

/// Reads a peer's `KEXINIT` body (the payload after its type byte) and negotiates every
/// slot. Fails with `MalformedPacket` when the body is too short or a list overruns it, and
/// with `NoCommonAlgorithm` when the server does not list this client's name in some slot.
pub fn negotiate_kexinit(body: &[u8]) -> (r: Result<Algorithms, Error>)
    ensures
        match r {
            Ok(a) => kexinit_lists(body@) matches Some(lists) && kexinit_agrees(lists) && a.kex@
                == kex_alg_name() && a.host_key@ == host_key_alg_name() && a.encrypt@
                == cipher_alg_name() && a.decrypt@ == cipher_alg_name() && a.mac@ == mac_alg_name()
                && a.verify@ == mac_alg_name() && a.compress@ == compress_alg_name()
                && a.decompress@ == compress_alg_name(),
            Err(e) => match kexinit_lists(body@) {
                None => e is MalformedPacket,
                Some(lists) => !kexinit_agrees(lists) && e is NoCommonAlgorithm,
            },
        },
{
    if body.len() < 61 {
        return Err(Error::MalformedPacket);
    }
    let mut lists: Vec<Vec<Vec<u8>>> = Vec::new();
    let mut rest = slice_subrange(body, 16, body.len());
    let ghost whole = body@.skip(16);
    assert(rest@ == whole);
    assert(name_lists_view(lists@) + Seq::<Seq<Seq<u8>>>::empty() =~= Seq::<Seq<Seq<u8>>>::empty());
    let mut i: usize = 0;
    while i < 10
        invariant
            i <= 10,
            lists@.len() == i,
            whole == body@.skip(16),
            parse_name_lists(whole, 10) == match parse_name_lists(rest@, (10 - i) as nat) {
                Some(more) => Some(name_lists_view(lists@) + more),
                None => None,
            },
        decreases 10 - i,
    {
        let (names, after) = extract_name_list(rest)?;
        let ghost before = name_lists_view(lists@);
        lists.push(names);
        proof {
            assert(name_lists_view(lists@) =~= before.push(byte_lists(names@)));
            match parse_name_lists(after@, (10 - i - 1) as nat) {
                Some(more) => {
                    assert(before + (seq![byte_lists(names@)] + more) =~= name_lists_view(lists@)
                        + more);
                },
                None => {},
            }
        }
        rest = after;
        i += 1;
    }
    let ghost ls = name_lists_view(lists@);
    assert(parse_name_lists(whole, 10) == Some(ls + Seq::<Seq<Seq<u8>>>::empty()));
    assert(ls + Seq::<Seq<Seq<u8>>>::empty() == ls);
    assert(forall|k: int| 0 <= k < 10 ==> ls[k] == byte_lists(#[trigger] lists@[k]@));
    let kex = match negotiate_slot(kex_alg(), &lists[0]) {
        Ok(n) => n,
        Err(e) => {
            assert(!ls[0].contains(slot_name(0)));
            return Err(e);
        },
    };
    let host_key = match negotiate_slot(host_key_alg(), &lists[1]) {
        Ok(n) => n,
        Err(e) => {
            assert(!ls[1].contains(slot_name(1)));
            return Err(e);
        },
    };
    let encrypt = match negotiate_slot(cipher_alg(), &lists[2]) {
        Ok(n) => n,
        Err(e) => {
            assert(!ls[2].contains(slot_name(2)));
            return Err(e);
        },
    };
    let decrypt = match negotiate_slot(cipher_alg(), &lists[3]) {
        Ok(n) => n,
        Err(e) => {
            assert(!ls[3].contains(slot_name(3)));
            return Err(e);
        },
    };
    let mac = match negotiate_slot(mac_alg(), &lists[4]) {
        Ok(n) => n,
        Err(e) => {
            assert(!ls[4].contains(slot_name(4)));
            return Err(e);
        },
    };
    let verify = match negotiate_slot(mac_alg(), &lists[5]) {
        Ok(n) => n,
        Err(e) => {
            assert(!ls[5].contains(slot_name(5)));
            return Err(e);
        },
    };
    let compress = match negotiate_slot(compress_alg(), &lists[6]) {
        Ok(n) => n,
        Err(e) => {
            assert(!ls[6].contains(slot_name(6)));
            return Err(e);
        },
    };
    let decompress = match negotiate_slot(compress_alg(), &lists[7]) {
        Ok(n) => n,
        Err(e) => {
            assert(!ls[7].contains(slot_name(7)));
            return Err(e);
        },
    };
    assert(kexinit_agrees(ls)) by {
        assert forall|k: int| 0 <= k < 8 implies #[trigger] ls[k].contains(slot_name(k)) by {
            if k == 0 {
            } else if k == 1 {
            } else if k == 2 {
            } else if k == 3 {
            } else if k == 4 {
            } else if k == 5 {
            } else if k == 6 {
            } else {
            }
        }
    }
    Ok(Algorithms { kex, host_key, encrypt, decrypt, mac, verify, compress, decompress })
}

/// Whether a line from the server (line end included) is an acceptable version line: it ends
/// in CR LF, is at most 255 octets long and starts with `SSH-2.`.
pub open spec fn version_line_ok(line: Seq<u8>) -> bool {
    &&& 2 <= line.len() <= MAX_VERSION_LINE
    &&& line[line.len() - 2] == 13u8
    &&& line[line.len() - 1] == 10u8
    &&& line.len() >= 6
    &&& line.take(6) == version_2_marker_name()
}

/// Whether a line from the server is the version line (it starts with `SSH-`); lines before
/// it are skipped.
pub fn is_version_line(line: &[u8]) -> (r: bool)
    ensures
        r == (line@.len() >= 4 && line@.take(4) == version_marker_name()),
{
    let marker = version_marker();
    starts_with(line, marker.as_slice())
}

/// Checks the server's version line (line end included) and returns it without its line
/// end; fails with `BadVersion` when it is not an acceptable SSH-2 version line.
pub fn parse_server_version(line: &[u8]) -> (r: Result<Vec<u8>, Error>)
    ensures
        match r {
            Ok(v) => version_line_ok(line@) && v@ == line@.take(line@.len() - 2),
            Err(e) => !version_line_ok(line@) && e is BadVersion,
        },
{
    let n = line.len();
    if n < 2 || n > MAX_VERSION_LINE || line[n - 2] != 13u8 || line[n - 1] != 10u8 {
        return Err(Error::BadVersion);
    }
    let marker = version_2_marker();
    if !starts_with(line, marker.as_slice()) {
        return Err(Error::BadVersion);
    }
    Ok(copy_bytes(slice_subrange(line, 0, n - 2)))
}

/// The start of the exchange-hash input: the client's and the server's version lines
/// (without line ends), each as a `string`.
pub open spec fn version_prefix_spec(server_version: Seq<u8>) -> Seq<u8> {
    ssh_string(client_version_name()) + ssh_string(server_version)
}

/// The start of the exchange-hash input for the server's version line (without line end).
pub fn version_prefix(server_version: &[u8]) -> (r: Vec<u8>)
    requires
        server_version@.len() <= MAX_VERSION_LINE,
    ensures
        r@ == version_prefix_spec(server_version@),
{
    let mut prefix: Vec<u8> = Vec::new();
    let client = client_version();
    append_string(&mut prefix, client.as_slice());
    append_string(&mut prefix, server_version);
    prefix
}

/// Whether `f` may return `out` for an argument holding the octets `input`.
pub open spec fn hash_returns<F: Fn(&[u8]) -> Vec<u8>>(f: F, input: Seq<u8>, out: Seq<u8>) -> bool {
    exists|x: &[u8], v: Vec<u8>| x@ == input && v@ == out && #[trigger] f.ensures((x,), v)
}

/// The blocks one after the other.
pub open spec fn flatten(blocks: Seq<Seq<u8>>) -> Seq<u8>
    decreases blocks.len(),
{
    if blocks.len() == 0 {
        Seq::empty()
    } else {
        flatten(blocks.drop_last()) + blocks.last()
    }
}

/// The shared secret as an `mpint`, the form in which it enters every hash.
pub open spec fn mpint_of(k: Seq<u8>) -> Seq<u8> {
    ssh_string(mpint_body(k, true))
}

/// Whether `blocks` are the hash outputs of key derivation: the first is
/// `hash(mpint(K) || H || letter || session_id)`, each later one `hash(mpint(K) || H || all
/// blocks before it)`.
pub open spec fn kdf_chain<F: Fn(&[u8]) -> Vec<u8>>(
    f: F,
    k: Seq<u8>,
    h: Seq<u8>,
    letter: u8,
    session_id: Seq<u8>,
    blocks: Seq<Seq<u8>>,
) -> bool {
    &&& blocks.len() >= 1
    &&& hash_returns(f, mpint_of(k) + h + seq![letter] + session_id, blocks[0])
    &&& forall|i: int|
        1 <= i < blocks.len() ==> hash_returns(
            f,
            mpint_of(k) + h + flatten(blocks.take(i)),
            #[trigger] blocks[i],
        )
}

/// Derives `output_len` octets of key material from the shared secret `key`, the exchange
/// hash, a letter and the session identifier: hashes until there are enough octets, then
/// truncates. `hash_fn` must always return at least one octet.
pub fn generate_key<F: Fn(&[u8]) -> Vec<u8>>(
    key: &[u8],
    exchange_hash: &[u8],
    char: u8,
    session_id: &[u8],
    hash_fn: F,
    output_len: usize,
) -> (r: Vec<u8>)
    requires
        key@.len() < u32::MAX,
        forall|x: &[u8]| hash_fn.requires((x,)),
        forall|x: &[u8], v: Vec<u8>| hash_fn.ensures((x,), v) ==> v@.len() >= 1,
    ensures
        r@.len() == output_len,
        exists|blocks: Seq<Seq<u8>>|
            kdf_chain(hash_fn, key@, exchange_hash@, char, session_id@, blocks) && (blocks.len() == 1
                || flatten(blocks.drop_last()).len() < output_len) && output_len <= flatten(
                blocks,
            ).len() && r@ == flatten(blocks).take(output_len as int),
{
    let mut hash_data: Vec<u8> = Vec::new();
    append_mpint(&mut hash_data, key, true);
    append_bytes(&mut hash_data, exchange_hash);
    hash_data.push(char);
    append_bytes(&mut hash_data, session_id);
    let first_input = hash_data.as_slice();
    let mut result = hash_fn(first_input);
    let ghost mut blocks: Seq<Seq<u8>> = seq![result@];
    assert(hash_fn.ensures((first_input,), result));
    assert(flatten(blocks) == flatten(blocks.drop_last()) + result@);
    assert(flatten(blocks.drop_last()) =~= Seq::<u8>::empty());
    assert(hash_data@ =~= mpint_of(key@) + exchange_hash@ + seq![char] + session_id@);
    while result.len() < output_len
        invariant
            forall|x: &[u8]| hash_fn.requires((x,)),
            forall|x: &[u8], v: Vec<u8>| hash_fn.ensures((x,), v) ==> v@.len() >= 1,
            key@.len() < u32::MAX,
            kdf_chain(hash_fn, key@, exchange_hash@, char, session_id@, blocks),
            result@ == flatten(blocks),
            blocks.len() == 1 || flatten(blocks.drop_last()).len() < output_len,
        decreases output_len - (if result@.len() < output_len {
            result@.len() as int
        } else {
            output_len as int
        }),
    {
        let mut data: Vec<u8> = Vec::new();
        append_mpint(&mut data, key, true);
        append_bytes(&mut data, exchange_hash);
        append_bytes(&mut data, result.as_slice());
        let input = data.as_slice();
        let more = hash_fn(input);
        assert(hash_fn.ensures((input,), more));
        assert(more@.len() >= 1);
        let ghost old_blocks = blocks;
        proof {
            blocks = blocks.push(more@);
            assert(blocks.drop_last() == old_blocks);
            assert(blocks.take(old_blocks.len() as int) == old_blocks);
            assert forall|i: int| 1 <= i < blocks.len() implies hash_returns(
                hash_fn,
                mpint_of(key@) + exchange_hash@ + flatten(blocks.take(i)),
                #[trigger] blocks[i],
            ) by {
                if i < old_blocks.len() {
                    assert(blocks.take(i) == old_blocks.take(i));
                    assert(blocks[i] == old_blocks[i]);
                } else {
                    assert(input@ == mpint_of(key@) + exchange_hash@ + flatten(blocks.take(i)));
                }
            }
        }
        append_bytes(&mut result, more.as_slice());
    }
    result.truncate(output_len);
    result
}

/// The outcome of checking an `rsa-sha2-512` signature blob over `message` with an `ssh-rsa`
/// host-key blob. `MalformedPacket` when a field overruns its blob; `SignatureInvalid` when
/// the key type or signature type is wrong, the key is refused, or the signature does not
/// verify.
pub open spec fn rsa_verdict(host_key: Seq<u8>, message: Seq<u8>, signature: Seq<u8>) -> Result<
    (),
    Error,
> {
    match parse_string(host_key) {
        None => Err(Error::MalformedPacket),
        Some((key_type, r1)) => if key_type != rsa_key_type_name() {
            Err(Error::SignatureInvalid)
        } else {
            match parse_string(r1) {
                None => Err(Error::MalformedPacket),
                Some((e, r2)) => match parse_string(r2) {
                    None => Err(Error::MalformedPacket),
                    Some((n, _)) => match parse_string(signature) {
                        None => Err(Error::MalformedPacket),
                        Some((sig_type, r3)) => if sig_type != host_key_alg_name() {
                            Err(Error::SignatureInvalid)
                        } else {
                            match parse_string(r3) {
                                None => Err(Error::MalformedPacket),
                                Some((sig, _)) => {
                                    let e0 = strip_leading(e, 0u8);
                                    let n0 = strip_leading(n, 0u8);
                                    if rsa_key_accepted(n0, e0) && rsa_sha512_accepted(
                                        n0,
                                        e0,
                                        message,
                                        sig,
                                    ) {
                                        Ok(())
                                    } else {
                                        Err(Error::SignatureInvalid)
                                    }
                                },
                            }
                        },
                    },
                },
            }
        },
    }
}

/// Verifies an `rsa-sha2-512` signature (`string("rsa-sha2-512") || string(raw)`) over
/// `hash` with an `ssh-rsa` host key (`string("ssh-rsa") || mpint(e) || mpint(n)`), both as
/// they were sent.
fn rsa_sha2_512_verify(host_key: &[u8], hash: &[u8], signature: &[u8]) -> (r: Result<(), Error>)
    ensures
        r == rsa_verdict(host_key@, hash@, signature@),
{
    let (key_type, rest) = extract_string(host_key)?;
    let expected_key = rsa_key_type();
    if !bytes_eq(key_type.as_slice(), expected_key.as_slice()) {
        return Err(Error::SignatureInvalid);
    }
    let (e, rest) = extract_mpint_unsigned(rest)?;
    let (n, _) = extract_mpint_unsigned(rest)?;
    let (sig_type, rest) = extract_string(signature)?;
    let expected_sig = host_key_alg();
    if !bytes_eq(sig_type.as_slice(), expected_sig.as_slice()) {
        return Err(Error::SignatureInvalid);
    }
    let (sig, _) = extract_string(rest)?;
    match rsa_sha512_verify(n.as_slice(), e.as_slice(), hash, sig.as_slice()) {
        Some(true) => Ok(()),
        _ => Err(Error::SignatureInvalid),
    }
}

/// Verifies the server's signature over the exchange hash with the negotiated host-key
/// algorithm; only `rsa-sha2-512` is known, any other name is an `Internal` error.
fn verify_hash(alg: &[u8], host_key: &[u8], hash: &[u8], signature: &[u8]) -> (r:
    Result<(), Error>)
    ensures
        alg@ == host_key_alg_name() ==> r == rsa_verdict(host_key@, hash@, signature@),
        alg@ != host_key_alg_name() ==> r == Err::<(), Error>(Error::Internal),
{
    let known = host_key_alg();
    if bytes_eq(alg, known.as_slice()) {
        rsa_sha2_512_verify(host_key, hash, signature)
    } else {
        Err(Error::Internal)
    }
}

/// The exchange-hash input: the prefix (versions and both `KEXINIT` payloads), then the host
/// key, the client's and the server's ephemeral points as `string`s, then the shared secret
/// as an `mpint`.
pub open spec fn exchange_hash_input(
    prefix: Seq<u8>,
    host_key: Seq<u8>,
    client_point: Seq<u8>,
    server_point: Seq<u8>,
    k: Seq<u8>,
) -> Seq<u8> {
    prefix + ssh_string(host_key) + ssh_string(client_point) + ssh_string(server_point) + mpint_of(k)
}

/// The three `string`s of an `SSH_MSG_KEX_ECDH_REPLY` body: host key, server point, signature.
pub open spec fn ecdh_reply_fields(reply: Seq<u8>) -> Option<(Seq<u8>, Seq<u8>, Seq<u8>)> {
    match parse_string(reply) {
        None => None,
        Some((host_key, r1)) => match parse_string(r1) {
            None => None,
            Some((server_point, r2)) => match parse_string(r2) {
                None => None,
                Some((signature, _)) => Some((host_key, server_point, signature)),
            },
        },
    }
}

/// A key exchange in progress: the exchange-hash prefix, the negotiated algorithms and the
/// client's ephemeral P-256 key pair.
pub struct Handshake {
    hash_prefix: Vec<u8>,
    algorithms: Algorithms,
    secret: Vec<u8>,
    public: Vec<u8>,
}

impl Handshake {
    /// The ephemeral point is an uncompressed SEC1 point.
    #[verifier::type_invariant]
    spec fn inv(self) -> bool {
        self.public@.len() == 65
    }

    /// The exchange-hash input gathered so far.
    pub closed spec fn prefix_view(&self) -> Seq<u8> {
        self.hash_prefix@
    }

    /// The client's ephemeral secret scalar.
    pub closed spec fn secret_view(&self) -> Seq<u8> {
        self.secret@
    }

    /// The client's ephemeral public point, SEC1-encoded.
    pub closed spec fn public_view(&self) -> Seq<u8> {
        self.public@
    }

    /// The negotiated host-key algorithm.
    pub closed spec fn host_key_alg_view(&self) -> Seq<u8> {
        self.algorithms.host_key@
    }

    /// Starts the exchange once both `KEXINIT`s are known: negotiates every slot from the
    /// peer's body (its payload after the type byte), extends the exchange-hash prefix with
    /// both payloads as `string`s (ours first), and draws an ephemeral P-256 key pair.
    pub fn start(version_prefix: &[u8], sent_kexinit: &[u8], peer_kexinit: &[u8]) -> (r: Result<
        Handshake,
        Error,
    >)
        requires
            sent_kexinit@.len() <= u32::MAX,
            peer_kexinit@.len() < u32::MAX,
        ensures
            match r {
                Ok(h) => kexinit_lists(peer_kexinit@) matches Some(lists) && kexinit_agrees(lists)
                    && h.prefix_view() == version_prefix@ + ssh_string(sent_kexinit@) + ssh_string(
                    seq![SSH_MSG_KEXINIT] + peer_kexinit@,
                ) && p256_public_of(h.secret_view()) == Some(h.public_view())
                    && h.host_key_alg_view() == host_key_alg_name(),
                Err(e) => match kexinit_lists(peer_kexinit@) {
                    None => e is MalformedPacket,
                    Some(lists) => !kexinit_agrees(lists) && e is NoCommonAlgorithm,
                },
            },
    {
        let algorithms = negotiate_kexinit(peer_kexinit)?;
        let mut hash_prefix = copy_bytes(version_prefix);
        append_string(&mut hash_prefix, sent_kexinit);
        let mut peer: Vec<u8> = Vec::new();
        peer.push(SSH_MSG_KEXINIT);
        append_bytes(&mut peer, peer_kexinit);
        append_string(&mut hash_prefix, peer.as_slice());
        let secret = p256_new_secret();
        let public = match p256_public_key(secret.as_slice()) {
            Some(p) => p,
            None => return Err(Error::Internal),
        };
        Ok(Handshake { hash_prefix, algorithms, secret, public })
    }

    /// The length of the exchange-hash input gathered so far.
    pub fn prefix_len(&self) -> (r: usize)
        ensures
            r == self.prefix_view().len(),
    {
        self.hash_prefix.len()
    }

    /// The negotiated algorithms.
    pub fn algorithms(&self) -> (r: &Algorithms)
        ensures
            r.host_key@ == self.host_key_alg_view(),
    {
        &self.algorithms
    }

    /// The `SSH_MSG_KEX_ECDH_INIT` payload: the client's ephemeral point as a `string`.
    pub fn ecdh_init_payload(&self) -> (r: Vec<u8>)
        ensures
            r@ == seq![SSH_MSG_KEX_ECDH_INIT] + ssh_string(self.public_view()),
    {
        proof {
            use_type_invariant(self);
        }
        let mut payload: Vec<u8> = Vec::new();
        payload.push(SSH_MSG_KEX_ECDH_INIT);
        append_string(&mut payload, self.public.as_slice());
        payload
    }

    /// Finishes the exchange from the `SSH_MSG_KEX_ECDH_REPLY` body: computes the shared
    /// secret `K` from the server's point, the exchange hash `H` (SHA-256), and verifies the
    /// server's signature over `H`. Returns `(K, H)`. Fails with `MalformedPacket` when a field
    /// overruns the body or the server's point is not a valid P-256 point, and otherwise as
    /// the signature check does.
    pub fn ecdh_sha2_nistp256_exchange(&self, reply: &[u8]) -> (r: Result<(Vec<u8>, Vec<u8>), Error>)
        requires
            self.prefix_view().len() + reply@.len() + 128 <= u32::MAX,
        ensures
            match r {
                Ok((k, h)) => ecdh_reply_fields(reply@) matches Some((host_key, server_point, signature))
                    && p256_shared_of(self.secret_view(), server_point) == Some(k@) && k@.len() == 32
                    && h@ == sha256_of(
                    exchange_hash_input(
                        self.prefix_view(),
                        host_key,
                        self.public_view(),
                        server_point,
                        k@,
                    ),
                ) && verify_outcome(self.host_key_alg_view(), host_key, h@, signature) == Ok::<
                    (),
                    Error,
                >(()),
                Err(e) => match ecdh_reply_fields(reply@) {
                    None => e is MalformedPacket,
                    Some((host_key, server_point, signature)) => match p256_shared_of(
                        self.secret_view(),
                        server_point,
                    ) {
                        None => e is MalformedPacket,
                        Some(k) => verify_outcome(
                            self.host_key_alg_view(),
                            host_key,
                            sha256_of(
                                exchange_hash_input(
                                    self.prefix_view(),
                                    host_key,
                                    self.public_view(),
                                    server_point,
                                    k,
                                ),
                            ),
                            signature,
                        ) == Err::<(), Error>(e),
                    },
                },
            },
    {
        proof {
            use_type_invariant(self);
        }
        let (host_key, rest) = extract_string(reply)?;
        let (server_point, rest) = extract_string(rest)?;
        let (signature, _) = extract_string(rest)?;
        let key = match p256_shared_secret(self.secret.as_slice(), server_point.as_slice()) {
            Some(k) => k,
            None => return Err(Error::MalformedPacket),
        };
        let mut input = copy_bytes(self.hash_prefix.as_slice());
        append_string(&mut input, host_key.as_slice());
        append_string(&mut input, self.public.as_slice());
        append_string(&mut input, server_point.as_slice());
        append_mpint(&mut input, key.as_slice(), true);
        let exchange_hash = sha256(input.as_slice());
        verify_hash(
            self.algorithms.host_key.as_slice(),
            host_key.as_slice(),
            exchange_hash.as_slice(),
            signature.as_slice(),
        )?;
        Ok((key, exchange_hash))
    }
}

/// What checking the host's signature gives under the negotiated host-key algorithm.
pub open spec fn verify_outcome(
    host_key_alg: Seq<u8>,
    host_key: Seq<u8>,
    hash: Seq<u8>,
    signature: Seq<u8>,
) -> Result<(), Error> {
    if host_key_alg == host_key_alg_name() {
        rsa_verdict(host_key, hash, signature)
    } else {
        Err(Error::Internal)
    }
}

/// The first `n` SHA-256 blocks of key derivation, one after the other.
pub open spec fn sha256_blocks(k: Seq<u8>, h: Seq<u8>, letter: u8, session_id: Seq<u8>, n: nat) -> Seq<
    u8,
>
    decreases n,
{
    if n == 0 {
        Seq::empty()
    } else if n == 1 {
        sha256_of(mpint_of(k) + h + seq![letter] + session_id)
    } else {
        let before = sha256_blocks(k, h, letter, session_id, (n - 1) as nat);
        before + sha256_of(mpint_of(k) + h + before)
    }
}

/// How many 32-octet blocks key derivation computes for `len` octets: at least one.
pub open spec fn blocks_needed(len: nat) -> nat {
    if len <= 32 {
        1
    } else {
        ((len + 31) / 32) as nat
    }
}

/// Key material derived with SHA-256: `len` octets of the derivation for `letter`.
pub open spec fn derive_key(k: Seq<u8>, h: Seq<u8>, letter: u8, session_id: Seq<u8>, len: nat) -> Seq<
    u8,
> {
    sha256_blocks(k, h, letter, session_id, blocks_needed(len)).take(len as int)
}

/// Under a hash function that is SHA-256, the chain of derivation blocks is the one that
/// `sha256_blocks` describes, 32 octets per block.
proof fn lemma_sha256_chain<F: Fn(&[u8]) -> Vec<u8>>(
    f: F,
    k: Seq<u8>,
    h: Seq<u8>,
    letter: u8,
    session_id: Seq<u8>,
    blocks: Seq<Seq<u8>>,
    i: nat,
)
    requires
        forall|x: &[u8], v: Vec<u8>| f.ensures((x,), v) ==> v@ == sha256_of(x@) && v@.len() == 32,
        kdf_chain(f, k, h, letter, session_id, blocks),
        1 <= i <= blocks.len(),
    ensures
        flatten(blocks.take(i as int)) == sha256_blocks(k, h, letter, session_id, i),
        flatten(blocks.take(i as int)).len() == 32 * i,
    decreases i,
{
    let t = blocks.take(i as int);
    assert(t.drop_last() == blocks.take(i - 1));
    assert(t.last() == blocks[i - 1]);
    if i == 1 {
        assert(blocks.take(0) =~= Seq::<Seq<u8>>::empty());
        let input = mpint_of(k) + h + seq![letter] + session_id;
        assert(hash_returns(f, input, blocks[0]));
        let (x, v) = choose|x: &[u8], v: Vec<u8>| x@ == input && v@ == blocks[0] && #[trigger] f.ensures((x,), v);
        assert(flatten(t) =~= blocks[0]);
    } else {
        lemma_sha256_chain(f, k, h, letter, session_id, blocks, (i - 1) as nat);
        let before = flatten(blocks.take(i - 1));
        let input = mpint_of(k) + h + before;
        assert(hash_returns(f, input, blocks[i - 1]));
        let (x, v) = choose|x: &[u8], v: Vec<u8>| x@ == input && v@ == blocks[i - 1] && #[trigger] f.ensures((x,), v);
    }
}

/// Derives `len` octets of key material with SHA-256.
fn derive(key: &[u8], exchange_hash: &[u8], letter: u8, session_id: &[u8], len: usize) -> (r: Vec<u8>)
    requires
        key@.len() < u32::MAX,
    ensures
        r@ == derive_key(key@, exchange_hash@, letter, session_id@, len as nat),
{
    let hash_fn = |x: &[u8]| -> (v: Vec<u8>)
        ensures
            v@ == sha256_of(x@),
            v@.len() == 32,
        { sha256(x) };
    let r = generate_key(key, exchange_hash, letter, session_id, hash_fn, len);
    proof {
        let blocks = choose|blocks: Seq<Seq<u8>>|
            kdf_chain(hash_fn, key@, exchange_hash@, letter, session_id@, blocks) && (blocks.len() == 1
                || flatten(blocks.drop_last()).len() < len) && len <= flatten(blocks).len() && r@
                == flatten(blocks).take(len as int);
        let n = blocks.len();
        lemma_sha256_chain(hash_fn, key@, exchange_hash@, letter, session_id@, blocks, n);
        assert(blocks.take(n as int) == blocks);
        if n > 1 {
            lemma_sha256_chain(hash_fn, key@, exchange_hash@, letter, session_id@, blocks, (n - 1) as nat);
            assert(blocks.drop_last() == blocks.take(n - 1));
        }
        let l = len as int;
        let m = n as int;
        assert(m == 1 || 32 * (m - 1) < l);
        assert(l <= 32 * m);
        assert(m == blocks_needed(len as nat)) by (nonlinear_arith)
            requires
                m >= 1,
                m == 1 || 32 * (m - 1) < l,
                l <= 32 * m,
                l >= 0,
                blocks_needed(len as nat) == (if l <= 32 { 1 } else { (l + 31) / 32 }),
        ;
    }
    r
}

/// Whether the negotiated algorithms are the ones this client implements.
pub open spec fn algorithms_supported(a: Algorithms) -> bool {
    &&& a.kex@ == kex_alg_name()
    &&& a.encrypt@ == cipher_alg_name()
    &&& a.decrypt@ == cipher_alg_name()
    &&& a.mac@ == mac_alg_name()
    &&& a.verify@ == mac_alg_name()
    &&& a.compress@ == compress_alg_name()
    &&& a.decompress@ == compress_alg_name()
}

/// Installs the keys of a finished exchange: derives both counters, both cipher keys and both
/// MAC keys from the shared secret `K` and exchange hash `H` (letters `A` to `F`), keeps the
/// session identifier and the sequence numbers of the previous states on a re-exchange, and
/// otherwise takes `H` as the session identifier and the counts of records sent and received
/// so far (`num_sent`, `num_read`) as the sequence numbers: they do not restart. Fails with
/// `Internal` when a negotiated algorithm is not one this client implements.
pub fn generate(
    algorithms: &Algorithms,
    key: &[u8],
    exchange_hash: &[u8],
    num_sent: u32,
    num_read: u32,
    old_enc: Option<Encrypter>,
    old_dec: Option<Decrypter>,
) -> (r: Result<(Encrypter, Decrypter), Error>)
    requires
        key@.len() < u32::MAX,
    ensures
        match r {
            Ok((enc, dec)) => {
                let sid = match old_enc {
                    Some(e) => e.session_id_view(),
                    None => exchange_hash@,
                };
                &&& enc.session_id_view() == sid
                &&& enc.seq() == match old_enc {
                    Some(e) => e.seq(),
                    None => num_sent,
                }
                &&& dec.seq() == match old_dec {
                    Some(d) => d.seq(),
                    None => num_read,
                }
                &&& enc.iv_view() == derive_key(key@, exchange_hash@, 65u8, sid, 16)
                &&& dec.iv_view() == derive_key(key@, exchange_hash@, 66u8, sid, 16)
                &&& enc.key_view() == derive_key(key@, exchange_hash@, 67u8, sid, 32)
                &&& dec.key_view() == derive_key(key@, exchange_hash@, 68u8, sid, 32)
                &&& enc.mac_key_view() == derive_key(key@, exchange_hash@, 69u8, sid, 32)
                &&& algorithms_supported(*algorithms)
                &&& dec.verify_key_view() == derive_key(key@, exchange_hash@, 70u8, sid, 32)
            },
            Err(e) => !algorithms_supported(*algorithms) && e is Internal,
        },
{
    let aes = cipher_alg();
    let hmac = mac_alg();
    let plain = compress_alg();
    let kex = kex_alg();
    if !bytes_eq(algorithms.encrypt.as_slice(), aes.as_slice()) || !bytes_eq(
        algorithms.decrypt.as_slice(),
        aes.as_slice(),
    ) || !bytes_eq(algorithms.mac.as_slice(), hmac.as_slice()) || !bytes_eq(
        algorithms.verify.as_slice(),
        hmac.as_slice(),
    ) || !bytes_eq(algorithms.compress.as_slice(), plain.as_slice()) || !bytes_eq(
        algorithms.decompress.as_slice(),
        plain.as_slice(),
    ) || !bytes_eq(algorithms.kex.as_slice(), kex.as_slice()) {
        return Err(Error::Internal);
    }
    let iv_len: usize = 16;
    let key_len: usize = 32;
    let mac_key_len: usize = 32;
    let (packet_num_send, session_id) = match old_enc {
        Some(encrypter) => (encrypter.sequence_number(), copy_bytes(encrypter.session_id().as_slice())),
        None => (num_sent, copy_bytes(exchange_hash)),
    };
    let packet_num_receive = match old_dec {
        Some(decrypter) => decrypter.sequence_number(),
        None => num_read,
    };
    let sid = session_id.as_slice();
    let iv_encrypt = derive(key, exchange_hash, 'A' as u8, sid, iv_len);
    let iv_decrypt = derive(key, exchange_hash, 'B' as u8, sid, iv_len);
    let encrypt_key = derive(key, exchange_hash, 'C' as u8, sid, key_len);
    let decrypt_key = derive(key, exchange_hash, 'D' as u8, sid, key_len);
    let mac_key = derive(key, exchange_hash, 'E' as u8, sid, mac_key_len);
    let verify_key = derive(key, exchange_hash, 'F' as u8, sid, mac_key_len);
    let enc = Encrypter::new(iv_encrypt, encrypt_key, mac_key, packet_num_send, session_id);
    let dec = Decrypter::new(iv_decrypt, decrypt_key, verify_key, packet_num_receive);
    Ok((enc, dec))
}

} // verus!
