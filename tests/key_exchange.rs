use sha2::{Digest, Sha256};
use tssh::kex::{
    gen_kexinit_payload, generate, generate_key, is_version_line, kexinit_with_cookie,
    negotiate_alg, negotiate_kexinit, parse_server_version, version_prefix, Handshake,
};
use tssh::wire::{append_mpint, append_name_list, append_string};
use tssh::Error;

fn names(list: &[&str]) -> Vec<Vec<u8>> {
    list.iter().map(|s| s.as_bytes().to_vec()).collect()
}

#[test]
fn negotiation_prefers_client_order() {
    let client = names(&["a", "b", "c"]);
    let server = names(&["c", "a"]);
    assert_eq!(negotiate_alg(&client, &server).ok(), Some(b"a".to_vec()));
}

#[test]
fn negotiation_without_overlap_fails() {
    let client = names(&["aes256-ctr"]);
    let server = names(&["chacha20-poly1305@openssh.com"]);
    assert_eq!(negotiate_alg(&client, &server).err(), Some(Error::NoCommonAlgorithm));
    assert_eq!(negotiate_alg(&[], &server).err(), Some(Error::NoCommonAlgorithm));
}

fn server_kexinit(enc: &[&str]) -> Vec<u8> {
    let mut body = vec![0x55u8; 16];
    append_name_list(&mut body, &names(&["curve25519-sha256", "ecdh-sha2-nistp256"]));
    append_name_list(&mut body, &names(&["ssh-ed25519", "rsa-sha2-512"]));
    append_name_list(&mut body, &names(enc));
    append_name_list(&mut body, &names(enc));
    append_name_list(&mut body, &names(&["hmac-sha2-256"]));
    append_name_list(&mut body, &names(&["hmac-sha2-256"]));
    append_name_list(&mut body, &names(&["none", "zlib@openssh.com"]));
    append_name_list(&mut body, &names(&["none"]));
    append_name_list(&mut body, &[]);
    append_name_list(&mut body, &[]);
    body.extend([0, 0, 0, 0, 0]);
    body
}

#[test]
fn kexinit_negotiates_every_slot() {
    let body = server_kexinit(&["aes128-ctr", "aes256-ctr"]);
    let algs = negotiate_kexinit(&body).ok().unwrap();
    assert_eq!(algs.kex, b"ecdh-sha2-nistp256".to_vec());
    assert_eq!(algs.host_key, b"rsa-sha2-512".to_vec());
    assert_eq!(algs.encrypt, b"aes256-ctr".to_vec());
    assert_eq!(algs.decrypt, b"aes256-ctr".to_vec());
    assert_eq!(algs.mac, b"hmac-sha2-256".to_vec());
    assert_eq!(algs.compress, b"none".to_vec());
}

#[test]
fn kexinit_without_common_cipher_fails() {
    let body = server_kexinit(&["chacha20-poly1305@openssh.com"]);
    assert_eq!(negotiate_kexinit(&body).err(), Some(Error::NoCommonAlgorithm));
}

#[test]
fn short_kexinit_is_malformed() {
    assert_eq!(negotiate_kexinit(&[0; 60]).err(), Some(Error::MalformedPacket));
    let mut body = server_kexinit(&["aes256-ctr"]);
    body.truncate(70);
    assert_eq!(negotiate_kexinit(&body).err(), Some(Error::MalformedPacket));
}

#[test]
fn kexinit_payload_layout() {
    let cookie = [7u8; 16];
    let payload = kexinit_with_cookie(&cookie);
    assert_eq!(payload[0], 20);
    assert_eq!(&payload[1..17], &cookie);
    let mut expected = vec![20u8];
    expected.extend(cookie);
    for n in [
        "ecdh-sha2-nistp256", "rsa-sha2-512", "aes256-ctr", "aes256-ctr", "hmac-sha2-256",
        "hmac-sha2-256", "none", "none",
    ] {
        append_string(&mut expected, n.as_bytes());
    }
    expected.extend([0u8; 13]);
    assert_eq!(payload, expected);
    assert!(negotiate_kexinit(&payload[1..]).is_ok());
}

#[test]
fn kexinit_cookies_are_random() {
    let a = gen_kexinit_payload();
    let b = gen_kexinit_payload();
    assert_eq!(a.len(), b.len());
    assert_ne!(a[1..17], b[1..17]);
    assert_eq!(a[17..], b[17..]);
}

#[test]
fn kdf_iterates_with_a_short_hash() {
    let hash = |x: &[u8]| -> Vec<u8> { vec![x.len() as u8, x[x.len() - 1], 0xAA, 0xBB] };
    let out = generate_key(&[1], &[2, 3], b'A', &[4], hash, 11);
    assert_eq!(out.len(), 11);
    // first block: hash(mpint(K) || H || 'A' || S), with mpint(K) = 00 00 00 01 01
    assert_eq!(&out[..4], &[9, 4, 0xAA, 0xBB]);
    // second block: hash(mpint(K) || H || K1)
    assert_eq!(&out[4..8], &[11, 0xBB, 0xAA, 0xBB]);
    // third block: hash(mpint(K) || H || K1 || K2), truncated
    assert_eq!(&out[8..], &[15, 0xBB, 0xAA]);
}

fn sha(data: &[u8]) -> Vec<u8> {
    Sha256::digest(data).to_vec()
}

#[test]
fn kdf_lengths_are_exact() {
    for len in 0..=64usize {
        let out = generate_key(&[0x80, 1], &[9; 32], b'C', &[8; 32], |x: &[u8]| sha(x), len);
        assert_eq!(out.len(), len);
    }
    let long = generate_key(&[5], &[6], b'E', &[7], |x: &[u8]| sha(x), 100);
    assert_eq!(long.len(), 100);
}

#[test]
fn kdf_matches_the_iterated_hash() {
    let k = [0x80u8, 2, 3];
    let h = [0x11u8; 32];
    let s = [0x22u8; 32];
    let mut mp = Vec::new();
    append_mpint(&mut mp, &k, true);
    let mut first_input = mp.clone();
    first_input.extend(h);
    first_input.push(b'D');
    first_input.extend(s);
    let k1 = sha(&first_input);
    let mut second_input = mp.clone();
    second_input.extend(h);
    second_input.extend(&k1);
    let k2 = sha(&second_input);
    let out = generate_key(&k, &h, b'D', &s, |x: &[u8]| sha(x), 48);
    let mut expected = k1.clone();
    expected.extend(&k2[..16]);
    assert_eq!(out, expected);
}

#[test]
fn generate_installs_derived_keys() {
    let body = server_kexinit(&["aes256-ctr"]);
    let algs = negotiate_kexinit(&body).ok().unwrap();
    let k = vec![0x42u8; 32];
    let h = vec![0x17u8; 32];
    let (enc, dec) = generate(&algs, &k, &h, 3, 5, None, None).ok().unwrap();
    assert_eq!(enc.packet_num, 3);
    assert_eq!(dec.packet_num, 5);
    let (enc7, _) = generate(&algs, &k, &h, 7, 5, None, None).ok().unwrap();
    assert_eq!(enc7.packet_num, 7);
    assert_eq!(enc.session_id(), &h);
    let mut mp = Vec::new();
    append_mpint(&mut mp, &k, true);
    let mut input = mp.clone();
    input.extend(&h);
    input.push(b'E');
    input.extend(&h);
    let mac_key = sha(&input);
    let mut enc = enc;
    let tag = enc.mac(b"x");
    let mut check = tssh::cipher::Decrypter::new(vec![], vec![], mac_key, 3);
    assert!(check.verify(b"x", &tag));
}

#[test]
fn generate_keeps_session_id_on_rekey() {
    let body = server_kexinit(&["aes256-ctr"]);
    let algs = negotiate_kexinit(&body).ok().unwrap();
    let (enc, dec) = generate(&algs, &[1; 32], &[2; 32], 6, 4, None, None).ok().unwrap();
    let (enc2, dec2) = generate(&algs, &[3; 32], &[4; 32], 11, 9, Some(enc), Some(dec)).ok().unwrap();
    assert_eq!(enc2.session_id(), &vec![2u8; 32]);
    assert_eq!(enc2.packet_num, 6);
    assert_eq!(dec2.packet_num, 4);
}

#[test]
fn generate_refuses_unknown_algorithms() {
    let body = server_kexinit(&["aes256-ctr"]);
    let mut algs = negotiate_kexinit(&body).ok().unwrap();
    algs.encrypt = b"aes128-ctr".to_vec();
    assert_eq!(generate(&algs, &[1], &[2], 0, 0, None, None).err(), Some(Error::Internal));
}

#[test]
fn version_lines() {
    assert!(is_version_line(b"SSH-2.0-OpenSSH_9.6\r\n"));
    assert!(!is_version_line(b"Welcome\r\n"));
    assert_eq!(
        parse_server_version(b"SSH-2.0-OpenSSH_9.6\r\n").ok(),
        Some(b"SSH-2.0-OpenSSH_9.6".to_vec())
    );
    assert_eq!(parse_server_version(b"SSH-2.0-OpenSSH\n").err(), Some(Error::BadVersion));
    assert_eq!(parse_server_version(b"SSH-1.99-Old\r\n").err(), Some(Error::BadVersion));
    let mut long = b"SSH-2.0-".to_vec();
    long.extend(vec![b'x'; 246]);
    long.extend(b"\r\n");
    assert_eq!(long.len(), 256);
    assert_eq!(parse_server_version(&long).err(), Some(Error::BadVersion));
    long.remove(10);
    assert!(parse_server_version(&long).is_ok());
}

#[test]
fn version_prefix_layout() {
    let prefix = version_prefix(b"SSH-2.0-srv");
    let mut expected = Vec::new();
    append_string(&mut expected, b"SSH-2.0-TSSH_1.0");
    append_string(&mut expected, b"SSH-2.0-srv");
    assert_eq!(prefix, expected);
}

fn handshake() -> Handshake {
    let sent = kexinit_with_cookie(&[1; 16]);
    let body = server_kexinit(&["aes256-ctr"]);
    Handshake::start(&version_prefix(b"SSH-2.0-srv"), &sent, &body).ok().unwrap()
}

#[test]
fn ecdh_init_carries_a_p256_point() {
    let hs = handshake();
    let init = hs.ecdh_init_payload();
    assert_eq!(init[0], 30);
    assert_eq!(&init[1..5], &[0, 0, 0, 65]);
    assert_eq!(init[5], 4);
    assert_eq!(init.len(), 70);
}

#[test]
fn ecdh_reply_with_bad_point_is_malformed() {
    let hs = handshake();
    let mut reply = Vec::new();
    append_string(&mut reply, b"host key");
    append_string(&mut reply, &[4, 1, 2, 3]);
    append_string(&mut reply, b"signature");
    assert_eq!(hs.ecdh_sha2_nistp256_exchange(&reply).err(), Some(Error::MalformedPacket));
    assert_eq!(hs.ecdh_sha2_nistp256_exchange(&reply[..6]).err(), Some(Error::MalformedPacket));
}

#[test]
fn ecdh_reply_with_wrong_host_key_type_is_refused() {
    let hs = handshake();
    let peer = Handshake::start(
        &version_prefix(b"x"),
        &kexinit_with_cookie(&[2; 16]),
        &server_kexinit(&["aes256-ctr"]),
    )
    .ok()
    .unwrap();
    let point = peer.ecdh_init_payload()[5..].to_vec();
    let mut host_key = Vec::new();
    append_string(&mut host_key, b"ssh-ed25519");
    append_string(&mut host_key, &[0; 32]);
    let mut reply = Vec::new();
    append_string(&mut reply, &host_key);
    append_string(&mut reply, &point);
    append_string(&mut reply, b"sig");
    assert_eq!(hs.ecdh_sha2_nistp256_exchange(&reply).err(), Some(Error::SignatureInvalid));
}

#[test]
fn ecdh_reply_with_forged_rsa_signature_is_refused() {
    let hs = handshake();
    let peer = Handshake::start(
        &version_prefix(b"x"),
        &kexinit_with_cookie(&[2; 16]),
        &server_kexinit(&["aes256-ctr"]),
    )
    .ok()
    .unwrap();
    let point = peer.ecdh_init_payload()[5..].to_vec();
    let mut host_key = Vec::new();
    append_string(&mut host_key, b"ssh-rsa");
    append_mpint(&mut host_key, &[1, 0, 1], true);
    let mut n = vec![0xC5u8; 256];
    n[255] = 0x01;
    append_mpint(&mut host_key, &n, true);
    let mut sig = Vec::new();
    append_string(&mut sig, b"rsa-sha2-512");
    append_string(&mut sig, &[0x33; 256]);
    let mut reply = Vec::new();
    append_string(&mut reply, &host_key);
    append_string(&mut reply, &point);
    append_string(&mut reply, &sig);
    assert_eq!(hs.ecdh_sha2_nistp256_exchange(&reply).err(), Some(Error::SignatureInvalid));
    let mut wrong_type = Vec::new();
    append_string(&mut wrong_type, b"ssh-rsa");
    append_string(&mut wrong_type, &[0x33; 256]);
    let mut reply = Vec::new();
    append_string(&mut reply, &host_key);
    append_string(&mut reply, &point);
    append_string(&mut reply, &wrong_type);
    assert_eq!(hs.ecdh_sha2_nistp256_exchange(&reply).err(), Some(Error::SignatureInvalid));
}
