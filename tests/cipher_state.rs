use hmac::{Hmac, Mac};
use sha2::Sha256;
use tssh::cipher::{increment_counter, Decrypter, Encrypter};
use tssh::Error;

fn hex(s: &str) -> Vec<u8> {
    (0..s.len()).step_by(2).map(|i| u8::from_str_radix(&s[i..i + 2], 16).unwrap()).collect()
}

#[test]
fn counter_all_ones_wraps_to_zero() {
    let mut c = [0xFFu8; 16];
    increment_counter(&mut c);
    assert_eq!(c, [0u8; 16]);
}

#[test]
fn counter_carries_into_previous_octet() {
    let mut c = [0u8; 16];
    c[15] = 0xFF;
    increment_counter(&mut c);
    let mut expected = [0u8; 16];
    expected[14] = 1;
    assert_eq!(c, expected);
}

#[test]
fn counter_increments_last_octet() {
    let mut c = [1u8, 2, 3];
    increment_counter(&mut c);
    assert_eq!(c, [1, 2, 4]);
}

#[test]
fn aes256_ctr_known_vector() {
    let key = hex("603deb1015ca71be2b73aef0857d77811f352c073b6108d72d9810a30914dff4");
    let iv = hex("f0f1f2f3f4f5f6f7f8f9fafbfcfdfeff");
    let plain = hex("6bc1bee22e409f96e93d7e117393172aae2d8a571e03ac9c9eb76fac45af8e51");
    let mut enc = Encrypter::new(iv, key, vec![0; 32], 0, vec![]);
    let cipher = enc.encrypt(plain).ok().unwrap();
    assert_eq!(
        cipher,
        hex("601ec313775789a5b7a7f504bbf3d228f443e3ca4d62b59aca84e990cacaf5c5")
    );
}

#[test]
fn encrypt_then_decrypt_gives_plaintext() {
    let key: Vec<u8> = (0..32).collect();
    let iv: Vec<u8> = (100..116).collect();
    let mut enc = Encrypter::new(iv.clone(), key.clone(), vec![1; 32], 0, vec![]);
    let mut dec = Decrypter::new(iv, key, vec![1; 32], 0);
    let plain: Vec<u8> = (0..48).map(|i| (i * 7) as u8).collect();
    let cipher = enc.encrypt(plain.clone()).ok().unwrap();
    assert_ne!(cipher, plain);
    assert_eq!(dec.decrypt(cipher).ok().unwrap(), plain);
    let second = enc.encrypt(vec![0; 16]).ok().unwrap();
    assert_eq!(dec.decrypt(second).ok().unwrap(), vec![0; 16]);
}

#[test]
fn counter_keeps_running_across_records() {
    let key: Vec<u8> = vec![3; 32];
    let iv: Vec<u8> = vec![0xFF; 16];
    let mut whole = Encrypter::new(iv.clone(), key.clone(), vec![], 0, vec![]);
    let mut split = Encrypter::new(iv, key, vec![], 0, vec![]);
    let a = whole.encrypt(vec![5; 32]).ok().unwrap();
    let mut b = split.encrypt(vec![5; 16]).ok().unwrap();
    b.extend(split.encrypt(vec![5; 16]).ok().unwrap());
    assert_eq!(a, b);
}

#[test]
fn encrypt_rejects_partial_blocks_and_bad_keys() {
    let mut enc = Encrypter::new(vec![0; 16], vec![0; 32], vec![], 0, vec![]);
    assert_eq!(enc.encrypt(vec![0; 15]).err(), Some(Error::Internal));
    let mut short_key = Encrypter::new(vec![0; 16], vec![0; 31], vec![], 0, vec![]);
    assert_eq!(short_key.encrypt(vec![0; 16]).err(), Some(Error::Internal));
    assert_eq!(short_key.encrypt(vec![]).ok(), Some(vec![]));
    let mut dec = Decrypter::new(vec![0; 15], vec![0; 32], vec![], 0);
    assert_eq!(dec.decrypt(vec![0; 16]).err(), Some(Error::Internal));
}

#[test]
fn block_sizes_and_tag_length() {
    let enc = Encrypter::new(vec![0; 16], vec![0; 32], vec![], 0, vec![]);
    let dec = Decrypter::new(vec![0; 16], vec![0; 32], vec![], 0);
    assert_eq!(enc.block_size(), 16);
    assert_eq!(dec.block_size(), 16);
    assert_eq!(dec.verify_length(), 32);
}

#[test]
fn mac_covers_sequence_number_and_record() {
    let mac_key = b"a mac key".to_vec();
    let mut enc = Encrypter::new(vec![0; 16], vec![0; 32], mac_key.clone(), 7, vec![]);
    let tag = enc.mac(b"record");
    let mut expected = <Hmac<Sha256> as Mac>::new_from_slice(&mac_key).unwrap();
    expected.update(&[0, 0, 0, 7]);
    expected.update(b"record");
    assert_eq!(tag, expected.finalize().into_bytes().to_vec());
    assert_eq!(enc.packet_num, 8);
}

#[test]
fn sequence_number_wraps() {
    let mut enc = Encrypter::new(vec![0; 16], vec![0; 32], vec![], u32::MAX, vec![]);
    enc.mac(b"x");
    assert_eq!(enc.packet_num, 0);
}

#[test]
fn verify_rejects_any_flipped_bit() {
    let mac_key = vec![0x42; 32];
    let record: Vec<u8> = (0..32).collect();
    let mut enc = Encrypter::new(vec![0; 16], vec![0; 32], mac_key.clone(), 5, vec![]);
    let tag = enc.mac(&record);
    let mut dec = Decrypter::new(vec![0; 16], vec![0; 32], mac_key.clone(), 5);
    assert!(dec.verify(&record, &tag));
    assert_eq!(dec.packet_num, 6);
    for i in 0..record.len() {
        for bit in 0..8 {
            let mut changed = record.clone();
            changed[i] ^= 1 << bit;
            let mut d = Decrypter::new(vec![0; 16], vec![0; 32], mac_key.clone(), 5);
            assert!(!d.verify(&changed, &tag));
        }
    }
    for bit in 0..32 {
        let mut d = Decrypter::new(vec![0; 16], vec![0; 32], mac_key.clone(), 5 ^ (1u32 << bit));
        assert!(!d.verify(&record, &tag));
    }
    let mut d = Decrypter::new(vec![0; 16], vec![0; 32], mac_key, 5);
    assert!(!d.verify(&record, &tag[..31]));
}

#[test]
fn compression_is_identity() {
    let enc = Encrypter::new(vec![], vec![], vec![], 0, vec![]);
    let dec = Decrypter::new(vec![], vec![], vec![], 0);
    assert_eq!(enc.compress(b"payload"), b"payload".to_vec());
    assert_eq!(dec.decompress(b"payload"), b"payload".to_vec());
}
