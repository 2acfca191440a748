use tssh::cipher::{Decrypter, Encrypter};
use tssh::transport::{
    encrypted_packet_size, frame_plain, open_packet, open_plain, padding_length,
    plain_packet_size, seal_packet,
};
use tssh::Error;

#[test]
fn padding_fills_whole_blocks() {
    for block in [8usize, 16] {
        for p in 0..300usize {
            let pad = padding_length(p, block) as usize;
            assert_eq!((p + pad + 5) % block, 0);
            assert!(pad >= 4 && pad <= 255);
            assert!(pad < 4 + block);
        }
    }
}

#[test]
fn padding_exact_values() {
    assert_eq!(padding_length(0, 8), 11);
    assert_eq!(padding_length(3, 8), 8);
    assert_eq!(padding_length(7, 8), 4);
    assert_eq!(padding_length(12, 16), 15);
    assert_eq!(padding_length(27, 16), 16);
}

#[test]
fn plain_frame_layout() {
    let framed = frame_plain(&[21]);
    assert_eq!(framed, vec![0, 0, 0, 12, 10, 21, 0, 0, 0, 0, 0, 0, 0, 0, 0, 0]);
}

#[test]
fn plain_frame_round_trip() {
    let payload = vec![20u8, 1, 2, 3, 4, 5];
    let framed = frame_plain(&payload);
    assert_eq!(plain_packet_size(&framed[..8]).ok(), Some(framed.len()));
    let (t, rest) = open_plain(&framed).ok().unwrap();
    assert_eq!(t, 20);
    assert_eq!(rest, payload[1..].to_vec());
}

#[test]
fn plain_length_checks() {
    assert_eq!(plain_packet_size(&[0, 0, 0, 4, 0, 0, 0, 0]).err(), Some(Error::MalformedPacket));
    assert_eq!(plain_packet_size(&[0, 0, 0, 13, 0, 0, 0, 0]).err(), Some(Error::MalformedPacket));
    assert_eq!(plain_packet_size(&[0, 0, 0x88, 0xB8, 0, 0, 0, 0]).err(), Some(Error::MalformedPacket));
    assert_eq!(plain_packet_size(&[0, 0, 0, 12, 0, 0, 0, 0]).ok(), Some(16));
}

#[test]
fn plain_padding_checks() {
    let mut framed = frame_plain(&[5, 6]);
    framed[4] = 3;
    assert_eq!(open_plain(&framed).err(), Some(Error::MalformedPacket));
    framed[4] = 15;
    assert_eq!(open_plain(&framed).err(), Some(Error::MalformedPacket));
}

fn states(key: &[u8], iv: &[u8], mac_key: &[u8], seq: u32) -> (Encrypter, Decrypter) {
    (
        Encrypter::new(iv.to_vec(), key.to_vec(), mac_key.to_vec(), seq, vec![]),
        Decrypter::new(iv.to_vec(), key.to_vec(), mac_key.to_vec(), seq),
    )
}

#[test]
fn frame_round_trip_with_random_cipher_state() {
    for round in 0..20u32 {
        let key: [u8; 32] = rand::random();
        let iv: [u8; 16] = rand::random();
        let mac_key: [u8; 32] = rand::random();
        let seq: u32 = rand::random();
        let (mut enc, mut dec) = states(&key, &iv, &mac_key, seq);
        let payload: Vec<u8> = (0..(1 + round * 37)).map(|i| (i * 13) as u8).collect();
        let sealed = seal_packet(&payload, &mut enc).ok().unwrap();
        let size = encrypted_packet_size(&sealed[..16], &dec).ok().unwrap();
        assert_eq!(size, sealed.len());
        let (t, rest) = open_packet(&sealed, &mut dec).ok().unwrap();
        assert_eq!(t, payload[0]);
        assert_eq!(rest, payload[1..].to_vec());
        assert_eq!(enc.packet_num, seq.wrapping_add(1));
        assert_eq!(dec.packet_num, seq.wrapping_add(1));
    }
}

#[test]
fn consecutive_records_round_trip() {
    let (mut enc, mut dec) = states(&[7; 32], &[0xFF; 16], &[9; 32], 3);
    for n in 1..6u8 {
        let payload = vec![n; n as usize * 10];
        let sealed = seal_packet(&payload, &mut enc).ok().unwrap();
        let (t, rest) = open_packet(&sealed, &mut dec).ok().unwrap();
        assert_eq!(t, n);
        assert_eq!(rest, payload[1..].to_vec());
    }
    assert_eq!(dec.packet_num, 8);
}

#[test]
fn sealed_record_is_encrypted_and_tagged() {
    let (mut enc, _) = states(&[1; 32], &[2; 16], &[3; 32], 0);
    let payload = vec![94u8; 11];
    let sealed = seal_packet(&payload, &mut enc).ok().unwrap();
    assert_eq!(sealed.len(), 32 + 32);
    assert_ne!(&sealed[..4], &[0, 0, 0, 28]);
}

#[test]
fn flipped_bits_are_rejected() {
    let payload: Vec<u8> = (0..40).collect();
    let (mut enc, _) = states(&[4; 32], &[5; 16], &[6; 32], 9);
    let sealed = seal_packet(&payload, &mut enc).ok().unwrap();
    for i in 16..sealed.len() {
        let mut changed = sealed.clone();
        changed[i] ^= 0x10;
        let (_, mut dec) = states(&[4; 32], &[5; 16], &[6; 32], 9);
        assert_eq!(open_packet(&changed, &mut dec).err(), Some(Error::MacMismatch));
    }
    for i in 0..16 {
        let mut changed = sealed.clone();
        changed[i] ^= 0x01;
        let (_, mut dec) = states(&[4; 32], &[5; 16], &[6; 32], 9);
        assert!(open_packet(&changed, &mut dec).is_err());
    }
    let (_, mut dec) = states(&[4; 32], &[5; 16], &[6; 32], 10);
    assert_eq!(open_packet(&sealed, &mut dec).err(), Some(Error::MacMismatch));
}

#[test]
fn truncated_record_is_malformed() {
    let (mut enc, _) = states(&[4; 32], &[5; 16], &[6; 32], 0);
    let sealed = seal_packet(&[7; 40], &mut enc).ok().unwrap();
    let (_, mut dec) = states(&[4; 32], &[5; 16], &[6; 32], 0);
    assert_eq!(open_packet(&sealed[..10], &mut dec).err(), Some(Error::MalformedPacket));
    let record_len = sealed.len() - 32;
    assert_eq!(record_len, 64);
    let (_, mut dec) = states(&[4; 32], &[5; 16], &[6; 32], 0);
    assert_eq!(open_packet(&sealed[..record_len - 1], &mut dec).err(), Some(Error::MalformedPacket));
    let (_, mut dec) = states(&[4; 32], &[5; 16], &[6; 32], 0);
    assert_eq!(open_packet(&sealed[..record_len], &mut dec).err(), Some(Error::MacMismatch));
}

#[test]
fn padding_is_random_once_encrypted() {
    let (mut a, _) = states(&[8; 32], &[9; 16], &[10; 32], 0);
    let (mut b, _) = states(&[8; 32], &[9; 16], &[10; 32], 0);
    let first = seal_packet(&[94, 1, 2], &mut a).ok().unwrap();
    let second = seal_packet(&[94, 1, 2], &mut b).ok().unwrap();
    assert_eq!(first.len(), second.len());
    assert_eq!(&first[..8], &second[..8]);
    assert_ne!(first, second);
}
