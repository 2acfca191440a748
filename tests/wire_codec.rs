use tssh::wire::{
    append_mpint, append_name_list, append_string, extract_mpint_unsigned, extract_name_list,
    extract_string,
};
use tssh::Error;

#[test]
fn string_round_trip() {
    let cases: Vec<Vec<u8>> = vec![vec![], vec![0], b"ssh-userauth".to_vec(), vec![0xFF; 300]];
    for s in cases {
        let mut buf = Vec::new();
        append_string(&mut buf, &s);
        assert_eq!(buf.len(), s.len() + 4);
        let (content, rest) = extract_string(&buf).ok().unwrap();
        assert_eq!(content, s);
        assert!(rest.is_empty());
    }
}

#[test]
fn string_appends_after_existing_bytes() {
    let mut buf = vec![9u8];
    append_string(&mut buf, b"ab");
    assert_eq!(buf, vec![9, 0, 0, 0, 2, b'a', b'b']);
}

#[test]
fn extract_string_keeps_the_rest() {
    let buf = vec![0, 0, 0, 1, 7, 8, 9];
    let (content, rest) = extract_string(&buf).ok().unwrap();
    assert_eq!(content, vec![7]);
    assert_eq!(rest, &[8, 9]);
}

#[test]
fn extract_string_overrun_is_malformed() {
    assert_eq!(extract_string(&[0, 0, 0, 5, 1, 2]).err(), Some(Error::MalformedPacket));
    assert_eq!(extract_string(&[0, 0, 1]).err(), Some(Error::MalformedPacket));
    assert_eq!(extract_string(&[0xFF, 0xFF, 0xFF, 0xFF]).err(), Some(Error::MalformedPacket));
}

#[test]
fn mpint_zero_encoding() {
    let mut buf = Vec::new();
    append_mpint(&mut buf, &[], true);
    assert_eq!(buf, vec![0, 0, 0, 0]);
    let mut buf = Vec::new();
    append_mpint(&mut buf, &[0, 0, 0], true);
    assert_eq!(buf, vec![0, 0, 0, 0]);
}

#[test]
fn mpint_one_encoding() {
    let mut buf = Vec::new();
    append_mpint(&mut buf, &[1], true);
    assert_eq!(buf, vec![0, 0, 0, 1, 1]);
}

#[test]
fn mpint_high_bit_gains_leading_zero() {
    let mut buf = Vec::new();
    append_mpint(&mut buf, &[0x80], true);
    assert_eq!(buf, vec![0, 0, 0, 2, 0, 0x80]);
    let mut buf = Vec::new();
    append_mpint(&mut buf, &[0, 0, 0x9a, 0x37], true);
    assert_eq!(buf, vec![0, 0, 0, 3, 0, 0x9a, 0x37]);
}

fn mpint(num: &[u8], positive: bool) -> Vec<u8> {
    let mut buf = Vec::new();
    append_mpint(&mut buf, num, positive);
    buf
}

#[test]
fn mpint_negative_encoding() {
    assert_eq!(mpint(&[0x04, 0xD2], false), vec![0, 0, 0, 2, 0xFB, 0x2E]);
    assert_eq!(mpint(&[0xDE, 0xAD, 0xBE, 0xEF], false), vec![0, 0, 0, 5, 0xFF, 0x21, 0x52, 0x41, 0x11]);
    assert_eq!(mpint(&[0x01], false), vec![0, 0, 0, 1, 0xFF]);
    assert_eq!(mpint(&[0x80], false), vec![0, 0, 0, 1, 0x80]);
    assert_eq!(mpint(&[0, 0x81], false), vec![0, 0, 0, 2, 0xFF, 0x7F]);
    assert_eq!(mpint(&[0x01, 0x00], false), vec![0, 0, 0, 2, 0xFF, 0x00]);
    assert_eq!(mpint(&[0, 0], false), vec![0, 0, 0, 0]);
    assert_eq!(mpint(&[], false), vec![0, 0, 0, 0]);
}

#[test]
fn mpint_positive_rfc_examples() {
    assert_eq!(mpint(&[0x09, 0xa3, 0x78, 0xf9, 0xb2, 0xe3, 0x32, 0xa7], true),
        vec![0, 0, 0, 8, 0x09, 0xa3, 0x78, 0xf9, 0xb2, 0xe3, 0x32, 0xa7]);
    assert_eq!(mpint(&[0x80], true), vec![0, 0, 0, 2, 0x00, 0x80]);
}

#[test]
fn mpint_round_trip() {
    let cases: Vec<Vec<u8>> =
        vec![vec![], vec![0], vec![1], vec![0x80], vec![0, 0, 0x7F, 1], vec![0xFF; 33]];
    for n in cases {
        let mut buf = Vec::new();
        append_mpint(&mut buf, &n, true);
        let (value, rest) = extract_mpint_unsigned(&buf).ok().unwrap();
        let first = n.iter().position(|b| *b != 0).unwrap_or(n.len());
        assert_eq!(value, n[first..].to_vec());
        assert!(rest.is_empty());
    }
}

#[test]
fn extract_mpint_strips_leading_zeros() {
    let (value, rest) = extract_mpint_unsigned(&[0, 0, 0, 3, 0, 0, 5, 9]).ok().unwrap();
    assert_eq!(value, vec![5]);
    assert_eq!(rest, &[9]);
}

#[test]
fn name_list_round_trip() {
    let names = vec![b"aes256-ctr".to_vec(), b"none".to_vec()];
    let mut buf = Vec::new();
    append_name_list(&mut buf, &names);
    assert_eq!(&buf[..4], &[0, 0, 0, 15]);
    assert_eq!(&buf[4..], b"aes256-ctr,none");
    let (list, rest) = extract_name_list(&buf).ok().unwrap();
    assert_eq!(list, names);
    assert!(rest.is_empty());
}

#[test]
fn empty_name_list_is_one_empty_name() {
    let mut buf = Vec::new();
    append_name_list(&mut buf, &[]);
    assert_eq!(buf, vec![0, 0, 0, 0]);
    let (list, _) = extract_name_list(&buf).ok().unwrap();
    assert_eq!(list, vec![Vec::<u8>::new()]);
}

#[test]
fn name_list_splits_on_every_comma() {
    let (list, _) = extract_name_list(&[0, 0, 0, 3, b'a', b',', b',']).ok().unwrap();
    assert_eq!(list, vec![b"a".to_vec(), vec![], vec![]]);
}
