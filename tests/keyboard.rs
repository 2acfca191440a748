use tssh::keys::{key_bytes, utf8_encode, KeyCode};
use tssh::parse_args;

#[test]
fn printable_keys_send_utf8() {
    assert_eq!(key_bytes(&KeyCode::Char('l'), false), vec![b'l']);
    assert_eq!(key_bytes(&KeyCode::Char('é'), false), "é".as_bytes().to_vec());
    assert_eq!(key_bytes(&KeyCode::Char('€'), false), "€".as_bytes().to_vec());
    assert_eq!(key_bytes(&KeyCode::Char('😀'), false), "😀".as_bytes().to_vec());
    for c in ['a', 'ß', 'ж', '中', '\u{10FFFF}', '\u{7F}', '\u{80}', '\u{7FF}', '\u{800}', '\u{FFFF}'] {
        assert_eq!(utf8_encode(c), c.to_string().into_bytes());
    }
}

#[test]
fn control_keys() {
    assert_eq!(key_bytes(&KeyCode::Char('c'), true), vec![3]);
    assert_eq!(key_bytes(&KeyCode::Char('C'), true), vec![3]);
    assert_eq!(key_bytes(&KeyCode::Char('['), true), vec![0x1B]);
    assert_eq!(key_bytes(&KeyCode::Char('_'), true), vec![0x1F]);
    assert_eq!(key_bytes(&KeyCode::Char('1'), true), vec![b'1']);
    assert_eq!(key_bytes(&KeyCode::Char('@'), true), vec![b'@']);
}

#[test]
fn special_keys() {
    assert_eq!(key_bytes(&KeyCode::Enter, false), vec![0x0A]);
    assert_eq!(key_bytes(&KeyCode::Tab, false), vec![0x09]);
    assert_eq!(key_bytes(&KeyCode::Backspace, false), vec![0x7F]);
    assert_eq!(key_bytes(&KeyCode::Esc, false), vec![0x1B]);
    assert_eq!(key_bytes(&KeyCode::Left, false), b"\x1b[D".to_vec());
    assert_eq!(key_bytes(&KeyCode::Right, false), b"\x1b[C".to_vec());
    assert_eq!(key_bytes(&KeyCode::Up, false), b"\x1b[A".to_vec());
    assert_eq!(key_bytes(&KeyCode::Down, false), b"\x1b[B".to_vec());
    assert_eq!(key_bytes(&KeyCode::Insert, false), b"\x1b[2~".to_vec());
    assert_eq!(key_bytes(&KeyCode::Delete, false), vec![0x7F]);
    assert_eq!(key_bytes(&KeyCode::Home, false), b"\x1b[H".to_vec());
    assert_eq!(key_bytes(&KeyCode::End, false), b"\x1b[F".to_vec());
    assert_eq!(key_bytes(&KeyCode::PageUp, false), b"\x1b[5~".to_vec());
    assert_eq!(key_bytes(&KeyCode::PageDown, false), b"\x1b[6~".to_vec());
    assert!(key_bytes(&KeyCode::Other, false).is_empty());
}

#[test]
fn destination_arguments() {
    let a = parse_args(b"alice@example.org").unwrap();
    assert_eq!(a.username, b"alice".to_vec());
    assert_eq!(a.hostname, b"example.org".to_vec());
    let b = parse_args(b"example.org").unwrap();
    assert!(b.username.is_empty());
    assert_eq!(b.hostname, b"example.org".to_vec());
    assert!(parse_args(b"a@b@c").is_none());
}
