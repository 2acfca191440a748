//! Keyboard input: what each key sends to the remote shell.

use vstd::prelude::*;

verus! {

/// A key, as the terminal reports it.
pub enum KeyCode {
    /// A printable character.
    Char(char),
    Enter,
    Tab,
    Backspace,
    Esc,
    Left,
    Right,
    Up,
    Down,
    Insert,
    Delete,
    Home,
    End,
    PageUp,
    PageDown,
    /// Any other key: it sends nothing.
    Other,
}

/// The UTF-8 encoding of a character.
pub open spec fn utf8_spec(c: char) -> Seq<u8> {
    let v = c as u32;
    if v < 0x80 {
        seq![v as u8]
    } else if v < 0x800 {
        seq![(0xC0u32 | (v >> 6u32)) as u8, (0x80u32 | (v & 0x3Fu32)) as u8]
    } else if v < 0x10000 {
        seq![
            (0xE0u32 | (v >> 12u32)) as u8,
            (0x80u32 | ((v >> 6u32) & 0x3Fu32)) as u8,
            (0x80u32 | (v & 0x3Fu32)) as u8,
        ]
    } else {
        seq![
            (0xF0u32 | (v >> 18u32)) as u8,
            (0x80u32 | ((v >> 12u32) & 0x3Fu32)) as u8,
            (0x80u32 | ((v >> 6u32) & 0x3Fu32)) as u8,
            (0x80u32 | (v & 0x3Fu32)) as u8,
        ]
    }
}

/// Encodes a character as UTF-8.
pub fn utf8_encode(c: char) -> (r: Vec<u8>)
    ensures
        r@ == utf8_spec(c),
{
    let v = c as u32;
    let mut out: Vec<u8> = Vec::new();
    if v < 0x80 {
        out.push(v as u8);
    } else if v < 0x800 {
        out.push((0xC0u32 | (v >> 6u32)) as u8);
        out.push((0x80u32 | (v & 0x3Fu32)) as u8);
    } else if v < 0x10000 {
        out.push((0xE0u32 | (v >> 12u32)) as u8);
        out.push((0x80u32 | ((v >> 6u32) & 0x3Fu32)) as u8);
        out.push((0x80u32 | (v & 0x3Fu32)) as u8);
    } else {
        out.push((0xF0u32 | (v >> 18u32)) as u8);
        out.push((0x80u32 | ((v >> 12u32) & 0x3Fu32)) as u8);
        out.push((0x80u32 | ((v >> 6u32) & 0x3Fu32)) as u8);
        out.push((0x80u32 | (v & 0x3Fu32)) as u8);
    }
    assert(out@ =~= utf8_spec(c));
    out
}

/// The code of a character with ASCII lower-case letters made upper-case.
pub open spec fn ascii_upper(c: char) -> u32 {
    if 97 <= c as u32 <= 122 {
        (c as u32 - 32) as u32
    } else {
        c as u32
    }
}

/// An escape sequence: ESC, `[`, then `tail`.
pub open spec fn csi(tail: Seq<u8>) -> Seq<u8> {
    seq![0x1Bu8, 0x5Bu8] + tail
}

/// The octets a key sends. With Control, a letter or one of `[ \ ] ^ _` sends its upper-case
/// code AND 0x1F; any other character sends its UTF-8 encoding.
pub open spec fn key_bytes_spec(code: KeyCode, ctrl: bool) -> Seq<u8> {
    match code {
        KeyCode::Char(c) => if ctrl && 65 <= ascii_upper(c) <= 95 {
            seq![(ascii_upper(c) as u8) & 0x1Fu8]
        } else {
            utf8_spec(c)
        },
        KeyCode::Enter => seq![0x0Au8],
        KeyCode::Tab => seq![0x09u8],
        KeyCode::Backspace => seq![0x7Fu8],
        KeyCode::Esc => seq![0x1Bu8],
        KeyCode::Left => csi(seq![0x44u8]),
        KeyCode::Right => csi(seq![0x43u8]),
        KeyCode::Up => csi(seq![0x41u8]),
        KeyCode::Down => csi(seq![0x42u8]),
        KeyCode::Insert => csi(seq![0x32u8, 0x7Eu8]),
        KeyCode::Delete => seq![0x7Fu8],
        KeyCode::Home => csi(seq![0x48u8]),
        KeyCode::End => csi(seq![0x46u8]),
        KeyCode::PageUp => csi(seq![0x35u8, 0x7Eu8]),
        KeyCode::PageDown => csi(seq![0x36u8, 0x7Eu8]),
        KeyCode::Other => Seq::empty(),
    }
}

/// The octets that a key press sends to the remote shell (`ctrl`: Control is held).
pub fn key_bytes(code: &KeyCode, ctrl: bool) -> (r: Vec<u8>)
    ensures
        r@ == key_bytes_spec(*code, ctrl),
{
    match code {
        KeyCode::Char(c) => {
            let v = *c as u32;
            let upper = if 97 <= v && v <= 122 {
                v - 32
            } else {
                v
            };
            if ctrl && 65 <= upper && upper <= 95 {
                vec![(upper as u8) & 0x1Fu8]
            } else {
                utf8_encode(*c)
            }
        },
        KeyCode::Enter => vec![0x0Au8],
        KeyCode::Tab => vec![0x09u8],
        KeyCode::Backspace => vec![0x7Fu8],
        KeyCode::Esc => vec![0x1Bu8],
        KeyCode::Left => vec![0x1Bu8, 0x5Bu8, 0x44u8],
        KeyCode::Right => vec![0x1Bu8, 0x5Bu8, 0x43u8],
        KeyCode::Up => vec![0x1Bu8, 0x5Bu8, 0x41u8],
        KeyCode::Down => vec![0x1Bu8, 0x5Bu8, 0x42u8],
        KeyCode::Insert => vec![0x1Bu8, 0x5Bu8, 0x32u8, 0x7Eu8],
        KeyCode::Delete => vec![0x7Fu8],
        KeyCode::Home => vec![0x1Bu8, 0x5Bu8, 0x48u8],
        KeyCode::End => vec![0x1Bu8, 0x5Bu8, 0x46u8],
        KeyCode::PageUp => vec![0x1Bu8, 0x5Bu8, 0x35u8, 0x7Eu8],
        KeyCode::PageDown => vec![0x1Bu8, 0x5Bu8, 0x36u8, 0x7Eu8],
        KeyCode::Other => Vec::new(),
    }
}

} // verus!
