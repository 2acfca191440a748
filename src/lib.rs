//! A small SSH-2 client core: wire codec, packet framing, cipher state,
//! key exchange, password authentication and the session channel.

pub mod auth;
pub mod channel;
pub mod cipher;
pub mod crypto;
pub mod kex;
pub mod keys;
pub mod names;
pub mod transport;
pub mod wire;

use vstd::prelude::*;

verus! {

/// The ways a connection can fail. Every one of them ends the connection.
#[derive(Debug, PartialEq, Eq)]
pub enum Error {
    /// The byte duplex failed; the text is what the transport reported.
    Io(String),
    /// The server's version line is malformed or not SSH-2.
    BadVersion,
    /// A field or a record does not follow the framing rules.
    MalformedPacket,
    /// The MAC of a received record did not match.
    MacMismatch,
    /// A negotiation slot has no name in common.
    NoCommonAlgorithm,
    /// The host key or its signature over the exchange hash was rejected.
    SignatureInvalid,
    /// A message arrived that the current state does not allow.
    UnexpectedMessage,
    /// The server does not offer password authentication.
    AuthMethodUnsupported,
    /// Every password attempt was refused.
    AuthFailed,
    /// The server asks for a password change.
    PasswordExpired,
    /// The server refused to open the channel: reason code and description.
    ChannelOpenFailed(u32, Vec<u8>),
    /// The server refused the pseudo-terminal.
    PtyRequestFailed,
    /// The server refused the shell.
    ShellRequestFailed,
    /// The server sent `SSH_MSG_DISCONNECT`.
    PeerDisconnect,
    /// An internal invariant was broken (for example a key of the wrong length).
    Internal,
}

/// The destination given on the command line: `user@host`, or `host` alone.
pub struct Args {
    /// The user to sign in as (empty when not given).
    pub username: Vec<u8>,
    /// The name or address of the server.
    pub hostname: Vec<u8>,
}

/// Splits `user@host` (or `host`) into user name and host name; `None` when the argument
/// holds more than one `@`.
pub fn parse_args(arg: &[u8]) -> (r: Option<Args>)
    ensures
        match r {
            Some(a) => {
                ||| (forall|i: int| 0 <= i < arg@.len() ==> arg@[i] != 64u8) && a.username@.len() == 0
                    && a.hostname@ == arg@
                ||| exists|k: int|
                    0 <= k < arg@.len() && arg@[k] == 64u8 && (forall|i: int|
                        0 <= i < arg@.len() && i != k ==> arg@[i] != 64u8) && a.username@ == arg@.take(
                        k,
                    ) && a.hostname@ == arg@.skip(k + 1)
            },
            None => exists|j: int, k: int|
                0 <= j < k < arg@.len() && arg@[j] == 64u8 && arg@[k] == 64u8,
        },
{
    let mut at: Option<usize> = None;
    let mut i: usize = 0;
    while i < arg.len()
        invariant
            i <= arg@.len(),
            match at {
                None => forall|j: int| 0 <= j < i ==> arg@[j] != 64u8,
                Some(k) => k < i && arg@[k as int] == 64u8 && forall|j: int|
                    0 <= j < i && j != k ==> arg@[j] != 64u8,
            },
        decreases arg@.len() - i,
    {
        if arg[i] == 64u8 {
            match at {
                Some(k) => {
                    assert(arg@[k as int] == 64u8 && arg@[i as int] == 64u8);
                    return None;
                },
                None => {
                    at = Some(i);
                },
            }
        }
        i += 1;
    }
    match at {
        None => {
            let mut hostname: Vec<u8> = Vec::new();
            wire::append_bytes(&mut hostname, arg);
            Some(Args { username: Vec::new(), hostname })
        },
        Some(k) => {
            let mut username: Vec<u8> = Vec::new();
            wire::append_bytes(&mut username, vstd::slice::slice_subrange(arg, 0, k));
            let mut hostname: Vec<u8> = Vec::new();
            wire::append_bytes(&mut hostname, vstd::slice::slice_subrange(arg, k + 1, arg.len()));
            Some(Args { username, hostname })
        },
    }
}

} // verus!
