//! Password authentication over the encrypted transport, as a state machine: the caller
//! sends the payloads built here, and hands each received message to `Authenticator::handle`.

use crate::names::{
    connection_service, connection_service_name, none_method, none_method_name, password_method,
    password_method_name, userauth_service, userauth_service_name,
};
use crate::wire::{
    append_string, bytes_eq, extract_name_list, extract_string, parse_string, split_names, ssh_string,
    byte_lists,
};
use crate::Error;
use vstd::prelude::*;

verus! {

/// `SSH_MSG_DISCONNECT`.
pub const SSH_MSG_DISCONNECT: u8 = 1;

/// `SSH_MSG_SERVICE_REQUEST`.
pub const SSH_MSG_SERVICE_REQUEST: u8 = 5;

/// `SSH_MSG_SERVICE_ACCEPT`.
pub const SSH_MSG_SERVICE_ACCEPT: u8 = 6;

/// `SSH_MSG_USERAUTH_REQUEST`.
pub const SSH_USERAUTH_REQUEST: u8 = 50;

/// `SSH_MSG_USERAUTH_FAILURE`.
pub const SSH_MSG_USERAUTH_FAILURE: u8 = 51;

/// `SSH_MSG_USERAUTH_SUCCESS`.
pub const SSH_MSG_USERAUTH_SUCCESS: u8 = 52;

/// `SSH_MSG_USERAUTH_BANNER`.
pub const SSH_MSG_USERAUTH_BANNER: u8 = 53;

/// `SSH_MSG_USERAUTH_PASSWD_CHANGEREQ`.
pub const SSH_MSG_USERAUTH_PASSWD_CHANGEREQ: u8 = 60;

/// How many passwords are tried before giving up.
pub const MAX_ATTEMPTS: u8 = 3;

/// Decides, while waiting for a message of type `wanted`, what to do with one of type
/// `packet_type`: `true` when it is the one, `false` to skip it, `PeerDisconnect` on
/// `SSH_MSG_DISCONNECT`.
pub fn expect_message(packet_type: u8, wanted: u8) -> (r: Result<bool, Error>)
    ensures
        packet_type == wanted ==> r == Ok::<bool, Error>(true),
        packet_type != wanted && packet_type == SSH_MSG_DISCONNECT ==> r matches Err(
            Error::PeerDisconnect,
        ),
        packet_type != wanted && packet_type != SSH_MSG_DISCONNECT ==> r == Ok::<bool, Error>(false),
{
    if packet_type == wanted {
        Ok(true)
    } else if packet_type == SSH_MSG_DISCONNECT {
        Err(Error::PeerDisconnect)
    } else {
        Ok(false)
    }
}

/// The `SSH_MSG_SERVICE_REQUEST` payload for `ssh-userauth`.
pub fn service_request() -> (r: Vec<u8>)
    ensures
        r@ == seq![SSH_MSG_SERVICE_REQUEST] + ssh_string(userauth_service_name()),
{
    let mut payload: Vec<u8> = Vec::new();
    payload.push(SSH_MSG_SERVICE_REQUEST);
    let service = userauth_service();
    append_string(&mut payload, service.as_slice());
    payload
}

/// Checks an `SSH_MSG_SERVICE_ACCEPT` body: it must name `ssh-userauth`.
pub fn check_service_accept(payload: &[u8]) -> (r: Result<(), Error>)
    ensures
        match parse_string(payload@) {
            None => r matches Err(Error::MalformedPacket),
            Some((service, _)) => if service == userauth_service_name() {
                r is Ok
            } else {
                r matches Err(Error::UnexpectedMessage)
            },
        },
{
    let (service, _) = extract_string(payload)?;
    let expected = userauth_service();
    if bytes_eq(service.as_slice(), expected.as_slice()) {
        Ok(())
    } else {
        Err(Error::UnexpectedMessage)
    }
}

/// The start of every `SSH_MSG_USERAUTH_REQUEST`: the user name and the `ssh-connection`
/// service.
pub open spec fn userauth_header(username: Seq<u8>) -> Seq<u8> {
    seq![SSH_USERAUTH_REQUEST] + ssh_string(username) + ssh_string(connection_service_name())
}

/// The start of a user-authentication request; the method name and its fields follow.
pub fn gen_userauth_header(username: &[u8]) -> (r: Vec<u8>)
    requires
        username@.len() <= u32::MAX,
    ensures
        r@ == userauth_header(username@),
{
    let mut header: Vec<u8> = Vec::new();
    header.push(SSH_USERAUTH_REQUEST);
    append_string(&mut header, username);
    let service = connection_service();
    append_string(&mut header, service.as_slice());
    header
}

/// The `none` request, which asks the server which methods it accepts.
pub fn none_request(username: &[u8]) -> (r: Vec<u8>)
    requires
        username@.len() <= u32::MAX,
    ensures
        r@ == userauth_header(username@) + ssh_string(none_method_name()),
{
    let mut request = gen_userauth_header(username);
    let method = none_method();
    append_string(&mut request, method.as_slice());
    request
}

/// The `password` request: method name, `false`, then the password.
pub fn password_request(username: &[u8], password: &[u8]) -> (r: Vec<u8>)
    requires
        username@.len() <= u32::MAX,
        password@.len() <= u32::MAX,
    ensures
        r@ == userauth_header(username@) + ssh_string(password_method_name()) + seq![0u8]
            + ssh_string(password@),
{
    let mut request = gen_userauth_header(username);
    let method = password_method();
    append_string(&mut request, method.as_slice());
    request.push(0u8);
    append_string(&mut request, password);
    request
}

/// What the caller does after an authentication message.
pub enum AuthStep {
    /// Authentication succeeded.
    Done,
    /// Prompt for a password and send `password_request`.
    Prompt,
    /// Show this banner text to the user and keep waiting.
    Banner(Vec<u8>),
    /// Nothing to do; keep waiting.
    Ignore,
}

/// The state of password authentication: how many passwords were tried.
pub struct Authenticator {
    pub attempts: u8,
}

impl Authenticator {
    /// No password tried yet.
    pub fn new() -> (r: Authenticator)
        ensures
            r.attempts == 0,
    {
        Authenticator { attempts: 0 }
    }

    /// Handles one message received after the `none` request. `SSH_MSG_USERAUTH_SUCCESS`
    /// ends it; a banner is handed back for display; a failure that lists `password` asks for
    /// a password, up to three times, then fails with `AuthFailed`; a failure without
    /// `password` fails with `AuthMethodUnsupported`; a password-change request fails with
    /// `PasswordExpired`; a disconnect with `PeerDisconnect`. Other messages are ignored.
    pub fn handle(&mut self, code: u8, payload: &[u8]) -> (r: Result<AuthStep, Error>)
        requires
            old(self).attempts <= MAX_ATTEMPTS,
        ensures
            final(self).attempts <= MAX_ATTEMPTS,
            code == SSH_MSG_DISCONNECT ==> r matches Err(Error::PeerDisconnect),
            code == SSH_MSG_USERAUTH_SUCCESS ==> r matches Ok(AuthStep::Done),
            code == SSH_MSG_USERAUTH_PASSWD_CHANGEREQ ==> r matches Err(Error::PasswordExpired),
            code == SSH_MSG_USERAUTH_BANNER ==> match parse_string(payload@) {
                None => r matches Err(Error::MalformedPacket),
                Some((banner, _)) => r matches Ok(AuthStep::Banner(b)) && b@ == banner,
            },
            code == SSH_MSG_USERAUTH_FAILURE ==> match parse_string(payload@) {
                None => r matches Err(Error::MalformedPacket),
                Some((methods, _)) => if !split_names(methods).contains(password_method_name()) {
                    r matches Err(Error::AuthMethodUnsupported)
                } else if old(self).attempts == MAX_ATTEMPTS {
                    r matches Err(Error::AuthFailed)
                } else {
                    r matches Ok(AuthStep::Prompt) && final(self).attempts == old(self).attempts + 1
                },
            },
            code != SSH_MSG_USERAUTH_FAILURE ==> final(self).attempts == old(self).attempts,
            code != SSH_MSG_DISCONNECT && code != SSH_MSG_USERAUTH_SUCCESS && code
                != SSH_MSG_USERAUTH_FAILURE && code != SSH_MSG_USERAUTH_BANNER && code
                != SSH_MSG_USERAUTH_PASSWD_CHANGEREQ ==> r matches Ok(AuthStep::Ignore),
    {
        if code == SSH_MSG_DISCONNECT {
            Err(Error::PeerDisconnect)
        } else if code == SSH_MSG_USERAUTH_SUCCESS {
            Ok(AuthStep::Done)
        } else if code == SSH_MSG_USERAUTH_FAILURE {
            let (methods, _) = extract_name_list(payload)?;
            let password = password_method();
            let mut found = false;
            let mut i: usize = 0;
            while i < methods.len()
                invariant
                    i <= methods@.len(),
                    found == exists|k: int| 0 <= k < i && byte_lists(methods@)[k] == password@,
                decreases methods@.len() - i,
            {
                if bytes_eq(methods[i].as_slice(), password.as_slice()) {
                    found = true;
                    assert(byte_lists(methods@)[i as int] == password@);
                }
                i += 1;
            }
            assert(found == byte_lists(methods@).contains(password@));
            if !found {
                return Err(Error::AuthMethodUnsupported);
            }
            if self.attempts == MAX_ATTEMPTS {
                return Err(Error::AuthFailed);
            }
            self.attempts = self.attempts + 1;
            Ok(AuthStep::Prompt)
        } else if code == SSH_MSG_USERAUTH_BANNER {
            let (banner, _) = extract_string(payload)?;
            Ok(AuthStep::Banner(banner))
        } else if code == SSH_MSG_USERAUTH_PASSWD_CHANGEREQ {
            Err(Error::PasswordExpired)
        } else {
            Ok(AuthStep::Ignore)
        }
    }
}

} // verus!
