//! The ASCII names and fixed texts that the protocol carries.

use vstd::prelude::*;

verus! {

/// The key-exchange method: `ecdh-sha2-nistp256`.
pub open spec fn kex_alg_name() -> Seq<u8> {
    seq!['e' as u8, 'c' as u8, 'd' as u8, 'h' as u8, '-' as u8, 's' as u8, 'h' as u8, 'a' as u8, '2' as u8, '-' as u8, 'n' as u8, 'i' as u8, 's' as u8, 't' as u8, 'p' as u8, '2' as u8, '5' as u8, '6' as u8]
}

/// The key-exchange method, as octets.
pub fn kex_alg() -> (r: Vec<u8>)
    ensures
        r@ == kex_alg_name(),
{
    vec!['e' as u8, 'c' as u8, 'd' as u8, 'h' as u8, '-' as u8, 's' as u8, 'h' as u8, 'a' as u8, '2' as u8, '-' as u8, 'n' as u8, 'i' as u8, 's' as u8, 't' as u8, 'p' as u8, '2' as u8, '5' as u8, '6' as u8]
}

/// The host-key signature method: `rsa-sha2-512`.
pub open spec fn host_key_alg_name() -> Seq<u8> {
    seq!['r' as u8, 's' as u8, 'a' as u8, '-' as u8, 's' as u8, 'h' as u8, 'a' as u8, '2' as u8, '-' as u8, '5' as u8, '1' as u8, '2' as u8]
}

/// The host-key signature method, as octets.
pub fn host_key_alg() -> (r: Vec<u8>)
    ensures
        r@ == host_key_alg_name(),
{
    vec!['r' as u8, 's' as u8, 'a' as u8, '-' as u8, 's' as u8, 'h' as u8, 'a' as u8, '2' as u8, '-' as u8, '5' as u8, '1' as u8, '2' as u8]
}

/// The symmetric cipher, both directions: `aes256-ctr`.
pub open spec fn cipher_alg_name() -> Seq<u8> {
    seq!['a' as u8, 'e' as u8, 's' as u8, '2' as u8, '5' as u8, '6' as u8, '-' as u8, 'c' as u8, 't' as u8, 'r' as u8]
}

/// The symmetric cipher, both directions, as octets.
pub fn cipher_alg() -> (r: Vec<u8>)
    ensures
        r@ == cipher_alg_name(),
{
    vec!['a' as u8, 'e' as u8, 's' as u8, '2' as u8, '5' as u8, '6' as u8, '-' as u8, 'c' as u8, 't' as u8, 'r' as u8]
}

/// The MAC, both directions: `hmac-sha2-256`.
pub open spec fn mac_alg_name() -> Seq<u8> {
    seq!['h' as u8, 'm' as u8, 'a' as u8, 'c' as u8, '-' as u8, 's' as u8, 'h' as u8, 'a' as u8, '2' as u8, '-' as u8, '2' as u8, '5' as u8, '6' as u8]
}

/// The MAC, both directions, as octets.
pub fn mac_alg() -> (r: Vec<u8>)
    ensures
        r@ == mac_alg_name(),
{
    vec!['h' as u8, 'm' as u8, 'a' as u8, 'c' as u8, '-' as u8, 's' as u8, 'h' as u8, 'a' as u8, '2' as u8, '-' as u8, '2' as u8, '5' as u8, '6' as u8]
}

/// The compression method, both directions: `none`.
pub open spec fn compress_alg_name() -> Seq<u8> {
    seq!['n' as u8, 'o' as u8, 'n' as u8, 'e' as u8]
}

/// The compression method, both directions, as octets.
pub fn compress_alg() -> (r: Vec<u8>)
    ensures
        r@ == compress_alg_name(),
{
    vec!['n' as u8, 'o' as u8, 'n' as u8, 'e' as u8]
}

/// The type of an RSA host-key blob: `ssh-rsa`.
pub open spec fn rsa_key_type_name() -> Seq<u8> {
    seq!['s' as u8, 's' as u8, 'h' as u8, '-' as u8, 'r' as u8, 's' as u8, 'a' as u8]
}

/// The type of an RSA host-key blob, as octets.
pub fn rsa_key_type() -> (r: Vec<u8>)
    ensures
        r@ == rsa_key_type_name(),
{
    vec!['s' as u8, 's' as u8, 'h' as u8, '-' as u8, 'r' as u8, 's' as u8, 'a' as u8]
}

/// The user-authentication service: `ssh-userauth`.
pub open spec fn userauth_service_name() -> Seq<u8> {
    seq!['s' as u8, 's' as u8, 'h' as u8, '-' as u8, 'u' as u8, 's' as u8, 'e' as u8, 'r' as u8, 'a' as u8, 'u' as u8, 't' as u8, 'h' as u8]
}

/// The user-authentication service, as octets.
pub fn userauth_service() -> (r: Vec<u8>)
    ensures
        r@ == userauth_service_name(),
{
    vec!['s' as u8, 's' as u8, 'h' as u8, '-' as u8, 'u' as u8, 's' as u8, 'e' as u8, 'r' as u8, 'a' as u8, 'u' as u8, 't' as u8, 'h' as u8]
}

/// The connection service: `ssh-connection`.
pub open spec fn connection_service_name() -> Seq<u8> {
    seq!['s' as u8, 's' as u8, 'h' as u8, '-' as u8, 'c' as u8, 'o' as u8, 'n' as u8, 'n' as u8, 'e' as u8, 'c' as u8, 't' as u8, 'i' as u8, 'o' as u8, 'n' as u8]
}

/// The connection service, as octets.
pub fn connection_service() -> (r: Vec<u8>)
    ensures
        r@ == connection_service_name(),
{
    vec!['s' as u8, 's' as u8, 'h' as u8, '-' as u8, 'c' as u8, 'o' as u8, 'n' as u8, 'n' as u8, 'e' as u8, 'c' as u8, 't' as u8, 'i' as u8, 'o' as u8, 'n' as u8]
}

/// The authentication method that lists the others: `none`.
pub open spec fn none_method_name() -> Seq<u8> {
    seq!['n' as u8, 'o' as u8, 'n' as u8, 'e' as u8]
}

/// The authentication method that lists the others, as octets.
pub fn none_method() -> (r: Vec<u8>)
    ensures
        r@ == none_method_name(),
{
    vec!['n' as u8, 'o' as u8, 'n' as u8, 'e' as u8]
}

/// The password authentication method: `password`.
pub open spec fn password_method_name() -> Seq<u8> {
    seq!['p' as u8, 'a' as u8, 's' as u8, 's' as u8, 'w' as u8, 'o' as u8, 'r' as u8, 'd' as u8]
}

/// The password authentication method, as octets.
pub fn password_method() -> (r: Vec<u8>)
    ensures
        r@ == password_method_name(),
{
    vec!['p' as u8, 'a' as u8, 's' as u8, 's' as u8, 'w' as u8, 'o' as u8, 'r' as u8, 'd' as u8]
}

/// The channel type of an interactive session: `session`.
pub open spec fn session_channel_name() -> Seq<u8> {
    seq!['s' as u8, 'e' as u8, 's' as u8, 's' as u8, 'i' as u8, 'o' as u8, 'n' as u8]
}

/// The channel type of an interactive session, as octets.
pub fn session_channel() -> (r: Vec<u8>)
    ensures
        r@ == session_channel_name(),
{
    vec!['s' as u8, 'e' as u8, 's' as u8, 's' as u8, 'i' as u8, 'o' as u8, 'n' as u8]
}

/// The channel request for a pseudo-terminal: `pty-req`.
pub open spec fn pty_request_name() -> Seq<u8> {
    seq!['p' as u8, 't' as u8, 'y' as u8, '-' as u8, 'r' as u8, 'e' as u8, 'q' as u8]
}

/// The channel request for a pseudo-terminal, as octets.
pub fn pty_request() -> (r: Vec<u8>)
    ensures
        r@ == pty_request_name(),
{
    vec!['p' as u8, 't' as u8, 'y' as u8, '-' as u8, 'r' as u8, 'e' as u8, 'q' as u8]
}

/// The terminal type announced with the pseudo-terminal: `xterm-256color`.
pub open spec fn terminal_type_name() -> Seq<u8> {
    seq!['x' as u8, 't' as u8, 'e' as u8, 'r' as u8, 'm' as u8, '-' as u8, '2' as u8, '5' as u8, '6' as u8, 'c' as u8, 'o' as u8, 'l' as u8, 'o' as u8, 'r' as u8]
}

/// The terminal type announced with the pseudo-terminal, as octets.
pub fn terminal_type() -> (r: Vec<u8>)
    ensures
        r@ == terminal_type_name(),
{
    vec!['x' as u8, 't' as u8, 'e' as u8, 'r' as u8, 'm' as u8, '-' as u8, '2' as u8, '5' as u8, '6' as u8, 'c' as u8, 'o' as u8, 'l' as u8, 'o' as u8, 'r' as u8]
}

/// The channel request for a shell: `shell`.
pub open spec fn shell_request_name() -> Seq<u8> {
    seq!['s' as u8, 'h' as u8, 'e' as u8, 'l' as u8, 'l' as u8]
}

/// The channel request for a shell, as octets.
pub fn shell_request() -> (r: Vec<u8>)
    ensures
        r@ == shell_request_name(),
{
    vec!['s' as u8, 'h' as u8, 'e' as u8, 'l' as u8, 'l' as u8]
}

/// The channel request that announces new terminal dimensions: `window-change`.
pub open spec fn window_change_request_name() -> Seq<u8> {
    seq!['w' as u8, 'i' as u8, 'n' as u8, 'd' as u8, 'o' as u8, 'w' as u8, '-' as u8, 'c' as u8, 'h' as u8, 'a' as u8, 'n' as u8, 'g' as u8, 'e' as u8]
}

/// The channel request that announces new terminal dimensions, as octets.
pub fn window_change_request() -> (r: Vec<u8>)
    ensures
        r@ == window_change_request_name(),
{
    vec!['w' as u8, 'i' as u8, 'n' as u8, 'd' as u8, 'o' as u8, 'w' as u8, '-' as u8, 'c' as u8, 'h' as u8, 'a' as u8, 'n' as u8, 'g' as u8, 'e' as u8]
}

/// The client's version line, without its line end: `SSH-2.0-TSSH_1.0`.
pub open spec fn client_version_name() -> Seq<u8> {
    seq!['S' as u8, 'S' as u8, 'H' as u8, '-' as u8, '2' as u8, '.' as u8, '0' as u8, '-' as u8, 'T' as u8, 'S' as u8, 'S' as u8, 'H' as u8, '_' as u8, '1' as u8, '.' as u8, '0' as u8]
}

/// The client's version line, without its line end, as octets.
pub fn client_version() -> (r: Vec<u8>)
    ensures
        r@ == client_version_name(),
{
    vec!['S' as u8, 'S' as u8, 'H' as u8, '-' as u8, '2' as u8, '.' as u8, '0' as u8, '-' as u8, 'T' as u8, 'S' as u8, 'S' as u8, 'H' as u8, '_' as u8, '1' as u8, '.' as u8, '0' as u8]
}

/// The description sent when the server tries to open a channel: `Client does not permit host to open channels`.
pub open spec fn open_refusal_name() -> Seq<u8> {
    seq!['C' as u8, 'l' as u8, 'i' as u8, 'e' as u8, 'n' as u8, 't' as u8, ' ' as u8, 'd' as u8, 'o' as u8, 'e' as u8, 's' as u8, ' ' as u8, 'n' as u8, 'o' as u8, 't' as u8, ' ' as u8, 'p' as u8, 'e' as u8, 'r' as u8, 'm' as u8, 'i' as u8, 't' as u8, ' ' as u8, 'h' as u8, 'o' as u8, 's' as u8, 't' as u8, ' ' as u8, 't' as u8, 'o' as u8, ' ' as u8, 'o' as u8, 'p' as u8, 'e' as u8, 'n' as u8, ' ' as u8, 'c' as u8, 'h' as u8, 'a' as u8, 'n' as u8, 'n' as u8, 'e' as u8, 'l' as u8, 's' as u8]
}

/// The description sent when the server tries to open a channel, as octets.
pub fn open_refusal() -> (r: Vec<u8>)
    ensures
        r@ == open_refusal_name(),
{
    vec!['C' as u8, 'l' as u8, 'i' as u8, 'e' as u8, 'n' as u8, 't' as u8, ' ' as u8, 'd' as u8, 'o' as u8, 'e' as u8, 's' as u8, ' ' as u8, 'n' as u8, 'o' as u8, 't' as u8, ' ' as u8, 'p' as u8, 'e' as u8, 'r' as u8, 'm' as u8, 'i' as u8, 't' as u8, ' ' as u8, 'h' as u8, 'o' as u8, 's' as u8, 't' as u8, ' ' as u8, 't' as u8, 'o' as u8, ' ' as u8, 'o' as u8, 'p' as u8, 'e' as u8, 'n' as u8, ' ' as u8, 'c' as u8, 'h' as u8, 'a' as u8, 'n' as u8, 'n' as u8, 'e' as u8, 'l' as u8, 's' as u8]
}

/// The start of a version line: `SSH-`.
pub open spec fn version_marker_name() -> Seq<u8> {
    seq!['S' as u8, 'S' as u8, 'H' as u8, '-' as u8]
}

/// The start of a version line, as octets.
pub fn version_marker() -> (r: Vec<u8>)
    ensures
        r@ == version_marker_name(),
{
    vec!['S' as u8, 'S' as u8, 'H' as u8, '-' as u8]
}

/// The start of an SSH-2 version line: `SSH-2.`.
pub open spec fn version_2_marker_name() -> Seq<u8> {
    seq!['S' as u8, 'S' as u8, 'H' as u8, '-' as u8, '2' as u8, '.' as u8]
}

/// The start of an SSH-2 version line, as octets.
pub fn version_2_marker() -> (r: Vec<u8>)
    ensures
        r@ == version_2_marker_name(),
{
    vec!['S' as u8, 'S' as u8, 'H' as u8, '-' as u8, '2' as u8, '.' as u8]
}
} // verus!
