//! The session channel: opening it, the pseudo-terminal and shell requests, and the
//! dispatch of channel messages with flow-control accounting in both directions.

use crate::names::{
    open_refusal, open_refusal_name, pty_request, pty_request_name, session_channel,
    session_channel_name, shell_request, shell_request_name, terminal_type, terminal_type_name,
    window_change_request, window_change_request_name,
};
use crate::wire::{append_bytes, append_string, append_u32, extract_string, parse_string, read_u32, be_u32_value, ssh_string, u32_be};
use crate::auth::SSH_MSG_DISCONNECT;
use crate::Error;
use vstd::prelude::*;
use vstd::slice::slice_subrange;

verus! {

/// `SSH_MSG_GLOBAL_REQUEST`.
pub const SSH_MSG_GLOBAL_REQUEST: u8 = 80;

/// `SSH_MSG_CHANNEL_OPEN`.
pub const SSH_MSG_CHANNEL_OPEN: u8 = 90;

/// `SSH_MSG_CHANNEL_OPEN_CONFIRMATION`.
pub const SSH_MSG_CHANNEL_OPEN_CONFIRMATION: u8 = 91;

/// `SSH_MSG_CHANNEL_OPEN_FAILURE`.
pub const SSH_MSG_CHANNEL_OPEN_FAILURE: u8 = 92;

/// `SSH_MSG_CHANNEL_WINDOW_ADJUST`.
pub const SSH_MSG_CHANNEL_WINDOW_ADJUST: u8 = 93;

/// `SSH_MSG_CHANNEL_DATA`.
pub const SSH_MSG_CHANNEL_DATA: u8 = 94;

/// `SSH_MSG_CHANNEL_EXTENDED_DATA`.
pub const SSH_MSG_CHANNEL_EXTENDED_DATA: u8 = 95;

/// `SSH_MSG_CHANNEL_REQUEST`.
pub const SSH_MSG_CHANNEL_REQUEST: u8 = 98;

/// `SSH_MSG_CHANNEL_SUCCESS`.
pub const SSH_MSG_CHANNEL_SUCCESS: u8 = 99;

/// `SSH_MSG_CHANNEL_FAILURE`.
pub const SSH_MSG_CHANNEL_FAILURE: u8 = 100;

/// `SSH_OPEN_ADMINISTRATIVELY_PROHIBITED`.
pub const SSH_OPEN_ADMINISTRATIVELY_PROHIBITED: u32 = 1;

/// The channel number this client gives its session channel.
pub const LOCAL_CHANNEL: u32 = 0;

/// The receive window advertised at opening, and added by each window adjustment.
pub const INITIAL_WINDOW: u32 = 2097152;

/// The largest packet this client accepts on the channel.
pub const MAX_PACKET: u32 = 32768;

/// When the receive window is down to this many octets, it is replenished.
pub const WINDOW_LOW: u64 = 100;

/// The extended-data type of standard error.
pub const EXTENDED_DATA_STDERR: u32 = 1;

/// The octets of an optional vector.
pub open spec fn opt_bytes(o: Option<Vec<u8>>) -> Option<Seq<u8>> {
    match o {
        Some(v) => Some(v@),
        None => None,
    }
}

/// The `SSH_MSG_CHANNEL_OPEN` payload for the session channel.
pub open spec fn open_channel_payload() -> Seq<u8> {
    seq![SSH_MSG_CHANNEL_OPEN] + ssh_string(session_channel_name()) + u32_be(LOCAL_CHANNEL) + u32_be(
        INITIAL_WINDOW,
    ) + u32_be(MAX_PACKET)
}

/// Opens the session channel: local channel 0, the initial window and the maximum packet
/// size. Returns the payload to send.
pub fn open_channel() -> (r: Vec<u8>)
    ensures
        r@ == open_channel_payload(),
{
    let mut payload: Vec<u8> = Vec::new();
    payload.push(SSH_MSG_CHANNEL_OPEN);
    let kind = session_channel();
    append_string(&mut payload, kind.as_slice());
    append_u32(&mut payload, LOCAL_CHANNEL);
    append_u32(&mut payload, INITIAL_WINDOW);
    append_u32(&mut payload, MAX_PACKET);
    payload
}

/// The encoded terminal modes sent with the pseudo-terminal request.
pub open spec fn terminal_modes_spec() -> Seq<u8> {
    seq![1u8, 0u8, 0u8, 0u8, 3u8, 3u8, 0u8, 0u8, 0u8, 127u8, 4u8, 0u8, 0u8, 0u8, 21u8, 5u8, 0u8, 0u8, 0u8, 4u8, 9u8, 0u8, 0u8, 0u8, 19u8, 10u8, 0u8, 0u8, 0u8, 26u8, 35u8, 0u8, 0u8, 0u8, 1u8, 50u8, 0u8, 0u8, 0u8, 1u8, 51u8, 0u8, 0u8, 0u8, 1u8, 53u8, 0u8, 0u8, 0u8, 1u8, 0u8]
}

/// The encoded terminal modes: VINTR, VERASE, VKILL, VEOF, VSTART, VSTOP, ICRNL, ISIG,
/// ICANON, ECHO, then TTY_OP_END.
fn terminal_modes() -> (r: Vec<u8>)
    ensures
        r@ == terminal_modes_spec(),
{
    vec![1u8, 0u8, 0u8, 0u8, 3u8, 3u8, 0u8, 0u8, 0u8, 127u8, 4u8, 0u8, 0u8, 0u8, 21u8, 5u8, 0u8, 0u8, 0u8, 4u8, 9u8, 0u8, 0u8, 0u8, 19u8, 10u8, 0u8, 0u8, 0u8, 26u8, 35u8, 0u8, 0u8, 0u8, 1u8, 50u8, 0u8, 0u8, 0u8, 1u8, 51u8, 0u8, 0u8, 0u8, 1u8, 53u8, 0u8, 0u8, 0u8, 1u8, 0u8]
}

/// The `pty-req` channel request: want-reply, terminal type, size in cells, zero pixel size,
/// terminal modes.
pub open spec fn pty_request_payload(server_channel: u32, width: u32, height: u32) -> Seq<u8> {
    seq![SSH_MSG_CHANNEL_REQUEST] + u32_be(server_channel) + ssh_string(pty_request_name())
        + seq![1u8] + ssh_string(terminal_type_name()) + u32_be(width) + u32_be(height) + Seq::new(
        8,
        |i: int| 0u8,
    ) + ssh_string(terminal_modes_spec())
}

/// Builds the `pty-req` channel request.
pub fn gen_pty_request(server_channel: u32, width: u32, height: u32) -> (r: Vec<u8>)
    ensures
        r@ == pty_request_payload(server_channel, width, height),
{
    let mut request: Vec<u8> = Vec::new();
    request.push(SSH_MSG_CHANNEL_REQUEST);
    append_u32(&mut request, server_channel);
    let name = pty_request();
    append_string(&mut request, name.as_slice());
    request.push(1u8);
    let term = terminal_type();
    append_string(&mut request, term.as_slice());
    append_u32(&mut request, width);
    append_u32(&mut request, height);
    append_u32(&mut request, 0);
    append_u32(&mut request, 0);
    let modes = terminal_modes();
    append_string(&mut request, modes.as_slice());
    assert(u32_be(0) + u32_be(0) =~= Seq::new(8, |i: int| 0u8)) by {
        assert((0u32 >> 24u32) as u8 == 0u8) by (bit_vector);
        assert((0u32 >> 16u32) as u8 == 0u8) by (bit_vector);
        assert((0u32 >> 8u32) as u8 == 0u8) by (bit_vector);
    }
    assert(request@ =~= pty_request_payload(server_channel, width, height));
    request
}

/// The `shell` channel request, with want-reply.
pub open spec fn shell_request_payload(server_channel: u32) -> Seq<u8> {
    seq![SSH_MSG_CHANNEL_REQUEST] + u32_be(server_channel) + ssh_string(shell_request_name())
        + seq![1u8]
}

/// Builds the `shell` channel request.
pub fn gen_shell_request(server_channel: u32) -> (r: Vec<u8>)
    ensures
        r@ == shell_request_payload(server_channel),
{
    let mut request: Vec<u8> = Vec::new();
    request.push(SSH_MSG_CHANNEL_REQUEST);
    append_u32(&mut request, server_channel);
    let name = shell_request();
    append_string(&mut request, name.as_slice());
    request.push(1u8);
    request
}

/// The `window-change` channel request: no reply wanted, the size in cells, zero pixel size.
pub open spec fn window_change_payload(server_channel: u32, width: u32, height: u32) -> Seq<u8> {
    seq![SSH_MSG_CHANNEL_REQUEST] + u32_be(server_channel) + ssh_string(window_change_request_name())
        + seq![0u8] + u32_be(width) + u32_be(height) + Seq::new(8, |i: int| 0u8)
}

/// Builds the `window-change` request sent when the terminal is resized.
pub fn gen_window_change(server_channel: u32, width: u32, height: u32) -> (r: Vec<u8>)
    ensures
        r@ == window_change_payload(server_channel, width, height),
{
    let mut request: Vec<u8> = Vec::new();
    request.push(SSH_MSG_CHANNEL_REQUEST);
    append_u32(&mut request, server_channel);
    let name = window_change_request();
    append_string(&mut request, name.as_slice());
    request.push(0u8);
    append_u32(&mut request, width);
    append_u32(&mut request, height);
    append_u32(&mut request, 0);
    append_u32(&mut request, 0);
    assert(u32_be(0) + u32_be(0) =~= Seq::new(8, |i: int| 0u8)) by {
        assert((0u32 >> 24u32) as u8 == 0u8) by (bit_vector);
        assert((0u32 >> 16u32) as u8 == 0u8) by (bit_vector);
        assert((0u32 >> 8u32) as u8 == 0u8) by (bit_vector);
    }
    assert(request@ =~= window_change_payload(server_channel, width, height));
    request
}

/// A `CHANNEL_DATA` message carrying one octet.
pub open spec fn data_byte_payload(server_channel: u32, byte: u8) -> Seq<u8> {
    seq![SSH_MSG_CHANNEL_DATA] + u32_be(server_channel) + ssh_string(seq![byte])
}

/// Builds a `CHANNEL_DATA` message carrying one octet of keyboard input.
pub fn gen_data_byte(server_channel: u32, byte: u8) -> (r: Vec<u8>)
    ensures
        r@ == data_byte_payload(server_channel, byte),
{
    let mut packet: Vec<u8> = Vec::new();
    packet.push(SSH_MSG_CHANNEL_DATA);
    append_u32(&mut packet, server_channel);
    let mut one: Vec<u8> = Vec::new();
    one.push(byte);
    append_string(&mut packet, one.as_slice());
    packet
}

/// Takes one octet of credit from the remote window: when it is positive, decrements it and
/// returns `true`; at zero, leaves it and returns `false`. No octet is sent without it.
pub fn take_window_credit(window: &mut u64) -> (r: bool)
    ensures
        r == (*old(window) > 0),
        r ==> *final(window) == *old(window) - 1,
        !r ==> *final(window) == *old(window),
{
    if *window != 0 {
        *window = *window - 1;
        true
    } else {
        false
    }
}

/// Adds a window adjustment to the remote window, saturating at the largest `u64`.
pub fn grow_window(window: u64, amount: u64) -> (r: u64)
    ensures
        r == if window + amount <= u64::MAX {
            (window + amount) as u64
        } else {
            u64::MAX
        },
{
    window.saturating_add(amount)
}

/// The `CHANNEL_WINDOW_ADJUST` that restores the receive window.
pub open spec fn window_adjust_payload(server_channel: u32) -> Seq<u8> {
    seq![SSH_MSG_CHANNEL_WINDOW_ADJUST] + u32_be(server_channel) + u32_be(INITIAL_WINDOW)
}

/// The receive window after `len` octets of data arrive, and the adjustment to send: data
/// beyond the window is refused; when the rest is at most `WINDOW_LOW`, the window grows by
/// `INITIAL_WINDOW` and an adjustment is sent.
pub open spec fn window_after(window: u64, len: nat, server_channel: u32) -> Result<
    (u64, Option<Seq<u8>>),
    Error,
> {
    if len > window {
        Err(Error::MalformedPacket)
    } else if window - len <= WINDOW_LOW {
        Ok(((window - len + INITIAL_WINDOW) as u64, Some(window_adjust_payload(server_channel))))
    } else {
        Ok(((window - len) as u64, None))
    }
}

/// Accounts for `len` received octets against the receive window.
fn consume_window(window: u64, len: usize, server_channel: u32) -> (r: Result<(u64, Option<Vec<u8>>), Error>)
    ensures
        match r {
            Ok((w, adjust)) => window_after(window, len as nat, server_channel) == Ok::<
                (u64, Option<Seq<u8>>),
                Error,
            >((w, opt_bytes(adjust))),
            Err(e) => window_after(window, len as nat, server_channel) == Err::<
                (u64, Option<Seq<u8>>),
                Error,
            >(e),
        },
{
    if len as u64 > window {
        return Err(Error::MalformedPacket);
    }
    let rest = window - len as u64;
    if rest <= WINDOW_LOW {
        let mut adjust: Vec<u8> = Vec::new();
        adjust.push(SSH_MSG_CHANNEL_WINDOW_ADJUST);
        append_u32(&mut adjust, server_channel);
        append_u32(&mut adjust, INITIAL_WINDOW);
        Ok((rest + INITIAL_WINDOW as u64, Some(adjust)))
    } else {
        Ok((rest, None))
    }
}

/// What the session is waiting for.
#[derive(Clone, Copy, Debug, PartialEq, Eq)]
pub enum WaitingFor {
    /// Nothing: the shell runs, or no request is pending.
    Idle,
    /// The answer to the pseudo-terminal request.
    Pty,
    /// The answer to the shell request.
    Shell,
}

/// The part of `s` from `from` on.
fn tail_from(s: &[u8], from: usize) -> (r: &[u8])
    requires
        from <= s@.len(),
    ensures
        r@ == s@.skip(from as int),
{
    slice_subrange(s, from, s.len())
}

/// `SSH_MSG_GLOBAL_REQUEST`: its name must parse; no reply is sent.
pub open spec fn global_request_outcome(data: Seq<u8>) -> Result<(), Error> {
    match parse_string(data) {
        None => Err(Error::MalformedPacket),
        Some(_) => Ok(()),
    }
}

/// Reads a global request; nothing is answered (the server takes silence as a refusal).
pub fn process_global_request(data: &[u8]) -> (r: Result<(), Error>)
    ensures
        r == global_request_outcome(data@),
{
    let (_, _) = extract_string(data)?;
    Ok(())
}

/// The refusal of a channel the server tries to open: `CHANNEL_OPEN_FAILURE` to its sender
/// channel, reason `ADMINISTRATIVELY_PROHIBITED`.
pub open spec fn deny_outcome(data: Seq<u8>) -> Result<Seq<u8>, Error> {
    match parse_string(data) {
        None => Err(Error::MalformedPacket),
        Some((_, rest)) => if rest.len() < 4 {
            Err(Error::MalformedPacket)
        } else {
            Ok(seq![SSH_MSG_CHANNEL_OPEN_FAILURE] + rest.take(4) + u32_be(
                SSH_OPEN_ADMINISTRATIVELY_PROHIBITED,
            ) + ssh_string(open_refusal_name()) + ssh_string(Seq::empty()))
        },
    }
}

/// Refuses any channel the server asks to open. Returns the reply.
pub fn deny_channel_open(data: &[u8]) -> (r: Result<Vec<u8>, Error>)
    ensures
        match r {
            Ok(reply) => deny_outcome(data@) == Ok::<Seq<u8>, Error>(reply@),
            Err(e) => deny_outcome(data@) == Err::<Seq<u8>, Error>(e),
        },
{
    let (_, rest) = extract_string(data)?;
    if rest.len() < 4 {
        return Err(Error::MalformedPacket);
    }
    let mut response: Vec<u8> = Vec::new();
    response.push(SSH_MSG_CHANNEL_OPEN_FAILURE);
    append_bytes(&mut response, slice_subrange(rest, 0, 4));
    append_u32(&mut response, SSH_OPEN_ADMINISTRATIVELY_PROHIBITED);
    let text = open_refusal();
    append_string(&mut response, text.as_slice());
    let empty: Vec<u8> = Vec::new();
    append_string(&mut response, empty.as_slice());
    assert(empty@ =~= Seq::<u8>::empty());
    Ok(response)
}

/// The server's confirmation of the session channel: its channel number, window and maximum
/// packet size, and the pseudo-terminal request that follows. A confirmation for another
/// local channel is refused.
pub open spec fn confirmation_outcome(data: Seq<u8>, width: u32, height: u32) -> Result<
    (u32, u64, u32, Seq<u8>),
    Error,
> {
    if data.len() < 16 {
        Err(Error::MalformedPacket)
    } else if be_u32_value(data) != LOCAL_CHANNEL {
        Err(Error::UnexpectedMessage)
    } else {
        let server_channel = be_u32_value(data.skip(4));
        Ok(
            (
                server_channel,
                be_u32_value(data.skip(8)) as u64,
                be_u32_value(data.skip(12)),
                pty_request_payload(server_channel, width, height),
            ),
        )
    }
}

/// Reads `CHANNEL_OPEN_CONFIRMATION` and builds the pseudo-terminal request for a terminal of
/// `width` by `height` cells. Returns the server's channel, its window, its maximum packet
/// size and the request.
pub fn confirm_channel_open(data: &[u8], width: u32, height: u32) -> (r: Result<
    (u32, u64, u32, Vec<u8>),
    Error,
>)
    ensures
        match r {
            Ok((c, w, m, req)) => confirmation_outcome(data@, width, height) == Ok::<
                (u32, u64, u32, Seq<u8>),
                Error,
            >((c, w, m, req@)),
            Err(e) => confirmation_outcome(data@, width, height) == Err::<
                (u32, u64, u32, Seq<u8>),
                Error,
            >(e),
        },
{
    if data.len() < 16 {
        return Err(Error::MalformedPacket);
    }
    if read_u32(data) != LOCAL_CHANNEL {
        return Err(Error::UnexpectedMessage);
    }
    let server_channel = read_u32(tail_from(data, 4));
    let window_size = read_u32(tail_from(data, 8));
    let packet_max = read_u32(tail_from(data, 12));
    let request = gen_pty_request(server_channel, width, height);
    Ok((server_channel, window_size as u64, packet_max, request))
}

/// Turns `CHANNEL_OPEN_FAILURE` into the error it stands for: `ChannelOpenFailed` with the
/// reason code and the description, or `MalformedPacket`.
pub fn handle_channel_open_fail(data: &[u8]) -> (r: Error)
    ensures
        data@.len() < 16 ==> r is MalformedPacket,
        data@.len() >= 16 ==> match parse_string(data@.skip(8)) {
            None => r is MalformedPacket,
            Some((description, _)) => r matches Error::ChannelOpenFailed(code, d) && code
                == be_u32_value(data@.skip(4)) && d@ == description,
        },
{
    if data.len() < 16 {
        return Error::MalformedPacket;
    }
    let reason_code = read_u32(tail_from(data, 4));
    match extract_string(tail_from(data, 8)) {
        Ok((description, _)) => Error::ChannelOpenFailed(reason_code, description),
        Err(e) => e,
    }
}

/// What `CHANNEL_WINDOW_ADJUST` adds to the remote window: its amount, or nothing when it
/// is for another channel.
pub open spec fn adjust_outcome(data: Seq<u8>) -> Result<u64, Error> {
    if data.len() < 8 {
        Err(Error::MalformedPacket)
    } else if be_u32_value(data) != LOCAL_CHANNEL {
        Ok(0)
    } else {
        Ok(be_u32_value(data.skip(4)) as u64)
    }
}

/// Reads `CHANNEL_WINDOW_ADJUST`: the amount to add to the remote window.
pub fn adjust_window(data: &[u8]) -> (r: Result<u64, Error>)
    ensures
        r == adjust_outcome(data@),
{
    if data.len() < 8 {
        return Err(Error::MalformedPacket);
    }
    if read_u32(data) != LOCAL_CHANNEL {
        return Ok(0);
    }
    let amount = read_u32(tail_from(data, 4));
    Ok(amount as u64)
}

/// `CHANNEL_DATA`: the data to show, the receive window after it and the adjustment to send.
/// Data for another channel is dropped.
pub open spec fn channel_data_outcome(data: Seq<u8>, server_channel: u32, window: u64) -> Result<
    (Seq<u8>, u64, Option<Seq<u8>>),
    Error,
> {
    if data.len() < 8 {
        Err(Error::MalformedPacket)
    } else if be_u32_value(data) != LOCAL_CHANNEL {
        Ok((Seq::empty(), window, None))
    } else {
        match parse_string(data.skip(4)) {
            None => Err(Error::MalformedPacket),
            Some((d, _)) => match window_after(window, d.len(), server_channel) {
                Err(e) => Err(e),
                Ok((w, adjust)) => Ok((d, w, adjust)),
            },
        }
    }
}

/// Reads `CHANNEL_DATA` against the receive window `window_size`.
pub fn process_channel_data(data: &[u8], server_channel: u32, window_size: u64) -> (r: Result<
    (Vec<u8>, u64, Option<Vec<u8>>),
    Error,
>)
    ensures
        match r {
            Ok((d, w, adjust)) => channel_data_outcome(data@, server_channel, window_size) == Ok::<
                (Seq<u8>, u64, Option<Seq<u8>>),
                Error,
            >((d@, w, opt_bytes(adjust))),
            Err(e) => channel_data_outcome(data@, server_channel, window_size) == Err::<
                (Seq<u8>, u64, Option<Seq<u8>>),
                Error,
            >(e),
        },
        window_size <= INITIAL_WINDOW + WINDOW_LOW ==> (r matches Ok((_, w, _)) ==> w
            <= INITIAL_WINDOW + WINDOW_LOW),
{
    if data.len() < 8 {
        return Err(Error::MalformedPacket);
    }
    if read_u32(data) != LOCAL_CHANNEL {
        return Ok((Vec::new(), window_size, None));
    }
    let (d, _) = extract_string(tail_from(data, 4))?;
    let (w, adjust) = consume_window(window_size, d.len(), server_channel)?;
    Ok((d, w, adjust))
}

/// `CHANNEL_EXTENDED_DATA`: whether it goes to standard error (type 1), the data, the
/// receive window after it and the adjustment to send. Data for another channel is dropped.
pub open spec fn extended_data_outcome(data: Seq<u8>, server_channel: u32, window: u64) -> Result<
    (bool, Seq<u8>, u64, Option<Seq<u8>>),
    Error,
> {
    if data.len() < 12 {
        Err(Error::MalformedPacket)
    } else if be_u32_value(data) != LOCAL_CHANNEL {
        Ok((false, Seq::empty(), window, None))
    } else {
        match parse_string(data.skip(8)) {
            None => Err(Error::MalformedPacket),
            Some((d, _)) => match window_after(window, d.len(), server_channel) {
                Err(e) => Err(e),
                Ok((w, adjust)) => Ok(
                    (be_u32_value(data.skip(4)) == EXTENDED_DATA_STDERR, d, w, adjust),
                ),
            },
        }
    }
}

/// Reads `CHANNEL_EXTENDED_DATA` against the receive window `window_size`.
pub fn process_extended_channel_data(data: &[u8], server_channel: u32, window_size: u64) -> (r:
    Result<(bool, Vec<u8>, u64, Option<Vec<u8>>), Error>)
    ensures
        match r {
            Ok((to_stderr, d, w, adjust)) => extended_data_outcome(data@, server_channel, window_size)
                == Ok::<(bool, Seq<u8>, u64, Option<Seq<u8>>), Error>(
                (to_stderr, d@, w, opt_bytes(adjust)),
            ),
            Err(e) => extended_data_outcome(data@, server_channel, window_size) == Err::<
                (bool, Seq<u8>, u64, Option<Seq<u8>>),
                Error,
            >(e),
        },
        window_size <= INITIAL_WINDOW + WINDOW_LOW ==> (r matches Ok((_, _, w, _)) ==> w
            <= INITIAL_WINDOW + WINDOW_LOW),
{
    if data.len() < 12 {
        return Err(Error::MalformedPacket);
    }
    if read_u32(data) != LOCAL_CHANNEL {
        return Ok((false, Vec::new(), window_size, None));
    }
    let data_type = read_u32(tail_from(data, 4));
    let (d, _) = extract_string(tail_from(data, 8))?;
    let (w, adjust) = consume_window(window_size, d.len(), server_channel)?;
    Ok((data_type == EXTENDED_DATA_STDERR, d, w, adjust))
}

/// A `CHANNEL_REQUEST` from the server: refused with `CHANNEL_FAILURE` when it wants a reply,
/// ignored otherwise.
pub open spec fn channel_request_outcome(data: Seq<u8>, server_channel: u32) -> Result<
    Option<Seq<u8>>,
    Error,
> {
    if data.len() < 4 {
        Err(Error::MalformedPacket)
    } else if be_u32_value(data) != LOCAL_CHANNEL {
        Err(Error::UnexpectedMessage)
    } else {
        match parse_string(data.skip(4)) {
            None => Err(Error::MalformedPacket),
            Some((_, rest)) => if rest.len() == 0 {
                Err(Error::MalformedPacket)
            } else if rest[0] != 0 {
                Ok(Some(seq![SSH_MSG_CHANNEL_FAILURE] + u32_be(server_channel)))
            } else {
                Ok(None)
            },
        }
    }
}

/// Answers a channel request from the server. Returns the reply, if any.
pub fn process_channel_request(data: &[u8], server_channel: u32) -> (r: Result<Option<Vec<u8>>, Error>)
    ensures
        match r {
            Ok(reply) => channel_request_outcome(data@, server_channel) == Ok::<
                Option<Seq<u8>>,
                Error,
            >(opt_bytes(reply)),
            Err(e) => channel_request_outcome(data@, server_channel) == Err::<
                Option<Seq<u8>>,
                Error,
            >(e),
        },
{
    if data.len() < 4 {
        return Err(Error::MalformedPacket);
    }
    if read_u32(data) != LOCAL_CHANNEL {
        return Err(Error::UnexpectedMessage);
    }
    let (_, rest) = extract_string(tail_from(data, 4))?;
    if rest.len() == 0 {
        return Err(Error::MalformedPacket);
    }
    if rest[0] != 0 {
        let mut response: Vec<u8> = Vec::new();
        response.push(SSH_MSG_CHANNEL_FAILURE);
        append_u32(&mut response, server_channel);
        return Ok(Some(response));
    }
    Ok(None)
}

/// `CHANNEL_SUCCESS`: after the pseudo-terminal, the shell is requested; after the shell,
/// the session runs. A success for another channel, or with nothing pending, changes nothing.
pub open spec fn success_outcome(data: Seq<u8>, server_channel: u32, state: WaitingFor) -> Result<
    (WaitingFor, Option<Seq<u8>>),
    Error,
> {
    if data.len() < 4 {
        Err(Error::MalformedPacket)
    } else if be_u32_value(data) != LOCAL_CHANNEL {
        Ok((state, None))
    } else {
        match state {
            WaitingFor::Pty => Ok((WaitingFor::Shell, Some(shell_request_payload(server_channel)))),
            WaitingFor::Shell => Ok((WaitingFor::Idle, None)),
            WaitingFor::Idle => Ok((WaitingFor::Idle, None)),
        }
    }
}

/// Handles `CHANNEL_SUCCESS`: the next state and the request to send, if any.
pub fn handle_request_success(data: &[u8], server_channel: u32, state: WaitingFor) -> (r: Result<
    (WaitingFor, Option<Vec<u8>>),
    Error,
>)
    ensures
        match r {
            Ok((next, request)) => success_outcome(data@, server_channel, state) == Ok::<
                (WaitingFor, Option<Seq<u8>>),
                Error,
            >((next, opt_bytes(request))),
            Err(e) => success_outcome(data@, server_channel, state) == Err::<
                (WaitingFor, Option<Seq<u8>>),
                Error,
            >(e),
        },
{
    if data.len() < 4 {
        return Err(Error::MalformedPacket);
    }
    if read_u32(data) != LOCAL_CHANNEL {
        return Ok((state, None));
    }
    match state {
        WaitingFor::Pty => Ok((WaitingFor::Shell, Some(gen_shell_request(server_channel)))),
        WaitingFor::Shell => Ok((WaitingFor::Idle, None)),
        WaitingFor::Idle => Ok((WaitingFor::Idle, None)),
    }
}

/// `CHANNEL_FAILURE`: fatal while the pseudo-terminal or the shell is pending, ignored
/// otherwise.
pub open spec fn failure_outcome(data: Seq<u8>, state: WaitingFor) -> Result<(), Error> {
    if data.len() < 4 {
        Err(Error::MalformedPacket)
    } else if be_u32_value(data) != LOCAL_CHANNEL {
        Ok(())
    } else {
        match state {
            WaitingFor::Pty => Err(Error::PtyRequestFailed),
            WaitingFor::Shell => Err(Error::ShellRequestFailed),
            WaitingFor::Idle => Ok(()),
        }
    }
}

/// Handles `CHANNEL_FAILURE`.
pub fn handle_request_fail(data: &[u8], state: WaitingFor) -> (r: Result<(), Error>)
    ensures
        r == failure_outcome(data@, state),
{
    if data.len() < 4 {
        return Err(Error::MalformedPacket);
    }
    if read_u32(data) != LOCAL_CHANNEL {
        return Ok(());
    }
    match state {
        WaitingFor::Pty => Err(Error::PtyRequestFailed),
        WaitingFor::Shell => Err(Error::ShellRequestFailed),
        WaitingFor::Idle => Ok(()),
    }
}

/// What happens to the remote window (the credit for sending) after a message.
pub enum WindowUpdate {
    /// It stays as it is.
    Keep,
    /// It is set: the server's initial window.
    Reset(u64),
    /// It grows by this amount.
    Grow(u64),
}

/// What the caller does after a message on the running connection.
pub struct Reaction {
    /// A payload to send back, if any.
    pub reply: Option<Vec<u8>>,
    /// Octets for standard output.
    pub stdout: Vec<u8>,
    /// Octets for standard error.
    pub stderr: Vec<u8>,
    /// What happens to the remote window.
    pub remote_window: WindowUpdate,
    /// The server closed the connection: stop cleanly.
    pub disconnect: bool,
    /// The shell was just granted: keyboard input may start.
    pub shell_started: bool,
}

/// The reaction writes nothing to standard output or standard error.
pub open spec fn no_output(re: Reaction) -> bool {
    re.stdout@.len() == 0 && re.stderr@.len() == 0
}

/// The reaction leaves the remote window alone, does not stop, and does not start input.
pub open spec fn calm(re: Reaction) -> bool {
    re.remote_window is Keep && !re.disconnect && !re.shell_started
}

/// The reaction does nothing at all.
pub open spec fn quiet_reaction(re: Reaction) -> bool {
    re.reply is None && no_output(re) && calm(re)
}

/// The message types the session acts on; the others are ignored.
pub open spec fn handled_type(t: u8) -> bool {
    t == SSH_MSG_DISCONNECT || t == SSH_MSG_GLOBAL_REQUEST || t == SSH_MSG_CHANNEL_OPEN || t
        == SSH_MSG_CHANNEL_OPEN_CONFIRMATION || t == SSH_MSG_CHANNEL_OPEN_FAILURE || t
        == SSH_MSG_CHANNEL_WINDOW_ADJUST || t == SSH_MSG_CHANNEL_DATA || t
        == SSH_MSG_CHANNEL_EXTENDED_DATA || t == SSH_MSG_CHANNEL_REQUEST || t
        == SSH_MSG_CHANNEL_SUCCESS || t == SSH_MSG_CHANNEL_FAILURE
}

/// A reaction with nothing to do.
fn quiet() -> (r: Reaction)
    ensures
        r.reply is None,
        r.stdout@.len() == 0,
        r.stderr@.len() == 0,
        r.remote_window is Keep,
        !r.disconnect,
        !r.shell_started,
{
    Reaction {
        reply: None,
        stdout: Vec::new(),
        stderr: Vec::new(),
        remote_window: WindowUpdate::Keep,
        disconnect: false,
        shell_started: false,
    }
}

/// The session channel as the reader sees it.
pub struct Session {
    /// The server's number for the channel.
    pub server_channel: u32,
    /// The pending request.
    pub state: WaitingFor,
    /// The receive window: how many more octets the server may send.
    pub local_window: u64,
    /// The server's maximum packet size.
    pub server_packet_max: u32,
    /// Terminal width in cells, sent with the pseudo-terminal request.
    pub width: u32,
    /// Terminal height in cells, sent with the pseudo-terminal request.
    pub height: u32,
}

impl Session {
    /// The receive window never exceeds what was advertised plus the low-water mark.
    pub open spec fn wf(&self) -> bool {
        self.local_window <= INITIAL_WINDOW + WINDOW_LOW
    }

    /// A session whose channel has just been requested with `open_channel`, for a terminal
    /// of `width` by `height` cells.
    pub fn new(width: u32, height: u32) -> (r: Session)
        ensures
            r.wf(),
            r.server_channel == 0,
            r.state is Idle,
            r.local_window == INITIAL_WINDOW,
            r.server_packet_max == 0,
            r.width == width,
            r.height == height,
    {
        Session {
            server_channel: 0,
            state: WaitingFor::Idle,
            local_window: INITIAL_WINDOW as u64,
            server_packet_max: 0,
            width,
            height,
        }
    }

    /// Handles one message of the running connection: refuses channels and requests from the
    /// server, takes the confirmation and asks for a pseudo-terminal, then a shell, hands out
    /// channel data with the receive window accounted for (and replenished), and passes on
    /// window adjustments. Messages of other types are ignored.
    pub fn dispatch(&mut self, packet_type: u8, data: &[u8]) -> (r: Result<Reaction, Error>)
        requires
            old(self).wf(),
        ensures
            final(self).wf(),
            final(self).width == old(self).width,
            final(self).height == old(self).height,
            packet_type == SSH_MSG_DISCONNECT ==> (r matches Ok(re) && re.disconnect && re.reply is None
                && no_output(re) && re.remote_window is Keep && !re.shell_started && *final(self)
                == *old(self)),
            packet_type == SSH_MSG_GLOBAL_REQUEST ==> match global_request_outcome(data@) {
                Err(e) => r == Err::<Reaction, Error>(e),
                Ok(_) => r matches Ok(re) && quiet_reaction(re) && *final(self) == *old(self),
            },
            packet_type == SSH_MSG_CHANNEL_OPEN ==> match deny_outcome(data@) {
                Err(e) => r == Err::<Reaction, Error>(e),
                Ok(reply) => r matches Ok(re) && opt_bytes(re.reply) == Some(reply) && no_output(re)
                    && calm(re) && *final(self) == *old(self),
            },
            packet_type == SSH_MSG_CHANNEL_OPEN_CONFIRMATION ==> match confirmation_outcome(
                data@,
                old(self).width,
                old(self).height,
            ) {
                Err(e) => r == Err::<Reaction, Error>(e),
                Ok((c, w, m, req)) => r matches Ok(re) && opt_bytes(re.reply) == Some(req)
                    && re.remote_window == WindowUpdate::Reset(w) && no_output(re) && !re.disconnect
                    && !re.shell_started && final(self).server_channel == c
                    && final(self).server_packet_max == m && final(self).state is Pty
                    && final(self).local_window == old(self).local_window,
            },
            packet_type == SSH_MSG_CHANNEL_OPEN_FAILURE ==> *final(self) == *old(self) && (if data@.len()
                < 16 {
                r matches Err(Error::MalformedPacket)
            } else {
                match parse_string(data@.skip(8)) {
                    None => r matches Err(Error::MalformedPacket),
                    Some((description, _)) => r matches Err(Error::ChannelOpenFailed(code, d)) && code
                        == be_u32_value(data@.skip(4)) && d@ == description,
                }
            }),
            packet_type == SSH_MSG_CHANNEL_WINDOW_ADJUST ==> match adjust_outcome(data@) {
                Err(e) => r == Err::<Reaction, Error>(e),
                Ok(a) => r matches Ok(re) && re.remote_window == WindowUpdate::Grow(a) && re.reply is None
                    && no_output(re) && !re.disconnect && !re.shell_started && *final(self) == *old(
                    self,
                ),
            },
            packet_type == SSH_MSG_CHANNEL_DATA ==> match channel_data_outcome(
                data@,
                old(self).server_channel,
                old(self).local_window,
            ) {
                Err(e) => r == Err::<Reaction, Error>(e),
                Ok((d, w, adjust)) => r matches Ok(re) && re.stdout@ == d && re.stderr@.len() == 0
                    && opt_bytes(re.reply) == adjust && calm(re) && final(self).local_window == w
                    && final(self).state == old(self).state && final(self).server_channel == old(
                    self,
                ).server_channel && final(self).server_packet_max == old(self).server_packet_max,
            },
            packet_type == SSH_MSG_CHANNEL_EXTENDED_DATA ==> match extended_data_outcome(
                data@,
                old(self).server_channel,
                old(self).local_window,
            ) {
                Err(e) => r == Err::<Reaction, Error>(e),
                Ok((to_stderr, d, w, adjust)) => r matches Ok(re) && (if to_stderr {
                    re.stderr@ == d && re.stdout@.len() == 0
                } else {
                    re.stdout@ == d && re.stderr@.len() == 0
                }) && opt_bytes(re.reply) == adjust && calm(re) && final(self).local_window == w
                    && final(self).state == old(self).state && final(self).server_channel == old(
                    self,
                ).server_channel && final(self).server_packet_max == old(self).server_packet_max,
            },
            packet_type == SSH_MSG_CHANNEL_REQUEST ==> match channel_request_outcome(
                data@,
                old(self).server_channel,
            ) {
                Err(e) => r == Err::<Reaction, Error>(e),
                Ok(reply) => r matches Ok(re) && opt_bytes(re.reply) == reply && no_output(re) && calm(
                    re,
                ) && *final(self) == *old(self),
            },
            packet_type == SSH_MSG_CHANNEL_SUCCESS ==> match success_outcome(
                data@,
                old(self).server_channel,
                old(self).state,
            ) {
                Err(e) => r == Err::<Reaction, Error>(e),
                Ok((next, request)) => r matches Ok(re) && opt_bytes(re.reply) == request
                    && re.shell_started == (old(self).state is Shell && next is Idle) && no_output(re)
                    && re.remote_window is Keep && !re.disconnect && final(self).state == next
                    && final(self).local_window == old(self).local_window && final(self).server_channel
                    == old(self).server_channel && final(self).server_packet_max == old(
                    self,
                ).server_packet_max,
            },
            packet_type == SSH_MSG_CHANNEL_FAILURE ==> match failure_outcome(data@, old(self).state) {
                Err(e) => r == Err::<Reaction, Error>(e),
                Ok(_) => r matches Ok(re) && quiet_reaction(re) && *final(self) == *old(self),
            },
            !handled_type(packet_type) ==> (r matches Ok(re) && quiet_reaction(re) && *final(self)
                == *old(self)),
    {
        if packet_type == SSH_MSG_DISCONNECT {
            let mut re = quiet();
            re.disconnect = true;
            Ok(re)
        } else if packet_type == SSH_MSG_GLOBAL_REQUEST {
            process_global_request(data)?;
            Ok(quiet())
        } else if packet_type == SSH_MSG_CHANNEL_OPEN {
            let reply = deny_channel_open(data)?;
            let mut re = quiet();
            re.reply = Some(reply);
            Ok(re)
        } else if packet_type == SSH_MSG_CHANNEL_OPEN_CONFIRMATION {
            let (channel, window, packet_max, request) = confirm_channel_open(
                data,
                self.width,
                self.height,
            )?;
            self.server_channel = channel;
            self.server_packet_max = packet_max;
            self.state = WaitingFor::Pty;
            let mut re = quiet();
            re.reply = Some(request);
            re.remote_window = WindowUpdate::Reset(window);
            Ok(re)
        } else if packet_type == SSH_MSG_CHANNEL_OPEN_FAILURE {
            Err(handle_channel_open_fail(data))
        } else if packet_type == SSH_MSG_CHANNEL_WINDOW_ADJUST {
            let amount = adjust_window(data)?;
            let mut re = quiet();
            re.remote_window = WindowUpdate::Grow(amount);
            Ok(re)
        } else if packet_type == SSH_MSG_CHANNEL_DATA {
            let (d, w, adjust) = process_channel_data(data, self.server_channel, self.local_window)?;
            self.local_window = w;
            let mut re = quiet();
            re.stdout = d;
            re.reply = adjust;
            Ok(re)
        } else if packet_type == SSH_MSG_CHANNEL_EXTENDED_DATA {
            let (to_stderr, d, w, adjust) = process_extended_channel_data(
                data,
                self.server_channel,
                self.local_window,
            )?;
            self.local_window = w;
            let mut re = quiet();
            if to_stderr {
                re.stderr = d;
            } else {
                re.stdout = d;
            }
            re.reply = adjust;
            Ok(re)
        } else if packet_type == SSH_MSG_CHANNEL_REQUEST {
            let reply = process_channel_request(data, self.server_channel)?;
            let mut re = quiet();
            re.reply = reply;
            Ok(re)
        } else if packet_type == SSH_MSG_CHANNEL_SUCCESS {
            let (next, request) = handle_request_success(data, self.server_channel, self.state)?;
            let started = match (self.state, next) {
                (WaitingFor::Shell, WaitingFor::Idle) => true,
                _ => false,
            };
            self.state = next;
            let mut re = quiet();
            re.reply = request;
            re.shell_started = started;
            Ok(re)
        } else if packet_type == SSH_MSG_CHANNEL_FAILURE {
            handle_request_fail(data, self.state)?;
            Ok(quiet())
        } else {
            Ok(quiet())
        }
    }
}

} // verus!
