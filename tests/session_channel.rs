use tssh::channel::{
    adjust_window, confirm_channel_open, deny_channel_open, gen_data_byte, gen_shell_request,
    gen_window_change, grow_window, handle_channel_open_fail, handle_request_fail,
    handle_request_success, open_channel, process_channel_data, process_channel_request,
    process_extended_channel_data, process_global_request, take_window_credit, Session,
    WaitingFor, WindowUpdate,
};
use tssh::wire::append_string;
use tssh::Error;

fn data_message(channel: u32, data: &[u8]) -> Vec<u8> {
    let mut m = channel.to_be_bytes().to_vec();
    append_string(&mut m, data);
    m
}

#[test]
fn open_channel_layout() {
    let mut expected = vec![90u8];
    append_string(&mut expected, b"session");
    expected.extend(0u32.to_be_bytes());
    expected.extend(2097152u32.to_be_bytes());
    expected.extend(32768u32.to_be_bytes());
    assert_eq!(open_channel(), expected);
}

#[test]
fn server_channel_open_is_refused() {
    let mut open = Vec::new();
    append_string(&mut open, b"forwarded-tcpip");
    open.extend([0, 0, 0, 7, 0, 0, 0x10, 0, 0, 0, 0x80, 0]);
    let reply = deny_channel_open(&open).ok().unwrap();
    assert_eq!(reply[0], 92);
    assert_eq!(&reply[1..5], &[0, 0, 0, 7]);
    assert_eq!(&reply[5..9], &[0, 0, 0, 1]);
    let mut rest = Vec::new();
    append_string(&mut rest, b"Client does not permit host to open channels");
    append_string(&mut rest, b"");
    assert_eq!(&reply[9..], &rest[..]);
    assert_eq!(deny_channel_open(&[0, 0, 0, 1, b'x', 0]).err(), Some(Error::MalformedPacket));
}

#[test]
fn confirmation_requests_a_pty() {
    let mut data = Vec::new();
    for n in [0u32, 42, 65536, 32768] {
        data.extend(n.to_be_bytes());
    }
    let (channel, window, max, request) = confirm_channel_open(&data, 80, 24).ok().unwrap();
    assert_eq!((channel, window, max), (42, 65536, 32768));
    let mut expected = vec![98u8];
    expected.extend(42u32.to_be_bytes());
    append_string(&mut expected, b"pty-req");
    expected.push(1);
    append_string(&mut expected, b"xterm-256color");
    expected.extend(80u32.to_be_bytes());
    expected.extend(24u32.to_be_bytes());
    expected.extend([0u8; 8]);
    append_string(
        &mut expected,
        &[
            1, 0, 0, 0, 3, 3, 0, 0, 0, 127, 4, 0, 0, 0, 21, 5, 0, 0, 0, 4, 9, 0, 0, 0, 19, 10, 0,
            0, 0, 26, 35, 0, 0, 0, 1, 50, 0, 0, 0, 1, 51, 0, 0, 0, 1, 53, 0, 0, 0, 1, 0,
        ],
    );
    assert_eq!(request, expected);
}

#[test]
fn confirmation_for_another_channel_is_refused() {
    let mut data = Vec::new();
    for n in [3u32, 42, 65536, 32768] {
        data.extend(n.to_be_bytes());
    }
    assert_eq!(confirm_channel_open(&data, 80, 24).err(), Some(Error::UnexpectedMessage));
    assert_eq!(confirm_channel_open(&data[..15], 80, 24).err(), Some(Error::MalformedPacket));
    let mut tiny = Vec::new();
    for n in [0u32, 42, 65536, 15] {
        tiny.extend(n.to_be_bytes());
    }
    let (_, _, max, _) = confirm_channel_open(&tiny, 80, 24).ok().unwrap();
    assert_eq!(max, 15);
}

#[test]
fn open_failure_carries_reason_and_description() {
    let mut data = vec![0, 0, 0, 0, 0, 0, 0, 2];
    append_string(&mut data, b"connect failed");
    append_string(&mut data, b"");
    assert_eq!(
        handle_channel_open_fail(&data),
        Error::ChannelOpenFailed(2, b"connect failed".to_vec())
    );
    assert_eq!(handle_channel_open_fail(&data[..10]), Error::MalformedPacket);
}

#[test]
fn window_adjust_amounts() {
    let mut data = 0u32.to_be_bytes().to_vec();
    data.extend(1000u32.to_be_bytes());
    assert_eq!(adjust_window(&data).ok(), Some(1000));
    let mut other = 5u32.to_be_bytes().to_vec();
    other.extend(1000u32.to_be_bytes());
    assert_eq!(adjust_window(&other).ok(), Some(0));
    assert_eq!(adjust_window(&data[..7]).err(), Some(Error::MalformedPacket));
    assert_eq!(grow_window(10, 5), 15);
    assert_eq!(grow_window(u64::MAX - 1, 5), u64::MAX);
}

#[test]
fn channel_data_consumes_the_window() {
    let (out, window, adjust) = process_channel_data(&data_message(0, b"motd"), 9, 1000).ok().unwrap();
    assert_eq!(out, b"motd".to_vec());
    assert_eq!(window, 996);
    assert!(adjust.is_none());
}

#[test]
fn low_window_is_replenished() {
    let (_, window, adjust) = process_channel_data(&data_message(0, &[1; 50]), 9, 150).ok().unwrap();
    assert_eq!(window, 100 + 2097152);
    let mut expected = vec![93u8];
    expected.extend(9u32.to_be_bytes());
    expected.extend(2097152u32.to_be_bytes());
    assert_eq!(adjust, Some(expected));
    let (_, window, adjust) = process_channel_data(&data_message(0, &[1; 50]), 9, 151).ok().unwrap();
    assert_eq!(window, 101);
    assert!(adjust.is_none());
}

#[test]
fn data_beyond_the_window_is_refused() {
    assert_eq!(
        process_channel_data(&data_message(0, &[1; 11]), 9, 10).err(),
        Some(Error::MalformedPacket)
    );
    let (_, window, _) = process_channel_data(&data_message(0, &[1; 10]), 9, 10).ok().unwrap();
    assert_eq!(window, 2097152);
}

#[test]
fn data_for_another_channel_is_dropped() {
    let (out, window, adjust) = process_channel_data(&data_message(4, b"x"), 9, 500).ok().unwrap();
    assert!(out.is_empty());
    assert_eq!(window, 500);
    assert!(adjust.is_none());
    assert_eq!(process_channel_data(&[0, 0, 0], 9, 500).err(), Some(Error::MalformedPacket));
}

#[test]
fn extended_data_routes_stderr() {
    let mut m = 0u32.to_be_bytes().to_vec();
    m.extend(1u32.to_be_bytes());
    append_string(&mut m, b"oops");
    let (to_stderr, out, window, _) = process_extended_channel_data(&m, 9, 1000).ok().unwrap();
    assert!(to_stderr);
    assert_eq!(out, b"oops".to_vec());
    assert_eq!(window, 996);
    m[7] = 2;
    let (to_stderr, _, _, _) = process_extended_channel_data(&m, 9, 1000).ok().unwrap();
    assert!(!to_stderr);
}

#[test]
fn server_requests_are_refused_when_a_reply_is_wanted() {
    let mut m = 0u32.to_be_bytes().to_vec();
    append_string(&mut m, b"exit-status");
    m.push(1);
    let reply = process_channel_request(&m, 9).ok().unwrap();
    let mut expected = vec![100u8];
    expected.extend(9u32.to_be_bytes());
    assert_eq!(reply, Some(expected));
    let last = m.len() - 1;
    m[last] = 0;
    assert_eq!(process_channel_request(&m, 9).ok(), Some(None));
    m.pop();
    assert_eq!(process_channel_request(&m, 9).err(), Some(Error::MalformedPacket));
}

#[test]
fn global_requests_need_no_answer() {
    let mut m = Vec::new();
    append_string(&mut m, b"keepalive@openssh.com");
    m.push(1);
    assert!(process_global_request(&m).is_ok());
    assert_eq!(process_global_request(&[0, 0]).err(), Some(Error::MalformedPacket));
}

#[test]
fn pty_then_shell_then_running() {
    let ok = 0u32.to_be_bytes();
    let (state, request) = handle_request_success(&ok, 9, WaitingFor::Pty).ok().unwrap();
    assert_eq!(state, WaitingFor::Shell);
    assert_eq!(request, Some(gen_shell_request(9)));
    let mut expected = vec![98u8];
    expected.extend(9u32.to_be_bytes());
    append_string(&mut expected, b"shell");
    expected.push(1);
    assert_eq!(gen_shell_request(9), expected);
    let (state, request) = handle_request_success(&ok, 9, WaitingFor::Shell).ok().unwrap();
    assert_eq!(state, WaitingFor::Idle);
    assert!(request.is_none());
}

#[test]
fn refused_pty_or_shell_is_fatal() {
    let ok = 0u32.to_be_bytes();
    assert_eq!(handle_request_fail(&ok, WaitingFor::Pty).err(), Some(Error::PtyRequestFailed));
    assert_eq!(handle_request_fail(&ok, WaitingFor::Shell).err(), Some(Error::ShellRequestFailed));
    assert!(handle_request_fail(&ok, WaitingFor::Idle).is_ok());
    assert!(handle_request_fail(&3u32.to_be_bytes(), WaitingFor::Pty).is_ok());
}

#[test]
fn window_change_request_layout() {
    let mut expected = vec![98u8];
    expected.extend(9u32.to_be_bytes());
    append_string(&mut expected, b"window-change");
    expected.push(0);
    expected.extend(120u32.to_be_bytes());
    expected.extend(40u32.to_be_bytes());
    expected.extend([0u8; 8]);
    assert_eq!(gen_window_change(9, 120, 40), expected);
}

#[test]
fn keystroke_packet_layout() {
    assert_eq!(gen_data_byte(9, b'l'), vec![94, 0, 0, 0, 9, 0, 0, 0, 1, b'l']);
}

#[test]
fn no_octet_without_window_credit() {
    let mut window = 2u64;
    assert!(take_window_credit(&mut window));
    assert!(take_window_credit(&mut window));
    assert_eq!(window, 0);
    assert!(!take_window_credit(&mut window));
    assert_eq!(window, 0);
}

#[test]
fn session_runs_through_the_channel_lifecycle() {
    let mut session = Session::new(80, 24);
    let mut confirm = Vec::new();
    for n in [0u32, 7, 1000, 32768] {
        confirm.extend(n.to_be_bytes());
    }
    let re = session.dispatch(91, &confirm).ok().unwrap();
    assert!(matches!(re.remote_window, WindowUpdate::Reset(1000)));
    assert_eq!(re.reply.as_ref().unwrap()[0], 98);
    assert_eq!(session.state, WaitingFor::Pty);
    assert_eq!(session.server_channel, 7);
    let re = session.dispatch(99, &0u32.to_be_bytes()).ok().unwrap();
    assert_eq!(re.reply, Some(gen_shell_request(7)));
    assert!(!re.shell_started);
    let re = session.dispatch(99, &0u32.to_be_bytes()).ok().unwrap();
    assert!(re.reply.is_none());
    assert!(re.shell_started);
    assert_eq!(session.state, WaitingFor::Idle);
    let re = session.dispatch(94, &data_message(0, b"motd\r\n")).ok().unwrap();
    assert_eq!(re.stdout, b"motd\r\n".to_vec());
    assert_eq!(session.local_window, 2097152 - 6);
    let mut adjust = 0u32.to_be_bytes().to_vec();
    adjust.extend(500u32.to_be_bytes());
    let re = session.dispatch(93, &adjust).ok().unwrap();
    assert!(matches!(re.remote_window, WindowUpdate::Grow(500)));
    let mut open = Vec::new();
    append_string(&mut open, b"forwarded-tcpip");
    open.extend(3u32.to_be_bytes());
    let re = session.dispatch(90, &open).ok().unwrap();
    assert_eq!(&re.reply.unwrap()[..9], &[92, 0, 0, 0, 3, 0, 0, 0, 1]);
    let re = session.dispatch(1, &[]).ok().unwrap();
    assert!(re.disconnect);
    let mut fail = vec![0, 0, 0, 0, 0, 0, 0, 1];
    append_string(&mut fail, b"no");
    append_string(&mut fail, b"");
    assert_eq!(session.dispatch(92, &fail).err(), Some(Error::ChannelOpenFailed(1, b"no".to_vec())));
}
