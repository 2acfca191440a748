use tssh::auth::{
    check_service_accept, expect_message, gen_userauth_header, none_request, password_request,
    service_request, AuthStep, Authenticator,
};
use tssh::wire::{append_name_list, append_string};
use tssh::Error;

fn failure(methods: &[&str]) -> Vec<u8> {
    let mut body = Vec::new();
    let list: Vec<Vec<u8>> = methods.iter().map(|m| m.as_bytes().to_vec()).collect();
    append_name_list(&mut body, &list);
    body.push(0);
    body
}

#[test]
fn service_request_layout() {
    let mut expected = vec![5u8];
    append_string(&mut expected, b"ssh-userauth");
    assert_eq!(service_request(), expected);
    assert_eq!(&service_request()[..], b"\x05\x00\x00\x00\x0cssh-userauth");
}

#[test]
fn service_accept_must_name_userauth() {
    let mut ok = Vec::new();
    append_string(&mut ok, b"ssh-userauth");
    assert!(check_service_accept(&ok).is_ok());
    let mut other = Vec::new();
    append_string(&mut other, b"ssh-connection");
    assert_eq!(check_service_accept(&other).err(), Some(Error::UnexpectedMessage));
    assert_eq!(check_service_accept(&[0, 0]).err(), Some(Error::MalformedPacket));
}

#[test]
fn request_layouts() {
    let mut header = vec![50u8];
    append_string(&mut header, b"alice");
    append_string(&mut header, b"ssh-connection");
    assert_eq!(gen_userauth_header(b"alice"), header);
    let mut none = header.clone();
    append_string(&mut none, b"none");
    assert_eq!(none_request(b"alice"), none);
    let mut password = header.clone();
    append_string(&mut password, b"password");
    password.push(0);
    append_string(&mut password, b"hunter2");
    assert_eq!(password_request(b"alice", b"hunter2"), password);
}

#[test]
fn three_wrong_passwords_fail() {
    let mut auth = Authenticator::new();
    let body = failure(&["publickey", "password"]);
    for attempt in 1..=3u8 {
        assert!(matches!(auth.handle(51, &body), Ok(AuthStep::Prompt)));
        assert_eq!(auth.attempts, attempt);
    }
    assert_eq!(auth.handle(51, &body).err(), Some(Error::AuthFailed));
}

#[test]
fn success_ends_authentication() {
    let mut auth = Authenticator::new();
    assert!(matches!(auth.handle(51, &failure(&["password"])), Ok(AuthStep::Prompt)));
    assert!(matches!(auth.handle(52, &[]), Ok(AuthStep::Done)));
}

#[test]
fn missing_password_method_is_unsupported() {
    let mut auth = Authenticator::new();
    assert_eq!(
        auth.handle(51, &failure(&["publickey", "keyboard-interactive"])).err(),
        Some(Error::AuthMethodUnsupported)
    );
    assert_eq!(auth.attempts, 0);
}

#[test]
fn banner_is_shown_and_authentication_goes_on() {
    let mut auth = Authenticator::new();
    let mut banner = Vec::new();
    append_string(&mut banner, b"Authorized users only\n");
    append_string(&mut banner, b"");
    match auth.handle(53, &banner) {
        Ok(AuthStep::Banner(text)) => assert_eq!(text, b"Authorized users only\n".to_vec()),
        _ => panic!("expected a banner"),
    }
    assert!(matches!(auth.handle(51, &failure(&["password"])), Ok(AuthStep::Prompt)));
}

#[test]
fn password_change_and_disconnect_are_fatal() {
    let mut auth = Authenticator::new();
    assert_eq!(auth.handle(60, &[]).err(), Some(Error::PasswordExpired));
    assert_eq!(auth.handle(1, &[]).err(), Some(Error::PeerDisconnect));
    assert!(matches!(auth.handle(80, &[1, 2]), Ok(AuthStep::Ignore)));
    assert_eq!(auth.handle(51, &[0, 0, 0, 9]).err(), Some(Error::MalformedPacket));
}

#[test]
fn waiting_for_a_message() {
    assert_eq!(expect_message(6, 6).ok(), Some(true));
    assert_eq!(expect_message(2, 6).ok(), Some(false));
    assert_eq!(expect_message(1, 6).err(), Some(Error::PeerDisconnect));
    assert_eq!(expect_message(1, 1).ok(), Some(true));
}
