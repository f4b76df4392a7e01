//! The version handshake state machine and its failure modes.

use ibkr::error::Error;
use ibkr::handshake::{HandshakeNegotiator, HandshakeState};

#[test]
fn handshake_walks_its_states() {
    let mut n = HandshakeNegotiator::new();
    assert_eq!(n.state, HandshakeState::Disconnected);
    let _greeting = n.greeting();
    assert_eq!(n.state, HandshakeState::GreetingSent);
    let mut reply = vec![0, 0, 0, 4];
    reply.extend_from_slice(b"176\x00");
    assert_eq!(n.on_reply(&reply), Ok(176));
    assert_eq!(n.state, HandshakeState::VersionReceived);
    assert_eq!(n.server_version, 176);
    let _payload = n.start_session(42);
    assert_eq!(n.state, HandshakeState::StartSessionSent);
    n.confirm_ready();
    assert_eq!(n.state, HandshakeState::Ready);
    assert_eq!(n.server_version, 176);
}

#[test]
fn short_reply_is_a_protocol_error() {
    let mut n = HandshakeNegotiator::new();
    let _ = n.greeting();
    let r = n.on_reply(&[1, 2]);
    assert_eq!(r, Err(Error::Protocol("Invalid handshake response".to_string())));
    assert_eq!(n.state, HandshakeState::Disconnected);
}

#[test]
fn non_numeric_version_is_a_protocol_error() {
    let mut n = HandshakeNegotiator::new();
    let _ = n.greeting();
    let mut reply = vec![0, 0, 0, 6];
    reply.extend_from_slice(b"hello\x00");
    let r = n.on_reply(&reply);
    assert_eq!(r, Err(Error::Protocol("Failed to parse server version".to_string())));
    assert_eq!(n.state, HandshakeState::Disconnected);
}

#[test]
fn empty_reply_body_is_a_protocol_error() {
    let mut n = HandshakeNegotiator::new();
    let _ = n.greeting();
    let r = n.on_reply(&[0, 0, 0, 0]);
    assert_eq!(r, Err(Error::Protocol("Failed to parse server version".to_string())));
}

#[test]
fn start_session_carries_the_client_id() {
    let mut n = HandshakeNegotiator::new();
    let _ = n.greeting();
    let mut reply = vec![0, 0, 0, 4];
    reply.extend_from_slice(b"100\x00");
    assert_eq!(n.on_reply(&reply), Ok(100));
    assert_eq!(n.start_session(-3), "71\x002\x00-3\x00\x00");
}
