//! The handshake sequence: a server that never echoes the authentication
//! sentinel fails the connection before a login is ever produced.

use voxel_client::codec::Reader;
use voxel_client::connection::{
    read_handshake_reply, ConnectionPhase, HandshakeError, HandshakeFlow,
};
use voxel_client::packets::{Handshake, Login};

#[test]
fn wrong_echo_fails_before_login() {
    let mut flow = HandshakeFlow::new(String::from("alice"));
    assert_eq!(flow.phase(), ConnectionPhase::Connecting);
    let hello = flow.handshake_packet();
    assert_eq!(hello[0], 2);
    assert_eq!(flow.phase(), ConnectionPhase::Handshaking);
    let echo = Handshake { username: String::from("alice") };
    match flow.on_handshake_reply(&echo) {
        Err(HandshakeError::AuthRejected) => {},
        Ok(_) => panic!("a login must never be produced for a bad echo"),
    }
    assert_eq!(flow.phase(), ConnectionPhase::Failed);
}

#[test]
fn sentinel_echo_produces_the_login() {
    let mut flow = HandshakeFlow::new(String::from("alice"));
    let _hello = flow.handshake_packet();
    let echo = Handshake { username: String::from("-") };
    let login_bytes = flow.on_handshake_reply(&echo).expect("the sentinel is accepted");
    assert_eq!(flow.phase(), ConnectionPhase::Established);
    assert_eq!(login_bytes[0], 1);
    let body = login_bytes[1..].to_vec();
    let mut r = Reader::new(&body);
    let login = Login::deserialize(&mut r).expect("our own login must decode");
    assert_eq!(login.protocol_version, 14);
    assert_eq!(login.username, "alice");
    assert_eq!(login.seed, 0);
    assert_eq!(login.dimension, 0);
}

#[test]
fn handshake_reply_reader_checks_the_identifier() {
    let p = Handshake { username: String::from("-") };
    let bytes = p.serialize();
    let mut r = Reader::new(&bytes);
    let reply = read_handshake_reply(&mut r).expect("a framed handshake must decode");
    assert_eq!(reply.username, "-");

    let wrong = vec![3u8, 0, 0];
    let mut r2 = Reader::new(&wrong);
    assert!(read_handshake_reply(&mut r2).is_err());
}
