//! Round trips for the packet types that have both an encoder and a decoder,
//! including boundary string lengths.

use voxel_client::codec::{DecodeError, Reader};
use voxel_client::packets::{
    decode_server_packet, Handshake, Login, PosRot, Position, ServerPacket,
};
use voxel_client::text::{read_str, write_str};

#[test]
fn login_round_trip() {
    let p = Login {
        protocol_version: 14,
        username: String::from("alice"),
        seed: -12345678901234,
        dimension: -1,
    };
    let bytes = p.serialize();
    let mut r = Reader::new(&bytes);
    match decode_server_packet(&mut r) {
        Ok(ServerPacket::Login(q)) => {
            assert_eq!(q, p);
            assert_eq!(r.position(), bytes.len());
        },
        other => panic!("expected a login packet, got {:?}", other),
    }
}

#[test]
fn login_round_trip_empty_username() {
    let p = Login { protocol_version: 14, username: String::new(), seed: 0, dimension: 0 };
    let bytes = p.serialize();
    let mut r = Reader::new(&bytes);
    match decode_server_packet(&mut r) {
        Ok(ServerPacket::Login(q)) => assert_eq!(q, p),
        other => panic!("expected a login packet, got {:?}", other),
    }
}

#[test]
fn login_round_trip_max_username() {
    // The login username field admits at most 16 code units.
    let p = Login {
        protocol_version: 14,
        username: String::from("AAAAAAAAAAAAAAAA"),
        seed: 7,
        dimension: 0,
    };
    let bytes = p.serialize();
    let mut r = Reader::new(&bytes);
    match decode_server_packet(&mut r) {
        Ok(ServerPacket::Login(q)) => assert_eq!(q, p),
        other => panic!("expected a login packet, got {:?}", other),
    }
}

#[test]
fn login_rejects_over_limit_username() {
    // 17 code units is over the login field's 16-unit limit.
    let p = Login {
        protocol_version: 14,
        username: String::from("AAAAAAAAAAAAAAAAA"),
        seed: 7,
        dimension: 0,
    };
    let bytes = p.serialize();
    let mut r = Reader::new(&bytes);
    match decode_server_packet(&mut r) {
        Err(DecodeError::StringLength(17)) => {},
        other => panic!("expected a string-length error, got {:?}", other),
    }
}

#[test]
fn handshake_round_trip() {
    let p = Handshake { username: String::from("bob") };
    let bytes = p.serialize();
    assert_eq!(bytes[0], 2);
    let body = bytes[1..].to_vec();
    let mut r = Reader::new(&body);
    let q = Handshake::deserialize(&mut r).expect("handshake must decode");
    assert_eq!(q, p);
    assert_eq!(r.position(), body.len());
}

#[test]
fn position_round_trip() {
    let p = Position {
        x_bits: (100.5f64).to_bits(),
        y_bits: (64.0f64).to_bits(),
        stance_bits: (65.62f64).to_bits(),
        z_bits: (-7.25f64).to_bits(),
        grounded: true,
    };
    let bytes = p.serialize();
    let mut r = Reader::new(&bytes);
    match decode_server_packet(&mut r) {
        Ok(ServerPacket::Position(q)) => {
            assert_eq!(q, p);
            assert_eq!(r.position(), bytes.len());
        },
        other => panic!("expected a position packet, got {:?}", other),
    }
}

#[test]
fn pos_rot_round_trip() {
    let p = PosRot {
        x_bits: (1.0f64).to_bits(),
        y_bits: (2.0f64).to_bits(),
        stance_bits: (3.62f64).to_bits(),
        z_bits: (4.0f64).to_bits(),
        yaw_bits: (90.0f32).to_bits(),
        pitch_bits: (-10.0f32).to_bits(),
        grounded: false,
    };
    let bytes = p.serialize();
    let mut r = Reader::new(&bytes);
    match decode_server_packet(&mut r) {
        Ok(ServerPacket::PosRot(q)) => assert_eq!(q, p),
        other => panic!("expected a position-and-look packet, got {:?}", other),
    }
}

#[test]
fn string_round_trip_with_surrogate_pair() {
    // One ASCII character and one supplementary-plane character (two code
    // units on the wire).
    let s = "a\u{1D11E}";
    let mut out: Vec<u8> = Vec::new();
    write_str(&mut out, s).expect("encoding must fit");
    assert_eq!(out.len(), 2 + 2 * 3);
    let mut r = Reader::new(&out);
    let back = read_str(&mut r, 16).expect("string must decode");
    assert_eq!(back, s);
}

#[test]
fn string_negative_length_rejected() {
    let bytes = vec![0xFFu8, 0xFF];
    let mut r = Reader::new(&bytes);
    match read_str(&mut r, 16) {
        Err(DecodeError::StringLength(-1)) => {},
        other => panic!("expected a string-length error, got {:?}", other),
    }
}

#[test]
fn string_lone_surrogate_rejected() {
    // Length 1, then a lone high surrogate.
    let bytes = vec![0x00u8, 0x01, 0xD8, 0x00];
    let mut r = Reader::new(&bytes);
    match read_str(&mut r, 16) {
        Err(DecodeError::InvalidUtf16) => {},
        other => panic!("expected an invalid-utf16 error, got {:?}", other),
    }
}

#[test]
fn unknown_packet_id_rejected() {
    let bytes = vec![99u8];
    let mut r = Reader::new(&bytes);
    match decode_server_packet(&mut r) {
        Err(DecodeError::UnknownPacketId(99)) => {},
        other => panic!("expected an unknown-id error, got {:?}", other),
    }
}

#[test]
fn short_input_rejected() {
    let bytes = vec![4u8, 0, 0, 0];
    let mut r = Reader::new(&bytes);
    match decode_server_packet(&mut r) {
        Err(DecodeError::ShortInput) => {},
        other => panic!("expected a short-input error, got {:?}", other),
    }
}

#[test]
fn after_respawn_bad_action_rejected() {
    let bytes = vec![70u8, 9];
    let mut r = Reader::new(&bytes);
    match decode_server_packet(&mut r) {
        Err(DecodeError::RespawnAction(9)) => {},
        other => panic!("expected a respawn-action error, got {:?}", other),
    }
}
