use mc_networking::error::CodecError;
use mc_networking::packets::handshaking::serverbound::{Handshake, State as NextState};
use mc_networking::packets::handshaking::{HandshakingPacket, ServerboundHandshakingPacket};
use mc_networking::packets::login::serverbound::LoginStart;
use mc_networking::packets::login::{LoginPacket, ServerboundLoginPacket};
use mc_networking::packets::status::clientbound::{PingResponse, StatusResponse};
use mc_networking::packets::status::serverbound::{PingRequest, StatusRequest};
use mc_networking::packets::status::{ClientboundStatusPacket, ServerboundStatusPacket, StatusPacket};
use mc_networking::packets::{decode_packet, Packets};
use mc_networking::proxy::{get_varint_size, handle_packet, next_frame, status_json, version_from_id, ConnInfo};
use mc_networking::traits::{McEncodable, Packet};
use mc_networking::types::{Compression, Direction, State, Uuid, Varint};

fn handshake_bytes() -> Vec<u8> {
    let mut body = vec![0xfa, 0x05, 9];
    body.extend_from_slice(b"localhost");
    body.extend_from_slice(&[0x63, 0xdd, 0x01]);
    body
}

#[test]
fn decodes_a_handshake() {
    let body = handshake_bytes();
    let (packet, n) = decode_packet(State::Handshaking, Direction::Serverbound, 0, -1, &body).unwrap();
    assert_eq!(n, body.len());
    match packet {
        Packets::Handshaking(HandshakingPacket::Serverbound(ServerboundHandshakingPacket::Handshake(h))) => {
            assert_eq!(h.protocol_version.value(), 762);
            assert_eq!(h.server_host, "localhost");
            assert_eq!(h.server_port, 25565);
            assert_eq!(h.next_state, NextState::Status);
        }
        other => panic!("unexpected {:?}", other),
    }
}

#[test]
fn handshake_with_unknown_next_state_is_refused() {
    let mut body = handshake_bytes();
    let last = body.len() - 1;
    body[last] = 3;
    assert!(decode_packet(State::Handshaking, Direction::Serverbound, 0, -1, &body).is_err());
}

#[test]
fn decode_errors() {
    assert_eq!(
        decode_packet(State::Handshaking, Direction::Serverbound, 5, -1, &[]).unwrap_err(),
        CodecError::UnknownPacketId(5)
    );
    assert_eq!(
        decode_packet(State::Handshaking, Direction::Clientbound, 0, -1, &[]).unwrap_err(),
        CodecError::UnknownPacketId(0)
    );
    assert_eq!(
        decode_packet(State::Status, Direction::Serverbound, 0, 800, &[]).unwrap_err(),
        CodecError::UnknownVersion(800)
    );
    assert_eq!(
        decode_packet(State::Login, Direction::Serverbound, 0, 760, &[]).unwrap_err(),
        CodecError::UnknownVersion(760)
    );
    assert_eq!(
        decode_packet(State::Status, Direction::Serverbound, 1, 761, &[1, 2]).unwrap_err(),
        CodecError::UnexpectedEof
    );
}

#[test]
fn decodes_status_packets() {
    let (p, n) = decode_packet(State::Status, Direction::Serverbound, 0, 761, &[]).unwrap();
    assert_eq!(n, 0);
    assert!(matches!(p, Packets::Status(StatusPacket::Serverbound(ServerboundStatusPacket::StatusRequest(_)))));
    let (p, n) = decode_packet(State::Status, Direction::Serverbound, 1, 761, &[0, 0, 0, 0, 0, 0, 0, 42]).unwrap();
    assert_eq!(n, 8);
    match p {
        Packets::Status(StatusPacket::Serverbound(ServerboundStatusPacket::PingRequest(ping))) => assert_eq!(ping.payload, 42),
        other => panic!("unexpected {:?}", other),
    }
    let (p, _) = decode_packet(State::Status, Direction::Clientbound, 0, 0, &[2, b'{', b'}']).unwrap();
    match p {
        Packets::Status(StatusPacket::Clientbound(ClientboundStatusPacket::StatusResponse(s))) => assert_eq!(s.json_response, "{}"),
        other => panic!("unexpected {:?}", other),
    }
}

#[test]
fn decodes_login_start() {
    let mut body = vec![3];
    body.extend_from_slice(b"Bob");
    body.push(1);
    body.extend_from_slice(&[0; 15]);
    body.push(7);
    let (p, n) = decode_packet(State::Login, Direction::Serverbound, 0, 761, &body).unwrap();
    assert_eq!(n, body.len());
    match p {
        Packets::Login(LoginPacket::Serverbound(ServerboundLoginPacket::LoginStart(l))) => {
            assert_eq!(l.username, "Bob");
            assert_eq!(l.uuid.map(|u| u.contents()), Some(7));
        }
        other => panic!("unexpected {:?}", other),
    }
}

#[test]
fn writes_a_ping_response_frame() {
    let packet = Packets::Status(StatusPacket::Clientbound(ClientboundStatusPacket::PingResponse(PingResponse { payload: 5 })));
    let mut buf = Vec::new();
    packet.write_packet(&mut buf, 761, Compression::default()).unwrap();
    assert_eq!(buf, vec![9, 1, 0, 0, 0, 0, 0, 0, 0, 5]);
}

#[test]
fn write_without_an_id_writes_nothing() {
    let login = LoginStart { username: String::from("Bob"), uuid: None };
    let packet = Packets::Login(LoginPacket::Serverbound(ServerboundLoginPacket::LoginStart(login)));
    let mut buf = vec![0xaa];
    assert_eq!(packet.write_packet(&mut buf, 700, Compression::default()), Err(CodecError::NoPacketId(700)));
    assert_eq!(buf, vec![0xaa]);
}

#[test]
fn packet_ids() {
    assert_eq!(Handshake::id(-1), Some(0));
    assert_eq!(Handshake::id(761), Some(0));
    assert_eq!(Handshake::id(762), None);
    assert_eq!(LoginStart::id(761), Some(0));
    assert_eq!(LoginStart::id(760), None);
    assert_eq!(StatusRequest::id(5), Some(0));
    assert_eq!(PingRequest::id(5), Some(1));
    assert_eq!(StatusResponse::id(5), Some(0));
    assert_eq!(PingResponse::id(5), Some(1));
}

#[test]
fn packet_written_then_decoded() {
    let login = LoginStart { username: String::from("Alex"), uuid: Some(Uuid::from(99)) };
    let mut frame = Vec::new();
    login.write_packet(&mut frame, 761, Compression::default()).unwrap();
    let (frame_len, body_len) = next_frame(&frame).unwrap();
    assert_eq!(frame_len, frame.len());
    let body_start = frame_len - body_len;
    let (id, id_len) = Varint::decode(&frame[body_start..]).unwrap();
    let (p, n) = decode_packet(State::Login, Direction::Serverbound, id.value(), 761, &frame[body_start + id_len..]).unwrap();
    assert_eq!(n, frame_len - body_start - id_len);
    match p {
        Packets::Login(LoginPacket::Serverbound(ServerboundLoginPacket::LoginStart(l))) => {
            assert_eq!(l.username, "Alex");
            assert_eq!(l.uuid.map(|u| u.contents()), Some(99));
        }
        other => panic!("unexpected {:?}", other),
    }
}

#[test]
fn handshake_body_roundtrip() {
    let h = Handshake {
        protocol_version: Varint::from(761),
        server_host: String::from("example.org"),
        server_port: 25565,
        next_state: NextState::Login,
    };
    let mut buf = Vec::new();
    h.encode(&mut buf);
    let (back, n) = Handshake::decode(&buf).unwrap();
    assert_eq!(n, buf.len());
    assert_eq!(back, h);
}

#[test]
fn next_frame_waits_for_whole_frames() {
    assert_eq!(next_frame(&[]), None);
    assert_eq!(next_frame(&[0x80]), None);
    assert_eq!(next_frame(&[3, 0]), None);
    assert_eq!(next_frame(&[3, 0, 1]), None);
    assert_eq!(next_frame(&[0x02, 0x00]), None);
    assert_eq!(next_frame(&[0xff, 0xff, 0xff, 0xff, 0x0f]), None);
    assert_eq!(next_frame(&[3, 0, 1, 2, 9]), Some((4, 3)));
    assert_eq!(next_frame(&[0, 7]), Some((1, 0)));
}

#[test]
fn get_varint_size_values() {
    assert_eq!(get_varint_size(0), Ok(1));
    assert_eq!(get_varint_size(0x4000), Ok(3));
    assert_eq!(get_varint_size(-7), Err(CodecError::NegativeVarint));
}

#[test]
fn status_json_text() {
    assert_eq!(
        status_json(761),
        "{\"version\":{\"name\":\"1.19.2\",\"protocol\":761},\"players\":{\"max\":1,\"online\":0,\"sample\":[]},\"description\":{\"text\":\"Proxy\"}}"
    );
    assert!(status_json(-1).contains("\"protocol\":-1}"));
    assert!(status_json(i32::MIN).contains("\"protocol\":-2147483648}"));
}

#[test]
fn proxy_conversation() {
    let mut conn = ConnInfo::default();
    assert_eq!(conn.state, State::Handshaking);
    assert_eq!(conn.protocol_version, -1);
    let handshake = Handshake {
        protocol_version: Varint::from(761),
        server_host: String::from("localhost"),
        server_port: 25566,
        next_state: NextState::Status,
    };
    let answer = handle_packet(
        Packets::Handshaking(HandshakingPacket::Serverbound(ServerboundHandshakingPacket::Handshake(handshake))),
        &mut conn,
    );
    assert!(answer.is_none());
    assert_eq!(conn.state, State::Status);
    assert_eq!(conn.protocol_version, 761);

    let answer = handle_packet(
        Packets::Status(StatusPacket::Serverbound(ServerboundStatusPacket::StatusRequest(StatusRequest {}))),
        &mut conn,
    );
    match answer {
        Some(Packets::Status(StatusPacket::Clientbound(ClientboundStatusPacket::StatusResponse(s)))) => {
            assert_eq!(s.json_response, status_json(761));
        }
        other => panic!("unexpected {:?}", other),
    }

    let answer = handle_packet(
        Packets::Status(StatusPacket::Serverbound(ServerboundStatusPacket::PingRequest(PingRequest { payload: -9 }))),
        &mut conn,
    );
    match answer {
        Some(Packets::Status(StatusPacket::Clientbound(ClientboundStatusPacket::PingResponse(p)))) => assert_eq!(p.payload, -9),
        other => panic!("unexpected {:?}", other),
    }
    assert_eq!(conn.state, State::Status);
}

#[test]
fn login_handshake_moves_to_login() {
    let mut conn = ConnInfo::default();
    let handshake = Handshake {
        protocol_version: Varint::from(761),
        server_host: String::new(),
        server_port: 1,
        next_state: NextState::Login,
    };
    handle_packet(
        Packets::Handshaking(HandshakingPacket::Serverbound(ServerboundHandshakingPacket::Handshake(handshake))),
        &mut conn,
    );
    assert_eq!(conn.state, State::Login);
    let login = LoginStart { username: String::from("Bob"), uuid: None };
    let answer = handle_packet(Packets::Login(LoginPacket::Serverbound(ServerboundLoginPacket::LoginStart(login))), &mut conn);
    assert!(answer.is_none());
}

#[test]
fn next_state_converts_to_state() {
    let s: State = NextState::Status.into();
    assert_eq!(s, State::Status);
    let s: State = NextState::Login.into();
    assert_eq!(s, State::Login);
}

#[test]
fn handshake_records_only_known_versions() {
    for (number, recorded) in [(760, 760), (4, 4), (762, -1), (100, -1), (-1, -1)] {
        let mut conn = ConnInfo::default();
        let handshake = Handshake {
            protocol_version: Varint::from(number),
            server_host: String::from("localhost"),
            server_port: 25565,
            next_state: NextState::Status,
        };
        handle_packet(
            Packets::Handshaking(HandshakingPacket::Serverbound(ServerboundHandshakingPacket::Handshake(handshake))),
            &mut conn,
        );
        assert_eq!(conn.protocol_version, recorded);
        let answer = handle_packet(
            Packets::Status(StatusPacket::Serverbound(ServerboundStatusPacket::StatusRequest(StatusRequest {}))),
            &mut conn,
        );
        match answer {
            Some(Packets::Status(StatusPacket::Clientbound(ClientboundStatusPacket::StatusResponse(s)))) => {
                assert_eq!(s.json_response, status_json(recorded));
            }
            other => panic!("unexpected {:?}", other),
        }
    }
}

#[test]
fn version_table() {
    assert_eq!(version_from_id(761), Some(761));
    assert_eq!(version_from_id(47), Some(47));
    assert_eq!(version_from_id(-1), Some(-1));
    assert_eq!(version_from_id(762), None);
    assert_eq!(version_from_id(0), None);
}
