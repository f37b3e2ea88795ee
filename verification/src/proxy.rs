//! The decisions of a proxy that answers status pings.
use vstd::prelude::*;
use vstd::string::StringExecFns;
use crate::error::CodecError;
use crate::packets::handshaking::{HandshakingPacket, ServerboundHandshakingPacket};
use crate::packets::status::clientbound::{PingResponse, StatusResponse};
use crate::packets::status::{ClientboundStatusPacket, ServerboundStatusPacket, StatusPacket};
use crate::packets::{PacketModel, Packets};
use crate::traits::McEncodable;
use crate::types::{varint_size, State, Varint};
use crate::text::{decimal, decimal_spec};
use crate::wire::{lemma_varint_size_matches, varint_bytes, varint_parse, varint_size_spec};

verus! {

/// The number of bytes a VarInt of `value` takes; negative values are refused.
pub fn get_varint_size(value: i32) -> (r: Result<i32, CodecError>)
    ensures
        value < 0 ==> r == Err::<i32, CodecError>(CodecError::NegativeVarint),
        value >= 0 ==> r == Ok::<i32, CodecError>(varint_size_spec(value) as i32),
        value >= 0 ==> varint_size_spec(value) == varint_bytes(value).len(),
{
    proof {
        if value >= 0 {
            lemma_varint_size_matches(value);
        }
    }
    if value < 0 {
        Err(CodecError::NegativeVarint)
    } else if value < 0x80 {
        Ok(1)
    } else if value < 0x4000 {
        Ok(2)
    } else if value < 0x20_0000 {
        Ok(3)
    } else if value < 0x1000_0000 {
        Ok(4)
    } else {
        Ok(5)
    }
}

/// What the proxy knows of a connection.
#[derive(Debug, Clone, Copy, PartialEq, Eq, Structural)]
pub struct ConnInfo {
    pub state: State,
    /// The client's protocol version; `-1` until a handshake names a known one.
    pub protocol_version: i32,
}

impl Default for ConnInfo {
    fn default() -> (r: Self)
        ensures
            r.state == State::Handshaking,
            r.protocol_version == -1,
    {
        Self { state: State::Handshaking, protocol_version: -1 }
    }
}

/// Where the next frame in a receive buffer ends: the frame's total length
/// (the length prefix counted by its canonical size, then the body) and the
/// body's length; `None` while the buffer does not yet hold the whole frame,
/// or when the announced length is negative.
pub open spec fn next_frame_spec(buf: Seq<u8>) -> Option<(int, int)> {
    match varint_parse(buf) {
        Err(_) => None,
        Ok((len, _)) => if len < 0 || len + varint_size_spec(len) > buf.len() {
            None
        } else {
            Some((len + varint_size_spec(len), len as int))
        },
    }
}

/// Finds the next whole frame in the bytes received so far.
pub fn next_frame(buf: &[u8]) -> (r: Option<(usize, usize)>)
    requires
        buf@.len() <= isize::MAX,
    ensures
        match next_frame_spec(buf@) {
            Some((frame_len, body_len)) => r == Some((frame_len as usize, body_len as usize)),
            None => r == None::<(usize, usize)>,
        },
{
    let (length, _) = match Varint::decode(buf) {
        Ok(x) => x,
        Err(_) => return None,
    };
    let len = length.value();
    if len < 0 {
        return None;
    }
    let size = match varint_size(len) {
        Ok(size) => size,
        Err(_) => return None,
    };
    let length = len as usize;
    let frame_len = length + size as usize;
    if frame_len > buf.len() {
        return None;
    }
    Some((frame_len, length))
}

/// The protocol numbers of the game versions this library names: `-1` for a
/// version not yet known, then the releases up to 1.19.3.
pub open spec fn known_version(id: i32) -> bool {
    id == -1 || id == 4 || id == 5 || id == 47 || id == 107 || id == 108 || id == 109 || id == 110
        || id == 210 || id == 315 || id == 316 || id == 335 || id == 338 || id == 340 || id == 393
        || id == 401 || id == 404 || id == 477 || id == 480 || id == 485 || id == 490 || id == 498
        || id == 573 || id == 575 || id == 578 || id == 735 || id == 736 || id == 751 || id == 753
        || id == 754 || id == 755 || id == 756 || id == 757 || id == 758 || id == 759 || id == 760
        || id == 761
}

/// The version with protocol number `id`, if it is one this library names.
pub fn version_from_id(id: i32) -> (r: Option<i32>)
    ensures
        r == (if known_version(id) { Some(id) } else { None::<i32> }),
{
    match id {
        -1 | 4 | 5 | 47 | 107 | 108 | 109 | 110 | 210 | 315 | 316 | 335 | 338 | 340 | 393 | 401 | 404
        | 477 | 480 | 485 | 490 | 498 | 573 | 575 | 578 | 735 | 736 | 751 | 753 | 754 | 755 | 756
        | 757 | 758 | 759 | 760 | 761 => Some(id),
        _ => None,
    }
}

/// The version a connection records from a handshake: the one named, when it
/// is known, else `-1`.
pub open spec fn recorded_version(id: i32) -> i32 {
    if known_version(id) { id } else { -1i32 }
}

/// What a proxy does on receiving a packet: its answer, if any.
/// The connection's state and version are updated in place.
pub open spec fn handle_spec(conn: ConnInfo, packet: PacketModel) -> (ConnInfo, Option<PacketModel>) {
    match packet {
        PacketModel::Handshake((version, (_, (_, next)))) => (
            ConnInfo {
                state: match next {
                    crate::packets::handshaking::serverbound::State::Status => State::Status,
                    crate::packets::handshaking::serverbound::State::Login => State::Login,
                },
                protocol_version: recorded_version(version),
            },
            None,
        ),
        PacketModel::StatusRequest => (conn, Some(PacketModel::StatusResponse(status_json_spec(conn.protocol_version as int)))),
        PacketModel::PingRequest(payload) => (conn, Some(PacketModel::PingResponse(payload))),
        _ => (conn, None),
    }
}

/// A packet the proxy refuses: one that only a server sends.
pub open spec fn unexpected(packet: PacketModel) -> bool {
    packet is StatusResponse || packet is PingResponse
}

/// Whether the proxy refuses the packet.
pub fn is_unexpected(packet: &Packets) -> (r: bool)
    ensures
        r == unexpected(packet.deep_view()),
{
    match packet {
        Packets::Status(StatusPacket::Clientbound(_)) => true,
        _ => false,
    }
}

/// Handles a packet from a client: updates the connection and gives the answer.
/// Login packets get no answer.
pub fn handle_packet(packet: Packets, conn_info: &mut ConnInfo) -> (r: Option<Packets>)
    requires
        !unexpected(packet.deep_view()),
    ensures
        (*final(conn_info), r.deep_view()) == handle_spec(*old(conn_info), packet.deep_view()),
{
    match packet {
        Packets::Handshaking(HandshakingPacket::Serverbound(ServerboundHandshakingPacket::Handshake(handshake))) => {
            conn_info.protocol_version = match version_from_id(handshake.protocol_version.value()) {
                Some(version) => version,
                None => -1,
            };
            conn_info.state = handshake.next_state.into();
            None
        },
        Packets::Status(StatusPacket::Serverbound(ServerboundStatusPacket::StatusRequest(_))) => {
            let response = StatusResponse { json_response: status_json(conn_info.protocol_version) };
            Some(Packets::Status(StatusPacket::Clientbound(ClientboundStatusPacket::StatusResponse(response))))
        },
        Packets::Status(StatusPacket::Serverbound(ServerboundStatusPacket::PingRequest(packet))) => {
            let response = PingResponse { payload: packet.payload };
            Some(Packets::Status(StatusPacket::Clientbound(ClientboundStatusPacket::PingResponse(response))))
        },
        Packets::Status(StatusPacket::Clientbound(_)) => None,
        Packets::Login(_) => None,
    }
}

/// The status JSON the proxy answers with, for a client of protocol version `protocol`.
pub open spec fn status_json_spec(protocol: int) -> Seq<char> {
    "{\"version\":{\"name\":\"1.19.2\",\"protocol\":"@ + decimal_spec(protocol)
        + "},\"players\":{\"max\":1,\"online\":0,\"sample\":[]},\"description\":{\"text\":\"Proxy\"}}"@
}

/// The status JSON the proxy answers with.
pub fn status_json(protocol: i32) -> (r: String)
    ensures
        r@ == status_json_spec(protocol as int),
{
    let mut out = String::from_str("{\"version\":{\"name\":\"1.19.2\",\"protocol\":");
    let number = decimal(protocol as i64);
    out.append(number.as_str());
    out.append("},\"players\":{\"max\":1,\"online\":0,\"sample\":[]},\"description\":{\"text\":\"Proxy\"}}");
    out
}

} // verus!
