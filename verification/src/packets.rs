//! Packets, grouped by connection state and direction.
pub mod handshaking;
pub mod login;
pub mod status;

use vstd::prelude::*;
use crate::error::CodecError;
use crate::traits::{frame_bytes, frame_fits, McEncodable, Packet};
use crate::types::{varint_size, Compression, Direction, State, Varint};
use handshaking::serverbound::{Handshake, State as NextState};
use handshaking::HandshakingPacket;
use login::serverbound::LoginStart;
use login::LoginPacket;
use status::clientbound::{PingResponse, StatusResponse};
use status::serverbound::{PingRequest, StatusRequest};
use status::StatusPacket;

verus! {

/// A packet of any known state.
#[derive(Debug)]
pub enum Packets {
    Handshaking(HandshakingPacket),
    Status(StatusPacket),
    Login(LoginPacket),
}

/// The kinds of packet this library knows.
#[derive(Debug, Clone, Copy, PartialEq, Eq, Structural)]
pub enum PacketKind {
    Handshake,
    StatusResponse,
    PingResponse,
    StatusRequest,
    PingRequest,
    LoginStart,
}

/// A packet as a mathematical value: its kind and the deep view of its fields.
pub enum PacketModel {
    Handshake((i32, (Seq<char>, (u16, NextState)))),
    StatusResponse(Seq<char>),
    PingResponse(i64),
    StatusRequest,
    PingRequest(i64),
    LoginStart((Seq<char>, Option<u128>)),
}

/// The kind of packet that a frame with this id holds, in this state, direction
/// and protocol version; or why there is none.
pub open spec fn packet_kind(state: State, direction: Direction, packet_id: i32, version: i32) -> Result<PacketKind, CodecError> {
    match state {
        State::Handshaking => match direction {
            Direction::Clientbound => Err(CodecError::UnknownPacketId(packet_id)),
            Direction::Serverbound => if packet_id == 0x00 {
                if -1 <= version <= 761 { Ok(PacketKind::Handshake) } else { Err(CodecError::UnknownVersion(version)) }
            } else {
                Err(CodecError::UnknownPacketId(packet_id))
            },
        },
        State::Status => if packet_id == 0x00 || packet_id == 0x01 {
            if 0 <= version <= 761 {
                match direction {
                    Direction::Clientbound => if packet_id == 0x00 { Ok(PacketKind::StatusResponse) } else { Ok(PacketKind::PingResponse) },
                    Direction::Serverbound => if packet_id == 0x00 { Ok(PacketKind::StatusRequest) } else { Ok(PacketKind::PingRequest) },
                }
            } else {
                Err(CodecError::UnknownVersion(version))
            }
        } else {
            Err(CodecError::UnknownPacketId(packet_id))
        },
        State::Login => match direction {
            Direction::Clientbound => Err(CodecError::UnknownPacketId(packet_id)),
            Direction::Serverbound => if packet_id == 0x00 {
                if version == 761 { Ok(PacketKind::LoginStart) } else { Err(CodecError::UnknownVersion(version)) }
            } else {
                Err(CodecError::UnknownPacketId(packet_id))
            },
        },
        State::Play => Err(CodecError::UnknownPacketId(packet_id)),
    }
}

/// Decoding a packet of kind `k` from the front of `s` is defined.
pub open spec fn kind_decodable(k: PacketKind, s: Seq<u8>) -> bool {
    match k {
        PacketKind::Handshake => <Handshake as McEncodable>::decodable(s),
        PacketKind::StatusResponse => <StatusResponse as McEncodable>::decodable(s),
        PacketKind::PingResponse => <PingResponse as McEncodable>::decodable(s),
        PacketKind::StatusRequest => <StatusRequest as McEncodable>::decodable(s),
        PacketKind::PingRequest => <PingRequest as McEncodable>::decodable(s),
        PacketKind::LoginStart => <LoginStart as McEncodable>::decodable(s),
    }
}

/// Decoding a packet of kind `k` from the front of `s`.
pub open spec fn kind_decode(k: PacketKind, s: Seq<u8>) -> Result<(PacketModel, nat), CodecError> {
    match k {
        PacketKind::Handshake => match <Handshake as McEncodable>::spec_decode(s) {
            Ok((v, n)) => Ok((PacketModel::Handshake(v), n)),
            Err(e) => Err(e),
        },
        PacketKind::StatusResponse => match <StatusResponse as McEncodable>::spec_decode(s) {
            Ok((v, n)) => Ok((PacketModel::StatusResponse(v), n)),
            Err(e) => Err(e),
        },
        PacketKind::PingResponse => match <PingResponse as McEncodable>::spec_decode(s) {
            Ok((v, n)) => Ok((PacketModel::PingResponse(v), n)),
            Err(e) => Err(e),
        },
        PacketKind::StatusRequest => match <StatusRequest as McEncodable>::spec_decode(s) {
            Ok((_, n)) => Ok((PacketModel::StatusRequest, n)),
            Err(e) => Err(e),
        },
        PacketKind::PingRequest => match <PingRequest as McEncodable>::spec_decode(s) {
            Ok((v, n)) => Ok((PacketModel::PingRequest(v), n)),
            Err(e) => Err(e),
        },
        PacketKind::LoginStart => match <LoginStart as McEncodable>::spec_decode(s) {
            Ok((v, n)) => Ok((PacketModel::LoginStart(v), n)),
            Err(e) => Err(e),
        },
    }
}

/// Decoding the body of a frame with this id is defined.
pub open spec fn packet_decodable(state: State, direction: Direction, packet_id: i32, version: i32, s: Seq<u8>) -> bool {
    match packet_kind(state, direction, packet_id, version) {
        Ok(k) => kind_decodable(k, s),
        Err(_) => true,
    }
}

/// Decoding the body of a frame with this id: the packet and the bytes it took.
pub open spec fn spec_decode_packet(state: State, direction: Direction, packet_id: i32, version: i32, s: Seq<u8>) -> Result<(PacketModel, nat), CodecError> {
    match packet_kind(state, direction, packet_id, version) {
        Ok(k) => kind_decode(k, s),
        Err(e) => Err(e),
    }
}

/// The packet's id in a protocol version.
pub open spec fn model_id(m: PacketModel, version: i32) -> Option<i32> {
    match m {
        PacketModel::Handshake(_) => <Handshake as Packet>::spec_id(version),
        PacketModel::StatusResponse(_) => <StatusResponse as Packet>::spec_id(version),
        PacketModel::PingResponse(_) => <PingResponse as Packet>::spec_id(version),
        PacketModel::StatusRequest => <StatusRequest as Packet>::spec_id(version),
        PacketModel::PingRequest(_) => <PingRequest as Packet>::spec_id(version),
        PacketModel::LoginStart(_) => <LoginStart as Packet>::spec_id(version),
    }
}

/// The packet's body bytes.
pub open spec fn model_body(m: PacketModel) -> Seq<u8> {
    match m {
        PacketModel::Handshake(v) => <Handshake as McEncodable>::spec_encode(v),
        PacketModel::StatusResponse(v) => <StatusResponse as McEncodable>::spec_encode(v),
        PacketModel::PingResponse(v) => <PingResponse as McEncodable>::spec_encode(v),
        PacketModel::StatusRequest => <StatusRequest as McEncodable>::spec_encode(()),
        PacketModel::PingRequest(v) => <PingRequest as McEncodable>::spec_encode(v),
        PacketModel::LoginStart(v) => <LoginStart as McEncodable>::spec_encode(v),
    }
}

/// The frame written for the packet in a protocol version, or why none is.
pub open spec fn model_frame(m: PacketModel, version: i32) -> Result<Seq<u8>, CodecError> {
    match model_id(m, version) {
        None => Err(CodecError::NoPacketId(version)),
        Some(id) => if id < 0 { Err(CodecError::NegativeVarint) } else { Ok(frame_bytes(model_body(m), id)) },
    }
}

/// The packet's frame length fits in an `i32` in this version.
pub open spec fn model_fits(m: PacketModel, version: i32) -> bool {
    model_id(m, version) matches Some(id) ==> (id >= 0 ==> frame_fits(model_body(m).len(), id))
}

/// The packet's fields can be written and read back (its strings' lengths fit
/// in a VarInt).
pub open spec fn model_encodable(m: PacketModel) -> bool {
    match m {
        PacketModel::Handshake(v) => <Handshake as McEncodable>::encodable(v),
        PacketModel::StatusResponse(v) => <StatusResponse as McEncodable>::encodable(v),
        PacketModel::PingResponse(v) => <PingResponse as McEncodable>::encodable(v),
        PacketModel::StatusRequest => <StatusRequest as McEncodable>::encodable(()),
        PacketModel::PingRequest(v) => <PingRequest as McEncodable>::encodable(v),
        PacketModel::LoginStart(v) => <LoginStart as McEncodable>::encodable(v),
    }
}

/// The state and direction in which the packet travels.
pub open spec fn model_home(m: PacketModel) -> (State, Direction) {
    match m {
        PacketModel::Handshake(_) => (State::Handshaking, Direction::Serverbound),
        PacketModel::StatusResponse(_) => (State::Status, Direction::Clientbound),
        PacketModel::PingResponse(_) => (State::Status, Direction::Clientbound),
        PacketModel::StatusRequest => (State::Status, Direction::Serverbound),
        PacketModel::PingRequest(_) => (State::Status, Direction::Serverbound),
        PacketModel::LoginStart(_) => (State::Login, Direction::Serverbound),
    }
}

impl DeepView for Packets {
    type V = PacketModel;

    open spec fn deep_view(&self) -> PacketModel {
        match self {
            Packets::Handshaking(p) => p.deep_view(),
            Packets::Status(p) => p.deep_view(),
            Packets::Login(p) => p.deep_view(),
        }
    }
}

/// The result of a write: the error, or nothing with the frame appended.
pub open spec fn write_result(m: PacketModel, version: i32, before: Seq<u8>, after: Seq<u8>, r: Result<(), CodecError>) -> bool {
    match model_frame(m, version) {
        Ok(frame) => r == Ok::<(), CodecError>(()) && after == before + frame,
        Err(e) => r == Err::<(), CodecError>(e) && after == before,
    }
}

/// The result of decoding a frame body: the packet's model and the bytes taken, or the error.
pub open spec fn decode_result(state: State, direction: Direction, packet_id: i32, version: i32, s: Seq<u8>, r: Result<(PacketModel, nat), CodecError>) -> bool {
    spec_decode_packet(state, direction, packet_id, version, s) == r
}

/// Writes one packet's frame with the trait's writer, stated over the model.
pub(crate) fn write_one<P: Packet>(p: &P, buf: &mut Vec<u8>, version: i32, compression: Compression, Ghost(m): Ghost<PacketModel>) -> (r: Result<(), CodecError>)
    requires
        compression.threshold == -1,
        model_id(m, version) == P::spec_id(version),
        model_body(m) == P::spec_encode(p.deep_view()),
        model_fits(m, version),
    ensures
        write_result(m, version, old(buf)@, final(buf)@, r),
{
    p.write_packet(buf, version, compression)
}

/// Whether one packet's frame length fits, stated over the model.
pub(crate) fn fits_one<P: Packet>(p: &P, version: i32, Ghost(m): Ghost<PacketModel>) -> (r: bool)
    requires
        model_id(m, version) == P::spec_id(version),
        model_body(m) == P::spec_encode(p.deep_view()),
    ensures
        r == model_fits(m, version),
{
    match P::id(version) {
        None => true,
        Some(id) => {
            if id < 0 {
                true
            } else {
                let mut body: Vec<u8> = Vec::new();
                p.encode(&mut body);
                assert(body@ =~= P::spec_encode(p.deep_view()));
                let size = match varint_size(id) {
                    Ok(size) => size,
                    Err(_) => return true,
                };
                let len = #[verifier::truncate] (body.len() as i32);
                (len as i64) + (size as i64) <= (i32::MAX as i64)
            }
        },
    }
}

impl Packets {
    /// Whether the packet's frame length fits in an `i32` in this version, as
    /// writing it requires.
    pub fn fits_frame(&self, version: i32) -> (r: bool)
        ensures
            r == model_fits(self.deep_view(), version),
    {
        match self {
            Packets::Handshaking(p) => p.fits_frame(version),
            Packets::Status(p) => p.fits_frame(version),
            Packets::Login(p) => p.fits_frame(version),
        }
    }

    /// Appends the packet's frame for `version` to `buf`.
    pub fn write_packet(&self, buf: &mut Vec<u8>, version: i32, compression: Compression) -> (r: Result<(), CodecError>)
        requires
            compression.threshold == -1,
            model_fits(self.deep_view(), version),
        ensures
            write_result(self.deep_view(), version, old(buf)@, final(buf)@, r),
    {
        match self {
            Packets::Handshaking(p) => p.write_packet(buf, version, compression),
            Packets::Status(p) => p.write_packet(buf, version, compression),
            Packets::Login(p) => p.write_packet(buf, version, compression),
        }
    }
}

/// Whether a string's length prefix at the front of `buf` is not negative
/// (or does not read at all).
fn string_length_readable(buf: &[u8]) -> (r: bool)
    ensures
        r == <String as McEncodable>::decodable(buf@),
{
    match Varint::decode(buf) {
        Ok((len, _)) => len.value() >= 0,
        Err(_) => true,
    }
}

/// Whether decoding the body of a frame with this id is defined.
pub fn check_packet_decodable(state: State, direction: Direction, packet_id: i32, version: i32, buf: &[u8]) -> (r: bool)
    ensures
        r == packet_decodable(state, direction, packet_id, version, buf@),
{
    match state {
        State::Handshaking => {
            if direction == Direction::Serverbound && packet_id == 0 && -1 <= version && version <= 761 {
                match Varint::decode(buf) {
                    Ok((_, n)) => string_length_readable(&buf[n..buf.len()]),
                    Err(_) => true,
                }
            } else {
                true
            }
        },
        State::Status => {
            if direction == Direction::Clientbound && packet_id == 0 && 0 <= version && version <= 761 {
                string_length_readable(buf)
            } else {
                true
            }
        },
        State::Login => {
            if direction == Direction::Serverbound && packet_id == 0 && version == 761 {
                string_length_readable(buf)
            } else {
                true
            }
        },
        State::Play => true,
    }
}

/// Decodes the body of a frame with id `packet_id`, received in `state` going
/// `direction` on a connection of protocol version `version`.
pub fn decode_packet(state: State, direction: Direction, packet_id: i32, version: i32, buf: &[u8]) -> (r: Result<(Packets, usize), CodecError>)
    requires
        state != State::Play,
        packet_decodable(state, direction, packet_id, version, buf@),
    ensures
        match r {
            Ok((p, n)) => decode_result(state, direction, packet_id, version, buf@, Ok((p.deep_view(), n as nat))) && n <= buf@.len(),
            Err(e) => decode_result(state, direction, packet_id, version, buf@, Err(e)),
        },
{
    match state {
        State::Handshaking => match HandshakingPacket::decode_packet(direction, packet_id, version, buf) {
            Ok((p, n)) => Ok((Packets::Handshaking(p), n)),
            Err(e) => Err(e),
        },
        State::Status => match StatusPacket::decode_packet(direction, packet_id, version, buf) {
            Ok((p, n)) => Ok((Packets::Status(p), n)),
            Err(e) => Err(e),
        },
        State::Login => match LoginPacket::decode_packet(direction, packet_id, version, buf) {
            Ok((p, n)) => Ok((Packets::Login(p), n)),
            Err(e) => Err(e),
        },
        State::Play => Err(CodecError::UnknownPacketId(packet_id)),
    }
}

} // verus!
