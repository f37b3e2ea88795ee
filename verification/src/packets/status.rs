//! Packets of the status state.
pub mod clientbound;
pub mod serverbound;

use vstd::prelude::*;
use crate::error::CodecError;
use crate::packets::{fits_one, decode_result, model_fits, packet_decodable, write_one, write_result, PacketModel};
use crate::traits::{McEncodable, Packet};
use crate::types::{Compression, Direction, State};
use clientbound::{PingResponse, StatusResponse};
use serverbound::{PingRequest, StatusRequest};

verus! {

/// A status packet, either way.
#[derive(Debug)]
pub enum StatusPacket {
    Clientbound(ClientboundStatusPacket),
    Serverbound(ServerboundStatusPacket),
}

#[derive(Debug)]
pub enum ClientboundStatusPacket {
    StatusResponse(StatusResponse),
    PingResponse(PingResponse),
}

#[derive(Debug)]
pub enum ServerboundStatusPacket {
    StatusRequest(StatusRequest),
    PingRequest(PingRequest),
}

impl DeepView for StatusPacket {
    type V = PacketModel;

    open spec fn deep_view(&self) -> PacketModel {
        match self {
            StatusPacket::Clientbound(ClientboundStatusPacket::StatusResponse(p)) => PacketModel::StatusResponse(p.deep_view()),
            StatusPacket::Clientbound(ClientboundStatusPacket::PingResponse(p)) => PacketModel::PingResponse(p.deep_view()),
            StatusPacket::Serverbound(ServerboundStatusPacket::StatusRequest(_)) => PacketModel::StatusRequest,
            StatusPacket::Serverbound(ServerboundStatusPacket::PingRequest(p)) => PacketModel::PingRequest(p.deep_view()),
        }
    }
}

impl StatusPacket {
    pub(crate) fn fits_frame(&self, version: i32) -> (r: bool)
        ensures
            r == model_fits(self.deep_view(), version),
    {
        let ghost m = self.deep_view();
        match self {
            StatusPacket::Clientbound(ClientboundStatusPacket::StatusResponse(p)) => fits_one(p, version, Ghost(m)),
            StatusPacket::Clientbound(ClientboundStatusPacket::PingResponse(p)) => fits_one(p, version, Ghost(m)),
            StatusPacket::Serverbound(ServerboundStatusPacket::StatusRequest(p)) => fits_one(p, version, Ghost(m)),
            StatusPacket::Serverbound(ServerboundStatusPacket::PingRequest(p)) => fits_one(p, version, Ghost(m)),
        }
    }

    pub(crate) fn write_packet(&self, buf: &mut Vec<u8>, version: i32, compression: Compression) -> (r: Result<(), CodecError>)
        requires
            compression.threshold == -1,
            model_fits(self.deep_view(), version),
        ensures
            write_result(self.deep_view(), version, old(buf)@, final(buf)@, r),
    {
        let ghost m = self.deep_view();
        match self {
            StatusPacket::Clientbound(ClientboundStatusPacket::StatusResponse(p)) => write_one(p, buf, version, compression, Ghost(m)),
            StatusPacket::Clientbound(ClientboundStatusPacket::PingResponse(p)) => write_one(p, buf, version, compression, Ghost(m)),
            StatusPacket::Serverbound(ServerboundStatusPacket::StatusRequest(p)) => write_one(p, buf, version, compression, Ghost(m)),
            StatusPacket::Serverbound(ServerboundStatusPacket::PingRequest(p)) => write_one(p, buf, version, compression, Ghost(m)),
        }
    }

    /// Decodes the body of a status frame with id `packet_id`.
    pub fn decode_packet(direction: Direction, packet_id: i32, version: i32, buf: &[u8]) -> (r: Result<(Self, usize), CodecError>)
        requires
            packet_decodable(State::Status, direction, packet_id, version, buf@),
        ensures
            match r {
                Ok((p, n)) => decode_result(State::Status, direction, packet_id, version, buf@, Ok((p.deep_view(), n as nat))) && n <= buf@.len(),
                Err(e) => decode_result(State::Status, direction, packet_id, version, buf@, Err(e)),
            },
    {
        if packet_id != 0x00 && packet_id != 0x01 {
            return Err(CodecError::UnknownPacketId(packet_id));
        }
        if version < 0 || version > 761 {
            return Err(CodecError::UnknownVersion(version));
        }
        match direction {
            Direction::Clientbound => if packet_id == 0x00 {
                match StatusResponse::read_packet(buf) {
                    Ok((p, n)) => Ok((StatusPacket::Clientbound(ClientboundStatusPacket::StatusResponse(p)), n)),
                    Err(e) => Err(e),
                }
            } else {
                match PingResponse::read_packet(buf) {
                    Ok((p, n)) => Ok((StatusPacket::Clientbound(ClientboundStatusPacket::PingResponse(p)), n)),
                    Err(e) => Err(e),
                }
            },
            Direction::Serverbound => if packet_id == 0x00 {
                match StatusRequest::read_packet(buf) {
                    Ok((p, n)) => Ok((StatusPacket::Serverbound(ServerboundStatusPacket::StatusRequest(p)), n)),
                    Err(e) => Err(e),
                }
            } else {
                match PingRequest::read_packet(buf) {
                    Ok((p, n)) => Ok((StatusPacket::Serverbound(ServerboundStatusPacket::PingRequest(p)), n)),
                    Err(e) => Err(e),
                }
            },
        }
    }
}

} // verus!
