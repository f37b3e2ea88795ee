//! Packets of the handshaking state.
pub mod serverbound;

use vstd::prelude::*;
use crate::error::CodecError;
use crate::packets::{fits_one, decode_result, model_fits, packet_decodable, write_one, write_result, PacketModel};
use crate::traits::{McEncodable, Packet};
use crate::types::{Compression, Direction, State};
use serverbound::Handshake;

verus! {

/// A handshaking packet. The server sends nothing in this state, so every
/// handshaking packet is serverbound.
#[derive(Debug)]
pub enum HandshakingPacket {
    Serverbound(ServerboundHandshakingPacket),
}

#[derive(Debug)]
pub enum ServerboundHandshakingPacket {
    Handshake(Handshake),
}

impl DeepView for HandshakingPacket {
    type V = PacketModel;

    open spec fn deep_view(&self) -> PacketModel {
        match self {
            HandshakingPacket::Serverbound(ServerboundHandshakingPacket::Handshake(p)) => PacketModel::Handshake(p.deep_view()),
        }
    }
}

impl HandshakingPacket {
    pub(crate) fn fits_frame(&self, version: i32) -> (r: bool)
        ensures
            r == model_fits(self.deep_view(), version),
    {
        let ghost m = self.deep_view();
        match self {
            HandshakingPacket::Serverbound(ServerboundHandshakingPacket::Handshake(p)) => fits_one(p, version, Ghost(m)),
        }
    }

    pub(crate) fn write_packet(&self, buf: &mut Vec<u8>, version: i32, compression: Compression) -> (r: Result<(), CodecError>)
        requires
            compression.threshold == -1,
            model_fits(self.deep_view(), version),
        ensures
            write_result(self.deep_view(), version, old(buf)@, final(buf)@, r),
    {
        let ghost m = self.deep_view();
        match self {
            HandshakingPacket::Serverbound(ServerboundHandshakingPacket::Handshake(p)) => write_one(p, buf, version, compression, Ghost(m)),
        }
    }

    /// Decodes the body of a handshaking frame with id `packet_id`.
    pub fn decode_packet(direction: Direction, packet_id: i32, version: i32, buf: &[u8]) -> (r: Result<(Self, usize), CodecError>)
        requires
            packet_decodable(State::Handshaking, direction, packet_id, version, buf@),
        ensures
            match r {
                Ok((p, n)) => decode_result(State::Handshaking, direction, packet_id, version, buf@, Ok((p.deep_view(), n as nat))) && n <= buf@.len(),
                Err(e) => decode_result(State::Handshaking, direction, packet_id, version, buf@, Err(e)),
            },
    {
        match direction {
            Direction::Clientbound => Err(CodecError::UnknownPacketId(packet_id)),
            Direction::Serverbound => if packet_id == 0x00 {
                if -1 <= version && version <= 761 {
                    match Handshake::read_packet(buf) {
                        Ok((p, n)) => Ok((HandshakingPacket::Serverbound(ServerboundHandshakingPacket::Handshake(p)), n)),
                        Err(e) => Err(e),
                    }
                } else {
                    Err(CodecError::UnknownVersion(version))
                }
            } else {
                Err(CodecError::UnknownPacketId(packet_id))
            },
        }
    }
}

} // verus!
