//! The packet a client opens a connection with.
use vstd::prelude::*;
use crate::error::CodecError;
use crate::traits::{McEncodable, Packet};
use crate::types::Varint;
use crate::wire::{lemma_varint_roundtrip, varint_bytes, varint_parse};

verus! {

/// The state a client asks to move to after the handshake.
#[derive(Debug, Clone, Copy, PartialEq, Eq, Structural)]
pub enum State {
    Status,
    Login,
}

/// The number that stands for a requested state on the wire.
pub open spec fn state_number(s: State) -> i32 {
    match s {
        State::Status => 1,
        State::Login => 2,
    }
}

impl DeepView for State {
    type V = State;

    open spec fn deep_view(&self) -> State {
        *self
    }
}

impl McEncodable for State {
    open spec fn decodable(s: Seq<u8>) -> bool {
        true
    }

    open spec fn spec_decode(s: Seq<u8>) -> Result<(State, nat), CodecError> {
        match varint_parse(s) {
            Err(e) => Err(e),
            Ok((v, n)) => if v == 1 {
                Ok((State::Status, n))
            } else if v == 2 {
                Ok((State::Login, n))
            } else {
                Err(CodecError::InvalidState)
            },
        }
    }

    open spec fn encodable(v: State) -> bool {
        true
    }

    open spec fn spec_encode(v: State) -> Seq<u8> {
        varint_bytes(state_number(v))
    }

    fn decode(buf: &[u8]) -> (r: Result<(Self, usize), CodecError>) {
        match Varint::decode(buf) {
            Err(e) => Err(e),
            Ok((v, n)) => {
                let v = v.value();
                if v == 1 {
                    Ok((State::Status, n))
                } else if v == 2 {
                    Ok((State::Login, n))
                } else {
                    Err(CodecError::InvalidState)
                }
            },
        }
    }

    fn encode(&self, buf: &mut Vec<u8>) {
        match self {
            State::Status => Varint::from(1).encode(buf),
            State::Login => Varint::from(2).encode(buf),
        }
    }

    proof fn lemma_roundtrip(v: State, rest: Seq<u8>) {
        lemma_varint_roundtrip(state_number(v), rest);
    }
}

impl From<State> for crate::types::State {
    fn from(val: State) -> (r: Self)
        ensures
            r == (match val {
                State::Status => crate::types::State::Status,
                State::Login => crate::types::State::Login,
            }),
    {
        match val {
            State::Status => crate::types::State::Status,
            State::Login => crate::types::State::Login,
        }
    }
}

impl vstd::std_specs::convert::FromSpecImpl<State> for crate::types::State {
    open spec fn obeys_from_spec() -> bool {
        true
    }

    open spec fn from_spec(val: State) -> Self {
        match val {
            State::Status => crate::types::State::Status,
            State::Login => crate::types::State::Login,
        }
    }
}

/// The fields of a handshake, in wire order.
pub type HandshakeFields = (Varint, (String, (u16, State)));

/// The first packet of every connection.
#[derive(Debug)]
pub struct Handshake {
    pub protocol_version: Varint,
    pub server_host: String,
    pub server_port: u16,
    pub next_state: State,
}

impl DeepView for Handshake {
    type V = (i32, (Seq<char>, (u16, State)));

    open spec fn deep_view(&self) -> Self::V {
        (self.protocol_version.deep_view(), (self.server_host@, (self.server_port, self.next_state)))
    }
}

impl PartialEq for Handshake {
    fn eq(&self, other: &Self) -> (r: bool) {
        self.protocol_version.value() == other.protocol_version.value() && self.server_host == other.server_host
            && self.server_port == other.server_port && self.next_state == other.next_state
    }
}

impl Eq for Handshake {}

impl vstd::std_specs::cmp::PartialEqSpecImpl for Handshake {
    open spec fn obeys_eq_spec() -> bool {
        true
    }

    open spec fn eq_spec(&self, other: &Self) -> bool {
        self.deep_view() == other.deep_view()
    }
}

impl McEncodable for Handshake {
    open spec fn decodable(s: Seq<u8>) -> bool {
        <HandshakeFields as McEncodable>::decodable(s)
    }

    open spec fn spec_decode(s: Seq<u8>) -> Result<(Self::V, nat), CodecError> {
        <HandshakeFields as McEncodable>::spec_decode(s)
    }

    open spec fn encodable(v: Self::V) -> bool {
        <HandshakeFields as McEncodable>::encodable(v)
    }

    open spec fn spec_encode(v: Self::V) -> Seq<u8> {
        <HandshakeFields as McEncodable>::spec_encode(v)
    }

    fn decode(buf: &[u8]) -> (r: Result<(Self, usize), CodecError>) {
        match <HandshakeFields as McEncodable>::decode(buf) {
            Err(e) => Err(e),
            Ok(((protocol_version, (server_host, (server_port, next_state))), n)) => Ok((
                Handshake { protocol_version, server_host, server_port, next_state },
                n,
            )),
        }
    }

    fn encode(&self, buf: &mut Vec<u8>) {
        self.protocol_version.encode(buf);
        self.server_host.encode(buf);
        self.server_port.encode(buf);
        self.next_state.encode(buf);
        assert(buf@ =~= old(buf)@ + Self::spec_encode(self.deep_view()));
    }

    proof fn lemma_roundtrip(v: Self::V, rest: Seq<u8>) {
        <HandshakeFields as McEncodable>::lemma_roundtrip(v, rest);
    }
}

impl Packet for Handshake {
    /// The handshake is packet 0 in every version, and in the unknown version `-1`.
    open spec fn spec_id(version: i32) -> Option<i32> {
        if -1 <= version <= 761 { Some(0x00) } else { None }
    }

    fn id(version: i32) -> (r: Option<i32>) {
        if -1 <= version && version <= 761 { Some(0x00) } else { None }
    }
}

/// The handshake's fields as the protocol data describes them.
pub struct PacketSetProtocol {
    pub protocol_version: Varint,
    pub server_host: String,
    pub server_port: u16,
    pub next_state: Varint,
}

} // verus!
