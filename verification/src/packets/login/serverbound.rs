use vstd::prelude::*;
use crate::error::CodecError;
use crate::traits::{McEncodable, Packet};
use crate::types::Uuid;

verus! {

/// The fields of a login start, in wire order.
pub type LoginStartFields = (String, Option<Uuid>);

/// A client's first login packet: its name and, optionally, its UUID.
/// Packet 0, known for protocol version 761 only.
#[derive(Debug)]
pub struct LoginStart {
    pub username: String,
    pub uuid: Option<Uuid>,
}

impl DeepView for LoginStart {
    type V = (Seq<char>, Option<u128>);

    open spec fn deep_view(&self) -> Self::V {
        (self.username@, self.uuid.deep_view())
    }
}

impl PartialEq for LoginStart {
    fn eq(&self, other: &Self) -> (r: bool) {
        let same_uuid = match (&self.uuid, &other.uuid) {
            (Some(a), Some(b)) => a.contents() == b.contents(),
            (None, None) => true,
            _ => false,
        };
        self.username == other.username && same_uuid
    }
}

impl Eq for LoginStart {}

impl vstd::std_specs::cmp::PartialEqSpecImpl for LoginStart {
    open spec fn obeys_eq_spec() -> bool {
        true
    }

    open spec fn eq_spec(&self, other: &Self) -> bool {
        self.deep_view() == other.deep_view()
    }
}

impl McEncodable for LoginStart {
    open spec fn decodable(s: Seq<u8>) -> bool {
        <LoginStartFields as McEncodable>::decodable(s)
    }

    open spec fn spec_decode(s: Seq<u8>) -> Result<(Self::V, nat), CodecError> {
        <LoginStartFields as McEncodable>::spec_decode(s)
    }

    open spec fn encodable(v: Self::V) -> bool {
        <LoginStartFields as McEncodable>::encodable(v)
    }

    open spec fn spec_encode(v: Self::V) -> Seq<u8> {
        <LoginStartFields as McEncodable>::spec_encode(v)
    }

    fn decode(buf: &[u8]) -> (r: Result<(Self, usize), CodecError>) {
        match <LoginStartFields as McEncodable>::decode(buf) {
            Err(e) => Err(e),
            Ok(((username, uuid), n)) => Ok((LoginStart { username, uuid }, n)),
        }
    }

    fn encode(&self, buf: &mut Vec<u8>) {
        self.username.encode(buf);
        self.uuid.encode(buf);
        assert(buf@ =~= old(buf)@ + Self::spec_encode(self.deep_view()));
    }

    proof fn lemma_roundtrip(v: Self::V, rest: Seq<u8>) {
        <LoginStartFields as McEncodable>::lemma_roundtrip(v, rest);
    }
}

impl Packet for LoginStart {
    open spec fn spec_id(version: i32) -> Option<i32> {
        if version == 761 { Some(0x00) } else { None }
    }

    fn id(version: i32) -> (r: Option<i32>) {
        if version == 761 { Some(0x00) } else { None }
    }
}

} // verus!
