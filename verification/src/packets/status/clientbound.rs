use vstd::prelude::*;
use crate::error::CodecError;
use crate::traits::{McEncodable, Packet};

verus! {

/// The server's status, as JSON text. Packet 0 in every version.
#[derive(Debug)]
pub struct StatusResponse {
    pub json_response: String,
}

impl DeepView for StatusResponse {
    type V = Seq<char>;

    open spec fn deep_view(&self) -> Seq<char> {
        self.json_response@
    }
}

impl PartialEq for StatusResponse {
    fn eq(&self, other: &Self) -> (r: bool) {
        self.json_response == other.json_response
    }
}

impl Eq for StatusResponse {}

impl vstd::std_specs::cmp::PartialEqSpecImpl for StatusResponse {
    open spec fn obeys_eq_spec() -> bool {
        true
    }

    open spec fn eq_spec(&self, other: &Self) -> bool {
        self.deep_view() == other.deep_view()
    }
}

impl McEncodable for StatusResponse {
    open spec fn decodable(s: Seq<u8>) -> bool {
        <String as McEncodable>::decodable(s)
    }

    open spec fn spec_decode(s: Seq<u8>) -> Result<(Seq<char>, nat), CodecError> {
        <String as McEncodable>::spec_decode(s)
    }

    open spec fn encodable(v: Seq<char>) -> bool {
        <String as McEncodable>::encodable(v)
    }

    open spec fn spec_encode(v: Seq<char>) -> Seq<u8> {
        <String as McEncodable>::spec_encode(v)
    }

    fn decode(buf: &[u8]) -> (r: Result<(Self, usize), CodecError>) {
        match <String as McEncodable>::decode(buf) {
            Err(e) => Err(e),
            Ok((v, n)) => Ok((StatusResponse { json_response: v }, n)),
        }
    }

    fn encode(&self, buf: &mut Vec<u8>) {
        self.json_response.encode(buf);
    }

    proof fn lemma_roundtrip(v: Seq<char>, rest: Seq<u8>) {
        <String as McEncodable>::lemma_roundtrip(v, rest);
    }
}

impl Packet for StatusResponse {
    open spec fn spec_id(version: i32) -> Option<i32> {
        Some(0x00)
    }

    fn id(version: i32) -> (r: Option<i32>) {
        Some(0x00)
    }
}

/// The server's answer to a ping, echoing its payload. Packet 1 in every version.
#[derive(Debug, PartialEq, Eq, Structural)]
pub struct PingResponse {
    pub payload: i64,
}

impl DeepView for PingResponse {
    type V = i64;

    open spec fn deep_view(&self) -> i64 {
        self.payload
    }
}

impl McEncodable for PingResponse {
    open spec fn decodable(s: Seq<u8>) -> bool {
        <i64 as McEncodable>::decodable(s)
    }

    open spec fn spec_decode(s: Seq<u8>) -> Result<(i64, nat), CodecError> {
        <i64 as McEncodable>::spec_decode(s)
    }

    open spec fn encodable(v: i64) -> bool {
        <i64 as McEncodable>::encodable(v)
    }

    open spec fn spec_encode(v: i64) -> Seq<u8> {
        <i64 as McEncodable>::spec_encode(v)
    }

    fn decode(buf: &[u8]) -> (r: Result<(Self, usize), CodecError>) {
        match <i64 as McEncodable>::decode(buf) {
            Err(e) => Err(e),
            Ok((v, n)) => Ok((PingResponse { payload: v }, n)),
        }
    }

    fn encode(&self, buf: &mut Vec<u8>) {
        self.payload.encode(buf);
    }

    proof fn lemma_roundtrip(v: i64, rest: Seq<u8>) {
        <i64 as McEncodable>::lemma_roundtrip(v, rest);
    }
}

impl Packet for PingResponse {
    open spec fn spec_id(version: i32) -> Option<i32> {
        Some(0x01)
    }

    fn id(version: i32) -> (r: Option<i32>) {
        Some(0x01)
    }
}

} // verus!
