use vstd::prelude::*;
use crate::error::CodecError;
use crate::traits::{McEncodable, Packet};

verus! {

/// A client's request for the server's status. Packet 0 in every version.
#[derive(Debug, PartialEq, Eq, Structural)]
pub struct StatusRequest {
}

impl DeepView for StatusRequest {
    type V = ();

    open spec fn deep_view(&self) -> () {
        ()
    }
}

impl McEncodable for StatusRequest {
    open spec fn decodable(s: Seq<u8>) -> bool {
        <() as McEncodable>::decodable(s)
    }

    open spec fn spec_decode(s: Seq<u8>) -> Result<((), nat), CodecError> {
        <() as McEncodable>::spec_decode(s)
    }

    open spec fn encodable(v: ()) -> bool {
        <() as McEncodable>::encodable(v)
    }

    open spec fn spec_encode(v: ()) -> Seq<u8> {
        <() as McEncodable>::spec_encode(v)
    }

    fn decode(buf: &[u8]) -> (r: Result<(Self, usize), CodecError>) {
        match <() as McEncodable>::decode(buf) {
            Err(e) => Err(e),
            Ok((v, n)) => Ok((StatusRequest {}, n)),
        }
    }

    fn encode(&self, buf: &mut Vec<u8>) {
        ().encode(buf);
    }

    proof fn lemma_roundtrip(v: (), rest: Seq<u8>) {
        <() as McEncodable>::lemma_roundtrip(v, rest);
    }
}

impl Packet for StatusRequest {
    open spec fn spec_id(version: i32) -> Option<i32> {
        Some(0x00)
    }

    fn id(version: i32) -> (r: Option<i32>) {
        Some(0x00)
    }
}

/// A client's ping with a payload to echo. Packet 1 in every version.
#[derive(Debug, PartialEq, Eq, Structural)]
pub struct PingRequest {
    pub payload: i64,
}

impl DeepView for PingRequest {
    type V = i64;

    open spec fn deep_view(&self) -> i64 {
        self.payload
    }
}

impl McEncodable for PingRequest {
    open spec fn decodable(s: Seq<u8>) -> bool {
        <i64 as McEncodable>::decodable(s)
    }

    open spec fn spec_decode(s: Seq<u8>) -> Result<(i64, nat), CodecError> {
        <i64 as McEncodable>::spec_decode(s)
    }

    open spec fn encodable(v: i64) -> bool {
        <i64 as McEncodable>::encodable(v)
    }

    open spec fn spec_encode(v: i64) -> Seq<u8> {
        <i64 as McEncodable>::spec_encode(v)
    }

    fn decode(buf: &[u8]) -> (r: Result<(Self, usize), CodecError>) {
        match <i64 as McEncodable>::decode(buf) {
            Err(e) => Err(e),
            Ok((v, n)) => Ok((PingRequest { payload: v }, n)),
        }
    }

    fn encode(&self, buf: &mut Vec<u8>) {
        self.payload.encode(buf);
    }

    proof fn lemma_roundtrip(v: i64, rest: Seq<u8>) {
        <i64 as McEncodable>::lemma_roundtrip(v, rest);
    }
}

impl Packet for PingRequest {
    open spec fn spec_id(version: i32) -> Option<i32> {
        Some(0x01)
    }

    fn id(version: i32) -> (r: Option<i32>) {
        Some(0x01)
    }
}

} // verus!
