//! Booleans: one byte, zero for false.
use vstd::prelude::*;
use crate::error::CodecError;
use crate::traits::McEncodable;

verus! {

/// The byte that stands for `b`.
pub open spec fn bool_byte(b: bool) -> u8 {
    if b { 1 } else { 0 }
}

impl McEncodable for bool {
    open spec fn decodable(s: Seq<u8>) -> bool {
        true
    }

    open spec fn spec_decode(s: Seq<u8>) -> Result<(bool, nat), CodecError> {
        match <u8 as McEncodable>::spec_decode(s) {
            Ok((b, n)) => Ok((b != 0, n)),
            Err(e) => Err(e),
        }
    }

    open spec fn encodable(v: bool) -> bool {
        true
    }

    open spec fn spec_encode(v: bool) -> Seq<u8> {
        <u8 as McEncodable>::spec_encode(bool_byte(v))
    }

    fn decode(buf: &[u8]) -> (r: Result<(Self, usize), CodecError>) {
        match u8::decode(buf) {
            Ok((b, n)) => Ok((b != 0, n)),
            Err(e) => Err(e),
        }
    }

    fn encode(&self, buf: &mut Vec<u8>) {
        let b: u8 = if *self { 1 } else { 0 };
        b.encode(buf);
    }

    proof fn lemma_roundtrip(v: bool, rest: Seq<u8>) {
        <u8 as McEncodable>::lemma_roundtrip(bool_byte(v), rest);
    }
}

} // verus!
