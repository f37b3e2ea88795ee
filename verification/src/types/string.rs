//! Strings: a VarInt byte length, then the UTF-8 bytes.
use vstd::prelude::*;
use vstd::utf8::{decode_utf8, encode_utf8, encode_utf8_decode_utf8, encode_utf8_valid_utf8, valid_utf8};
use vstd::string::StringSliceAdditionalSpecFns;
use crate::error::CodecError;
use crate::traits::McEncodable;
use crate::types::varint::Varint;
use crate::wire::{lemma_varint_roundtrip, push_all, varint_bytes, varint_parse};

verus! {

/// `String::from_utf8`: by its documentation it succeeds exactly on valid
/// UTF-8, and the string's characters are the decoding of the bytes.
#[verifier::external_body]
pub(crate) fn string_from_utf8(bytes: Vec<u8>) -> (r: Option<String>)
    ensures
        r is Some <==> valid_utf8(bytes@),
        r matches Some(s) ==> s@ == decode_utf8(bytes@),
{
    String::from_utf8(bytes).ok()
}

/// Reading a string whose length prefix has been read: `len` bytes of UTF-8
/// from the front of `body`.
pub open spec fn utf8_body(body: Seq<u8>, len: int) -> Result<Seq<char>, CodecError> {
    if body.len() < len {
        Err(CodecError::UnexpectedEof)
    } else if valid_utf8(body.take(len)) {
        Ok(decode_utf8(body.take(len)))
    } else {
        Err(CodecError::InvalidUtf8)
    }
}

impl McEncodable for String {
    /// A negative length prefix would make the reader allocate an impossible buffer.
    open spec fn decodable(s: Seq<u8>) -> bool {
        varint_parse(s) matches Ok((len, _)) ==> len >= 0
    }

    open spec fn spec_decode(s: Seq<u8>) -> Result<(Seq<char>, nat), CodecError> {
        match varint_parse(s) {
            Err(e) => Err(e),
            Ok((len, n)) => match utf8_body(s.skip(n as int), len as int) {
                Ok(chars) => Ok((chars, (n + len) as nat)),
                Err(e) => Err(e),
            },
        }
    }

    open spec fn encodable(v: Seq<char>) -> bool {
        encode_utf8(v).len() <= i32::MAX
    }

    open spec fn spec_encode(v: Seq<char>) -> Seq<u8> {
        varint_bytes(encode_utf8(v).len() as i32) + encode_utf8(v)
    }

    fn decode(buf: &[u8]) -> (r: Result<(Self, usize), CodecError>) {
        let (length, n) = match Varint::decode(buf) {
            Ok(x) => x,
            Err(e) => return Err(e),
        };
        let length = length.value();
        let length = #[verifier::truncate] (length as usize);
        let body = &buf[n..buf.len()];
        if body.len() < length {
            return Err(CodecError::UnexpectedEof);
        }
        let bytes = vstd::slice::slice_to_vec(&body[0..length]);
        assert(bytes@ =~= buf@.skip(n as int).take(length as int));
        match string_from_utf8(bytes) {
            Some(s) => Ok((s, n + length)),
            None => Err(CodecError::InvalidUtf8),
        }
    }

    fn encode(&self, buf: &mut Vec<u8>) {
        let bytes = self.as_str().as_bytes();
        Varint::from(bytes.len() as i32).encode(buf);
        push_all(buf, bytes);
    }

    proof fn lemma_roundtrip(v: Seq<char>, rest: Seq<u8>) {
        let b = encode_utf8(v);
        let len = b.len() as i32;
        lemma_varint_roundtrip(len, b + rest);
        encode_utf8_valid_utf8(v);
        encode_utf8_decode_utf8(v);
        let s = varint_bytes(len) + b + rest;
        assert(s =~= varint_bytes(len) + (b + rest));
        assert(s.skip(varint_bytes(len).len() as int) =~= b + rest);
        assert((b + rest).take(len as int) =~= b);
    }
}

} // verus!
