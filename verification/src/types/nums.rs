//! Fixed-size numbers, sent big-endian.
use vstd::prelude::*;
use crate::error::CodecError;
use crate::traits::McEncodable;
use crate::wire::{
    be_bytes, be_parse, lemma_be_parse_roundtrip, lemma_pow256_values, lemma_signed_unsigned,
    read_be, to_signed, to_unsigned, write_be,
};

verus! {

impl McEncodable for i8 {
    open spec fn decodable(s: Seq<u8>) -> bool {
        true
    }

    open spec fn spec_decode(s: Seq<u8>) -> Result<(i8, nat), CodecError> {
        match be_parse(s, 1) {
            Ok((u, n)) => Ok((to_signed(u, 1) as i8, n)),
            Err(e) => Err(e),
        }
    }

    open spec fn encodable(v: i8) -> bool {
        true
    }

    open spec fn spec_encode(v: i8) -> Seq<u8> {
        be_bytes(to_unsigned(v as int, 1), 1)
    }

    fn decode(buf: &[u8]) -> (r: Result<(Self, usize), CodecError>) {
        if buf.len() < 1 {
            return Err(CodecError::UnexpectedEof);
        }
        let u = read_be(buf, 1);
        proof { lemma_pow256_values(); }
        let v: i8 = if u < 0x80 { u as i8 } else { (u as i16 - 0x100) as i8 };
        Ok((v, 1))
    }

    fn encode(&self, buf: &mut Vec<u8>) {
        proof { lemma_pow256_values(); }
        let u: u128 = if *self < 0 { (*self as i16 + 0x100) as u128 } else { *self as u128 };
        write_be(u, 1, buf);
    }

    proof fn lemma_roundtrip(v: i8, rest: Seq<u8>) {
        lemma_pow256_values();
        lemma_signed_unsigned(v as int, 1);
        lemma_be_parse_roundtrip(to_unsigned(v as int, 1), 1, rest);
    }
}

impl McEncodable for i16 {
    open spec fn decodable(s: Seq<u8>) -> bool {
        true
    }

    open spec fn spec_decode(s: Seq<u8>) -> Result<(i16, nat), CodecError> {
        match be_parse(s, 2) {
            Ok((u, n)) => Ok((to_signed(u, 2) as i16, n)),
            Err(e) => Err(e),
        }
    }

    open spec fn encodable(v: i16) -> bool {
        true
    }

    open spec fn spec_encode(v: i16) -> Seq<u8> {
        be_bytes(to_unsigned(v as int, 2), 2)
    }

    fn decode(buf: &[u8]) -> (r: Result<(Self, usize), CodecError>) {
        if buf.len() < 2 {
            return Err(CodecError::UnexpectedEof);
        }
        let u = read_be(buf, 2);
        proof { lemma_pow256_values(); }
        let v: i16 = if u < 0x8000 { u as i16 } else { (u as i32 - 0x1_0000) as i16 };
        Ok((v, 2))
    }

    fn encode(&self, buf: &mut Vec<u8>) {
        proof { lemma_pow256_values(); }
        let u: u128 = if *self < 0 { (*self as i32 + 0x1_0000) as u128 } else { *self as u128 };
        write_be(u, 2, buf);
    }

    proof fn lemma_roundtrip(v: i16, rest: Seq<u8>) {
        lemma_pow256_values();
        lemma_signed_unsigned(v as int, 2);
        lemma_be_parse_roundtrip(to_unsigned(v as int, 2), 2, rest);
    }
}

impl McEncodable for i32 {
    open spec fn decodable(s: Seq<u8>) -> bool {
        true
    }

    open spec fn spec_decode(s: Seq<u8>) -> Result<(i32, nat), CodecError> {
        match be_parse(s, 4) {
            Ok((u, n)) => Ok((to_signed(u, 4) as i32, n)),
            Err(e) => Err(e),
        }
    }

    open spec fn encodable(v: i32) -> bool {
        true
    }

    open spec fn spec_encode(v: i32) -> Seq<u8> {
        be_bytes(to_unsigned(v as int, 4), 4)
    }

    fn decode(buf: &[u8]) -> (r: Result<(Self, usize), CodecError>) {
        if buf.len() < 4 {
            return Err(CodecError::UnexpectedEof);
        }
        let u = read_be(buf, 4);
        proof { lemma_pow256_values(); }
        let v: i32 = if u < 0x8000_0000 { u as i32 } else { (u as i64 - 0x1_0000_0000) as i32 };
        Ok((v, 4))
    }

    fn encode(&self, buf: &mut Vec<u8>) {
        proof { lemma_pow256_values(); }
        let u: u128 = if *self < 0 { (*self as i64 + 0x1_0000_0000) as u128 } else { *self as u128 };
        write_be(u, 4, buf);
    }

    proof fn lemma_roundtrip(v: i32, rest: Seq<u8>) {
        lemma_pow256_values();
        lemma_signed_unsigned(v as int, 4);
        lemma_be_parse_roundtrip(to_unsigned(v as int, 4), 4, rest);
    }
}

impl McEncodable for i64 {
    open spec fn decodable(s: Seq<u8>) -> bool {
        true
    }

    open spec fn spec_decode(s: Seq<u8>) -> Result<(i64, nat), CodecError> {
        match be_parse(s, 8) {
            Ok((u, n)) => Ok((to_signed(u, 8) as i64, n)),
            Err(e) => Err(e),
        }
    }

    open spec fn encodable(v: i64) -> bool {
        true
    }

    open spec fn spec_encode(v: i64) -> Seq<u8> {
        be_bytes(to_unsigned(v as int, 8), 8)
    }

    fn decode(buf: &[u8]) -> (r: Result<(Self, usize), CodecError>) {
        if buf.len() < 8 {
            return Err(CodecError::UnexpectedEof);
        }
        let u = read_be(buf, 8);
        proof { lemma_pow256_values(); }
        let v: i64 = if u < 0x8000_0000_0000_0000 { u as i64 } else { (u as i128 - 0x1_0000_0000_0000_0000) as i64 };
        Ok((v, 8))
    }

    fn encode(&self, buf: &mut Vec<u8>) {
        proof { lemma_pow256_values(); }
        let u: u128 = if *self < 0 { (*self as i128 + 0x1_0000_0000_0000_0000) as u128 } else { *self as u128 };
        write_be(u, 8, buf);
    }

    proof fn lemma_roundtrip(v: i64, rest: Seq<u8>) {
        lemma_pow256_values();
        lemma_signed_unsigned(v as int, 8);
        lemma_be_parse_roundtrip(to_unsigned(v as int, 8), 8, rest);
    }
}

impl McEncodable for u8 {
    open spec fn decodable(s: Seq<u8>) -> bool {
        true
    }

    open spec fn spec_decode(s: Seq<u8>) -> Result<(u8, nat), CodecError> {
        match be_parse(s, 1) {
            Ok((u, n)) => Ok((u as u8, n)),
            Err(e) => Err(e),
        }
    }

    open spec fn encodable(v: u8) -> bool {
        true
    }

    open spec fn spec_encode(v: u8) -> Seq<u8> {
        be_bytes(v as nat, 1)
    }

    fn decode(buf: &[u8]) -> (r: Result<(Self, usize), CodecError>) {
        if buf.len() < 1 {
            return Err(CodecError::UnexpectedEof);
        }
        let u = read_be(buf, 1);
        proof { lemma_pow256_values(); }
        Ok((u as u8, 1))
    }

    fn encode(&self, buf: &mut Vec<u8>) {
        write_be(*self as u128, 1, buf);
    }

    proof fn lemma_roundtrip(v: u8, rest: Seq<u8>) {
        lemma_pow256_values();
        lemma_be_parse_roundtrip(v as nat, 1, rest);
    }
}

impl McEncodable for u16 {
    open spec fn decodable(s: Seq<u8>) -> bool {
        true
    }

    open spec fn spec_decode(s: Seq<u8>) -> Result<(u16, nat), CodecError> {
        match be_parse(s, 2) {
            Ok((u, n)) => Ok((u as u16, n)),
            Err(e) => Err(e),
        }
    }

    open spec fn encodable(v: u16) -> bool {
        true
    }

    open spec fn spec_encode(v: u16) -> Seq<u8> {
        be_bytes(v as nat, 2)
    }

    fn decode(buf: &[u8]) -> (r: Result<(Self, usize), CodecError>) {
        if buf.len() < 2 {
            return Err(CodecError::UnexpectedEof);
        }
        let u = read_be(buf, 2);
        proof { lemma_pow256_values(); }
        Ok((u as u16, 2))
    }

    fn encode(&self, buf: &mut Vec<u8>) {
        write_be(*self as u128, 2, buf);
    }

    proof fn lemma_roundtrip(v: u16, rest: Seq<u8>) {
        lemma_pow256_values();
        lemma_be_parse_roundtrip(v as nat, 2, rest);
    }
}

impl McEncodable for u128 {
    open spec fn decodable(s: Seq<u8>) -> bool {
        true
    }

    open spec fn spec_decode(s: Seq<u8>) -> Result<(u128, nat), CodecError> {
        match be_parse(s, 16) {
            Ok((u, n)) => Ok((u as u128, n)),
            Err(e) => Err(e),
        }
    }

    open spec fn encodable(v: u128) -> bool {
        true
    }

    open spec fn spec_encode(v: u128) -> Seq<u8> {
        be_bytes(v as nat, 16)
    }

    fn decode(buf: &[u8]) -> (r: Result<(Self, usize), CodecError>) {
        if buf.len() < 16 {
            return Err(CodecError::UnexpectedEof);
        }
        let u = read_be(buf, 16);
        proof { lemma_pow256_values(); }
        Ok((u as u128, 16))
    }

    fn encode(&self, buf: &mut Vec<u8>) {
        write_be(*self as u128, 16, buf);
    }

    proof fn lemma_roundtrip(v: u128, rest: Seq<u8>) {
        lemma_pow256_values();
        lemma_be_parse_roundtrip(v as nat, 16, rest);
    }
}

} // verus!
