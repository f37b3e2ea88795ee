//! A packet under construction or being read: a byte buffer of the `bytes`
//! crate and, once known, the packet's id.
use vstd::prelude::*;
use vstd::utf8::{decode_utf8, encode_utf8, valid_utf8};
use vstd::string::StringSliceAdditionalSpecFns;
use bytes::{Bytes, BytesMut};
use crate::buffer::{
    bm_as_slice, bm_freeze, bm_get_i16, bm_get_i32, bm_get_i64, bm_get_i8, bm_get_u16, bm_get_u8,
    bm_new, bm_put, bm_put_bytes, bm_put_i16, bm_put_i32, bm_put_i64, bm_put_i8, bm_put_u16, bm_put_u8,
    bm_remaining, bm_split, bm_with_capacity, bytes_contents, bytes_mut_contents,
};
use crate::error::CodecError;
use crate::proxy::get_varint_size;
use crate::traits::{frame_bytes, frame_fits};
use crate::types::string_from_utf8;
use crate::wire::{
    be_bytes, be_value, bits_of_i32, lemma_be_value_single, bits_of_i64, group_bytes, groups_consumed, lemma_group_len,
    lemma_parse_groups_bound, lemma_pow128_values, lemma_pow256_values, parse_groups, pow128,
    to_signed, to_unsigned, unsigned32, unsigned64, varint_bytes, varint_parse, varint_size_spec,
    varlong_bytes, varlong_parse, wrap_to_i32, wrap_to_i64,
};

verus! {

/// Reading an `n`-byte big-endian number from the front of `s`.
pub open spec fn fixed_read(s: Seq<u8>, n: nat) -> Result<nat, CodecError> {
    if s.len() < n { Err(CodecError::UnexpectedEof) } else { Ok(be_value(s.take(n as int))) }
}

/// What is left of `s` after trying to read `n` bytes: nothing is taken when too few remain.
pub open spec fn after_fixed_read(s: Seq<u8>, n: nat) -> Seq<u8> {
    if s.len() < n { s } else { s.skip(n as int) }
}

/// Reading a string whose length prefix reads as `len` from what follows it:
/// the string's characters, or why it does not read.
pub open spec fn string_body(rest: Seq<u8>, len: i32) -> Result<Seq<char>, CodecError> {
    let length = (len as usize) as int;
    if rest.len() < length {
        Err(CodecError::UnexpectedEof)
    } else if valid_utf8(rest.take(length)) {
        Ok(decode_utf8(rest.take(length)))
    } else {
        Err(CodecError::InvalidUtf8)
    }
}

/// Reading a string from the front of `s`.
pub open spec fn string_read(s: Seq<u8>) -> Result<Seq<char>, CodecError> {
    match varint_parse(s) {
        Err(e) => Err(e),
        Ok((len, n)) => string_body(s.skip(n as int), len),
    }
}

/// What a string read leaves: only its length prefix is taken off.
pub open spec fn after_string_read(s: Seq<u8>) -> Seq<u8> {
    s.skip(groups_consumed(s, 5) as int)
}

/// The bytes written for a string: its UTF-8 length, then its UTF-8 bytes.
pub open spec fn string_bytes(chars: Seq<char>) -> Seq<u8> {
    varint_bytes(encode_utf8(chars).len() as i32) + encode_utf8(chars)
}

/// Readers and writers of the protocol's basic values over a byte buffer.
/// A read takes its bytes off the front; a write appends at the end.
pub trait PacketReaderWriter {
    /// The bytes not yet read.
    spec fn rw_contents(&self) -> Seq<u8>;

    fn read_boolean(&mut self) -> (r: Result<bool, CodecError>)
        ensures
            match fixed_read(old(self).rw_contents(), 1) {
                Ok(u) => r == Ok::<bool, CodecError>(u != 0),
                Err(e) => r == Err::<bool, CodecError>(e),
            },
            final(self).rw_contents() == after_fixed_read(old(self).rw_contents(), 1),
    ;

    fn write_boolean(&mut self, value: bool)
        requires
            old(self).rw_contents().len() + 1 <= isize::MAX,
        ensures
            final(self).rw_contents() == old(self).rw_contents().push(if value { 1u8 } else { 0u8 }),
    ;

    fn read_byte(&mut self) -> (r: Result<i8, CodecError>)
        ensures
            match fixed_read(old(self).rw_contents(), 1) {
                Ok(u) => r == Ok::<i8, CodecError>(to_signed(u, 1) as i8),
                Err(e) => r == Err::<i8, CodecError>(e),
            },
            final(self).rw_contents() == after_fixed_read(old(self).rw_contents(), 1),
    ;

    fn write_byte(&mut self, value: i8)
        requires
            old(self).rw_contents().len() + 1 <= isize::MAX,
        ensures
            final(self).rw_contents() == old(self).rw_contents() + be_bytes(to_unsigned(value as int, 1), 1),
    ;

    fn read_unsigned_byte(&mut self) -> (r: Result<u8, CodecError>)
        ensures
            match fixed_read(old(self).rw_contents(), 1) {
                Ok(u) => r == Ok::<u8, CodecError>(u as u8),
                Err(e) => r == Err::<u8, CodecError>(e),
            },
            final(self).rw_contents() == after_fixed_read(old(self).rw_contents(), 1),
    ;

    fn write_unsigned_byte(&mut self, value: u8)
        requires
            old(self).rw_contents().len() + 1 <= isize::MAX,
        ensures
            final(self).rw_contents() == old(self).rw_contents().push(value),
    ;

    fn read_short(&mut self) -> (r: Result<i16, CodecError>)
        ensures
            match fixed_read(old(self).rw_contents(), 2) {
                Ok(u) => r == Ok::<i16, CodecError>(to_signed(u, 2) as i16),
                Err(e) => r == Err::<i16, CodecError>(e),
            },
            final(self).rw_contents() == after_fixed_read(old(self).rw_contents(), 2),
    ;

    fn write_short(&mut self, value: i16)
        requires
            old(self).rw_contents().len() + 2 <= isize::MAX,
        ensures
            final(self).rw_contents() == old(self).rw_contents() + be_bytes(to_unsigned(value as int, 2), 2),
    ;

    fn read_unsigned_short(&mut self) -> (r: Result<u16, CodecError>)
        ensures
            match fixed_read(old(self).rw_contents(), 2) {
                Ok(u) => r == Ok::<u16, CodecError>(u as u16),
                Err(e) => r == Err::<u16, CodecError>(e),
            },
            final(self).rw_contents() == after_fixed_read(old(self).rw_contents(), 2),
    ;

    fn write_unsigned_short(&mut self, value: u16)
        requires
            old(self).rw_contents().len() + 2 <= isize::MAX,
        ensures
            final(self).rw_contents() == old(self).rw_contents() + be_bytes(value as nat, 2),
    ;

    fn read_int(&mut self) -> (r: Result<i32, CodecError>)
        ensures
            match fixed_read(old(self).rw_contents(), 4) {
                Ok(u) => r == Ok::<i32, CodecError>(to_signed(u, 4) as i32),
                Err(e) => r == Err::<i32, CodecError>(e),
            },
            final(self).rw_contents() == after_fixed_read(old(self).rw_contents(), 4),
    ;

    fn write_int(&mut self, value: i32)
        requires
            old(self).rw_contents().len() + 4 <= isize::MAX,
        ensures
            final(self).rw_contents() == old(self).rw_contents() + be_bytes(to_unsigned(value as int, 4), 4),
    ;

    fn read_long(&mut self) -> (r: Result<i64, CodecError>)
        ensures
            match fixed_read(old(self).rw_contents(), 8) {
                Ok(u) => r == Ok::<i64, CodecError>(to_signed(u, 8) as i64),
                Err(e) => r == Err::<i64, CodecError>(e),
            },
            final(self).rw_contents() == after_fixed_read(old(self).rw_contents(), 8),
    ;

    fn write_long(&mut self, value: i64)
        requires
            old(self).rw_contents().len() + 8 <= isize::MAX,
        ensures
            final(self).rw_contents() == old(self).rw_contents() + be_bytes(to_unsigned(value as int, 8), 8),
    ;

    /// Reads a length-prefixed UTF-8 string. Only the length prefix is taken
    /// off the buffer; the string's own bytes stay in it.
    fn read_string(&mut self) -> (r: Result<String, CodecError>)
        ensures
            match string_read(old(self).rw_contents()) {
                Ok(chars) => r matches Ok(s) && s@ == chars,
                Err(e) => r == Err::<String, CodecError>(e),
            },
            final(self).rw_contents() == after_string_read(old(self).rw_contents()),
    ;

    fn write_string(&mut self, value: String)
        requires
            old(self).rw_contents().len() + 5 + encode_utf8(value@).len() <= isize::MAX,
        ensures
            final(self).rw_contents() == old(self).rw_contents() + string_bytes(value@),
    ;

    fn read_varint(&mut self) -> (r: Result<i32, CodecError>)
        ensures
            match varint_parse(old(self).rw_contents()) {
                Ok((v, _)) => r == Ok::<i32, CodecError>(v),
                Err(e) => r == Err::<i32, CodecError>(e),
            },
            final(self).rw_contents() == old(self).rw_contents().skip(groups_consumed(old(self).rw_contents(), 5) as int),
    ;

    fn write_varint(&mut self, value: i32)
        requires
            old(self).rw_contents().len() + 5 <= isize::MAX,
        ensures
            final(self).rw_contents() == old(self).rw_contents() + varint_bytes(value),
    ;

    fn read_varlong(&mut self) -> (r: Result<i64, CodecError>)
        ensures
            match varlong_parse(old(self).rw_contents()) {
                Ok((v, _)) => r == Ok::<i64, CodecError>(v),
                Err(e) => r == Err::<i64, CodecError>(e),
            },
            final(self).rw_contents() == old(self).rw_contents().skip(groups_consumed(old(self).rw_contents(), 10) as int),
    ;

    fn write_varlong(&mut self, value: i64)
        requires
            old(self).rw_contents().len() + 10 <= isize::MAX,
        ensures
            final(self).rw_contents() == old(self).rw_contents() + varlong_bytes(value),
    ;
}

/// Reads at most `max` groups off the front of `b`, one byte at a time.
fn read_groups_from(b: &mut BytesMut, max: usize, too_long: CodecError) -> (r: Result<u128, CodecError>)
    requires
        max <= 10,
    ensures
        match parse_groups(bytes_mut_contents(*old(b)), max as nat, too_long) {
            Ok((v, _)) => r == Ok::<u128, CodecError>(v as u128),
            Err(e) => r == Err::<u128, CodecError>(e),
        },
        bytes_mut_contents(*final(b)) == bytes_mut_contents(*old(b)).skip(groups_consumed(bytes_mut_contents(*old(b)), max as nat) as int),
    decreases max,
{
    let ghost s = bytes_mut_contents(*b);
    let byte = match b.read_unsigned_byte() {
        Ok(byte) => byte,
        Err(e) => {
            assert(s.skip(0) =~= s);
            return Err(e);
        },
    };
    assert(byte == s[0]) by {
        lemma_be_value_single(s.take(1));
    }
    if max == 0 {
        return Err(too_long);
    }
    if byte < 128 {
        return Ok(byte as u128);
    }
    let ghost rest = bytes_mut_contents(*b);
    assert(rest =~= s.drop_first());
    assert(groups_consumed(s, max as nat) == 1 + groups_consumed(rest, (max - 1) as nat));
    match read_groups_from(b, max - 1, too_long) {
        Ok(v) => {
            proof {
                lemma_parse_groups_bound(rest, (max - 1) as nat, too_long);
                lemma_pow128_values();
                crate::wire::lemma_pow128_mono(groups_consumed(rest, (max - 1) as nat), 9);
                assert(pow128(9) == 0x8000_0000_0000_0000) by { reveal_with_fuel(pow128, 10); }
                let k = groups_consumed(rest, (max - 1) as nat);
                assert(k <= rest.len());
                assert(rest.skip(k as int) =~= s.skip(k as int + 1));
            }
            Ok((byte - 128) as u128 + 128 * v)
        },
        Err(e) => {
            proof {
                lemma_parse_groups_bound(rest, (max - 1) as nat, too_long);
                let k = groups_consumed(rest, (max - 1) as nat);
                assert(rest.skip(k as int) =~= s.skip(k as int + 1));
            }
            Err(e)
        },
    }
}

/// Appends the groups of `u` to `b`, one byte at a time.
fn write_groups_to(b: &mut BytesMut, u: u128)
    requires
        bytes_mut_contents(*old(b)).len() + group_bytes(u as nat).len() <= isize::MAX,
    ensures
        bytes_mut_contents(*final(b)) == bytes_mut_contents(*old(b)) + group_bytes(u as nat),
    decreases u,
{
    if u < 128 {
        b.write_unsigned_byte(u as u8);
        assert(group_bytes(u as nat) =~= seq![u as u8]);
    } else {
        assert(group_bytes(u as nat) =~= seq![((u % 128) + 128) as u8] + group_bytes((u / 128) as nat));
        b.write_unsigned_byte((u % 128 + 128) as u8);
        write_groups_to(b, u / 128);
    }
}

impl PacketReaderWriter for BytesMut {
    open spec fn rw_contents(&self) -> Seq<u8> {
        bytes_mut_contents(*self)
    }

    fn read_boolean(&mut self) -> (r: Result<bool, CodecError>) {
        proof {
            let s = bytes_mut_contents(*self);
            lemma_pow256_values();
            if s.len() >= 1 {
                lemma_be_value_single(s.take(1));
            }
        }
        match self.read_byte() {
            Ok(b) => Ok(b != 0),
            Err(e) => Err(e),
        }
    }

    fn write_boolean(&mut self, value: bool) {
        self.write_byte(if value { 1 } else { 0 });
        proof {
            lemma_pow256_values();
            reveal_with_fuel(be_bytes, 2);
        }
        assert(be_bytes(to_unsigned((if value { 1i8 } else { 0i8 }) as int, 1), 1) =~= seq![if value { 1u8 } else { 0u8 }]);
    }

    fn read_byte(&mut self) -> (r: Result<i8, CodecError>) {
        if bm_remaining(self) < 1 {
            return Err(CodecError::UnexpectedEof);
        }
        Ok(bm_get_i8(self))
    }

    fn write_byte(&mut self, value: i8) {
        bm_put_i8(self, value);
    }

    fn read_unsigned_byte(&mut self) -> (r: Result<u8, CodecError>) {
        if bm_remaining(self) < 1 {
            return Err(CodecError::UnexpectedEof);
        }
        let ghost s = bytes_mut_contents(*self);
        let b = bm_get_u8(self);
        proof { lemma_be_value_single(s.take(1)); }
        Ok(b)
    }

    fn write_unsigned_byte(&mut self, value: u8) {
        bm_put_u8(self, value);
    }

    fn read_short(&mut self) -> (r: Result<i16, CodecError>) {
        if bm_remaining(self) < 2 {
            return Err(CodecError::UnexpectedEof);
        }
        Ok(bm_get_i16(self))
    }

    fn write_short(&mut self, value: i16) {
        bm_put_i16(self, value);
    }

    fn read_unsigned_short(&mut self) -> (r: Result<u16, CodecError>) {
        if bm_remaining(self) < 2 {
            return Err(CodecError::UnexpectedEof);
        }
        Ok(bm_get_u16(self))
    }

    fn write_unsigned_short(&mut self, value: u16) {
        bm_put_u16(self, value);
    }

    fn read_int(&mut self) -> (r: Result<i32, CodecError>) {
        if bm_remaining(self) < 4 {
            return Err(CodecError::UnexpectedEof);
        }
        Ok(bm_get_i32(self))
    }

    fn write_int(&mut self, value: i32) {
        bm_put_i32(self, value);
    }

    fn read_long(&mut self) -> (r: Result<i64, CodecError>) {
        if bm_remaining(self) < 8 {
            return Err(CodecError::UnexpectedEof);
        }
        Ok(bm_get_i64(self))
    }

    fn write_long(&mut self, value: i64) {
        bm_put_i64(self, value);
    }

    fn read_string(&mut self) -> (r: Result<String, CodecError>) {
        let ghost s = bytes_mut_contents(*self);
        let length = match self.read_varint() {
            Ok(length) => length,
            Err(e) => return Err(e),
        };
        proof { lemma_parse_groups_bound(s, 5, CodecError::VarIntTooBig); }
        let length = #[verifier::truncate] (length as usize);
        if bm_remaining(self) < length {
            return Err(CodecError::UnexpectedEof);
        }
        let all = bm_as_slice(self);
        let bytes = vstd::slice::slice_to_vec(&all[0..length]);
        match string_from_utf8(bytes) {
            Some(string) => Ok(string),
            None => Err(CodecError::InvalidUtf8),
        }
    }

    fn write_string(&mut self, value: String) {
        let bytes = value.as_str().as_bytes();
        proof {
            crate::wire::lemma_varint_roundtrip(bytes@.len() as i32, Seq::empty());
        }
        self.write_varint(bytes.len() as i32);
        bm_put_bytes(self, bytes);
        assert(bytes_mut_contents(*self) =~= bytes_mut_contents(*old(self)) + string_bytes(value@));
    }

    fn read_varint(&mut self) -> (r: Result<i32, CodecError>) {
        proof {
            let s = bytes_mut_contents(*self);
            lemma_parse_groups_bound(s, 5, CodecError::VarIntTooBig);
            lemma_pow128_values();
            if let Ok((_, n)) = parse_groups(s, 5, CodecError::VarIntTooBig) {
                crate::wire::lemma_pow128_mono(n, 5);
            }
        }
        match read_groups_from(self, 5, CodecError::VarIntTooBig) {
            Ok(raw) => Ok(wrap_to_i32(raw)),
            Err(e) => Err(e),
        }
    }

    fn write_varint(&mut self, value: i32) {
        let bits = bits_of_i32(value);
        proof {
            lemma_pow128_values();
            lemma_group_len(unsigned32(value), 5);
        }
        write_groups_to(self, bits);
    }

    fn read_varlong(&mut self) -> (r: Result<i64, CodecError>) {
        proof {
            let s = bytes_mut_contents(*self);
            lemma_parse_groups_bound(s, 10, CodecError::VarLongTooBig);
            lemma_pow128_values();
            if let Ok((_, n)) = parse_groups(s, 10, CodecError::VarLongTooBig) {
                crate::wire::lemma_pow128_mono(n, 10);
            }
        }
        match read_groups_from(self, 10, CodecError::VarLongTooBig) {
            Ok(raw) => Ok(wrap_to_i64(raw)),
            Err(e) => Err(e),
        }
    }

    fn write_varlong(&mut self, value: i64) {
        let bits = bits_of_i64(value);
        proof {
            lemma_pow128_values();
            lemma_group_len(unsigned64(value), 10);
        }
        write_groups_to(self, bits);
    }
}

/// A packet's body bytes and, once set, its id.
#[derive(Debug)]
pub struct Packet {
    data: BytesMut,
    packet_id: Option<i32>,
}

impl View for Packet {
    /// The unread body bytes and the id.
    type V = (Seq<u8>, Option<i32>);

    closed spec fn view(&self) -> (Seq<u8>, Option<i32>) {
        (bytes_mut_contents(self.data), self.packet_id)
    }
}

/// Reading a whole packet from the front of `s`: the body that follows its
/// length and id, and the id.
pub open spec fn packet_read(s: Seq<u8>) -> Result<(Seq<u8>, i32), CodecError> {
    match varint_parse(s) {
        Err(e) => Err(e),
        Ok((_, n)) => {
            let rest = s.skip(n as int);
            match varint_parse(rest) {
                Err(e) => Err(e),
                Ok((id, m)) => Ok((rest.skip(m as int), id)),
            }
        },
    }
}

impl Packet {
    pub fn new() -> (r: Self)
        ensures
            r@ == (Seq::<u8>::empty(), None::<i32>),
    {
        Self { data: bm_new(), packet_id: None }
    }

    pub fn with_capacity(capacity: usize) -> (r: Self)
        requires
            capacity <= isize::MAX,
        ensures
            r@ == (Seq::<u8>::empty(), None::<i32>),
    {
        Self { data: bm_with_capacity(capacity), packet_id: None }
    }

    /// Appends the bytes of `value` to the body.
    pub fn write_bytes(&mut self, value: BytesMut)
        requires
            old(self)@.0.len() + bytes_mut_contents(value).len() <= isize::MAX,
        ensures
            final(self)@ == (old(self)@.0 + bytes_mut_contents(value), old(self)@.1),
    {
        bm_put(&mut self.data, value);
    }

    pub fn set_packet_id(&mut self, packet_id: i32)
        ensures
            final(self)@ == (old(self)@.0, Some(packet_id)),
    {
        self.packet_id = Some(packet_id);
    }

    /// The body (the unread bytes, to a reader).
    pub fn data(&self) -> (r: &BytesMut)
        ensures
            bytes_mut_contents(*r) == self@.0,
    {
        &self.data
    }

    /// The body, to change in place.
    pub fn data_mut(&mut self) -> (r: &mut BytesMut)
        ensures
            bytes_mut_contents(*r) == old(self)@.0,
            final(self)@ == (bytes_mut_contents(*final(r)), old(self)@.1),
    {
        &mut self.data
    }

    /// The length of what follows the frame's length prefix: the id's bytes and the body.
    fn get_size(&self) -> (r: Result<i32, CodecError>)
        requires
            self@.1 matches Some(id) ==> (id >= 0 ==> frame_fits(self@.0.len(), id)),
        ensures
            match self@.1 {
                Some(id) => if id < 0 {
                    r == Err::<i32, CodecError>(CodecError::NegativeVarint)
                } else {
                    r == Ok::<i32, CodecError>(((self@.0.len() as i32) + varint_size_spec(id)) as i32)
                },
                None => r == Ok::<i32, CodecError>(self@.0.len() as i32),
            },
    {
        let len = crate::buffer::bm_len(&self.data);
        if let Some(packet_id) = self.packet_id {
            let size = match get_varint_size(packet_id) {
                Ok(size) => size,
                Err(e) => return Err(e),
            };
            Ok(len as i32 + size)
        } else {
            Ok(len as i32)
        }
    }

    /// The whole frame: length, id and body. Compression is not supported.
    pub fn get_packet_bytes(self, compressed: i32) -> (r: Result<Bytes, CodecError>)
        requires
            compressed <= 0,
            self@.0.len() + 10 <= isize::MAX,
            self@.1 matches Some(id) ==> (id >= 0 ==> frame_fits(self@.0.len(), id)),
        ensures
            match self@.1 {
                None => r == Err::<Bytes, CodecError>(CodecError::PacketIdNotSet),
                Some(id) => if id < 0 {
                    r == Err::<Bytes, CodecError>(CodecError::NegativeVarint)
                } else {
                    r matches Ok(b) && bytes_contents(b) == frame_bytes(self@.0, id)
                },
            },
    {
        let mut this = self;
        let packet_id = match this.packet_id {
            Some(packet_id) => packet_id,
            None => return Err(CodecError::PacketIdNotSet),
        };
        let size = match this.get_size() {
            Ok(size) => size,
            Err(e) => return Err(e),
        };
        proof {
            crate::wire::lemma_varint_roundtrip(size, Seq::empty());
            crate::wire::lemma_varint_roundtrip(packet_id, Seq::empty());
        }
        let mut packet = Packet::new();
        packet.write_varint(size);
        packet.write_varint(packet_id);
        let body = bm_split(&mut this.data);
        packet.write_bytes(body);
        Ok(bm_freeze(packet.data))
    }

    /// Reads a packet off the front of `bytes`: its length, then its id. The
    /// packet's body is everything after the id; `bytes` is left empty once the
    /// length has been read.
    pub fn read_from_bytes(bytes: &mut BytesMut) -> (r: Result<Self, CodecError>)
        requires
            varint_parse(bytes_mut_contents(*old(bytes))) matches Ok((size, _)) ==> size >= 0,
        ensures
            match varint_parse(bytes_mut_contents(*old(bytes))) {
                Err(e) => {
                    &&& r matches Err(e2) && e2 == e
                    &&& bytes_mut_contents(*final(bytes)) == bytes_mut_contents(*old(bytes)).skip(
                        groups_consumed(bytes_mut_contents(*old(bytes)), 5) as int)
                },
                Ok(_) => {
                    &&& bytes_mut_contents(*final(bytes)) == Seq::<u8>::empty()
                    &&& match packet_read(bytes_mut_contents(*old(bytes))) {
                        Ok((body, id)) => r matches Ok(p) && p@ == (body, Some(id)),
                        Err(e) => r matches Err(e2) && e2 == e,
                    }
                },
            },
    {
        let ghost s = bytes_mut_contents(*bytes);
        let size = match bytes.read_varint() {
            Ok(size) => size,
            Err(e) => return Err(e),
        };
        proof { lemma_parse_groups_bound(s, 5, CodecError::VarIntTooBig); }
        let mut packet = Packet::with_capacity(size as usize);
        packet.data = bm_split(bytes);
        let ghost rest = bytes_mut_contents(packet.data);
        let packet_id = match packet.read_varint() {
            Ok(packet_id) => packet_id,
            Err(e) => return Err(e),
        };
        proof { lemma_parse_groups_bound(rest, 5, CodecError::VarIntTooBig); }
        packet.set_packet_id(packet_id);
        Ok(packet)
    }
}

impl PacketReaderWriter for Packet {
    open spec fn rw_contents(&self) -> Seq<u8> {
        self@.0
    }

    fn read_boolean(&mut self) -> (r: Result<bool, CodecError>)
        ensures final(self)@.1 == old(self)@.1,
    {
        self.data.read_boolean()
    }

    fn write_boolean(&mut self, value: bool)
        ensures final(self)@.1 == old(self)@.1,
    {
        self.data.write_boolean(value)
    }

    fn read_byte(&mut self) -> (r: Result<i8, CodecError>)
        ensures final(self)@.1 == old(self)@.1,
    {
        self.data.read_byte()
    }

    fn write_byte(&mut self, value: i8)
        ensures final(self)@.1 == old(self)@.1,
    {
        self.data.write_byte(value)
    }

    fn read_unsigned_byte(&mut self) -> (r: Result<u8, CodecError>)
        ensures final(self)@.1 == old(self)@.1,
    {
        self.data.read_unsigned_byte()
    }

    fn write_unsigned_byte(&mut self, value: u8)
        ensures final(self)@.1 == old(self)@.1,
    {
        self.data.write_unsigned_byte(value)
    }

    fn read_short(&mut self) -> (r: Result<i16, CodecError>)
        ensures final(self)@.1 == old(self)@.1,
    {
        self.data.read_short()
    }

    fn write_short(&mut self, value: i16)
        ensures final(self)@.1 == old(self)@.1,
    {
        self.data.write_short(value)
    }

    fn read_unsigned_short(&mut self) -> (r: Result<u16, CodecError>)
        ensures final(self)@.1 == old(self)@.1,
    {
        self.data.read_unsigned_short()
    }

    fn write_unsigned_short(&mut self, value: u16)
        ensures final(self)@.1 == old(self)@.1,
    {
        self.data.write_unsigned_short(value)
    }

    fn read_int(&mut self) -> (r: Result<i32, CodecError>)
        ensures final(self)@.1 == old(self)@.1,
    {
        self.data.read_int()
    }

    fn write_int(&mut self, value: i32)
        ensures final(self)@.1 == old(self)@.1,
    {
        self.data.write_int(value)
    }

    fn read_long(&mut self) -> (r: Result<i64, CodecError>)
        ensures final(self)@.1 == old(self)@.1,
    {
        self.data.read_long()
    }

    fn write_long(&mut self, value: i64)
        ensures final(self)@.1 == old(self)@.1,
    {
        self.data.write_long(value)
    }

    fn read_string(&mut self) -> (r: Result<String, CodecError>)
        ensures final(self)@.1 == old(self)@.1,
    {
        self.data.read_string()
    }

    fn write_string(&mut self, value: String)
        ensures final(self)@.1 == old(self)@.1,
    {
        self.data.write_string(value)
    }

    fn read_varint(&mut self) -> (r: Result<i32, CodecError>)
        ensures final(self)@.1 == old(self)@.1,
    {
        self.data.read_varint()
    }

    fn write_varint(&mut self, value: i32)
        ensures final(self)@.1 == old(self)@.1,
    {
        self.data.write_varint(value)
    }

    fn read_varlong(&mut self) -> (r: Result<i64, CodecError>)
        ensures final(self)@.1 == old(self)@.1,
    {
        self.data.read_varlong()
    }

    fn write_varlong(&mut self, value: i64)
        ensures final(self)@.1 == old(self)@.1,
    {
        self.data.write_varlong(value)
    }
}

} // verus!
