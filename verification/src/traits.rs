//! The encoding trait that every protocol value implements.
use vstd::prelude::*;
use crate::error::CodecError;
use crate::types::{varint_size, Compression, Varint};
use crate::wire::{push_all, varint_bytes, varint_size_spec};

verus! {

/// A value with a wire encoding. Decoding reads from the front of a byte
/// slice and reports how many bytes it took; encoding appends to a vector.
/// Both are stated over the value's deep view.
pub trait McEncodable: DeepView + Sized {
    /// The inputs on which decoding is defined (it would abort on the others).
    spec fn decodable(s: Seq<u8>) -> bool;

    /// What decoding the front of `s` gives: the value and the bytes it took.
    spec fn spec_decode(s: Seq<u8>) -> Result<(<Self as DeepView>::V, nat), CodecError>;

    /// The values whose encoding reads back as themselves.
    spec fn encodable(v: <Self as DeepView>::V) -> bool;

    /// The bytes that encode `v`.
    spec fn spec_encode(v: <Self as DeepView>::V) -> Seq<u8>;

    /// Decodes a value from the front of `buf`.
    fn decode(buf: &[u8]) -> (r: Result<(Self, usize), CodecError>)
        requires
            Self::decodable(buf@),
        ensures
            match r {
                Ok((v, n)) => {
                    &&& Self::spec_decode(buf@) == Ok::<(<Self as DeepView>::V, nat), CodecError>((v.deep_view(), n as nat))
                    &&& n <= buf@.len()
                },
                Err(e) => Self::spec_decode(buf@) == Err::<(<Self as DeepView>::V, nat), CodecError>(e),
            },
    ;

    /// Appends the encoding of `self` to `buf`.
    fn encode(&self, buf: &mut Vec<u8>)
        ensures
            final(buf)@ == old(buf)@ + Self::spec_encode(self.deep_view()),
    ;

    /// A value that is written and read back is the value written, and the read
    /// takes exactly its bytes, whatever follows them.
    proof fn lemma_roundtrip(v: <Self as DeepView>::V, rest: Seq<u8>)
        requires
            Self::encodable(v),
        ensures
            Self::decodable(Self::spec_encode(v) + rest),
            Self::spec_decode(Self::spec_encode(v) + rest)
                == Ok::<(<Self as DeepView>::V, nat), CodecError>((v, Self::spec_encode(v).len())),
    ;
}

/// A packet frame: the length of what follows, the id, then the body.
pub open spec fn frame_bytes(body: Seq<u8>, id: i32) -> Seq<u8> {
    varint_bytes(((body.len() as i32) + varint_size_spec(id)) as i32) + varint_bytes(id) + body
}

/// The frame length of a body with this id fits in an `i32`.
pub open spec fn frame_fits(body_len: nat, id: i32) -> bool {
    (body_len as i32) + varint_size_spec(id) <= i32::MAX
}

/// A value that travels as a packet with an id that depends on the protocol version.
pub trait Packet: McEncodable {
    /// The packet's id in protocol version `version`, if it has one there.
    spec fn spec_id(version: i32) -> Option<i32>;

    fn id(version: i32) -> (r: Option<i32>)
        ensures
            r == Self::spec_id(version),
    ;

    /// Reads the packet body from the front of `buf`.
    fn read_packet(buf: &[u8]) -> (r: Result<(Self, usize), CodecError>)
        requires
            Self::decodable(buf@),
        ensures
            match r {
                Ok((v, n)) => {
                    &&& Self::spec_decode(buf@) == Ok::<(<Self as DeepView>::V, nat), CodecError>((v.deep_view(), n as nat))
                    &&& n <= buf@.len()
                },
                Err(e) => Self::spec_decode(buf@) == Err::<(<Self as DeepView>::V, nat), CodecError>(e),
            },
    {
        Self::decode(buf)
    }

    /// Appends the packet's frame for protocol version `version` to `buf`.
    /// Only uncompressed connections are supported. On an error nothing is written.
    fn write_packet(&self, buf: &mut Vec<u8>, version: i32, compression: Compression) -> (r: Result<(), CodecError>)
        requires
            compression.threshold == -1,
            Self::spec_id(version) matches Some(id) ==> (id >= 0 ==> frame_fits(Self::spec_encode(self.deep_view()).len(), id)),
        ensures
            match Self::spec_id(version) {
                None => {
                    &&& r == Err::<(), CodecError>(CodecError::NoPacketId(version))
                    &&& final(buf)@ == old(buf)@
                },
                Some(id) => if id < 0 {
                    &&& r == Err::<(), CodecError>(CodecError::NegativeVarint)
                    &&& final(buf)@ == old(buf)@
                } else {
                    &&& r == Ok::<(), CodecError>(())
                    &&& final(buf)@ == old(buf)@ + frame_bytes(Self::spec_encode(self.deep_view()), id)
                },
            },
    {
        let mut packet_buf: Vec<u8> = Vec::new();
        self.encode(&mut packet_buf);
        assert(packet_buf@ =~= Self::spec_encode(self.deep_view()));
        let id = match Self::id(version) {
            Some(id) => id,
            None => return Err(CodecError::NoPacketId(version)),
        };
        let size = match varint_size(id) {
            Ok(size) => size,
            Err(e) => return Err(e),
        };
        Varint::from(packet_buf.len() as i32 + size).encode(buf);
        Varint::from(id).encode(buf);
        push_all(buf, packet_buf.as_slice());
        Ok(())
    }
}

} // verus!
