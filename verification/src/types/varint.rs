use vstd::prelude::*;
use crate::error::CodecError;
use crate::traits::McEncodable;
use crate::text::{decimal, decimal_spec};
use crate::wire::{
    bits_of_i32, lemma_parse_groups_bound, lemma_varint_roundtrip, lemma_varint_size_matches,
    read_groups, varint_bytes, varint_parse, varint_size_spec, wrap_to_i32, write_groups,
};

verus! {

/// The number of bytes a VarInt of `value` takes; negative values are refused.
pub fn varint_size(value: i32) -> (r: Result<i32, CodecError>)
    ensures
        value < 0 ==> r == Err::<i32, CodecError>(CodecError::NegativeVarint),
        value >= 0 ==> r == Ok::<i32, CodecError>(varint_size_spec(value) as i32),
        value >= 0 ==> varint_size_spec(value) == varint_bytes(value).len(),
{
    proof {
        if value >= 0 {
            lemma_varint_size_matches(value);
        }
    }
    if value < 0 {
        Err(CodecError::NegativeVarint)
    } else if value < 0x80 {
        Ok(1)
    } else if value < 0x4000 {
        Ok(2)
    } else if value < 0x20_0000 {
        Ok(3)
    } else if value < 0x1000_0000 {
        Ok(4)
    } else {
        Ok(5)
    }
}

/// A 32-bit integer sent in the variable-length format.
#[derive(Debug, Clone, Copy, PartialEq, Eq, Structural)]
pub struct Varint {
    value: i32,
}

impl Varint {
    pub fn from(v: i32) -> (r: Varint)
        ensures
            r.deep_view() == v,
    {
        Self { value: v }
    }

    pub fn value(&self) -> (r: i32)
        ensures
            r == self.deep_view(),
    {
        self.value
    }

    /// The value in decimal, as the type's display form shows it.
    pub fn to_string(&self) -> (r: String)
        ensures
            r@ == decimal_spec(self.deep_view() as int),
    {
        decimal(self.value as i64)
    }
}

/// Two VarInts are equal exactly when their values are.
pub proof fn lemma_varint_eq(a: Varint, b: Varint)
    ensures
        (a == b) == (a.deep_view() == b.deep_view()),
{
}

impl DeepView for Varint {
    type V = i32;

    closed spec fn deep_view(&self) -> i32 {
        self.value
    }
}

impl McEncodable for Varint {
    open spec fn decodable(s: Seq<u8>) -> bool {
        true
    }

    open spec fn spec_decode(s: Seq<u8>) -> Result<(i32, nat), CodecError> {
        varint_parse(s)
    }

    open spec fn encodable(v: i32) -> bool {
        true
    }

    open spec fn spec_encode(v: i32) -> Seq<u8> {
        varint_bytes(v)
    }

    fn decode(buf: &[u8]) -> (r: Result<(Self, usize), CodecError>) {
        assert(buf@.skip(0) =~= buf@);
        match read_groups(buf, 0, 5, CodecError::VarIntTooBig) {
            Ok((raw, n)) => {
                proof { lemma_parse_groups_bound(buf@, 5, CodecError::VarIntTooBig); }
                let v = Varint::from(wrap_to_i32(raw));
                assert(Self::spec_decode(buf@) == Ok::<(<Self as DeepView>::V, nat), CodecError>((v.deep_view(), n as nat)));
                Ok((v, n))
            },
            Err(e) => Err(e),
        }
    }

    fn encode(&self, buf: &mut Vec<u8>) {
        let bits = bits_of_i32(self.value);
        write_groups(bits, buf);
        assert(Self::spec_encode(self.deep_view()) == varint_bytes(self.value));
    }

    proof fn lemma_roundtrip(v: i32, rest: Seq<u8>) {
        lemma_varint_roundtrip(v, rest);
    }
}

} // verus!

verus! {

impl From<i32> for Varint {
    fn from(v: i32) -> (r: Self)
        ensures
            r.deep_view() == v,
    {
        Varint { value: v }
    }
}

impl vstd::std_specs::convert::FromSpecImpl<i32> for Varint {
    open spec fn obeys_from_spec() -> bool {
        true
    }

    closed spec fn from_spec(v: i32) -> Self {
        Varint { value: v }
    }
}

impl From<Varint> for i32 {
    fn from(v: Varint) -> (r: Self)
        ensures
            r == v.deep_view(),
    {
        v.value
    }
}

impl vstd::std_specs::convert::FromSpecImpl<Varint> for i32 {
    open spec fn obeys_from_spec() -> bool {
        true
    }

    closed spec fn from_spec(v: Varint) -> Self {
        v.value
    }
}

} // verus!
