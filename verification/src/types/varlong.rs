use vstd::prelude::*;
use crate::error::CodecError;
use crate::traits::McEncodable;
use crate::text::{decimal, decimal_spec};
use crate::wire::{
    bits_of_i64, lemma_parse_groups_bound, lemma_varlong_roundtrip, read_groups, varlong_bytes,
    varlong_parse, wrap_to_i64, write_groups,
};

verus! {

/// A 64-bit integer sent in the variable-length format.
#[derive(Debug, PartialEq, Eq, Structural)]
pub struct Varlong {
    value: i64,
}

impl Varlong {
    pub fn from(v: i64) -> (r: Varlong)
        ensures
            r.deep_view() == v,
    {
        Self { value: v }
    }

    pub fn value(&self) -> (r: i64)
        ensures
            r == self.deep_view(),
    {
        self.value
    }

    /// The value in decimal, as the type's display form shows it.
    pub fn to_string(&self) -> (r: String)
        ensures
            r@ == decimal_spec(self.deep_view() as int),
    {
        decimal(self.value)
    }
}

/// Two VarLongs are equal exactly when their values are.
pub proof fn lemma_varlong_eq(a: Varlong, b: Varlong)
    ensures
        (a == b) == (a.deep_view() == b.deep_view()),
{
}

impl DeepView for Varlong {
    type V = i64;

    closed spec fn deep_view(&self) -> i64 {
        self.value
    }
}

impl McEncodable for Varlong {
    open spec fn decodable(s: Seq<u8>) -> bool {
        true
    }

    open spec fn spec_decode(s: Seq<u8>) -> Result<(i64, nat), CodecError> {
        varlong_parse(s)
    }

    open spec fn encodable(v: i64) -> bool {
        true
    }

    open spec fn spec_encode(v: i64) -> Seq<u8> {
        varlong_bytes(v)
    }

    fn decode(buf: &[u8]) -> (r: Result<(Self, usize), CodecError>) {
        assert(buf@.skip(0) =~= buf@);
        match read_groups(buf, 0, 10, CodecError::VarLongTooBig) {
            Ok((raw, n)) => {
                proof { lemma_parse_groups_bound(buf@, 10, CodecError::VarLongTooBig); }
                let v = Varlong::from(wrap_to_i64(raw));
                assert(Self::spec_decode(buf@) == Ok::<(<Self as DeepView>::V, nat), CodecError>((v.deep_view(), n as nat)));
                Ok((v, n))
            },
            Err(e) => Err(e),
        }
    }

    fn encode(&self, buf: &mut Vec<u8>) {
        let bits = bits_of_i64(self.value);
        write_groups(bits, buf);
        assert(Self::spec_encode(self.deep_view()) == varlong_bytes(self.value));
    }

    proof fn lemma_roundtrip(v: i64, rest: Seq<u8>) {
        lemma_varlong_roundtrip(v, rest);
    }
}

} // verus!
