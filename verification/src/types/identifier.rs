use vstd::prelude::*;
use crate::error::CodecError;
use crate::traits::McEncodable;

verus! {

/// A namespaced identifier such as `minecraft:stone`.
#[derive(Debug)]
pub struct Identifier {
    contents: String,
}

impl Identifier {
    pub fn from(s: String) -> (r: Identifier)
        ensures
            r.deep_view() == s@,
    {
        Self { contents: s }
    }

    pub fn contents(&self) -> (r: &str)
        ensures
            r@ == self.deep_view(),
    {
        self.contents.as_str()
    }

    /// The text, as the type's display form shows it.
    pub fn to_string(&self) -> (r: String)
        ensures
            r@ == self.deep_view(),
    {
        self.contents.clone()
    }
}

impl DeepView for Identifier {
    type V = Seq<char>;

    closed spec fn deep_view(&self) -> Seq<char> {
        self.contents@
    }
}

impl PartialEq for Identifier {
    fn eq(&self, other: &Self) -> (r: bool) {
        self.contents == other.contents
    }
}

impl Eq for Identifier {}

impl vstd::std_specs::cmp::PartialEqSpecImpl for Identifier {
    open spec fn obeys_eq_spec() -> bool {
        true
    }

    open spec fn eq_spec(&self, other: &Self) -> bool {
        self.deep_view() == other.deep_view()
    }
}

impl McEncodable for Identifier {
    open spec fn decodable(s: Seq<u8>) -> bool {
        <String as McEncodable>::decodable(s)
    }

    open spec fn spec_decode(s: Seq<u8>) -> Result<(Seq<char>, nat), CodecError> {
        <String as McEncodable>::spec_decode(s)
    }

    open spec fn encodable(v: Seq<char>) -> bool {
        <String as McEncodable>::encodable(v)
    }

    open spec fn spec_encode(v: Seq<char>) -> Seq<u8> {
        <String as McEncodable>::spec_encode(v)
    }

    fn decode(buf: &[u8]) -> (r: Result<(Self, usize), CodecError>) {
        match String::decode(buf) {
            Ok((s, n)) => Ok((Identifier::from(s), n)),
            Err(e) => Err(e),
        }
    }

    fn encode(&self, buf: &mut Vec<u8>) {
        self.contents.encode(buf);
    }

    proof fn lemma_roundtrip(v: Seq<char>, rest: Seq<u8>) {
        <String as McEncodable>::lemma_roundtrip(v, rest);
    }
}

} // verus!
