//! Records: their fields one after another, with nothing between them.
use vstd::prelude::*;
use crate::error::CodecError;
use crate::traits::McEncodable;

verus! {

impl<A: McEncodable, B: McEncodable> McEncodable for (A, B) {
    open spec fn decodable(s: Seq<u8>) -> bool {
        &&& A::decodable(s)
        &&& (A::spec_decode(s) matches Ok((_, n)) ==> B::decodable(s.skip(n as int)))
    }

    open spec fn spec_decode(s: Seq<u8>) -> Result<((A::V, B::V), nat), CodecError> {
        match A::spec_decode(s) {
            Err(e) => Err(e),
            Ok((a, n)) => match B::spec_decode(s.skip(n as int)) {
                Err(e) => Err(e),
                Ok((b, m)) => Ok(((a, b), n + m)),
            },
        }
    }

    open spec fn encodable(v: (A::V, B::V)) -> bool {
        A::encodable(v.0) && B::encodable(v.1)
    }

    open spec fn spec_encode(v: (A::V, B::V)) -> Seq<u8> {
        A::spec_encode(v.0) + B::spec_encode(v.1)
    }

    fn decode(buf: &[u8]) -> (r: Result<(Self, usize), CodecError>) {
        match A::decode(buf) {
            Err(e) => Err(e),
            Ok((a, n)) => {
                let rest = &buf[n..buf.len()];
                assert(rest@ =~= buf@.skip(n as int));
                match B::decode(rest) {
                    Err(e) => Err(e),
                    Ok((b, m)) => Ok(((a, b), n + m)),
                }
            },
        }
    }

    fn encode(&self, buf: &mut Vec<u8>) {
        self.0.encode(buf);
        self.1.encode(buf);
        assert(buf@ =~= old(buf)@ + Self::spec_encode(self.deep_view()));
    }

    proof fn lemma_roundtrip(v: (A::V, B::V), rest: Seq<u8>) {
        let ea = A::spec_encode(v.0);
        let eb = B::spec_encode(v.1);
        A::lemma_roundtrip(v.0, eb + rest);
        B::lemma_roundtrip(v.1, rest);
        assert(ea + eb + rest =~= ea + (eb + rest));
        assert((ea + eb + rest).skip(ea.len() as int) =~= eb + rest);
    }
}

/// The empty record: no bytes at all.
impl McEncodable for () {
    open spec fn decodable(s: Seq<u8>) -> bool {
        true
    }

    open spec fn spec_decode(s: Seq<u8>) -> Result<((), nat), CodecError> {
        Ok(((), 0))
    }

    open spec fn encodable(v: ()) -> bool {
        true
    }

    open spec fn spec_encode(v: ()) -> Seq<u8> {
        Seq::empty()
    }

    fn decode(buf: &[u8]) -> (r: Result<(Self, usize), CodecError>) {
        Ok(((), 0))
    }

    fn encode(&self, buf: &mut Vec<u8>) {
        assert(buf@ =~= old(buf)@ + Seq::<u8>::empty());
    }

    proof fn lemma_roundtrip(v: (), rest: Seq<u8>) {
    }
}

} // verus!
