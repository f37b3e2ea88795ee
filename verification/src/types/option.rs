//! Optional values: a boolean, then the value when it is true.
use vstd::prelude::*;
use crate::error::CodecError;
use crate::traits::McEncodable;

verus! {

impl<T: McEncodable> McEncodable for Option<T> {
    open spec fn decodable(s: Seq<u8>) -> bool {
        match <bool as McEncodable>::spec_decode(s) {
            Ok((true, n)) => T::decodable(s.skip(n as int)),
            _ => true,
        }
    }

    open spec fn spec_decode(s: Seq<u8>) -> Result<(Option<T::V>, nat), CodecError> {
        match <bool as McEncodable>::spec_decode(s) {
            Err(e) => Err(e),
            Ok((false, n)) => Ok((None, n)),
            Ok((true, n)) => match T::spec_decode(s.skip(n as int)) {
                Ok((v, m)) => Ok((Some(v), n + m)),
                Err(e) => Err(e),
            },
        }
    }

    open spec fn encodable(v: Option<T::V>) -> bool {
        match v {
            Some(x) => T::encodable(x),
            None => true,
        }
    }

    open spec fn spec_encode(v: Option<T::V>) -> Seq<u8> {
        match v {
            Some(x) => <bool as McEncodable>::spec_encode(true) + T::spec_encode(x),
            None => <bool as McEncodable>::spec_encode(false),
        }
    }

    fn decode(buf: &[u8]) -> (r: Result<(Self, usize), CodecError>) {
        match bool::decode(buf) {
            Err(e) => Err(e),
            Ok((false, n)) => Ok((None, n)),
            Ok((true, n)) => {
                let rest = &buf[n..buf.len()];
                assert(rest@ =~= buf@.skip(n as int));
                match T::decode(rest) {
                    Ok((v, m)) => Ok((Some(v), n + m)),
                    Err(e) => Err(e),
                }
            },
        }
    }

    fn encode(&self, buf: &mut Vec<u8>) {
        match self {
            Some(value) => {
                true.encode(buf);
                value.encode(buf);
            },
            None => {
                false.encode(buf);
            },
        }
    }

    proof fn lemma_roundtrip(v: Option<T::V>, rest: Seq<u8>) {
        match v {
            Some(x) => {
                let t = <bool as McEncodable>::spec_encode(true);
                let e = T::spec_encode(x);
                <bool as McEncodable>::lemma_roundtrip(true, e + rest);
                T::lemma_roundtrip(x, rest);
                assert(t + e + rest =~= t + (e + rest));
                assert((t + e + rest).skip(t.len() as int) =~= e + rest);
            },
            None => {
                <bool as McEncodable>::lemma_roundtrip(false, rest);
            },
        }
    }
}

} // verus!
