//! Arrays: a VarInt count, then the items one after another.
use vstd::prelude::*;
use crate::error::CodecError;
use crate::traits::McEncodable;
use crate::types::varint::Varint;
use crate::wire::{lemma_varint_roundtrip, varint_bytes, varint_parse};

verus! {

/// Reading `k` items one after another, the first at `start` in `s`: the items
/// and the position just after the last.
pub open spec fn items_parse<T: McEncodable>(s: Seq<u8>, start: nat, k: nat) -> Result<(Seq<T::V>, nat), CodecError>
    decreases k,
{
    if k == 0 {
        Ok((Seq::empty(), start))
    } else {
        match items_parse::<T>(s, start, (k - 1) as nat) {
            Err(e) => Err(e),
            Ok((xs, p)) => match T::spec_decode(s.skip(p as int)) {
                Err(e) => Err(e),
                Ok((x, m)) => Ok((xs.push(x), p + m)),
            },
        }
    }
}

/// Reading `k` items from `start` is defined.
pub open spec fn items_decodable<T: McEncodable>(s: Seq<u8>, start: nat, k: nat) -> bool
    decreases k,
{
    k == 0 || {
        &&& items_decodable::<T>(s, start, (k - 1) as nat)
        &&& (items_parse::<T>(s, start, (k - 1) as nat) matches Ok((_, p)) ==> T::decodable(s.skip(p as int)))
    }
}

/// The items' encodings one after another.
pub open spec fn items_bytes<T: McEncodable>(xs: Seq<T::V>) -> Seq<u8>
    decreases xs.len(),
{
    if xs.len() == 0 {
        Seq::empty()
    } else {
        items_bytes::<T>(xs.drop_last()) + T::spec_encode(xs.last())
    }
}

/// Items written after any prefix read back as themselves.
pub proof fn lemma_items_roundtrip<T: McEncodable>(prefix: Seq<u8>, xs: Seq<T::V>, rest: Seq<u8>)
    requires
        forall|i: int| 0 <= i < xs.len() ==> T::encodable(#[trigger] xs[i]),
    ensures
        items_decodable::<T>(prefix + items_bytes::<T>(xs) + rest, prefix.len(), xs.len()),
        items_parse::<T>(prefix + items_bytes::<T>(xs) + rest, prefix.len(), xs.len())
            == Ok::<(Seq<T::V>, nat), CodecError>((xs, prefix.len() + items_bytes::<T>(xs).len())),
    decreases xs.len(),
{
    if xs.len() > 0 {
        let init = xs.drop_last();
        let x = xs.last();
        let e = T::spec_encode(x);
        let s = prefix + items_bytes::<T>(xs) + rest;
        assert(s =~= prefix + items_bytes::<T>(init) + (e + rest));
        assert(T::encodable(xs[xs.len() - 1]));
        lemma_items_roundtrip::<T>(prefix, init, e + rest);
        let p = prefix.len() + items_bytes::<T>(init).len();
        assert(s.skip(p as int) =~= e + rest);
        T::lemma_roundtrip(x, rest);
        assert(init.push(x) =~= xs);
    } else {
        assert(xs =~= Seq::<T::V>::empty());
    }
}

impl<T: McEncodable> McEncodable for Vec<T> {
    open spec fn decodable(s: Seq<u8>) -> bool {
        varint_parse(s) matches Ok((len, n)) ==> items_decodable::<T>(s, n, (len as usize) as nat)
    }

    open spec fn spec_decode(s: Seq<u8>) -> Result<(Seq<T::V>, nat), CodecError> {
        match varint_parse(s) {
            Err(e) => Err(e),
            Ok((len, n)) => items_parse::<T>(s, n, (len as usize) as nat),
        }
    }

    open spec fn encodable(xs: Seq<T::V>) -> bool {
        &&& xs.len() <= i32::MAX
        &&& forall|i: int| 0 <= i < xs.len() ==> T::encodable(#[trigger] xs[i])
    }

    open spec fn spec_encode(xs: Seq<T::V>) -> Seq<u8> {
        varint_bytes(xs.len() as i32) + items_bytes::<T>(xs)
    }

    fn decode(buf: &[u8]) -> (r: Result<(Self, usize), CodecError>) {
        let (length, n) = match Varint::decode(buf) {
            Ok(x) => x,
            Err(e) => return Err(e),
        };
        let length = #[verifier::truncate] (length.value() as usize);
        let mut vec: Vec<T> = Vec::new();
        let mut pos = n;
        assert(vec.deep_view() =~= Seq::<T::V>::empty());
        for i in 0..length
            invariant
                pos <= buf@.len(),
                length == length_spec(buf@) as usize,
                varint_parse(buf@) == Ok::<(i32, nat), CodecError>((length_spec(buf@), n as nat)),
                items_decodable::<T>(buf@, n as nat, length as nat),
                items_parse::<T>(buf@, n as nat, i as nat) == Ok::<(Seq<T::V>, nat), CodecError>((vec.deep_view(), pos as nat)),
        {
            proof { lemma_items_decodable_prefix::<T>(buf@, n as nat, (i + 1) as nat, length as nat); }
            let rest = &buf[pos..buf.len()];
            assert(rest@ =~= buf@.skip(pos as int));
            match T::decode(rest) {
                Ok((item, m)) => {
                    let ghost before = vec.deep_view();
                    vec.push(item);
                    assert(vec.deep_view() =~= before.push(item.deep_view()));
                    pos = pos + m;
                },
                Err(e) => {
                    proof {
                        assert(T::spec_decode(buf@.skip(pos as int)) == Err::<(T::V, nat), CodecError>(e));
                        assert(items_parse::<T>(buf@, n as nat, (i + 1) as nat) == Err::<(Seq<T::V>, nat), CodecError>(e));
                        lemma_items_err::<T>(buf@, n as nat, (i + 1) as nat, length as nat, e);
                    }
                    return Err(e);
                },
            }
        }
        Ok((vec, pos))
    }

    fn encode(&self, buf: &mut Vec<u8>) {
        Varint::from(self.len() as i32).encode(buf);
        let ghost start = buf@;
        let ghost xs = self.deep_view();
        for i in 0..self.len()
            invariant
                buf@ == start + items_bytes::<T>(xs.take(i as int)),
                xs == self.deep_view(),
        {
            let ghost before = buf@;
            self[i].encode(buf);
            assert(xs.take(i + 1).drop_last() =~= xs.take(i as int));
            assert(xs.take(i + 1).last() == self@[i as int].deep_view());
            assert(buf@ =~= start + items_bytes::<T>(xs.take(i + 1)));
        }
        assert(xs.take(self@.len() as int) =~= xs);
    }

    proof fn lemma_roundtrip(xs: Seq<T::V>, rest: Seq<u8>) {
        let len = xs.len() as i32;
        let v = varint_bytes(len);
        lemma_varint_roundtrip(len, items_bytes::<T>(xs) + rest);
        assert(v + items_bytes::<T>(xs) + rest =~= v + (items_bytes::<T>(xs) + rest));
        lemma_items_roundtrip::<T>(v, xs, rest);
    }
}

/// The length prefix of `s`, when it reads.
pub open spec fn length_spec(s: Seq<u8>) -> i32 {
    match varint_parse(s) {
        Ok((len, _)) => len,
        Err(_) => 0,
    }
}

/// A run of items that fails to read makes every longer run fail the same way.
pub proof fn lemma_items_err<T: McEncodable>(s: Seq<u8>, start: nat, j: nat, k: nat, e: CodecError)
    requires
        j <= k,
        items_parse::<T>(s, start, j) == Err::<(Seq<T::V>, nat), CodecError>(e),
    ensures
        items_parse::<T>(s, start, k) == Err::<(Seq<T::V>, nat), CodecError>(e),
    decreases k,
{
    if j < k {
        lemma_items_err::<T>(s, start, j, (k - 1) as nat, e);
    }
}

/// Decodability of `k` items holds of every shorter run.
pub proof fn lemma_items_decodable_prefix<T: McEncodable>(s: Seq<u8>, start: nat, j: nat, k: nat)
    requires
        j <= k,
        items_decodable::<T>(s, start, k),
    ensures
        items_decodable::<T>(s, start, j),
    decreases k,
{
    if j < k {
        lemma_items_decodable_prefix::<T>(s, start, j, (k - 1) as nat);
    }
}

} // verus!
