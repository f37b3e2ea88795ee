//! The numbering that the VarInt enum encoding gives an enum's variants.
use vstd::prelude::*;

verus! {

/// The number of each variant: the one written for it, or one more than the
/// number of the variant before it (the first variant's is `0`).
pub open spec fn discriminants(explicit: Seq<Option<usize>>) -> Seq<int>
    decreases explicit.len(),
{
    if explicit.len() == 0 {
        Seq::empty()
    } else {
        let before = discriminants(explicit.drop_last());
        let v = match explicit.last() {
            Some(x) => x as int,
            None => if before.len() == 0 { 0 } else { before.last() + 1 },
        };
        before.push(v)
    }
}

pub proof fn lemma_discriminants_len(explicit: Seq<Option<usize>>)
    ensures
        discriminants(explicit).len() == explicit.len(),
    decreases explicit.len(),
{
    if explicit.len() > 0 {
        lemma_discriminants_len(explicit.drop_last());
    }
}

/// The numbers of an enum's variants, given the number written for each
/// variant, if any; `None` where a variant's number is the largest `usize`,
/// after which no next number can be counted.
pub fn enum_discriminants(explicit: &Vec<Option<usize>>) -> (r: Option<Vec<usize>>)
    ensures
        r is None <==> exists|k: int| 0 <= k < explicit@.len() && discriminants(explicit@)[k] >= usize::MAX,
        r matches Some(v) ==> v@.len() == explicit@.len()
            && forall|k: int| 0 <= k < v@.len() ==> v@[k] == discriminants(explicit@)[k],
{
    let mut out: Vec<usize> = Vec::new();
    let mut next: usize = 0;
    proof {
        lemma_discriminants_len(explicit@);
        assert(explicit@.take(0) =~= Seq::<Option<usize>>::empty());
    }
    let mut j: usize = 0;
    while j < explicit.len()
        invariant
            j <= explicit@.len(),
            discriminants(explicit@).len() == explicit@.len(),
            out@.len() == j,
            forall|k: int| 0 <= k < j ==> out@[k] == discriminants(explicit@.take(j as int))[k],
            forall|k: int| 0 <= k < j ==> discriminants(explicit@.take(j as int))[k] < usize::MAX,
            j == 0 ==> next == 0,
            j > 0 ==> next == discriminants(explicit@.take(j as int)).last() + 1,
        decreases explicit@.len() - j,
    {
        let ghost before = discriminants(explicit@.take(j as int));
        proof {
            assert(explicit@.take(j + 1).drop_last() =~= explicit@.take(j as int));
            assert(explicit@.take(j + 1).last() == explicit@[j as int]);
            lemma_discriminants_len(explicit@.take(j as int));
            lemma_discriminants_len(explicit@.take(j + 1));
        }
        let value = match explicit[j] {
            Some(x) => x,
            None => next,
        };
        if value == usize::MAX {
            proof {
                lemma_discriminants_prefix(explicit@, j + 1);
                assert(discriminants(explicit@)[j as int] == discriminants(explicit@.take(j + 1))[j as int]);
            }
            return None;
        }
        let ghost old_out = out@;
        out.push(value);
        next = value + 1;
        proof {
            let after = discriminants(explicit@.take(j + 1));
            assert(after =~= before.push(value as int));
            assert forall|k: int| 0 <= k < j + 1 implies out@[k] == after[k] && after[k] < usize::MAX by {
                if k < j {
                    assert(out@[k] == old_out[k]);
                }
            }
        }
        j = j + 1;
    }
    proof {
        assert(explicit@.take(explicit@.len() as int) =~= explicit@);
    }
    Some(out)
}

/// The numbers of a prefix's variants are those of the whole.
pub proof fn lemma_discriminants_prefix(explicit: Seq<Option<usize>>, j: int)
    requires
        0 <= j <= explicit.len(),
    ensures
        forall|k: int| 0 <= k < j ==> #[trigger] discriminants(explicit)[k] == discriminants(explicit.take(j))[k],
        discriminants(explicit.take(j)).len() == j,
    decreases explicit.len(),
{
    lemma_discriminants_len(explicit.take(j));
    if j < explicit.len() {
        assert(explicit.drop_last().take(j) =~= explicit.take(j));
        lemma_discriminants_prefix(explicit.drop_last(), j);
        lemma_discriminants_len(explicit.drop_last());
    } else {
        assert(explicit.take(j) =~= explicit);
    }
}

} // verus!
