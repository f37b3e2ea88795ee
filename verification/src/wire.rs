//! The variable-length integer format: seven bits per byte, least
//! significant group first, high bit set on every byte but the last.
use vstd::prelude::*;
use crate::error::CodecError;

verus! {

/// `128` raised to `k`.
pub open spec fn pow128(k: nat) -> nat
    decreases k,
{
    if k == 0 { 1 } else { 128 * pow128((k - 1) as nat) }
}

/// The groups of `u`, least significant first, each with its continuation bit.
pub open spec fn group_bytes(u: nat) -> Seq<u8>
    decreases u,
{
    if u < 128 {
        seq![u as u8]
    } else {
        seq![((u % 128) + 128) as u8] + group_bytes(u / 128)
    }
}

/// Reads at most `max` groups from the front of `s`: the value and the number
/// of bytes it took. A byte beyond `max` groups gives `too_long`.
pub open spec fn parse_groups(s: Seq<u8>, max: nat, too_long: CodecError) -> Result<(nat, nat), CodecError>
    decreases max,
{
    if s.len() == 0 {
        Err(CodecError::UnexpectedEof)
    } else if max == 0 {
        Err(too_long)
    } else if s[0] < 128 {
        Ok((s[0] as nat, 1))
    } else {
        match parse_groups(s.drop_first(), (max - 1) as nat, too_long) {
            Ok((v, n)) => Ok((((s[0] - 128) + 128 * v) as nat, n + 1)),
            Err(e) => Err(e),
        }
    }
}

/// How many bytes a reader that pulls one byte at a time takes off the front
/// of `s` while reading at most `max` groups, whether it succeeds or fails.
pub open spec fn groups_consumed(s: Seq<u8>, max: nat) -> nat
    decreases max,
{
    if s.len() == 0 {
        0
    } else if max == 0 || s[0] < 128 {
        1
    } else {
        1 + groups_consumed(s.drop_first(), (max - 1) as nat)
    }
}

/// The two's-complement bits of an `i32`, as a number.
pub open spec fn unsigned32(v: i32) -> nat {
    if v < 0 { (v + 0x1_0000_0000) as nat } else { v as nat }
}

/// The `i32` whose bits are the low 32 bits of `u`.
pub open spec fn wrap32(u: nat) -> i32 {
    let low = u % 0x1_0000_0000;
    if low < 0x8000_0000 { low as i32 } else { (low - 0x1_0000_0000) as i32 }
}

/// The two's-complement bits of an `i64`, as a number.
pub open spec fn unsigned64(v: i64) -> nat {
    if v < 0 { (v + 0x1_0000_0000_0000_0000) as nat } else { v as nat }
}

/// The `i64` whose bits are the low 64 bits of `u`.
pub open spec fn wrap64(u: nat) -> i64 {
    let low = u % 0x1_0000_0000_0000_0000;
    if low < 0x8000_0000_0000_0000 { low as i64 } else { (low - 0x1_0000_0000_0000_0000) as i64 }
}

/// The bytes of a VarInt.
pub open spec fn varint_bytes(v: i32) -> Seq<u8> {
    group_bytes(unsigned32(v))
}

/// The bytes of a VarLong.
pub open spec fn varlong_bytes(v: i64) -> Seq<u8> {
    group_bytes(unsigned64(v))
}

/// Reading a VarInt from the front of `s`: the value and its length in bytes.
pub open spec fn varint_parse(s: Seq<u8>) -> Result<(i32, nat), CodecError> {
    match parse_groups(s, 5, CodecError::VarIntTooBig) {
        Ok((raw, n)) => Ok((wrap32(raw), n)),
        Err(e) => Err(e),
    }
}

/// Reading a VarLong from the front of `s`: the value and its length in bytes.
pub open spec fn varlong_parse(s: Seq<u8>) -> Result<(i64, nat), CodecError> {
    match parse_groups(s, 10, CodecError::VarLongTooBig) {
        Ok((raw, n)) => Ok((wrap64(raw), n)),
        Err(e) => Err(e),
    }
}

/// The size in bytes that the protocol gives a non-negative VarInt.
pub open spec fn varint_size_spec(value: i32) -> int {
    if value < 0x80 { 1 }
    else if value < 0x4000 { 2 }
    else if value < 0x20_0000 { 3 }
    else if value < 0x1000_0000 { 4 }
    else { 5 }
}

pub proof fn lemma_pow128_values()
    ensures
        pow128(0) == 1,
        pow128(1) == 128,
        pow128(2) == 0x4000,
        pow128(3) == 0x20_0000,
        pow128(4) == 0x1000_0000,
        pow128(5) == 0x8_0000_0000,
        pow128(10) == 0x40_0000_0000_0000_0000,
{
    reveal_with_fuel(pow128, 11);
}

/// `pow128` grows with its exponent.
pub proof fn lemma_pow128_mono(a: nat, b: nat)
    requires
        a <= b,
    ensures
        pow128(a) <= pow128(b),
    decreases b,
{
    if a < b {
        lemma_pow128_mono(a, (b - 1) as nat);
    }
}

/// A value below `128^k` takes at most `k` groups (for `k >= 1`).
pub proof fn lemma_group_len(u: nat, k: nat)
    requires
        k >= 1,
        u < pow128(k),
    ensures
        1 <= group_bytes(u).len() <= k,
        u < pow128(group_bytes(u).len()),
    decreases u,
{
    if u >= 128 {
        let q = u / 128;
        assert(pow128(k) == 128 * pow128((k - 1) as nat));
        assert(q < pow128((k - 1) as nat)) by (nonlinear_arith)
            requires
                u < 128 * pow128((k - 1) as nat),
                q == u / 128,
        ;
        assert(k >= 2) by {
            if k == 1 {
                assert(pow128(0) == 1);
            }
        }
        lemma_group_len(q, (k - 1) as nat);
        let n = group_bytes(q).len();
        assert(group_bytes(u).len() == n + 1);
        assert(pow128(n + 1) == 128 * pow128(n));
        assert(u < 128 * pow128(n)) by (nonlinear_arith)
            requires
                q < pow128(n),
                q == u / 128,
        ;
    } else {
        assert(pow128(1) == 128) by { reveal_with_fuel(pow128, 2); }
    }
}

/// Reading the groups of `u` gives back `u` and the number of groups, whatever follows.
pub proof fn lemma_parse_group_bytes(u: nat, max: nat, too_long: CodecError, rest: Seq<u8>)
    requires
        max >= 1,
        u < pow128(max),
    ensures
        parse_groups(group_bytes(u) + rest, max, too_long) == Ok::<(nat, nat), CodecError>((u, group_bytes(u).len())),
        groups_consumed(group_bytes(u) + rest, max) == group_bytes(u).len(),
    decreases u,
{
    let s = group_bytes(u) + rest;
    if u < 128 {
        assert(s[0] == u as u8);
    } else {
        let q = u / 128;
        let b = ((u % 128) + 128) as u8;
        assert(pow128(max) == 128 * pow128((max - 1) as nat));
        assert(q < pow128((max - 1) as nat)) by (nonlinear_arith)
            requires
                u < 128 * pow128((max - 1) as nat),
                q == u / 128,
        ;
        assert(max >= 2) by {
            if max == 1 {
                assert(pow128(0) == 1);
            }
        }
        lemma_parse_group_bytes(q, (max - 1) as nat, too_long, rest);
        assert(s[0] == b);
        assert(s.drop_first() =~= group_bytes(q) + rest);
        assert(u == (u % 128) + 128 * q) by (nonlinear_arith)
            requires q == u / 128;
    }
}

/// The value read from groups is below `128^n`, `n` the bytes read, and `n <= max`.
pub proof fn lemma_parse_groups_bound(s: Seq<u8>, max: nat, too_long: CodecError)
    ensures
        parse_groups(s, max, too_long) matches Ok((v, n)) ==> {
            &&& 1 <= n <= max
            &&& n <= s.len()
            &&& v < pow128(n)
            &&& groups_consumed(s, max) == n
        },
        parse_groups(s, max, too_long) matches Err(e) ==> {
            &&& (e == CodecError::UnexpectedEof || e == too_long)
            &&& groups_consumed(s, max) <= s.len()
        },
    decreases max,
{
    if s.len() > 0 && max > 0 && s[0] >= 128 {
        lemma_parse_groups_bound(s.drop_first(), (max - 1) as nat, too_long);
        if let Ok((v, n)) = parse_groups(s.drop_first(), (max - 1) as nat, too_long) {
            assert(pow128(n + 1) == 128 * pow128(n));
            assert((s[0] - 128) + 128 * v < 128 * pow128(n)) by (nonlinear_arith)
                requires
                    v < pow128(n),
                    0 <= s[0] - 128 < 128,
            ;
        }
    } else if s.len() > 0 && max > 0 {
        assert(pow128(1) == 128) by { reveal_with_fuel(pow128, 2); }
    }
}

/// Wrapping the bits of an `i32` gives it back.
pub proof fn lemma_wrap32_unsigned32(v: i32)
    ensures
        wrap32(unsigned32(v)) == v,
        unsigned32(v) < 0x1_0000_0000,
{
}

/// Wrapping the bits of an `i64` gives it back.
pub proof fn lemma_wrap64_unsigned64(v: i64)
    ensures
        wrap64(unsigned64(v)) == v,
        unsigned64(v) < 0x1_0000_0000_0000_0000,
{
}

/// A VarInt written and read back gives the same value, whatever follows it.
pub proof fn lemma_varint_roundtrip(v: i32, rest: Seq<u8>)
    ensures
        varint_parse(varint_bytes(v) + rest) == Ok::<(i32, nat), CodecError>((v, varint_bytes(v).len())),
        groups_consumed(varint_bytes(v) + rest, 5) == varint_bytes(v).len(),
        1 <= varint_bytes(v).len() <= 5,
{
    lemma_pow128_values();
    lemma_wrap32_unsigned32(v);
    lemma_group_len(unsigned32(v), 5);
    lemma_parse_group_bytes(unsigned32(v), 5, CodecError::VarIntTooBig, rest);
}

/// A VarLong written and read back gives the same value, whatever follows it.
pub proof fn lemma_varlong_roundtrip(v: i64, rest: Seq<u8>)
    ensures
        varlong_parse(varlong_bytes(v) + rest) == Ok::<(i64, nat), CodecError>((v, varlong_bytes(v).len())),
        groups_consumed(varlong_bytes(v) + rest, 10) == varlong_bytes(v).len(),
        1 <= varlong_bytes(v).len() <= 10,
{
    lemma_pow128_values();
    lemma_wrap64_unsigned64(v);
    lemma_group_len(unsigned64(v), 10);
    lemma_parse_group_bytes(unsigned64(v), 10, CodecError::VarLongTooBig, rest);
}

/// For a non-negative value, the protocol's size table is the length of its encoding.
pub proof fn lemma_varint_size_matches(v: i32)
    requires
        v >= 0,
    ensures
        varint_size_spec(v) == varint_bytes(v).len(),
{
    lemma_pow128_values();
    let u = unsigned32(v);
    let k: nat = varint_size_spec(v) as nat;
    lemma_group_len(u, k);
    let n = group_bytes(u).len();
    if n < k {
        // the value would fit in fewer groups than the table says
        assert(pow128(n) <= pow128((k - 1) as nat)) by {
            reveal_with_fuel(pow128, 6);
        }
    }
}

/// `256` raised to `k`.
pub open spec fn pow256(k: nat) -> nat
    decreases k,
{
    if k == 0 { 1 } else { 256 * pow256((k - 1) as nat) }
}

/// The number whose big-endian bytes are `s`.
pub open spec fn be_value(s: Seq<u8>) -> nat
    decreases s.len(),
{
    if s.len() == 0 { 0 } else { be_value(s.drop_last()) * 256 + (s.last() as nat) }
}

/// The low `n` bytes of `u`, most significant first.
pub open spec fn be_bytes(u: nat, n: nat) -> Seq<u8>
    decreases n,
{
    if n == 0 { seq![] } else { be_bytes(u / 256, (n - 1) as nat).push((u % 256) as u8) }
}

/// Reading an `n`-byte big-endian number from the front of `s`.
pub open spec fn be_parse(s: Seq<u8>, n: nat) -> Result<(nat, nat), CodecError> {
    if s.len() < n { Err(CodecError::UnexpectedEof) } else { Ok((be_value(s.take(n as int)), n)) }
}

/// The two's-complement bits of `v` in `n` bytes.
pub open spec fn to_unsigned(v: int, n: nat) -> nat {
    if v < 0 { (v + pow256(n)) as nat } else { v as nat }
}

/// The number whose `n`-byte two's-complement bits are `u`.
pub open spec fn to_signed(u: nat, n: nat) -> int {
    if u < pow256(n) / 2 { u as int } else { u - pow256(n) }
}

pub proof fn lemma_pow256_values()
    ensures
        pow256(0) == 1,
        pow256(1) == 0x100,
        pow256(2) == 0x1_0000,
        pow256(4) == 0x1_0000_0000,
        pow256(8) == 0x1_0000_0000_0000_0000,
        pow256(16) == 0x1_0000_0000_0000_0000_0000_0000_0000_0000,
{
    reveal_with_fuel(pow256, 17);
}

/// One byte read big-endian is that byte.
pub proof fn lemma_be_value_single(s: Seq<u8>)
    requires
        s.len() == 1,
    ensures
        be_value(s) == s[0],
{
    reveal_with_fuel(be_value, 2);
    assert(s.drop_last() =~= Seq::<u8>::empty());
}

/// A big-endian number of `s.len()` bytes is below `256^len`.
pub proof fn lemma_be_value_bound(s: Seq<u8>)
    ensures
        be_value(s) < pow256(s.len()),
    decreases s.len(),
{
    if s.len() > 0 {
        lemma_be_value_bound(s.drop_last());
        let p = pow256((s.len() - 1) as nat);
        assert(pow256(s.len()) == 256 * p);
        assert(be_value(s.drop_last()) * 256 + s.last() < 256 * p) by (nonlinear_arith)
            requires
                be_value(s.drop_last()) < p,
                s.last() < 256,
        ;
    }
}

/// The `n` bytes of `u` read back as `u` modulo `256^n`.
pub proof fn lemma_be_roundtrip(u: nat, n: nat)
    ensures
        be_bytes(u, n).len() == n,
        be_value(be_bytes(u, n)) == u % pow256(n),
    decreases n,
{
    if n > 0 {
        lemma_be_roundtrip(u / 256, (n - 1) as nat);
        let p = pow256((n - 1) as nat);
        let b = be_bytes(u, n);
        assert(b.drop_last() =~= be_bytes(u / 256, (n - 1) as nat));
        assert(pow256(n) == 256 * p);
        assert(p > 0) by {
            lemma_be_value_bound(Seq::<u8>::empty());
            lemma_pow256_pos((n - 1) as nat);
        }
        vstd::arithmetic::div_mod::lemma_mod_breakdown(u as int, 256, p as int);
        assert(((u / 256) % p) * 256 == 256 * ((u / 256) % p)) by (nonlinear_arith);
    }
}

pub proof fn lemma_pow256_pos(n: nat)
    ensures
        pow256(n) > 0,
    decreases n,
{
    if n > 0 {
        lemma_pow256_pos((n - 1) as nat);
    }
}

/// Reading an `n`-byte number in front of anything gives back the number.
pub proof fn lemma_be_parse_roundtrip(u: nat, n: nat, rest: Seq<u8>)
    requires
        u < pow256(n),
    ensures
        be_parse(be_bytes(u, n) + rest, n) == Ok::<(nat, nat), CodecError>((u, n)),
        be_bytes(u, n).len() == n,
{
    lemma_be_roundtrip(u, n);
    lemma_pow256_pos(n);
    vstd::arithmetic::div_mod::lemma_small_mod(u, pow256(n));
    assert((be_bytes(u, n) + rest).take(n as int) =~= be_bytes(u, n));
}

/// The signed value of the bits of `v` is `v`.
pub proof fn lemma_signed_unsigned(v: int, n: nat)
    requires
        n >= 1,
        -(pow256(n) / 2) <= v < pow256(n) / 2,
    ensures
        to_unsigned(v, n) < pow256(n),
        to_signed(to_unsigned(v, n), n) == v,
{
    assert(pow256(n) == 256 * pow256((n - 1) as nat));
    lemma_pow256_pos((n - 1) as nat);
}

/// Reads the `n`-byte big-endian number at the front of `buf`.
pub fn read_be(buf: &[u8], n: usize) -> (r: u128)
    requires
        n <= 16,
        n <= buf@.len(),
    ensures
        r == be_value(buf@.take(n as int)),
        r < pow256(n as nat),
{
    let mut v: u128 = 0;
    let mut i: usize = 0;
    assert(buf@.take(0) =~= Seq::<u8>::empty());
    while i < n
        invariant
            i <= n,
            n <= 16,
            n <= buf@.len(),
            v == be_value(buf@.take(i as int)),
            v < pow256(i as nat),
        decreases n - i,
    {
        proof {
            assert(buf@.take(i + 1).drop_last() =~= buf@.take(i as int));
            let p = pow256(i as nat);
            assert(pow256((i + 1) as nat) == 256 * p);
            assert(v * 256 + buf@[i as int] < 256 * p) by (nonlinear_arith)
                requires
                    v < p,
                    buf@[i as int] < 256,
            ;
            lemma_pow256_mono((i + 1) as nat, 16);
            lemma_pow256_values();
        }
        v = v * 256 + buf[i] as u128;
        i = i + 1;
    }
    v
}

/// `pow256` grows with its exponent.
pub proof fn lemma_pow256_mono(a: nat, b: nat)
    requires
        a <= b,
    ensures
        pow256(a) <= pow256(b),
    decreases b,
{
    if a < b {
        lemma_pow256_mono(a, (b - 1) as nat);
    }
}

/// Appends the low `n` bytes of `u`, most significant first.
pub fn write_be(u: u128, n: usize, buf: &mut Vec<u8>)
    ensures
        final(buf)@ == old(buf)@ + be_bytes(u as nat, n as nat),
    decreases n,
{
    if n > 0 {
        write_be(u / 256, n - 1, buf);
        buf.push((u % 256) as u8);
        assert(be_bytes(u as nat, n as nat) =~= be_bytes((u / 256) as nat, (n - 1) as nat).push((u % 256) as u8));
    }
}

/// Appends all of `bytes` to `buf`.
pub fn push_all(buf: &mut Vec<u8>, bytes: &[u8])
    ensures
        final(buf)@ == old(buf)@ + bytes@,
{
    let ghost start = buf@;
    let mut i: usize = 0;
    while i < bytes.len()
        invariant
            i <= bytes@.len(),
            buf@ == start + bytes@.take(i as int),
        decreases bytes@.len() - i,
    {
        buf.push(bytes[i]);
        i = i + 1;
        assert(bytes@.take(i as int) =~= bytes@.take(i - 1).push(bytes@[i - 1]));
    }
    assert(bytes@.take(i as int) =~= bytes@);
}

/// Reads at most `max` groups from `buf` starting at `start`.
pub fn read_groups(buf: &[u8], start: usize, max: usize, too_long: CodecError) -> (r: Result<(u128, usize), CodecError>)
    requires
        start <= buf@.len(),
        max <= 10,
    ensures
        match r {
            Ok((v, n)) => parse_groups(buf@.skip(start as int), max as nat, too_long)
                == Ok::<(nat, nat), CodecError>((v as nat, n as nat)),
            Err(e) => parse_groups(buf@.skip(start as int), max as nat, too_long)
                == Err::<(nat, nat), CodecError>(e),
        },
    decreases max,
{
    let ghost s = buf@.skip(start as int);
    if start == buf.len() {
        return Err(CodecError::UnexpectedEof);
    }
    if max == 0 {
        return Err(too_long);
    }
    let b = buf[start];
    assert(s[0] == b);
    if b < 128 {
        return Ok((b as u128, 1));
    }
    assert(s.drop_first() =~= buf@.skip(start + 1));
    match read_groups(buf, start + 1, max - 1, too_long) {
        Ok((v, n)) => {
            proof {
                lemma_parse_groups_bound(s.drop_first(), (max - 1) as nat, too_long);
                lemma_pow128_mono(n as nat, 9);
                lemma_pow128_values();
                assert(pow128(9) == 0x8000_0000_0000_0000) by { reveal_with_fuel(pow128, 10); }
            }
            Ok(((b - 128) as u128 + 128 * v, n + 1))
        },
        Err(e) => Err(e),
    }
}

/// Appends the groups of `u` to `buf`.
pub fn write_groups(u: u128, buf: &mut Vec<u8>)
    ensures
        final(buf)@ == old(buf)@ + group_bytes(u as nat),
    decreases u,
{
    if u < 128 {
        buf.push(u as u8);
        assert(group_bytes(u as nat) =~= seq![u as u8]);
    } else {
        buf.push((u % 128 + 128) as u8);
        write_groups(u / 128, buf);
        assert(group_bytes(u as nat) =~= seq![((u % 128) + 128) as u8] + group_bytes((u / 128) as nat));
    }
}

/// The `i32` whose bits are the low 32 bits of `raw`.
pub fn wrap_to_i32(raw: u128) -> (r: i32)
    ensures
        r == wrap32(raw as nat),
{
    let low = raw % 0x1_0000_0000;
    if low < 0x8000_0000 {
        low as i32
    } else {
        (low as i64 - 0x1_0000_0000) as i32
    }
}

/// The `i64` whose bits are the low 64 bits of `raw`.
pub fn wrap_to_i64(raw: u128) -> (r: i64)
    ensures
        r == wrap64(raw as nat),
{
    let low = raw % 0x1_0000_0000_0000_0000;
    if low < 0x8000_0000_0000_0000 {
        low as i64
    } else {
        (low as i128 - 0x1_0000_0000_0000_0000) as i64
    }
}

/// The two's-complement bits of `v`.
pub fn bits_of_i32(v: i32) -> (r: u128)
    ensures
        r == unsigned32(v),
{
    if v < 0 { (v as i64 + 0x1_0000_0000) as u128 } else { v as u128 }
}

/// The two's-complement bits of `v`.
pub fn bits_of_i64(v: i64) -> (r: u128)
    ensures
        r == unsigned64(v),
{
    if v < 0 { (v as i128 + 0x1_0000_0000_0000_0000) as u128 } else { v as u128 }
}

} // verus!
