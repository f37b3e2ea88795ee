use vstd::prelude::*;
use crate::error::CodecError;
use crate::traits::McEncodable;
use vstd::string::StringExecFns;

verus! {

/// A UUID, sent as a big-endian 128-bit number.
#[derive(Debug, PartialEq, Eq, Structural)]
pub struct Uuid {
    contents: u128,
}

impl Uuid {
    pub fn from(s: u128) -> (r: Uuid)
        ensures
            r.deep_view() == s,
    {
        Self { contents: s }
    }

    pub fn contents(&self) -> (r: u128)
        ensures
            r == self.deep_view(),
    {
        self.contents
    }

    /// The number in lower-case hexadecimal without leading zeros, as the
    /// type's display form shows it.
    pub fn to_string(&self) -> (r: String)
        ensures
            r@ == hex_spec(self.deep_view() as nat),
    {
        proof { reveal_strlit(""); }
        let mut out = String::from_str("");
        push_hex(&mut out, self.contents);
        out
    }
}

/// The hexadecimal digits of `n`, most significant first.
pub open spec fn hex_spec(n: nat) -> Seq<char>
    decreases n,
{
    if n < 16 {
        seq![hex_char((n % 16) as u8)]
    } else {
        hex_spec(n / 16).push(hex_char((n % 16) as u8))
    }
}

/// The lower-case character of the hexadecimal digit `d`.
pub open spec fn hex_char(d: u8) -> char {
    if d < 10 { ('0' as u8 + d) as char } else { ('a' as u8 + (d - 10)) as char }
}

/// The one-character string of the hexadecimal digit `d`.
fn hex_str(d: u8) -> (r: &'static str)
    requires
        d < 16,
    ensures
        r@ == seq![hex_char(d)],
{
    proof {
        reveal_strlit("0"); reveal_strlit("1"); reveal_strlit("2"); reveal_strlit("3");
        reveal_strlit("4"); reveal_strlit("5"); reveal_strlit("6"); reveal_strlit("7");
        reveal_strlit("8"); reveal_strlit("9"); reveal_strlit("a"); reveal_strlit("b");
        reveal_strlit("c"); reveal_strlit("d"); reveal_strlit("e"); reveal_strlit("f");
    }
    match d {
        0 => "0",
        1 => "1",
        2 => "2",
        3 => "3",
        4 => "4",
        5 => "5",
        6 => "6",
        7 => "7",
        8 => "8",
        9 => "9",
        10 => "a",
        11 => "b",
        12 => "c",
        13 => "d",
        14 => "e",
        _ => "f",
    }
}

/// Appends the hexadecimal digits of `n`.
fn push_hex(out: &mut String, n: u128)
    ensures
        final(out)@ == old(out)@ + hex_spec(n as nat),
    decreases n,
{
    if n >= 16 {
        push_hex(out, n / 16);
    }
    out.append(hex_str((n % 16) as u8));
}

/// Two UUIDs are equal exactly when their values are.
pub proof fn lemma_uuid_eq(a: Uuid, b: Uuid)
    ensures
        (a == b) == (a.deep_view() == b.deep_view()),
{
}

impl DeepView for Uuid {
    type V = u128;

    closed spec fn deep_view(&self) -> u128 {
        self.contents
    }
}

impl McEncodable for Uuid {
    open spec fn decodable(s: Seq<u8>) -> bool {
        true
    }

    open spec fn spec_decode(s: Seq<u8>) -> Result<(u128, nat), CodecError> {
        <u128 as McEncodable>::spec_decode(s)
    }

    open spec fn encodable(v: u128) -> bool {
        true
    }

    open spec fn spec_encode(v: u128) -> Seq<u8> {
        <u128 as McEncodable>::spec_encode(v)
    }

    fn decode(buf: &[u8]) -> (r: Result<(Self, usize), CodecError>) {
        match u128::decode(buf) {
            Ok((v, n)) => Ok((Uuid::from(v), n)),
            Err(e) => Err(e),
        }
    }

    fn encode(&self, buf: &mut Vec<u8>) {
        self.contents.encode(buf);
    }

    proof fn lemma_roundtrip(v: u128, rest: Seq<u8>) {
        <u128 as McEncodable>::lemma_roundtrip(v, rest);
    }
}

} // verus!
