//! Numbers written out in decimal.
use vstd::prelude::*;
use vstd::string::StringExecFns;

verus! {

/// The decimal digits of `n`.
pub open spec fn digits_spec(n: nat) -> Seq<char>
    decreases n,
{
    if n < 10 {
        seq![digit_char((n % 10) as u8)]
    } else {
        digits_spec(n / 10).push(digit_char((n % 10) as u8))
    }
}

/// The character of the decimal digit `d`.
pub open spec fn digit_char(d: u8) -> char {
    ('0' as u8 + d) as char
}

/// `v` in decimal, with a minus sign when negative.
pub open spec fn decimal_spec(v: int) -> Seq<char> {
    if v < 0 { seq!['-'] + digits_spec((-v) as nat) } else { digits_spec(v as nat) }
}

/// The one-character string of the decimal digit `d`.
fn digit_str(d: u8) -> (r: &'static str)
    requires
        d < 10,
    ensures
        r@ == seq![digit_char(d)],
{
    proof {
        reveal_strlit("0"); reveal_strlit("1"); reveal_strlit("2"); reveal_strlit("3"); reveal_strlit("4");
        reveal_strlit("5"); reveal_strlit("6"); reveal_strlit("7"); reveal_strlit("8"); reveal_strlit("9");
    }
    match d {
        0 => "0",
        1 => "1",
        2 => "2",
        3 => "3",
        4 => "4",
        5 => "5",
        6 => "6",
        7 => "7",
        8 => "8",
        _ => "9",
    }
}

/// Appends the decimal digits of `n`.
fn push_digits(out: &mut String, n: u64)
    ensures
        final(out)@ == old(out)@ + digits_spec(n as nat),
    decreases n,
{
    if n >= 10 {
        push_digits(out, n / 10);
    }
    out.append(digit_str((n % 10) as u8));
}

/// `v` in decimal.
pub fn decimal(v: i64) -> (r: String)
    ensures
        r@ == decimal_spec(v as int),
{
    proof { reveal_strlit("-"); reveal_strlit(""); }
    let mut out = String::from_str("");
    if v < 0 {
        out.append("-");
        push_digits(&mut out, (-(v as i128)) as u64);
    } else {
        push_digits(&mut out, v as u64);
    }
    out
}

} // verus!
