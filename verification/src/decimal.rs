//! Decimal rendering of the signed 64-bit registration ids that appear in
//! generated names and match arms.

use vstd::prelude::*;

verus! {

/// Character for one decimal digit value.
pub open spec fn dchar(d: nat) -> char {
    ((48 + d) as u8) as char
}

/// Decimal digits of a non-negative number, most significant first.
pub open spec fn dec_u(n: nat) -> Seq<char>
    decreases n,
{
    if n < 10 {
        seq![dchar(n)]
    } else {
        dec_u(n / 10) + seq![dchar(n % 10)]
    }
}

/// Decimal text of an integer, with a leading minus sign when negative.
pub open spec fn spec_dec(n: int) -> Seq<char> {
    if n < 0 {
        seq!['-'] + dec_u((-n) as nat)
    } else {
        dec_u(n as nat)
    }
}

/// One decimal digit as text.
fn digit_str(d: u64) -> (r: &'static str)
    requires
        d < 10,
    ensures
        r@ == seq![dchar(d as nat)],
{
    proof {
        reveal_strlit("0");
        reveal_strlit("1");
        reveal_strlit("2");
        reveal_strlit("3");
        reveal_strlit("4");
        reveal_strlit("5");
        reveal_strlit("6");
        reveal_strlit("7");
        reveal_strlit("8");
        reveal_strlit("9");
    }
    if d == 0 {
        "0"
    } else if d == 1 {
        "1"
    } else if d == 2 {
        "2"
    } else if d == 3 {
        "3"
    } else if d == 4 {
        "4"
    } else if d == 5 {
        "5"
    } else if d == 6 {
        "6"
    } else if d == 7 {
        "7"
    } else if d == 8 {
        "8"
    } else {
        "9"
    }
}

/// Decimal text of an unsigned number.
pub fn dec_u64(m: u64) -> (r: String)
    ensures
        r@ == dec_u(m as nat),
    decreases m,
{
    if m < 10 {
        digit_str(m).to_owned()
    } else {
        let mut s = dec_u64(m / 10);
        s.append(digit_str(m % 10));
        s
    }
}

/// Decimal text of a signed number.
pub fn dec_string(n: i64) -> (r: String)
    ensures
        r@ == spec_dec(n as int),
{
    proof {
        reveal_strlit("-");
    }
    if n >= 0 {
        dec_u64(n as u64)
    } else {
        let m: u64 = if n == i64::MIN {
            9223372036854775808u64
        } else {
            (-n) as u64
        };
        let mut s = "-".to_owned();
        s.append(dec_u64(m).as_str());
        s
    }
}

} // verus!
