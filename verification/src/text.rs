//! Decimal rendering of integers, used wherever a contract pins down the
//! exact text of a message.

use vstd::prelude::*;
use vstd::string::*;

verus! {

/// The decimal digit character for one digit value.
pub open spec fn digit_char(d: nat) -> char {
    ((48 + d) as u8) as char
}

/// The decimal form of a natural number, most significant digit first.
pub open spec fn dec_digits(n: nat) -> Seq<char>
    decreases n,
{
    if n < 10 {
        seq![digit_char(n)]
    } else {
        dec_digits(n / 10).push(digit_char(n % 10))
    }
}

/// The decimal form of an integer, with a leading minus where negative.
pub open spec fn dec_int(x: int) -> Seq<char> {
    if x < 0 {
        seq!['-'] + dec_digits((-x) as nat)
    } else {
        dec_digits(x as nat)
    }
}

/// Renders a u64 in decimal.
pub fn u64_to_string(n: u64) -> (r: String)
    ensures
        r@ == dec_digits(n as nat),
    decreases n,
{
    if n < 10 {
        let d: u8 = 48 + (n as u8);
        let c: char = d as char;
        let mut s = String::new();
        crate::sys::push_char(&mut s, c);
        proof {
            assert(Seq::<char>::empty().push(c) =~= seq![digit_char(n as nat)]);
        }
        s
    } else {
        let mut s = u64_to_string(n / 10);
        let d: u8 = 48 + ((n % 10) as u8);
        crate::sys::push_char(&mut s, d as char);
        s
    }
}

/// Renders a u32 in decimal.
pub fn u32_to_string(n: u32) -> (r: String)
    ensures
        r@ == dec_digits(n as nat),
{
    u64_to_string(n as u64)
}

/// Renders an i64 in decimal.
pub fn i64_to_string(x: i64) -> (r: String)
    ensures
        r@ == dec_int(x as int),
{
    if x >= 0 {
        u64_to_string(x as u64)
    } else {
        let m: u64 = ((-(x + 1)) as u64) + 1;
        proof {
            assert(m as int == -(x as int));
        }
        let mut s = String::from_str("-");
        let rest = u64_to_string(m);
        s.append(rest.as_str());
        proof {
            reveal_strlit("-");
            assert("-"@ =~= seq!['-']);
            assert(s@ =~= dec_int(x as int));
        }
        s
    }
}

/// Renders an i32 in decimal.
pub fn i32_to_string(x: i32) -> (r: String)
    ensures
        r@ == dec_int(x as int),
{
    i64_to_string(x as i64)
}

} // verus!
