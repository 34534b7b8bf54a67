//! Numbers as decimal text.

use vstd::prelude::*;
use vstd::string::*;
use rug::integer::Order;
use rug::Integer;
use crate::natural::Natural;

verus! {

/// The character of the decimal digit `d`.
pub open spec fn digit(d: nat) -> char {
    if d == 0 {
        '0'
    } else if d == 1 {
        '1'
    } else if d == 2 {
        '2'
    } else if d == 3 {
        '3'
    } else if d == 4 {
        '4'
    } else if d == 5 {
        '5'
    } else if d == 6 {
        '6'
    } else if d == 7 {
        '7'
    } else if d == 8 {
        '8'
    } else {
        '9'
    }
}

/// The decimal text of `n`: its digits, the most significant first, with no leading
/// zero but for zero itself.
pub open spec fn decimal(n: nat) -> Seq<char>
    decreases n,
{
    if n < 10 {
        seq![digit(n)]
    } else {
        decimal(n / 10).push(digit(n % 10))
    }
}

/// The text of one decimal digit.
pub fn digit_text(d: u64) -> (s: &'static str)
    requires
        d < 10,
    ensures
        s@ == seq![digit(d as nat)],
{
    proof {
        reveal_strlit("0");
        reveal_strlit("1");
        reveal_strlit("2");
        reveal_strlit("3");
        reveal_strlit("4");
        reveal_strlit("5");
        reveal_strlit("6");
        reveal_strlit("7");
        reveal_strlit("8");
        reveal_strlit("9");
    }
    let s = if d == 0 {
        "0"
    } else if d == 1 {
        "1"
    } else if d == 2 {
        "2"
    } else if d == 3 {
        "3"
    } else if d == 4 {
        "4"
    } else if d == 5 {
        "5"
    } else if d == 6 {
        "6"
    } else if d == 7 {
        "7"
    } else if d == 8 {
        "8"
    } else {
        "9"
    };
    assert(s@ =~= seq![digit(d as nat)]);
    s
}

/// The decimal text of a machine word.
pub fn word_to_decimal(n: u64) -> (s: String)
    ensures
        s@ == decimal(n as nat),
    decreases n,
{
    if n < 10 {
        String::from_str(digit_text(n))
    } else {
        let mut s = word_to_decimal(n / 10);
        s.append(digit_text(n % 10));
        assert(s@ =~= decimal((n / 10) as nat).push(digit((n % 10) as nat)));
        s
    }
}

/// The decimal text of a natural number, written by `Integer::to_string_radix` of
/// `rug` with radix ten, which gives the digits with no sign and no leading zero, and
/// `0` for zero. The number is read by `Integer::from_digits`, least significant limb
/// first, which refuses a slice whose length in bits overflows `usize`, and GMP ends the
/// process on more limbs than a C `int` counts: the number stays under `limb_capacity()`.
#[verifier::external_body]
pub(crate) fn natural_to_decimal(n: &Natural) -> (s: String)
    requires
        n.fits(),
    ensures
        s@ == decimal(n@),
{
    Integer::from_digits(&n.limbs, Order::Lsf).to_string_radix(10)
}

/// The decimal text of a natural number, if it is small enough to be read.
pub fn natural_decimal(n: &Natural) -> (r: Option<String>)
    ensures
        r is Some <==> n.fits(),
        r matches Some(s) ==> s@ == decimal(n@),
{
    if n.is_operand() {
        Some(natural_to_decimal(n))
    } else {
        None
    }
}

} // verus!
