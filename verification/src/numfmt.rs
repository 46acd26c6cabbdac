use vstd::prelude::*;
use vstd::string::StringExecFns;

verus! {

/// The character for a decimal digit.
pub open spec fn dec_digit(n: nat) -> char
    recommends
        n < 10,
{
    ((48 + n) as u8) as char
}

/// The decimal rendering of a natural number, most significant digit
/// first, with no leading zeros (zero itself renders as one digit).
pub open spec fn dec_str(n: nat) -> Seq<char>
    decreases n,
{
    if n < 10 {
        seq![dec_digit(n)]
    } else {
        dec_str(n / 10).push(dec_digit(n % 10))
    }
}

fn digit_str(d: u128) -> (r: &'static str)
    requires
        d < 10,
    ensures
        r@ == seq![dec_digit(d as nat)],
{
    proof {
        reveal_strlit("0");
        reveal_strlit("1");
        reveal_strlit("2");
        reveal_strlit("3");
        reveal_strlit("4");
        reveal_strlit("5");
        reveal_strlit("6");
        reveal_strlit("7");
        reveal_strlit("8");
        reveal_strlit("9");
    }
    if d == 0 {
        assert("0"@ =~= seq![dec_digit(0)]);
        "0"
    } else if d == 1 {
        assert("1"@ =~= seq![dec_digit(1)]);
        "1"
    } else if d == 2 {
        assert("2"@ =~= seq![dec_digit(2)]);
        "2"
    } else if d == 3 {
        assert("3"@ =~= seq![dec_digit(3)]);
        "3"
    } else if d == 4 {
        assert("4"@ =~= seq![dec_digit(4)]);
        "4"
    } else if d == 5 {
        assert("5"@ =~= seq![dec_digit(5)]);
        "5"
    } else if d == 6 {
        assert("6"@ =~= seq![dec_digit(6)]);
        "6"
    } else if d == 7 {
        assert("7"@ =~= seq![dec_digit(7)]);
        "7"
    } else if d == 8 {
        assert("8"@ =~= seq![dec_digit(8)]);
        "8"
    } else {
        assert("9"@ =~= seq![dec_digit(9)]);
        "9"
    }
}

/// Renders an unsigned 128-bit integer in decimal.
pub fn u128_to_string(n: u128) -> (r: String)
    ensures
        r@ == dec_str(n as nat),
    decreases n,
{
    if n < 10 {
        String::from_str(digit_str(n))
    } else {
        let mut s = u128_to_string(n / 10);
        s.append(digit_str(n % 10));
        assert(s@ =~= dec_str((n / 10) as nat).push(dec_digit((n % 10) as nat)));
        s
    }
}

} // verus!
