//! Verified text helpers: string equality and decimal rendering.

use vstd::prelude::*;
use vstd::string::*;

use crate::fixed::{Dec, DEC_SCALE};

verus! {

/// String slice equality, decided character by character.
pub fn str_eq(a: &str, b: &str) -> (r: bool)
    ensures
        r == (a@ == b@),
{
    let an: usize = a.unicode_len();
    let bn: usize = b.unicode_len();
    if an != bn {
        proof {
            assert(a@ != b@);
        }
        return false;
    }
    let mut i: usize = 0;
    while i < an
        invariant
            0 <= i <= an,
            an == a@.len(),
            an == b@.len(),
            forall|j: int| 0 <= j < i ==> a@[j] == b@[j],
        decreases an - i,
    {
        let ca: char = a.get_char(i);
        let cb: char = b.get_char(i);
        if ca != cb {
            proof {
                assert(a@[i as int] != b@[i as int]);
            }
            return false;
        }
        i = i + 1;
    }
    proof {
        assert(a@ =~= b@);
    }
    true
}

pub open spec fn digit_char(d: int) -> char {
    if d == 0 {
        '0'
    } else if d == 1 {
        '1'
    } else if d == 2 {
        '2'
    } else if d == 3 {
        '3'
    } else if d == 4 {
        '4'
    } else if d == 5 {
        '5'
    } else if d == 6 {
        '6'
    } else if d == 7 {
        '7'
    } else if d == 8 {
        '8'
    } else {
        '9'
    }
}

/// The decimal digits of `n`, most significant first.
pub open spec fn spec_digits(n: int) -> Seq<char>
    decreases n,
{
    if n < 10 {
        seq![digit_char(n)]
    } else {
        spec_digits(n / 10).push(digit_char(n % 10))
    }
}

/// The decimal digits of `n` left-padded with zeros to exactly `places`
/// digits (`n` is taken modulo `10^places`).
pub open spec fn spec_padded_digits(n: int, places: int) -> Seq<char>
    decreases places,
{
    if places <= 1 {
        seq![digit_char(n % 10)]
    } else {
        spec_padded_digits(n / 10, places - 1).push(digit_char(n % 10))
    }
}

fn digit_str(d: u64) -> (r: &'static str)
    requires
        d < 10,
    ensures
        r@ == seq![digit_char(d as int)],
{
    proof {
        reveal_strlit("0");
        reveal_strlit("1");
        reveal_strlit("2");
        reveal_strlit("3");
        reveal_strlit("4");
        reveal_strlit("5");
        reveal_strlit("6");
        reveal_strlit("7");
        reveal_strlit("8");
        reveal_strlit("9");
    }
    if d == 0 {
        proof {
            assert("0"@ =~= seq![digit_char(0)]);
        }
        "0"
    } else if d == 1 {
        proof {
            assert("1"@ =~= seq![digit_char(1)]);
        }
        "1"
    } else if d == 2 {
        proof {
            assert("2"@ =~= seq![digit_char(2)]);
        }
        "2"
    } else if d == 3 {
        proof {
            assert("3"@ =~= seq![digit_char(3)]);
        }
        "3"
    } else if d == 4 {
        proof {
            assert("4"@ =~= seq![digit_char(4)]);
        }
        "4"
    } else if d == 5 {
        proof {
            assert("5"@ =~= seq![digit_char(5)]);
        }
        "5"
    } else if d == 6 {
        proof {
            assert("6"@ =~= seq![digit_char(6)]);
        }
        "6"
    } else if d == 7 {
        proof {
            assert("7"@ =~= seq![digit_char(7)]);
        }
        "7"
    } else if d == 8 {
        proof {
            assert("8"@ =~= seq![digit_char(8)]);
        }
        "8"
    } else {
        proof {
            assert("9"@ =~= seq![digit_char(9)]);
        }
        "9"
    }
}

/// `n` rendered in decimal.
pub fn u64_string(n: u64) -> (r: String)
    ensures
        r@ == spec_digits(n as int),
    decreases n,
{
    if n < 10 {
        let s: String = String::from_str(digit_str(n));
        proof {
            assert(s@ =~= spec_digits(n as int));
        }
        s
    } else {
        let head: String = u64_string(n / 10);
        let r: String = head.concat(digit_str(n % 10));
        proof {
            assert(r@ =~= spec_digits(n as int));
        }
        r
    }
}

/// `n mod 10^places` rendered with exactly `places` digits, zero-padded.
pub fn padded_u64_string(n: u64, places: u64) -> (r: String)
    requires
        1 <= places <= 6,
    ensures
        r@ == spec_padded_digits(n as int, places as int),
    decreases places,
{
    if places == 1 {
        let s: String = String::from_str(digit_str(n % 10));
        proof {
            assert(s@ =~= spec_padded_digits(n as int, places as int));
        }
        s
    } else {
        let head: String = padded_u64_string(n / 10, places - 1);
        let r: String = head.concat(digit_str(n % 10));
        proof {
            assert(r@ =~= spec_padded_digits(n as int, places as int));
        }
        r
    }
}

pub open spec fn spec_pow10(e: int) -> int
    decreases e,
{
    if e <= 0 {
        1
    } else {
        10 * spec_pow10(e - 1)
    }
}

fn pow10(e: u64) -> (r: u64)
    requires
        e <= 6,
    ensures
        r == spec_pow10(e as int),
        r >= 1,
{
    proof {
        reveal_with_fuel(spec_pow10, 7);
    }
    if e == 0 {
        1
    } else if e == 1 {
        10
    } else if e == 2 {
        100
    } else if e == 3 {
        1_000
    } else if e == 4 {
        10_000
    } else if e == 5 {
        100_000
    } else {
        1_000_000
    }
}

/// An amount rendered with `places` fractional digits, truncating the rest:
/// integer part, a point, then the leading `places` digits of the fraction.
pub open spec fn spec_dec_string(units: int, places: int) -> Seq<char> {
    spec_digits(units / (DEC_SCALE as int)) + seq!['.'] + spec_padded_digits(
        (units % (DEC_SCALE as int)) / spec_pow10(6 - places),
        places,
    )
}

/// Render an amount with `places` fractional digits (truncated, zero-padded).
pub fn dec_string(d: Dec, places: u64) -> (r: String)
    requires
        1 <= places <= 6,
    ensures
        r@ == spec_dec_string(d@, places as int),
{
    let whole: u64 = d.units / DEC_SCALE;
    let frac: u64 = (d.units % DEC_SCALE) / pow10(6 - places);
    let head: String = u64_string(whole);
    let mid: String = head.concat(".");
    let r: String = mid.concat(padded_u64_string(frac, places).as_str());
    proof {
        reveal_strlit(".");
        assert("."@ =~= seq!['.']);
        assert(r@ =~= spec_dec_string(d@, places as int));
    }
    r
}

} // verus!
