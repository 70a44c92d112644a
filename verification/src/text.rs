//! Decimal text rendering shared by the value model and token
//! diagnostics: the digit string of a number, with its specification.

use vstd::prelude::*;
use vstd::string::StringExecFns;

verus! {

/// The decimal character for a digit value; values outside 0..=9 never arise.
pub open spec fn decimal_digit(d: int) -> char {
    if d == 0 {
        '0'
    } else if d == 1 {
        '1'
    } else if d == 2 {
        '2'
    } else if d == 3 {
        '3'
    } else if d == 4 {
        '4'
    } else if d == 5 {
        '5'
    } else if d == 6 {
        '6'
    } else if d == 7 {
        '7'
    } else if d == 8 {
        '8'
    } else {
        '9'
    }
}

/// The decimal digit string of a non-negative number, most significant digit
/// first, with no leading zeros (except for the number zero itself).
pub open spec fn spec_decimal_digits(n: nat) -> Seq<char>
    decreases n,
{
    if n < 10 {
        seq![decimal_digit(n as int)]
    } else {
        spec_decimal_digits(n / 10).push(decimal_digit((n % 10) as int))
    }
}

/// The decimal digit string of `n`, matching [`spec_decimal_digits`].
pub(crate) fn decimal_string(n: u64) -> (s: String)
    ensures
        s@ == spec_decimal_digits(n as nat),
    decreases n,
{
    if n < 10 {
        String::from_str(decimal_digit_str(n))
    } else {
        let mut s = decimal_string(n / 10);
        s.append(decimal_digit_str(n % 10));
        proof {
            assert(s@ =~= spec_decimal_digits(n as nat));
        }
        s
    }
}

/// The one-character string for a digit value below ten.
pub(crate) fn decimal_digit_str(d: u64) -> (s: &'static str)
    requires
        d < 10,
    ensures
        s@ == seq![decimal_digit(d as int)],
{
    if d == 0 {
        proof {
            reveal_strlit("0");
            assert("0"@ =~= seq!['0']);
        }
        "0"
    } else if d == 1 {
        proof {
            reveal_strlit("1");
            assert("1"@ =~= seq!['1']);
        }
        "1"
    } else if d == 2 {
        proof {
            reveal_strlit("2");
            assert("2"@ =~= seq!['2']);
        }
        "2"
    } else if d == 3 {
        proof {
            reveal_strlit("3");
            assert("3"@ =~= seq!['3']);
        }
        "3"
    } else if d == 4 {
        proof {
            reveal_strlit("4");
            assert("4"@ =~= seq!['4']);
        }
        "4"
    } else if d == 5 {
        proof {
            reveal_strlit("5");
            assert("5"@ =~= seq!['5']);
        }
        "5"
    } else if d == 6 {
        proof {
            reveal_strlit("6");
            assert("6"@ =~= seq!['6']);
        }
        "6"
    } else if d == 7 {
        proof {
            reveal_strlit("7");
            assert("7"@ =~= seq!['7']);
        }
        "7"
    } else if d == 8 {
        proof {
            reveal_strlit("8");
            assert("8"@ =~= seq!['8']);
        }
        "8"
    } else {
        proof {
            reveal_strlit("9");
            assert("9"@ =~= seq!['9']);
        }
        "9"
    }
}

} // verus!
