//! Rendering numbers as text: decimal digits of an integer, and the
//! relative-time tag `x<quotient to two decimal places>` drawn past the
//! end of each chart bar.

use vstd::prelude::*;
use vstd::string::StringExecFns;

verus! {

/// The digit character for one decimal digit.
pub open spec fn digit_char(d: nat) -> char {
    if d == 0 {
        '0'
    } else if d == 1 {
        '1'
    } else if d == 2 {
        '2'
    } else if d == 3 {
        '3'
    } else if d == 4 {
        '4'
    } else if d == 5 {
        '5'
    } else if d == 6 {
        '6'
    } else if d == 7 {
        '7'
    } else if d == 8 {
        '8'
    } else {
        '9'
    }
}

/// The decimal digits of `n`, most significant first, without leading
/// zeros (`0` is the single digit `0`).
pub open spec fn spec_digits(n: nat) -> Seq<char>
    decreases n,
{
    if n < 10 {
        seq![digit_char(n)]
    } else {
        spec_digits(n / 10).push(digit_char(n % 10))
    }
}

/// Returns one decimal digit as text.
fn digit_str(d: u128) -> (r: &'static str)
    requires
        d < 10,
    ensures
        r@ == seq![digit_char(d as nat)],
{
    proof {
        reveal_strlit("0");
        reveal_strlit("1");
        reveal_strlit("2");
        reveal_strlit("3");
        reveal_strlit("4");
        reveal_strlit("5");
        reveal_strlit("6");
        reveal_strlit("7");
        reveal_strlit("8");
        reveal_strlit("9");
    }
    let r = if d == 0 {
        "0"
    } else if d == 1 {
        "1"
    } else if d == 2 {
        "2"
    } else if d == 3 {
        "3"
    } else if d == 4 {
        "4"
    } else if d == 5 {
        "5"
    } else if d == 6 {
        "6"
    } else if d == 7 {
        "7"
    } else if d == 8 {
        "8"
    } else {
        "9"
    };
    proof {
        assert(r@ =~= seq![digit_char(d as nat)]);
    }
    r
}

/// Renders `n` in decimal, matching [`spec_digits`].
pub fn u128_digits(n: u128) -> (r: String)
    ensures
        r@ == spec_digits(n as nat),
    decreases n,
{
    if n < 10 {
        digit_str(n).to_owned()
    } else {
        let mut s = u128_digits(n / 10);
        s.append(digit_str(n % 10));
        proof {
            assert(s@ =~= spec_digits((n / 10) as nat).push(digit_char((n % 10) as nat)));
        }
        s
    }
}

/// The quotient `num / den` in hundredths, rounded to the nearest with
/// ties to even.
pub open spec fn spec_hundredths(num: int, den: int) -> int
    recommends
        den > 0,
{
    let n2 = num * 100;
    let q = n2 / den;
    let r = n2 % den;
    if 2 * r < den {
        q
    } else if 2 * r > den {
        q + 1
    } else if q % 2 == 0 {
        q
    } else {
        q + 1
    }
}

/// The text drawn past the end of a chart bar: the relative time to two
/// decimal places, as `x2.00`.  A zero denominator arises only when the
/// group's fastest estimate is zero; the tag then names the undefined
/// (`xNaN`) or unbounded (`xinf`) quotient instead of a number.
#[verifier::opaque]
pub open spec fn spec_tag(num: int, den: int) -> Seq<char> {
    if den == 0 {
        if num == 0 {
            "xNaN"@
        } else {
            "xinf"@
        }
    } else {
        let h = spec_hundredths(num, den);
        "x"@ + spec_digits((h / 100) as nat) + "."@ + seq![
            digit_char(((h / 10) % 10) as nat),
            digit_char((h % 10) as nat),
        ]
    }
}

/// Renders the relative-time tag, matching [`spec_tag`].
pub fn rel_tag(num: u128, den: u128) -> (r: String)
    requires
        num <= 1000000000000000000000000000000000000,
        den <= 1000000000000000000000000000000000000,
    ensures
        r@ == spec_tag(num as int, den as int),
{
    proof {
        reveal(spec_tag);
    }
    if den == 0 {
        if num == 0 {
            return "xNaN".to_owned();
        }
        return "xinf".to_owned();
    }
    let n2 = num * 100;
    let q = n2 / den;
    let rem = n2 % den;
    let h = if 2 * rem < den {
        q
    } else if 2 * rem > den {
        q + 1
    } else if q % 2 == 0 {
        q
    } else {
        q + 1
    };
    proof {
        assert(h == spec_hundredths(num as int, den as int));
    }
    let mut s = "x".to_owned();
    let whole = u128_digits(h / 100);
    s.append(whole.as_str());
    s.append(".");
    s.append(digit_str((h / 10) % 10));
    s.append(digit_str(h % 10));
    proof {
        assert(s@ =~= spec_tag(num as int, den as int));
    }
    s
}

} // verus!
