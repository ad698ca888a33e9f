//! Verified decimal integer parsing: the grammar is an optional sign
//! followed by one or more ASCII digits, and the value must fit the target
//! type; anything else is rejected.

use vstd::prelude::*;

verus! {

pub open spec fn is_digit(c: char) -> bool {
    '0' <= c && c <= '9'
}

pub open spec fn digit_val(c: char) -> int {
    c as int - '0' as int
}

pub open spec fn all_digits(s: Seq<char>) -> bool {
    forall|i: int| 0 <= i < s.len() ==> is_digit(#[trigger] s[i])
}

/// The non-negative integer denoted by a sequence of digits, most
/// significant first.
pub open spec fn digits_val(s: Seq<char>) -> int
    decreases s.len(),
{
    if s.len() == 0 {
        0
    } else {
        digits_val(s.drop_last()) * 10 + digit_val(s.last())
    }
}

pub proof fn lemma_digits_val_nonneg(s: Seq<char>)
    requires
        all_digits(s),
    ensures
        digits_val(s) >= 0,
    decreases s.len(),
{
    if s.len() > 0 {
        assert(all_digits(s.drop_last()));
        lemma_digits_val_nonneg(s.drop_last());
    }
}

/// Appending one digit multiplies the value by ten and adds the digit.
pub proof fn lemma_digits_val_push(s: Seq<char>, c: char)
    ensures
        digits_val(s.push(c)) == digits_val(s) * 10 + digit_val(c),
{
    assert(s.push(c).drop_last() =~= s);
    assert(s.push(c).last() == c);
}

/// A prefix of a digit string denotes no more than the whole string.
pub proof fn lemma_digits_val_prefix_le(s: Seq<char>, j: int)
    requires
        all_digits(s),
        0 <= j <= s.len(),
    ensures
        digits_val(s.take(j)) <= digits_val(s),
    decreases s.len() - j,
{
    if j < s.len() {
        lemma_digits_val_prefix_le(s, j + 1);
        assert(s.take(j + 1) =~= s.take(j).push(s[j]));
        lemma_digits_val_push(s.take(j), s[j]);
        assert(all_digits(s.take(j)));
        lemma_digits_val_nonneg(s.take(j));
    } else {
        assert(s.take(j) =~= s);
    }
}

/// What `str::parse::<i64>` accepts: an optional `+` or `-` sign followed
/// by at least one digit, denoting a value within the range of `i64`.
pub open spec fn spec_parse_i64(s: Seq<char>) -> Option<i64> {
    let signed = s.len() > 0 && (s[0] == '+' || s[0] == '-');
    let digits = if signed {
        s.skip(1)
    } else {
        s
    };
    let negative = s.len() > 0 && s[0] == '-';
    if digits.len() == 0 || !all_digits(digits) {
        None
    } else {
        let v = if negative {
            -digits_val(digits)
        } else {
            digits_val(digits)
        };
        if i64::MIN <= v <= i64::MAX {
            Some(v as i64)
        } else {
            None
        }
    }
}

/// Parses a decimal integer from `s` exactly as [`spec_parse_i64`] says.
pub fn parse_i64(s: &str) -> (r: Option<i64>)
    ensures
        r == spec_parse_i64(s@),
{
    let len = s.unicode_len();
    if len == 0 {
        return None;
    }
    let first = s.get_char(0);
    let negative = first == '-';
    let dstart: usize = if first == '-' || first == '+' {
        1
    } else {
        0
    };
    let ghost digits = s@.skip(dstart as int);
    if len == dstart {
        return None;
    }
    let mut mag: u64 = 0;
    let mut over: bool = false;
    let mut j: usize = dstart;
    proof {
        assert(s@.subrange(dstart as int, dstart as int) =~= Seq::<char>::empty());
        assert(s@.skip(0) =~= s@);
    }
    while j < len
        invariant
            len == s@.len(),
            dstart < len,
            dstart == if s@.len() > 0 && (s@[0] == '+' || s@[0] == '-') {
                1int
            } else {
                0int
            },
            negative == (s@.len() > 0 && s@[0] == '-'),
            dstart <= j <= len,
            digits == s@.skip(dstart as int),
            dstart == 0 ==> digits == s@,
            all_digits(s@.subrange(dstart as int, j as int)),
            !over ==> mag == digits_val(s@.subrange(dstart as int, j as int)),
            over ==> digits_val(s@.subrange(dstart as int, j as int)) > u64::MAX,
        decreases len - j,
    {
        let c = s.get_char(j);
        if !(c >= '0' && c <= '9') {
            proof {
                assert(digits[j - dstart as int] == s@[j as int]);
                assert(!is_digit(digits[j - dstart as int]));
            }
            return None;
        }
        let d: u32 = (c as u32) - 48;
        proof {
            assert(s@.subrange(dstart as int, j + 1 as int)
                =~= s@.subrange(dstart as int, j as int).push(s@[j as int]));
            lemma_digits_val_push(s@.subrange(dstart as int, j as int), s@[j as int]);
            assert(digit_val(s@[j as int]) == d);
        }
        if over {
            proof {
                let prev = s@.subrange(dstart as int, j as int);
                assert(all_digits(prev));
                lemma_digits_val_nonneg(prev);
                assert(digits_val(s@.subrange(dstart as int, j + 1 as int))
                    == digits_val(prev) * 10 + digit_val(s@[j as int]));
            }
        } else {
            let wide: u128 = (mag as u128) * 10 + (d as u128);
            if wide > u64::MAX as u128 {
                over = true;
            } else {
                mag = wide as u64;
            }
        }
        j = j + 1;
    }
    proof {
        assert(s@.subrange(dstart as int, len as int) =~= digits);
        assert(all_digits(digits));
        lemma_digits_val_nonneg(digits);
    }
    if over {
        return None;
    }
    if negative {
        if mag <= i64::MAX as u64 {
            Some(-(mag as i64))
        } else if mag == i64::MAX as u64 + 1 {
            Some(i64::MIN)
        } else {
            None
        }
    } else {
        if mag <= i64::MAX as u64 {
            Some(mag as i64)
        } else {
            None
        }
    }
}

/// Ten to the `k`-th power.
pub open spec fn pow10(k: nat) -> nat
    decreases k,
{
    if k == 0 {
        1
    } else {
        10 * pow10((k - 1) as nat)
    }
}

pub proof fn lemma_pow10_positive(k: nat)
    ensures
        pow10(k) >= 1,
    decreases k,
{
    if k > 0 {
        lemma_pow10_positive((k - 1) as nat)
    }
}

pub proof fn lemma_pow10_increases(i: nat, j: nat)
    requires
        i <= j,
    ensures
        pow10(i) <= pow10(j),
    decreases j,
{
    if i < j {
        lemma_pow10_increases(i, (j - 1) as nat);
        lemma_pow10_positive((j - 1) as nat);
    }
}

pub proof fn lemma_pow10_18()
    ensures
        pow10(18) == 1000000000000000000,
{
    reveal_with_fuel(pow10, 20);
}

/// Computes ten to the `k`-th power for the exponents a well-formed
/// denominator can have.
pub fn pow10_u64(k: usize) -> (r: u64)
    requires
        k <= 18,
    ensures
        r == pow10(k as nat),
{
    proof {
        lemma_pow10_18();
    }
    let mut r: u64 = 1;
    let mut i: usize = 0;
    while i < k
        invariant
            i <= k <= 18,
            r == pow10(i as nat),
        decreases k - i,
    {
        proof {
            lemma_pow10_increases(i as nat + 1, 18);
            lemma_pow10_18();
        }
        r = r * 10;
        i = i + 1;
    }
    r
}

/// One digit-accumulation step, rearranged.
proof fn lemma_acc_step(acc: int, p: int, dv: int, d: int)
    ensures
        acc * (10 * p) + (dv * 10 + d) == 10 * (acc * p + dv) + d,
{
    assert(acc * (10 * p) == 10 * (acc * p)) by (nonlinear_arith);
}

/// The value the digit region `[from, to)` of `s` appends to an already
/// accumulated value `acc`: exact below the saturation bound `sat`, and at
/// least `sat` exactly when the appended value is.  Yields `None` when the
/// region holds a non-digit.
pub fn scan_digits(s: &str, from: usize, to: usize, sat: u128, acc: u128) -> (r: Option<u128>)
    requires
        from <= to <= s@.len(),
        1 <= sat <= (u128::MAX - 9) / 10,
    ensures
        ({
            let region = s@.subrange(from as int, to as int);
            let full = acc * pow10(region.len()) + digits_val(region);
            match r {
                Some(v) => {
                    &&& all_digits(region)
                    &&& (v < sat ==> v == full)
                    &&& (v >= sat ==> full >= sat)
                },
                None => !all_digits(region),
            }
        }),
{
    let ghost region = s@.subrange(from as int, to as int);
    let mut v: u128 = acc;
    let mut j: usize = from;
    proof {
        assert(s@.subrange(from as int, from as int) =~= Seq::<char>::empty());
        assert(pow10(0) == 1);
        assert(acc * pow10(0) + digits_val(Seq::<char>::empty()) == acc);
    }
    while j < to
        invariant
            from <= j <= to <= s@.len(),
            region == s@.subrange(from as int, to as int),
            1 <= sat <= (u128::MAX - 9) / 10,
            all_digits(s@.subrange(from as int, j as int)),
            v < sat ==> v == acc * pow10((j - from) as nat) + digits_val(
                s@.subrange(from as int, j as int),
            ),
            v >= sat ==> acc * pow10((j - from) as nat) + digits_val(
                s@.subrange(from as int, j as int),
            ) >= sat,
        decreases to - j,
    {
        let c = s.get_char(j);
        if !(c >= '0' && c <= '9') {
            proof {
                assert(region[j - from as int] == s@[j as int]);
                assert(!is_digit(region[j - from as int]));
            }
            return None;
        }
        let d: u32 = (c as u32) - 48;
        let ghost prev = s@.subrange(from as int, j as int);
        let ghost n = (j - from) as nat;
        proof {
            assert(s@.subrange(from as int, j + 1 as int) =~= prev.push(s@[j as int]));
            lemma_digits_val_push(prev, s@[j as int]);
            assert(digit_val(s@[j as int]) == d);
            lemma_digits_val_nonneg(prev);
            lemma_pow10_positive(n);
            assert(pow10(n + 1) == 10 * pow10(n));
            lemma_acc_step(acc as int, pow10(n) as int, digits_val(prev), d as int);
        }
        if v < sat {
            v = v * 10 + (d as u128);
        } else {
            proof {
                let full = acc * pow10(n) + digits_val(prev);
                assert(10 * full + d >= full);
            }
        }
        j = j + 1;
    }
    proof {
        assert(s@.subrange(from as int, to as int) =~= region);
    }
    Some(v)
}

} // verus!
