//! The measurement scalar: an exact non-negative decimal number held as
//! `num / den` with `den` a power of ten.
//!
//! Holding estimates exactly lets the chart normalization be stated and
//! proved as integer arithmetic.  The bounds — a value of fewer than 19
//! digits and a denominator of at most ten to the 18th — keep every
//! product the chart needs inside `u128`; a decimal outside these bounds
//! is rejected at parse time.

use vstd::prelude::*;

use crate::num::all_digits;
use crate::num::digits_val;
use crate::num::is_digit;
use crate::num::lemma_digits_val_nonneg;
use crate::num::lemma_pow10_18;
use crate::num::lemma_pow10_increases;
use crate::num::lemma_pow10_positive;
use crate::num::pow10;
use crate::num::pow10_u64;
use crate::num::scan_digits;
use crate::strutil::find_char;
use crate::strutil::find_in;
use crate::strutil::lemma_find_char_prefix;

verus! {

/// The largest numerator a well-formed estimate can hold.
pub const EST_NUM_LIMIT: u64 = 999999999999999999;

/// An exact non-negative decimal scalar with value `num / den`.
#[derive(Debug, Clone, Copy, PartialEq, Eq, Structural)]
pub struct Estimate {
    pub num: u64,
    pub den: u64,
}

impl Estimate {
    /// Well-formedness: the numerator is bounded and the denominator is a
    /// power of ten no larger than ten to the 18th.
    pub open spec fn wf(self) -> bool {
        &&& self.num <= EST_NUM_LIMIT
        &&& exists|k: nat| k <= 18 && self.den == pow10(k)
    }

    /// The ordering of the denoted values, by cross-multiplication.
    pub open spec fn spec_le(self, other: Estimate) -> bool {
        self.num * other.den <= other.num * self.den
    }

    /// Compares the denoted values: `self <= other`.
    pub fn le(&self, other: &Estimate) -> (r: bool)
        ensures
            r == self.spec_le(*other),
    {
        proof {
            lemma_mul_bound(self.num as int, other.den as int, u64::MAX as int, u64::MAX as int);
            lemma_mul_bound(other.num as int, self.den as int, u64::MAX as int, u64::MAX as int);
        }
        (self.num as u128) * (other.den as u128) <= (other.num as u128) * (self.den as u128)
    }
}

impl Estimate {
    /// Tests well-formedness, for callers outside verified code.
    pub fn is_wf(&self) -> (r: bool)
        ensures
            r == self.wf(),
    {
        if self.num > EST_NUM_LIMIT {
            return false;
        }
        let mut p: u64 = 1;
        let mut k: usize = 0;
        proof {
            lemma_pow10_18();
        }
        while k <= 18
            invariant
                k <= 19,
                p == pow10(k as nat),
                self.num <= EST_NUM_LIMIT,
                forall|j: nat| j < k ==> pow10(j) != self.den,
            decreases 19 - k,
        {
            if p == self.den {
                proof {
                    assert(k as nat <= 18 && self.den == pow10(k as nat));
                }
                return true;
            }
            if k < 18 {
                proof {
                    lemma_pow10_increases(k as nat + 1, 18);
                    lemma_pow10_18();
                }
                p = p * 10;
            } else {
                proof {
                    assert(forall|j: nat| j <= 18 ==> j < 19 && pow10(j) != self.den);
                }
                return false;
            }
            k = k + 1;
        }
        false
    }
}

/// A well-formed denominator is positive.
pub proof fn lemma_wf_den_positive(e: Estimate)
    requires
        e.wf(),
    ensures
        1 <= e.den <= 1000000000000000000,
{
    let k = choose|k: nat| k <= 18 && e.den == pow10(k);
    lemma_pow10_positive(k);
    lemma_pow10_increases(k, 18);
    lemma_pow10_18();
}

/// Bounded factors give a bounded product.
pub proof fn lemma_mul_bound(a: int, b: int, aa: int, bb: int)
    requires
        0 <= a <= aa,
        0 <= b <= bb,
    ensures
        a * b <= aa * bb,
{
    assert(a * b <= aa * bb) by (nonlinear_arith)
        requires
            0 <= a <= aa,
            0 <= b <= bb,
    ;
}

/// Multiplying a non-negative number by a factor of at least one cannot
/// shrink it.
pub proof fn lemma_mul_ge_self(a: int, p: int)
    requires
        0 <= a,
        1 <= p,
    ensures
        a <= a * p,
{
    assert(a <= a * p) by (nonlinear_arith)
        requires
            0 <= a,
            1 <= p,
    ;
}

/// The value ordering is transitive on scalars with positive
/// denominators.
pub proof fn lemma_le_trans(a: Estimate, b: Estimate, c: Estimate)
    requires
        a.den >= 1,
        b.den >= 1,
        c.den >= 1,
        a.spec_le(b),
        b.spec_le(c),
    ensures
        a.spec_le(c),
{
    assert(a.num * c.den <= c.num * a.den) by (nonlinear_arith)
        requires
            a.den >= 1,
            b.den >= 1,
            c.den >= 1,
            a.num >= 0,
            b.num >= 0,
            c.num >= 0,
            a.num * b.den <= b.num * a.den,
            b.num * c.den <= c.num * b.den,
    ;
}

/// The value ordering is total.
pub proof fn lemma_le_total(a: Estimate, b: Estimate)
    ensures
        a.spec_le(b) || b.spec_le(a),
{
}

/// What parsing an exponent part yields: an optional sign followed by at
/// least one digit.
pub open spec fn spec_parse_exp(s: Seq<char>) -> Option<int> {
    let signed = s.len() > 0 && (s[0] == '+' || s[0] == '-');
    let negative = s.len() > 0 && s[0] == '-';
    let digits = if signed {
        s.skip(1)
    } else {
        s
    };
    if digits.len() == 0 || !all_digits(digits) {
        None
    } else if negative {
        Some(-digits_val(digits))
    } else {
        Some(digits_val(digits))
    }
}

/// What parsing a decimal scalar yields.  The grammar is that of a
/// non-negative decimal number: digits, an optional fraction, and an
/// optional exponent (`digits [. digits] [(e|E) [+|-] digits]`).  The
/// denoted value must fit the representation: fewer than 19 significant
/// digits once scaled, and at most 18 decimal places.
pub open spec fn spec_parse_decimal(s: Seq<char>) -> Option<Estimate> {
    let e = find_char(s, 'e', 'E');
    let mant = s.take(e);
    let exp_opt = if e < s.len() {
        spec_parse_exp(s.skip(e + 1))
    } else {
        Some(0int)
    };
    let d = find_char(mant, '.', '.');
    let has_frac = d < mant.len();
    let intd = mant.take(d);
    let frac = if has_frac {
        mant.skip(d + 1)
    } else {
        Seq::<char>::empty()
    };
    if exp_opt is None {
        None
    } else if intd.len() == 0 || !all_digits(intd) {
        None
    } else if has_frac && (frac.len() == 0 || !all_digits(frac)) {
        None
    } else {
        let mv = digits_val(intd + frac);
        let scale = exp_opt.unwrap() - frac.len();
        if scale >= 0 {
            let n = mv * pow10(scale as nat);
            if n <= EST_NUM_LIMIT {
                Some(Estimate { num: n as u64, den: 1 })
            } else {
                None
            }
        } else {
            if -scale <= 18 && mv <= EST_NUM_LIMIT {
                Some(Estimate { num: mv as u64, den: pow10((-scale) as nat) as u64 })
            } else {
                None
            }
        }
    }
}

/// Every scalar the parse accepts is well-formed.
pub proof fn lemma_parse_decimal_wf(s: Seq<char>)
    requires
        spec_parse_decimal(s) is Some,
    ensures
        spec_parse_decimal(s)->Some_0.wf(),
{
    let e = find_char(s, 'e', 'E');
    let mant = s.take(e);
    let d = find_char(mant, '.', '.');
    let has_frac = d < mant.len();
    let intd = mant.take(d);
    let frac = if has_frac {
        mant.skip(d + 1)
    } else {
        Seq::<char>::empty()
    };
    let exp_opt = if e < s.len() {
        spec_parse_exp(s.skip(e + 1))
    } else {
        Some(0int)
    };
    let mv = digits_val(intd + frac);
    let scale = exp_opt.unwrap() - frac.len();
    assert(all_digits(intd + frac)) by {
        assert(all_digits(intd));
        assert(all_digits(frac));
        assert(forall|i: int|
            0 <= i < (intd + frac).len() ==> is_digit(#[trigger] (intd + frac)[i]));
    }
    lemma_digits_val_nonneg(intd + frac);
    if scale >= 0 {
        assert(pow10(0) == 1);
    } else {
        let k = (-scale) as nat;
        lemma_pow10_increases(k, 18);
        lemma_pow10_18();
        assert(pow10(k) == pow10(k) as u64);
    }
}

/// The saturation bound used when scanning an exponent: far above any
/// scale the representation could absorb.
const EXP_SAT: u128 = 18446744073709551635;

/// Reads the exponent part that starts at `from` (just after the marker):
/// the sign flag and the digit magnitude, the latter exact below
/// [`EXP_SAT`] and otherwise a witness that the true magnitude is at
/// least that.
fn parse_exp_part(s: &str, from: usize) -> (r: Option<(bool, u128)>)
    requires
        from <= s@.len(),
    ensures
        ({
            let se = spec_parse_exp(s@.skip(from as int));
            match r {
                None => se is None,
                Some((neg, mag)) => {
                    &&& se is Some
                    &&& mag < EXP_SAT ==> se->Some_0 == if neg {
                        -(mag as int)
                    } else {
                        mag as int
                    }
                    &&& (mag >= EXP_SAT && !neg) ==> se->Some_0 >= EXP_SAT
                    &&& (mag >= EXP_SAT && neg) ==> se->Some_0 <= -(EXP_SAT as int)
                },
            }
        }),
{
    let ghost tail = s@.skip(from as int);
    let len = s.unicode_len();
    let mut dstart = from;
    let mut neg = false;
    if from < len {
        let c0 = s.get_char(from);
        if c0 == '+' {
            dstart = from + 1;
        } else if c0 == '-' {
            neg = true;
            dstart = from + 1;
        }
    }
    proof {
        assert(tail.len() > 0 ==> tail[0] == s@[from as int]);
        if dstart == from {
            assert(s@.subrange(dstart as int, len as int) =~= tail);
        } else {
            assert(s@.subrange(dstart as int, len as int) =~= tail.skip(1));
        }
    }
    if dstart == len {
        // a sign (or nothing) without digits
        return None;
    }
    match scan_digits(s, dstart, len, EXP_SAT, 0) {
        None => None,
        Some(v) => {
            proof {
                let region = s@.subrange(dstart as int, len as int);
                assert(0 * pow10(region.len()) + digits_val(region) == digits_val(region));
                lemma_digits_val_nonneg(region);
            }
            Some((neg, v))
        },
    }
}

/// Parses a decimal scalar exactly as [`spec_parse_decimal`] says.
pub fn parse_decimal(s: &str) -> (r: Option<Estimate>)
    ensures
        r == spec_parse_decimal(s@),
{
    let len = s.unicode_len();
    let epos = find_in(s, 'e', 'E');
    let ghost mant = s@.take(epos as int);
    let dotpos = find_in(s, '.', '.');
    let d: usize = if dotpos < epos {
        dotpos
    } else {
        epos
    };
    proof {
        lemma_find_char_prefix(s@, '.', '.', epos as int);
        assert(find_char(mant, '.', '.') == d);
    }
    let has_frac = d < epos;
    let ghost intd = mant.take(d as int);
    let ghost frac = if has_frac {
        mant.skip(d + 1 as int)
    } else {
        Seq::<char>::empty()
    };
    proof {
        assert(intd =~= s@.subrange(0, d as int));
        if has_frac {
            assert(frac =~= s@.subrange(d + 1 as int, epos as int));
        }
    }

    // the exponent: absent means zero
    let mut exp_neg = false;
    let mut exp_mag: u128 = 0;
    if epos < len {
        match parse_exp_part(s, epos + 1) {
            None => {
                return None;
            },
            Some((neg, mag)) => {
                exp_neg = neg;
                exp_mag = mag;
            },
        }
    }
    let ghost exp_opt = if epos < s@.len() {
        spec_parse_exp(s@.skip(epos + 1 as int))
    } else {
        Some(0int)
    };
    proof {
        assert(exp_opt is Some);
        assert(exp_mag < EXP_SAT ==> exp_opt->Some_0 == if exp_neg {
            -(exp_mag as int)
        } else {
            exp_mag as int
        });
    }

    // mantissa digits: the integer part, then the fraction, as one value
    let sat_m: u128 = 1000000000000000000;
    if d == 0 {
        return None;
    }
    let v1 = match scan_digits(s, 0, d, sat_m, 0) {
        None => {
            return None;
        },
        Some(v) => v,
    };
    proof {
        assert(0 * pow10(intd.len()) + digits_val(intd) == digits_val(intd));
    }
    let mv = if has_frac {
        if d + 1 == epos {
            // a decimal point with no fraction digits
            return None;
        }
        match scan_digits(s, d + 1, epos, sat_m, v1) {
            None => {
                return None;
            },
            Some(v) => {
                proof {
                    lemma_digits_val_concat(intd, frac);
                    lemma_digits_val_nonneg(intd);
                    lemma_digits_val_nonneg(frac);
                    lemma_pow10_positive(frac.len());
                    if v1 >= sat_m {
                        lemma_mul_ge_self(digits_val(intd), pow10(frac.len()) as int);
                        lemma_mul_ge_self(v1 as int, pow10(frac.len()) as int);
                    }
                }
                v
            },
        }
    } else {
        proof {
            assert(intd + frac =~= intd);
        }
        v1
    };
    let ghost mval = digits_val(intd + frac);
    proof {
        lemma_digits_val_nonneg(intd + frac);
        assert(mv < sat_m ==> mv == mval);
        assert(mv >= sat_m ==> mval >= sat_m);
    }
    let ghost scale = exp_opt->Some_0 - frac.len();
    if mv >= sat_m {
        // 19 or more significant digits: out of range either way
        proof {
            if scale >= 0 {
                lemma_pow10_positive(scale as nat);
                lemma_mul_ge_self(mval, pow10(scale as nat) as int);
            }
        }
        return None;
    }
    let fraclen: usize = if has_frac {
        epos - d - 1
    } else {
        0
    };
    proof {
        assert(fraclen == frac.len());
    }
    if !exp_neg {
        if exp_mag >= EXP_SAT {
            // the scale is far above 18
            proof {
                lemma_scale_too_large(mval, scale);
            }
            if mv == 0 {
                return Some(Estimate { num: 0, den: 1 });
            }
            return None;
        }
        if exp_mag >= fraclen as u128 {
            let sc = exp_mag - fraclen as u128;
            proof {
                assert(scale == sc);
            }
            if sc > 18 {
                proof {
                    lemma_scale_too_large(mval, scale);
                }
                if mv == 0 {
                    return Some(Estimate { num: 0, den: 1 });
                }
                return None;
            }
            let p = pow10_u64(sc as usize);
            proof {
                lemma_pow10_increases(sc as nat, 18);
                lemma_pow10_18();
                lemma_mul_bound(mv as int, p as int, 1000000000000000000, 1000000000000000000);
            }
            let n = mv * (p as u128);
            if n <= EST_NUM_LIMIT as u128 {
                return Some(Estimate { num: n as u64, den: 1 });
            }
            return None;
        }
        let k = fraclen as u128 - exp_mag;
        proof {
            assert(scale == -(k as int));
        }
        if k > 18 {
            return None;
        }
        return Some(Estimate { num: mv as u64, den: pow10_u64(k as usize) });
    }
    // a negative exponent: the scale is -exp_mag - fraclen
    if exp_mag >= EXP_SAT {
        proof {
            assert(scale <= -(EXP_SAT as int));
        }
        return None;
    }
    let k = exp_mag + fraclen as u128;
    proof {
        assert(scale == -(k as int));
    }
    if k == 0 {
        proof {
            assert(pow10(0) == 1);
            assert(mval * 1 == mval) by (nonlinear_arith);
            assert(mval * pow10(0) == mval);
        }
        return Some(Estimate { num: mv as u64, den: 1 });
    }
    if k > 18 {
        return None;
    }
    Some(Estimate { num: mv as u64, den: pow10_u64(k as usize) })
}

/// A value of at least one scaled up by more than 18 decades exceeds the
/// numerator bound.
proof fn lemma_scale_too_large(mval: int, scale: int)
    requires
        mval >= 0,
        scale > 18,
    ensures
        mval >= 1 ==> mval * pow10(scale as nat) > EST_NUM_LIMIT,
        mval == 0 ==> mval * pow10(scale as nat) == 0,
{
    lemma_pow10_increases(19, scale as nat);
    lemma_pow10_18();
    assert(pow10(19) == 10 * pow10(18));
    if mval >= 1 {
        assert(mval * pow10(scale as nat) >= pow10(scale as nat)) by (nonlinear_arith)
            requires
                mval >= 1,
                pow10(scale as nat) >= 0,
        ;
    }
}

/// Concatenating digit strings: the combined value scales the left part
/// by ten to the length of the right part.
pub proof fn lemma_digits_val_concat(a: Seq<char>, b: Seq<char>)
    ensures
        digits_val(a + b) == digits_val(a) * pow10(b.len()) + digits_val(b),
    decreases b.len(),
{
    if b.len() == 0 {
        assert(a + b =~= a);
        assert(pow10(0) == 1);
    } else {
        let b0 = b.drop_last();
        let c = b.last();
        lemma_digits_val_concat(a, b0);
        assert((a + b).drop_last() =~= a + b0);
        assert((a + b).last() == c);
        assert(pow10(b.len()) == 10 * pow10(b0.len()));
        assert((digits_val(a) * pow10(b0.len()) + digits_val(b0)) * 10 + crate::num::digit_val(c)
            == digits_val(a) * (10 * pow10(b0.len())) + (digits_val(b0) * 10
                + crate::num::digit_val(c))) by (nonlinear_arith);
    }
}

} // verus!
