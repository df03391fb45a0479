//! Decimal numbers: the engine's model of double-precision values.
//!
//! A finite number is a sign, a significand of at most 19 decimal digits,
//! and a power-of-ten exponent; infinities and not-a-number round the type
//! out. Every operation keeps values canonical: the significand has no
//! trailing zero, zero itself has exponent 0 and a positive sign, and the
//! exponent stays within a fixed range (values beyond it saturate to an
//! infinity or to zero). Significands wider than 19 digits are truncated,
//! least significant digits first.

use vstd::prelude::*;

use crate::text::{all_digits, ascii_lower_char, dec_digits, digit_prefix_len, digit_val,
    digits_val, eq_ignore_ascii, int_str, is_digit, lemma_digit_prefix_len_char,
    lemma_digits_val_nonneg, lemma_digits_val_push, lower_char, scan_digits};

verus! {

/// One more than the largest significand: 10^19.
pub const MANT_CAP: u64 = 10000000000000000000;

/// The largest magnitude of a finite exponent: 10^15.
pub const EXP_CAP: i64 = 1000000000000000;

/// A finite decimal: `(-1)^neg * mant * 10^exp`.
#[derive(Debug, Clone, Copy, PartialEq, Eq)]
pub struct Dec {
    pub neg: bool,
    pub mant: u64,
    pub exp: i64,
}

/// A decimal number, or one of the two infinities, or not-a-number.
#[derive(Debug, Clone, Copy, PartialEq, Eq)]
pub enum Float {
    Finite(Dec),
    Inf(bool),
    NaN,
}

pub open spec fn dec_wf(d: Dec) -> bool {
    &&& d.mant < MANT_CAP
    &&& -(EXP_CAP as int) <= d.exp as int <= EXP_CAP as int
    &&& (d.mant == 0 ==> d.exp == 0 && !d.neg)
    &&& (d.mant != 0 ==> d.mant as int % 10 != 0)
}

pub open spec fn float_wf(f: Float) -> bool {
    match f {
        Float::Finite(d) => dec_wf(d),
        Float::Inf(_) => true,
        Float::NaN => true,
    }
}

pub open spec fn zero_float() -> Float {
    Float::Finite(Dec { neg: false, mant: 0, exp: 0 })
}

// ---------- significand truncation and normalization ----------

/// Truncate a non-negative significand to fewer than 19 digits, dropping the
/// least significant digits and raising the exponent for each one dropped.
pub open spec fn cap_spec(m: int, e: int) -> (int, int)
    decreases m,
{
    if m >= MANT_CAP as int {
        cap_spec(m / 10, e + 1)
    } else {
        (m, e)
    }
}

/// Strip trailing zeros from a significand, raising the exponent for each;
/// zero itself normalizes to `(0, 0)`.
pub open spec fn norm_spec(m: int, e: int) -> (int, int)
    decreases m,
{
    if m <= 0 {
        (0, 0)
    } else if m % 10 == 0 {
        norm_spec(m / 10, e + 1)
    } else {
        (m, e)
    }
}

/// The canonical number with sign `neg` and value `m * 10^e`: the
/// significand is truncated to 19 digits and stripped of trailing zeros,
/// and an exponent beyond the cap saturates to an infinity or to zero.
pub open spec fn make_float_spec(neg: bool, m: int, e: int) -> Float {
    let c = cap_spec(m, e);
    let n = norm_spec(c.0, c.1);
    if n.0 == 0 {
        zero_float()
    } else if n.1 > EXP_CAP as int {
        Float::Inf(neg)
    } else if n.1 < -(EXP_CAP as int) {
        zero_float()
    } else {
        Float::Finite(Dec { neg, mant: n.0 as u64, exp: n.1 as i64 })
    }
}

pub proof fn lemma_cap_bounds(m: int, e: int)
    requires
        m >= 0,
    ensures
        0 <= cap_spec(m, e).0 < MANT_CAP as int,
        e <= cap_spec(m, e).1,
        cap_spec(m, e).0 == 0 <==> m == 0,
    decreases m,
{
    if m >= MANT_CAP as int {
        lemma_cap_bounds(m / 10, e + 1);
    }
}

/// After `k` divisions by ten the significand of `m < 10^19 * 10^k` fits.
pub proof fn lemma_cap_depth(m: int, e: int, k: int)
    requires
        0 <= m,
        0 <= k,
        m < MANT_CAP as int * pow10(k as nat),
    ensures
        cap_spec(m, e).1 <= e + k,
    decreases k,
{
    if m >= MANT_CAP as int {
        assert(k > 0) by {
            if k == 0 {
                assert(pow10(0nat) == 1);
            }
        }
        assert(pow10(k as nat) == 10 * pow10((k - 1) as nat));
        assert(m / 10 < MANT_CAP as int * pow10((k - 1) as nat)) by (nonlinear_arith)
            requires
                m < MANT_CAP as int * (10 * pow10((k - 1) as nat)),
                m >= 0,
        ;
        lemma_cap_depth(m / 10, e + 1, k - 1);
        assert(cap_spec(m, e) == cap_spec(m / 10, e + 1));
    }
}

pub open spec fn pow10(k: nat) -> int
    decreases k,
{
    if k == 0 {
        1
    } else {
        10 * pow10((k - 1) as nat)
    }
}

pub proof fn lemma_pow10_pos(k: nat)
    ensures
        pow10(k) >= 1,
    decreases k,
{
    if k > 0 {
        lemma_pow10_pos((k - 1) as nat);
    }
}

pub proof fn lemma_norm_bounds(m: int, e: int)
    requires
        0 <= m,
    ensures
        0 <= norm_spec(m, e).0 <= m,
        m > 0 ==> norm_spec(m, e).0 > 0 && e <= norm_spec(m, e).1,
        m == 0 ==> norm_spec(m, e) == (0int, 0int),
        norm_spec(m, e).0 == 0 <==> m == 0,
    decreases m,
{
    if m > 0 && m % 10 == 0 {
        lemma_norm_bounds(m / 10, e + 1);
        assert(norm_spec(m, e) == norm_spec(m / 10, e + 1));
    }
}

/// Trailing zeros are fewer than the digit count: `m < 10^j` normalizes
/// within `j` steps.
pub proof fn lemma_norm_depth(m: int, e: int, j: int)
    requires
        0 < m,
        0 <= j,
        m < pow10(j as nat),
    ensures
        norm_spec(m, e).1 <= e + j,
    decreases m,
{
    if m > 0 && m % 10 == 0 {
        assert(j > 0) by {
            if j == 0 {
                assert(pow10(0nat) == 1);
            }
        }
        assert(pow10(j as nat) == 10 * pow10((j - 1) as nat));
        assert(m / 10 < pow10((j - 1) as nat)) by (nonlinear_arith)
            requires
                m < 10 * pow10((j - 1) as nat),
                m >= 0,
        ;
        lemma_norm_depth(m / 10, e + 1, j - 1);
        assert(norm_spec(m, e) == norm_spec(m / 10, e + 1));
    }
}

pub proof fn lemma_make_float_wf(neg: bool, m: int, e: int)
    requires
        m >= 0,
    ensures
        float_wf(make_float_spec(neg, m, e)),
{
    lemma_cap_bounds(m, e);
    let c = cap_spec(m, e);
    lemma_norm_bounds(c.0, c.1);
    let n = norm_spec(c.0, c.1);
    if n.0 != 0 {
        assert(n == norm_spec(c.0, c.1));
        lemma_norm_last_digit(c.0, c.1);
    }
}

proof fn lemma_norm_last_digit(m: int, e: int)
    requires
        0 <= m,
    ensures
        norm_spec(m, e).0 != 0 ==> norm_spec(m, e).0 % 10 != 0,
        norm_spec(m, e).0 <= m,
    decreases m,
{
    if m > 0 && m % 10 == 0 {
        lemma_norm_last_digit(m / 10, e + 1);
    }
}

// ---------- executable construction ----------

/// One more than the largest significand, as a 128-bit value.
pub const MANT_CAP_128: u128 = 10000000000000000000;

fn cap_exec(m: u128, e: i128, fuel: u32) -> (r: (u128, i128))
    requires
        fuel <= 40,
        (m as int) < MANT_CAP as int * pow10(fuel as nat),
        -10000000000000000000000 <= e as int,
        e as int <= 10000000000000000000000 + 40 - fuel as int,
    ensures
        r.0 as int == cap_spec(m as int, e as int).0,
        r.1 as int == cap_spec(m as int, e as int).1,
        r.0 < MANT_CAP as u128,
        -10000000000000000000000 <= r.1 as int <= 10000000000000000000000 + 40,
    decreases m,
{
    proof {
        lemma_cap_bounds(m as int, e as int);
        lemma_cap_depth(m as int, e as int, fuel as int);
    }
    if m >= MANT_CAP_128 {
        proof {
            assert(fuel > 0) by {
                if fuel == 0 {
                    assert(pow10(0nat) == 1);
                }
            }
            assert(pow10(fuel as nat) == 10 * pow10((fuel - 1) as nat));
            assert((m as int) / 10 < MANT_CAP as int * pow10((fuel - 1) as nat))
                by (nonlinear_arith)
                requires
                    (m as int) < MANT_CAP as int * (10 * pow10((fuel - 1) as nat)),
                    m >= 0,
            ;
        }
        cap_exec(m / 10, e + 1, fuel - 1)
    } else {
        (m, e)
    }
}

fn norm_exec(m: u64, e: i128, fuel: u32) -> (r: (u64, i128))
    requires
        fuel <= 20,
        (m as int) < pow10(fuel as nat),
        -30000000000000000000000 <= e as int,
        e as int <= 30000000000000000000000 - fuel as int,
    ensures
        r.0 as int == norm_spec(m as int, e as int).0,
        r.1 as int == norm_spec(m as int, e as int).1,
    decreases m,
{
    if m == 0 {
        (0, 0)
    } else if m % 10 == 0 {
        proof {
            assert(fuel > 0) by {
                if fuel == 0 {
                    assert(pow10(0nat) == 1);
                }
            }
            assert(pow10(fuel as nat) == 10 * pow10((fuel - 1) as nat));
            assert((m as int) / 10 < pow10((fuel - 1) as nat)) by (nonlinear_arith)
                requires
                    (m as int) < 10 * pow10((fuel - 1) as nat),
                    m >= 0,
            ;
            assert(norm_spec(m as int, e as int) == norm_spec(m as int / 10, e as int + 1));
        }
        norm_exec(m / 10, e + 1, fuel - 1)
    } else {
        (m, e)
    }
}

/// Build the canonical number with sign `neg` and value `m * 10^e`.
#[verifier::spinoff_prover]
#[verifier::rlimit(30)]
pub fn make_float(neg: bool, m: u128, e: i128) -> (r: Float)
    requires
        -10000000000000000000000 <= e as int <= 10000000000000000000000,
    ensures
        r == make_float_spec(neg, m as int, e as int),
        float_wf(r),
{
    proof {
        lemma_make_float_wf(neg, m as int, e as int);
        lemma_pow10_pos(21nat);
        assert(pow10(40nat) >= pow10(39nat) && pow10(39nat)
            >= 100000000000000000000000000000000000000int * 10) by {
            reveal_with_fuel(pow10, 41);
        }
        assert((m as int) < MANT_CAP as int * pow10(40nat)) by (nonlinear_arith)
            requires
                (m as int) <= 340282366920938463463374607431768211455int,
                MANT_CAP as int * pow10(40nat) >= 10000000000000000000int
                    * (10 * 100000000000000000000000000000000000000int),
        ;
        assert(pow10(20nat) > MANT_CAP as int) by {
            reveal_with_fuel(pow10, 21);
        }
    }
    let c = cap_exec(m, e, 40);
    let n = norm_exec(c.0 as u64, c.1, 20);
    if n.0 == 0 {
        Float::Finite(Dec { neg: false, mant: 0, exp: 0 })
    } else if n.1 > EXP_CAP as i128 {
        Float::Inf(neg)
    } else if n.1 < -(EXP_CAP as i128) {
        Float::Finite(Dec { neg: false, mant: 0, exp: 0 })
    } else {
        Float::Finite(Dec { neg, mant: n.0, exp: n.1 as i64 })
    }
}

/// The exact decimal for a 64-bit integer.
pub open spec fn float_of_int_spec(v: int) -> Float {
    make_float_spec(v < 0, if v < 0 {
        -v
    } else {
        v
    }, 0)
}

pub fn float_of_i64(v: i64) -> (r: Float)
    ensures
        r == float_of_int_spec(v as int),
        float_wf(r),
{
    if v < 0 {
        let mag: u128 = (-(v as i128)) as u128;
        make_float(true, mag, 0)
    } else {
        make_float(false, v as u128, 0)
    }
}

// ---------- multiplication ----------

/// The product of two decimal numbers. Infinities and not-a-number follow
/// the usual floating-point rules: anything with NaN is NaN, an infinity
/// times zero is NaN, and signs multiply; finite products are truncated to
/// 19 significant digits.
pub open spec fn mul_spec(a: Float, b: Float) -> Float {
    match a {
        Float::NaN => Float::NaN,
        Float::Inf(s1) => match b {
            Float::NaN => Float::NaN,
            Float::Inf(s2) => Float::Inf(s1 != s2),
            Float::Finite(d) => if d.mant == 0 {
                Float::NaN
            } else {
                Float::Inf(s1 != d.neg)
            },
        },
        Float::Finite(d1) => match b {
            Float::NaN => Float::NaN,
            Float::Inf(s2) => if d1.mant == 0 {
                Float::NaN
            } else {
                Float::Inf(d1.neg != s2)
            },
            Float::Finite(d2) => make_float_spec(
                d1.neg != d2.neg,
                d1.mant as int * d2.mant as int,
                d1.exp as int + d2.exp as int,
            ),
        },
    }
}

pub fn float_mul(a: &Float, b: &Float) -> (r: Float)
    requires
        float_wf(*a),
        float_wf(*b),
    ensures
        r == mul_spec(*a, *b),
        float_wf(r),
{
    match a {
        Float::NaN => Float::NaN,
        Float::Inf(s1) => match b {
            Float::NaN => Float::NaN,
            Float::Inf(s2) => Float::Inf(*s1 != *s2),
            Float::Finite(d) => if d.mant == 0 {
                Float::NaN
            } else {
                Float::Inf(*s1 != d.neg)
            },
        },
        Float::Finite(d1) => match b {
            Float::NaN => Float::NaN,
            Float::Inf(s2) => if d1.mant == 0 {
                Float::NaN
            } else {
                Float::Inf(d1.neg != *s2)
            },
            Float::Finite(d2) => {
                proof {
                    assert((d1.mant as int) * (d2.mant as int) < 100000000000000000000000000000000000000int)
                        by (nonlinear_arith)
                        requires
                            d1.mant < 10000000000000000000u64,
                            d2.mant < 10000000000000000000u64,
                    ;
                    assert((d1.mant as int) * (d2.mant as int) >= 0) by (nonlinear_arith)
                        requires
                            d1.mant >= 0,
                            d2.mant >= 0,
                    ;
                }
                let p: u128 = (d1.mant as u128) * (d2.mant as u128);
                let e: i128 = (d1.exp as i128) + (d2.exp as i128);
                make_float(d1.neg != d2.neg, p, e)
            },
        },
    }
}

// ---------- truncation toward zero ----------

/// The integer part of a finite decimal, truncated toward zero.
pub open spec fn dec_int_val(d: Dec) -> int {
    let mag = if d.exp >= 0 {
        (d.mant as int) * pow10(d.exp as nat)
    } else {
        (d.mant as int) / pow10((-(d.exp as int)) as nat)
    };
    if d.neg {
        -mag
    } else {
        mag
    }
}

/// The 64-bit integer a decimal number truncates to, saturating at the
/// ends of the range; not-a-number truncates to zero.
pub open spec fn trunc_spec(f: Float) -> int {
    match f {
        Float::NaN => 0,
        Float::Inf(s) => if s {
            i64::MIN as int
        } else {
            i64::MAX as int
        },
        Float::Finite(d) => {
            let v = dec_int_val(d);
            if v < i64::MIN as int {
                i64::MIN as int
            } else if v > i64::MAX as int {
                i64::MAX as int
            } else {
                v
            }
        },
    }
}

pub fn float_trunc(f: &Float) -> (r: i64)
    requires
        float_wf(*f),
    ensures
        r as int == trunc_spec(*f),
{
    match f {
        Float::NaN => 0,
        Float::Inf(s) => if *s {
            i64::MIN
        } else {
            i64::MAX
        },
        Float::Finite(d) => {
            if d.mant == 0 {
                proof {
                    if d.exp >= 0 {
                        lemma_pow10_pos(d.exp as nat);
                    } else {
                        lemma_pow10_pos((-(d.exp as int)) as nat);
                    }
                }
                return 0;
            }
            if d.exp >= 19 {
                proof {
                    lemma_mag_huge(*d);
                }
                if d.neg {
                    return i64::MIN;
                } else {
                    return i64::MAX;
                }
            }
            if d.exp <= -20 {
                proof {
                    lemma_mag_tiny(*d);
                }
                return 0;
            }
            let mag: u128 = if d.exp >= 0 {
                proof {
                    lemma_pow10_mul_bound(d.mant as int, d.exp as int);
                }
                (d.mant as u128) * pow10_exec(d.exp as u32)
            } else {
                let p = pow10_exec((-d.exp) as u32);
                proof {
                    vstd::arithmetic::div_mod::lemma_div_nonincreasing(
                        d.mant as int,
                        pow10((-(d.exp as int)) as nat),
                    );
                    vstd::arithmetic::div_mod::lemma_div_pos_is_pos(
                        d.mant as int,
                        pow10((-(d.exp as int)) as nat),
                    );
                }
                (d.mant as u128) / p
            };
            if d.neg {
                if mag >= 9223372036854775808 {
                    i64::MIN
                } else {
                    -(mag as i64)
                }
            } else {
                if mag >= 9223372036854775807 {
                    i64::MAX
                } else {
                    mag as i64
                }
            }
        },
    }
}

/// 10^k for small k, exactly.
fn pow10_exec(k: u32) -> (r: u128)
    requires
        k <= 38,
    ensures
        r as int == pow10(k as nat),
        r >= 1,
    decreases k,
{
    proof {
        lemma_pow10_pos(k as nat);
        lemma_pow10_bound(k as nat);
    }
    if k == 0 {
        1
    } else {
        let rest = pow10_exec(k - 1);
        proof {
            lemma_pow10_bound((k - 1) as nat);
        }
        10 * rest
    }
}

/// 10^k fits in a u128 for k up to 38.
proof fn lemma_pow10_bound(k: nat)
    requires
        k <= 38,
    ensures
        pow10(k) <= 100000000000000000000000000000000000000int,
    decreases k,
{
    if k > 0 {
        lemma_pow10_bound((k - 1) as nat);
        lemma_pow10_mono((k - 1) as nat, 38nat);
    }
    lemma_pow10_mono(k, 38nat);
    assert(pow10(38nat) == 100000000000000000000000000000000000000int) by {
        reveal_with_fuel(pow10, 40);
    }
}

pub proof fn lemma_pow10_mono(a: nat, b: nat)
    requires
        a <= b,
    ensures
        pow10(a) <= pow10(b),
    decreases b,
{
    if a < b {
        lemma_pow10_mono(a, (b - 1) as nat);
        lemma_pow10_pos((b - 1) as nat);
    }
}

/// With 19 or more powers of ten, any positive significand overflows i64.
proof fn lemma_mag_huge(d: Dec)
    requires
        dec_wf(d),
        d.mant >= 1,
        d.exp >= 19,
    ensures
        d.neg ==> dec_int_val(d) < i64::MIN as int,
        !d.neg ==> dec_int_val(d) > i64::MAX as int,
{
    lemma_pow10_mono(19nat, d.exp as nat);
    assert(pow10(19nat) == 10000000000000000000int) by {
        reveal_with_fuel(pow10, 21);
    }
    assert((d.mant as int) * pow10(d.exp as nat) >= pow10(d.exp as nat)) by (nonlinear_arith)
        requires
            d.mant >= 1,
            pow10(d.exp as nat) >= 0,
    ;
}

/// With 20 or more negative powers of ten, any 19-digit significand
/// truncates to zero.
proof fn lemma_mag_tiny(d: Dec)
    requires
        dec_wf(d),
        d.exp <= -20,
    ensures
        dec_int_val(d) == 0,
{
    let k = (-(d.exp as int)) as nat;
    lemma_pow10_mono(20nat, k);
    assert(pow10(20nat) == 100000000000000000000int) by {
        reveal_with_fuel(pow10, 22);
    }
    vstd::arithmetic::div_mod::lemma_basic_div(d.mant as int, pow10(k));
}

/// A 19-digit significand times 10^e for e <= 18 fits in a u128.
proof fn lemma_pow10_mul_bound(m: int, e: int)
    requires
        0 <= m < MANT_CAP as int,
        0 <= e <= 18,
    ensures
        0 <= m * pow10(e as nat) < 100000000000000000000000000000000000000int,
{
    lemma_pow10_pos(e as nat);
    lemma_pow10_mono(e as nat, 18nat);
    assert(pow10(18nat) == 1000000000000000000int) by {
        reveal_with_fuel(pow10, 20);
    }
    assert(m * pow10(e as nat) < 100000000000000000000000000000000000000int) by (nonlinear_arith)
        requires
            0 <= m < 10000000000000000000int,
            0 < pow10(e as nat) <= 1000000000000000000int,
    ;
    assert(m * pow10(e as nat) >= 0) by (nonlinear_arith)
        requires
            m >= 0,
            pow10(e as nat) > 0,
    ;
}

// ---------- more facts about significand truncation ----------

pub proof fn lemma_cap_le(m: int, e: int)
    requires
        0 <= m,
    ensures
        cap_spec(m, e).0 <= m,
    decreases m,
{
    if m >= MANT_CAP as int {
        lemma_cap_le(m / 10, e + 1);
    }
}

/// The significand that truncation keeps does not depend on the exponent,
/// and the exponent only shifts.
pub proof fn lemma_cap_shift(m: int, e: int)
    requires
        0 <= m,
    ensures
        cap_spec(m, e).0 == cap_spec(m, 0).0,
        cap_spec(m, e).1 == e + cap_spec(m, 0).1,
    decreases m,
{
    if m >= MANT_CAP as int {
        lemma_cap_shift(m / 10, e + 1);
        lemma_cap_shift(m / 10, 1);
        assert(cap_spec(m, e) == cap_spec(m / 10, e + 1));
        assert(cap_spec(m, 0) == cap_spec(m / 10, 1));
    }
}

/// How one more digit moves the truncated significand: while the kept
/// part is short it grows by the digit; once it is 19 digits wide the
/// digit is dropped and only the count of dropped digits grows.
pub proof fn lemma_cap_step(x: int, d: int, acc: int, dropped: int)
    requires
        0 <= x,
        0 <= d < 10,
        cap_spec(x, 0) == (acc, dropped),
        dropped > 0 ==> acc >= 1000000000000000000,
    ensures
        acc < 1000000000000000000 ==> cap_spec(x * 10 + d, 0) == (acc * 10 + d, dropped)
            && dropped == 0 && x == acc,
        acc >= 1000000000000000000 ==> cap_spec(x * 10 + d, 0) == (acc, dropped + 1),
{
    lemma_cap_bounds(x, 0);
    if acc < 1000000000000000000 {
        assert(dropped == 0);
        if x >= MANT_CAP as int {
            lemma_cap_bounds(x / 10, 1);
            assert(cap_spec(x, 0) == cap_spec(x / 10, 1));
            assert(false);
        }
        assert(x == acc);
        assert(x * 10 + d < MANT_CAP as int) by (nonlinear_arith)
            requires
                0 <= x < 1000000000000000000,
                0 <= d < 10,
        ;
    } else {
        lemma_cap_le(x, 0);
        assert(x >= acc);
        assert(x * 10 + d >= MANT_CAP as int) by (nonlinear_arith)
            requires
                x >= 1000000000000000000,
                d >= 0,
        ;
        assert((x * 10 + d) / 10 == x) by (nonlinear_arith)
            requires
                0 <= d < 10,
                x >= 0,
        ;
        assert(cap_spec(x * 10 + d, 0) == cap_spec(x, 1));
        lemma_cap_shift(x, 1);
    }
}

/// Identity after truncation: rebuilding from the truncated pair changes
/// nothing.
pub proof fn lemma_make_via_cap(neg: bool, m: int, e: int)
    requires
        0 <= m,
    ensures
        make_float_spec(neg, m, e) == make_float_spec(
            neg,
            cap_spec(m, e).0,
            cap_spec(m, e).1,
        ),
{
    lemma_cap_bounds(m, e);
}

/// Far beyond the exponent range the exact exponent no longer matters:
/// the value saturates the same way.
pub proof fn lemma_exp_bucket(neg: bool, acc: int, e1: int, e2: int)
    requires
        0 <= acc < MANT_CAP as int,
        (e1 > EXP_CAP as int && e2 > EXP_CAP as int) || (e1 < -(EXP_CAP as int) - 20 && e2 < -(
        EXP_CAP as int) - 20),
    ensures
        make_float_spec(neg, acc, e1) == make_float_spec(neg, acc, e2),
{
    lemma_norm_bounds(acc, e1);
    lemma_norm_bounds(acc, e2);
    if acc > 0 {
        assert(pow10(19nat) == MANT_CAP as int) by {
            reveal_with_fuel(pow10, 21);
        }
        lemma_norm_depth(acc, e1, 19);
        lemma_norm_depth(acc, e2, 19);
    }
}

// ---------- parsing ----------

/// The grammar `str::parse::<f64>` accepts, read into a decimal: an
/// optional sign, then one of the literals `inf`, `infinity` or `nan`
/// (ASCII case-insensitive), or digits with an optional fraction and an
/// optional `e`/`E` exponent. The result is the canonical decimal for the
/// digits read, truncated to 19 significant digits.
pub open spec fn parse_sig_spec(t: Seq<char>, neg: bool) -> Option<Float> {
    let ipl = digit_prefix_len(t);
    let r1 = t.skip(ipl);
    let hasdot = r1.len() > 0 && r1[0] == '.';
    let f0 = if hasdot {
        r1.skip(1)
    } else {
        r1
    };
    let fpl = if hasdot {
        digit_prefix_len(f0)
    } else {
        0
    };
    let r2 = if hasdot {
        f0.skip(fpl)
    } else {
        r1
    };
    let m = digits_val(t.take(ipl) + f0.take(fpl));
    if ipl == 0 && fpl == 0 {
        None
    } else if r2.len() == 0 {
        Some(make_float_spec(neg, m, -fpl))
    } else if r2[0] == 'e' || r2[0] == 'E' {
        let eneg = r2.len() > 1 && r2[1] == '-';
        let e0 = if r2.len() > 1 && (r2[1] == '-' || r2[1] == '+') {
            r2.skip(2)
        } else {
            r2.skip(1)
        };
        if e0.len() == 0 || !all_digits(e0) {
            None
        } else {
            let ev = if eneg {
                -digits_val(e0)
            } else {
                digits_val(e0)
            };
            Some(make_float_spec(neg, m, ev - fpl))
        }
    } else {
        None
    }
}

pub open spec fn parse_float_spec(s: Seq<char>) -> Option<Float> {
    let neg = s.len() > 0 && s[0] == '-';
    let t = if s.len() > 0 && (s[0] == '-' || s[0] == '+') {
        s.skip(1)
    } else {
        s
    };
    if eq_ignore_ascii(t, "inf"@) || eq_ignore_ascii(t, "infinity"@) {
        Some(Float::Inf(neg))
    } else if eq_ignore_ascii(t, "nan"@) {
        Some(Float::NaN)
    } else {
        parse_sig_spec(t, neg)
    }
}

/// Compare the tail of `s` from `start` on, ASCII case-insensitively,
/// with `lit`.
fn region_eq_ia(s: &Vec<char>, start: usize, lit: &Vec<char>) -> (r: bool)
    requires
        start <= s.len(),
    ensures
        r == eq_ignore_ascii(s@.skip(start as int), lit@),
{
    let n = s.len() - start;
    if n != lit.len() {
        return false;
    }
    let mut i: usize = 0;
    while i < n
        invariant
            start + n == s.len(),
            n == lit.len(),
            0 <= i <= n,
            forall|j: int|
                0 <= j < i ==> ascii_lower_char(s@[start + j]) == ascii_lower_char(lit@[j]),
        decreases n - i,
    {
        if lower_char(s[start + i]) != lower_char(lit[i]) {
            proof {
                assert(s@.skip(start as int)[i as int] == s@[start + i]);
            }
            return false;
        }
        i += 1;
    }
    proof {
        assert(forall|j: int|
            0 <= j < n ==> #[trigger] s@.skip(start as int)[j] == s@[start + j]);
    }
    true
}

/// Accumulate the digits of `s[from..to]` onto a running truncated
/// significand: `pre` holds the digits already read, `acc0`/`dropped0`
/// their truncation.
fn accum_digits(
    s: &Vec<char>,
    from: usize,
    to: usize,
    acc0: u64,
    dropped0: usize,
    pre: Ghost<Seq<char>>,
) -> (r: (u64, usize))
    requires
        from <= to <= s.len(),
        all_digits(s@.subrange(from as int, to as int)),
        all_digits(pre@),
        cap_spec(digits_val(pre@), 0) == (acc0 as int, dropped0 as int),
        acc0 < MANT_CAP,
        dropped0 > 0 ==> acc0 >= 1000000000000000000,
        dropped0 + (to - from) <= usize::MAX,
    ensures
        cap_spec(digits_val(pre@ + s@.subrange(from as int, to as int)), 0) == (
            r.0 as int,
            r.1 as int,
        ),
        r.0 < MANT_CAP,
        r.1 > 0 ==> r.0 >= 1000000000000000000,
        r.1 <= dropped0 + (to - from),
{
    let mut acc: u64 = acc0;
    let mut dropped: usize = dropped0;
    let mut i: usize = from;
    proof {
        assert(pre@ + s@.subrange(from as int, from as int) =~= pre@);
    }
    while i < to
        invariant
            from <= i <= to <= s.len(),
            all_digits(s@.subrange(from as int, to as int)),
            all_digits(pre@),
            all_digits(pre@ + s@.subrange(from as int, i as int)),
            cap_spec(digits_val(pre@ + s@.subrange(from as int, i as int)), 0) == (
                acc as int,
                dropped as int,
            ),
            acc < MANT_CAP,
            dropped > 0 ==> acc >= 1000000000000000000,
            dropped <= dropped0 + (i - from),
            dropped0 + (to - from) <= usize::MAX,
        decreases to - i,
    {
        let ghost cur = pre@ + s@.subrange(from as int, i as int);
        let c = s[i];
        proof {
            assert(s@.subrange(from as int, to as int)[i - from] == s@[i as int]);
            assert(is_digit(c));
        }
        let d: u64 = (c as u32 - 48) as u64;
        proof {
            assert(cur.push(c) =~= pre@ + s@.subrange(from as int, i + 1));
            lemma_digits_val_push(cur, c);
            lemma_digits_val_nonneg(cur);
            assert(d as int == digit_val(c));
            lemma_cap_step(digits_val(cur), d as int, acc as int, dropped as int);
        }
        if acc < 1000000000000000000 {
            acc = acc * 10 + d;
        } else {
            dropped = dropped + 1;
        }
        proof {
            assert(all_digits(pre@ + s@.subrange(from as int, i + 1))) by {
                assert(forall|j: int|
                    0 <= j < (pre@ + s@.subrange(from as int, i + 1)).len() ==> is_digit(
                        #[trigger] (pre@ + s@.subrange(from as int, i + 1))[j],
                    )) by {
                    assert(forall|j: int|
                        0 <= j < cur.len() + 1 ==> (pre@ + s@.subrange(from as int, i + 1))[j]
                            == cur.push(c)[j]);
                }
            }
        }
        i += 1;
    }
    (acc, dropped)
}

/// Rebuilding from the running truncation, then shifting the exponent,
/// gives the same number as building from the exact digits.
pub proof fn lemma_parse_exact(neg: bool, m: int, eraw: int)
    requires
        0 <= m,
    ensures
        make_float_spec(neg, m, eraw) == make_float_spec(
            neg,
            cap_spec(m, 0).0,
            eraw + cap_spec(m, 0).1,
        ),
{
    lemma_make_via_cap(neg, m, eraw);
    lemma_cap_shift(m, eraw);
}

/// The value of a run of exponent digits, saturated at 10^20 (far past
/// every representable exponent).
fn exp_digits_val(s: &Vec<char>, epos: usize, e_end: usize) -> (ev: i128)
    requires
        epos <= e_end <= s.len(),
        all_digits(s@.subrange(epos as int, e_end as int)),
    ensures
        0 <= ev < 1000000000000000000000,
        ev < 100000000000000000000 ==> ev as int == digits_val(
            s@.subrange(epos as int, e_end as int),
        ),
        ev >= 100000000000000000000 ==> digits_val(s@.subrange(epos as int, e_end as int))
            >= 100000000000000000000,
{
    let ghost whole = s@;
    let mut ev: i128 = 0;
    let mut k: usize = epos;
    while k < e_end
        invariant
            epos <= k <= e_end <= s.len(),
            s@ == whole,
            all_digits(whole.subrange(epos as int, e_end as int)),
            0 <= ev < 1000000000000000000000,
            ev < 100000000000000000000 ==> ev as int == digits_val(
                whole.subrange(epos as int, k as int),
            ),
            ev >= 100000000000000000000 ==> digits_val(whole.subrange(epos as int, k as int))
                >= 100000000000000000000,
        decreases e_end - k,
    {
        let c = s[k];
        let ghost eseen = whole.subrange(epos as int, k as int);
        proof {
            assert(whole.subrange(epos as int, e_end as int)[k - epos] == whole[k as int]);
            assert(is_digit(c));
            assert(whole.subrange(epos as int, k + 1) =~= eseen.push(c));
            lemma_digits_val_push(eseen, c);
            assert(all_digits(eseen)) by {
                assert(forall|j: int|
                    0 <= j < eseen.len() ==> #[trigger] eseen[j] == whole.subrange(
                        epos as int,
                        e_end as int,
                    )[j]);
            }
            lemma_digits_val_nonneg(eseen);
        }
        let d: i128 = (c as u32 - 48) as i128;
        if ev < 100000000000000000000 {
            ev = ev * 10 + d;
        }
        k += 1;
    }
    ev
}

/// Assemble the parsed number from the truncated significand, the count of
/// fraction digits, and the (possibly saturated) exponent value.
fn finish_number(
    neg: bool,
    acc: u64,
    dropped: usize,
    fpl: usize,
    eneg: bool,
    ev: i128,
    m_exact: Ghost<int>,
    ev_exact: Ghost<int>,
) -> (r: Float)
    requires
        acc < MANT_CAP,
        0 <= m_exact@,
        cap_spec(m_exact@, 0) == (acc as int, dropped as int),
        0 <= ev_exact@,
        0 <= ev < 1000000000000000000000,
        ev < 100000000000000000000 ==> ev as int == ev_exact@,
        ev >= 100000000000000000000 ==> ev_exact@ >= 100000000000000000000,
    ensures
        r == make_float_spec(
            neg,
            m_exact@,
            (if eneg {
                -ev_exact@
            } else {
                ev_exact@
            }) - fpl as int,
        ),
        float_wf(r),
{
    let ghost eraw: int = (if eneg {
        -ev_exact@
    } else {
        ev_exact@
    }) - fpl as int;
    let fpl_e: i128 = ((fpl as u64)) as i128;
    let dropped_e: i128 = ((dropped as u64)) as i128;
    let ev_sig: i128 = if eneg {
        -ev
    } else {
        ev
    };
    let e_exec: i128 = ev_sig - fpl_e + dropped_e;
    proof {
        lemma_parse_exact(neg, m_exact@, eraw);
        if ev < 100000000000000000000 {
            assert(ev as int == ev_exact@);
            assert(eraw + dropped as int == e_exec as int);
        } else {
            assert(ev_exact@ >= 100000000000000000000);
            assert(fpl_e < 18446744073709551616i128);
            assert(dropped_e < 18446744073709551616i128);
            if eneg {
                assert((eraw + dropped as int) < -(EXP_CAP as int) - 20);
                assert((e_exec as int) < -(EXP_CAP as int) - 20);
            } else {
                assert((eraw + dropped as int) > EXP_CAP as int);
                assert((e_exec as int) > EXP_CAP as int);
            }
            lemma_exp_bucket(neg, acc as int, eraw + dropped as int, e_exec as int);
        }
    }
    make_float(neg, acc as u128, e_exec)
}

/// Parse the significand-with-exponent form, from position `pos` on.
#[verifier::rlimit(100)]
fn parse_sig(s: &Vec<char>, pos: usize, neg: bool) -> (r: Option<Float>)
    requires
        pos <= s.len(),
    ensures
        r == parse_sig_spec(s@.skip(pos as int), neg),
        r matches Some(f) ==> float_wf(f),
{
    let ghost whole = s@;
    let ghost t = whole.skip(pos as int);
    let ip_end = scan_digits(s, pos);
    let hasdot = ip_end < s.len() && s[ip_end] == '.';
    let fp_start = if hasdot {
        ip_end + 1
    } else {
        ip_end
    };
    let fp_end = if hasdot {
        scan_digits(s, fp_start)
    } else {
        fp_start
    };
    let ghost ipl: int = ip_end - pos as int;
    let ghost r1: Seq<char> = t.skip(ipl);
    let ghost f0: Seq<char> = if hasdot {
        r1.skip(1)
    } else {
        r1
    };
    let ghost fpl: int = fp_end - fp_start as int;
    let ghost r2: Seq<char> = if hasdot {
        f0.skip(fpl)
    } else {
        r1
    };
    proof {
        assert(r1 =~= whole.skip(ip_end as int));
        assert(f0 =~= whole.skip(fp_start as int));
        assert(r2 =~= whole.skip(fp_end as int));
        assert(ipl == digit_prefix_len(t));
        if hasdot {
            assert(fpl == digit_prefix_len(f0));
        }
        if ip_end < s.len() {
            assert(r1[0] == whole[ip_end as int]);
        }
    }
    if ip_end == pos && fp_end == fp_start {
        return None;
    }
    let ghost gip: Seq<char> = whole.subrange(pos as int, ip_end as int);
    let ghost gfp: Seq<char> = whole.subrange(fp_start as int, fp_end as int);
    proof {
        assert(gip =~= t.take(ipl));
        assert(gfp =~= f0.take(fpl));
        assert(cap_spec(digits_val(Seq::<char>::empty()), 0) == (0int, 0int));
        assert(all_digits(Seq::<char>::empty()));
    }
    let a1 = accum_digits(s, pos, ip_end, 0, 0, Ghost(Seq::empty()));
    proof {
        assert(Seq::<char>::empty() + whole.subrange(pos as int, ip_end as int) =~= gip);
        assert(all_digits(gip));
    }
    let a2 = accum_digits(s, fp_start, fp_end, a1.0, a1.1, Ghost(gip));
    let acc = a2.0;
    let dropped = a2.1;
    let ghost m_exact: int = digits_val(t.take(ipl) + f0.take(fpl));
    proof {
        assert(gip + gfp =~= t.take(ipl) + f0.take(fpl));
        assert(all_digits(gip + gfp)) by {
            assert(forall|j: int| 0 <= j < gip.len() ==> #[trigger] (gip + gfp)[j] == gip[j]);
            assert(forall|j: int|
                gip.len() <= j < gip.len() + gfp.len() ==> #[trigger] (gip + gfp)[j] == gfp[j
                    - gip.len()]);
        }
        lemma_digits_val_nonneg(gip + gfp);
    }
    let fpl_u: usize = fp_end - fp_start;
    if fp_end == s.len() {
        let res = finish_number(neg, acc, dropped, fpl_u, false, 0, Ghost(m_exact), Ghost(0));
        return Some(res);
    }
    let ec = s[fp_end];
    if !(ec == 'e' || ec == 'E') {
        proof {
            assert(r2[0] == whole[fp_end as int]);
        }
        return None;
    }
    let mut epos: usize = fp_end + 1;
    let mut eneg: bool = false;
    if epos < s.len() && (s[epos] == '-' || s[epos] == '+') {
        eneg = s[epos] == '-';
        epos = epos + 1;
    }
    let ghost e0: Seq<char> = if r2.len() > 1 && (r2[1] == '-' || r2[1] == '+') {
        r2.skip(2)
    } else {
        r2.skip(1)
    };
    proof {
        if fp_end + 1 < whole.len() {
            assert(r2[1] == whole[fp_end + 1]);
        }
        assert(e0 =~= whole.skip(epos as int));
    }
    let e_end = scan_digits(s, epos);
    if epos == e_end {
        proof {
            if e0.len() > 0 {
                assert(e0[0] == whole[epos as int]);
                assert(!all_digits(e0));
            }
        }
        return None;
    }
    if e_end < s.len() {
        proof {
            assert(e0[e_end - epos] == whole[e_end as int]);
            assert(!all_digits(e0));
        }
        return None;
    }
    proof {
        assert(e0 =~= whole.subrange(epos as int, e_end as int));
        assert(all_digits(e0));
        lemma_digits_val_nonneg(e0);
    }
    let ev = exp_digits_val(s, epos, e_end);
    let res = finish_number(neg, acc, dropped, fpl_u, eneg, ev, Ghost(m_exact), Ghost(
        digits_val(e0),
    ));
    Some(res)
}

/// Parse a decimal number, exactly as `parse_float_spec` describes.
pub fn parse_float(s: &Vec<char>) -> (r: Option<Float>)
    ensures
        r == parse_float_spec(s@),
        r matches Some(f) ==> float_wf(f),
{
    let ghost whole = s@;
    let mut pos: usize = 0;
    let mut neg: bool = false;
    if s.len() > 0 && (s[0] == '-' || s[0] == '+') {
        neg = s[0] == '-';
        pos = 1;
    }
    let ghost t = whole.skip(pos as int);
    proof {
        if pos == 0 {
            assert(whole.skip(0int) =~= whole);
        }
    }
    let inf_lit = crate::text::str_to_chars("inf");
    let infinity_lit = crate::text::str_to_chars("infinity");
    let nan_lit = crate::text::str_to_chars("nan");
    if region_eq_ia(s, pos, &inf_lit) {
        return Some(Float::Inf(neg));
    }
    if region_eq_ia(s, pos, &infinity_lit) {
        return Some(Float::Inf(neg));
    }
    if region_eq_ia(s, pos, &nan_lit) {
        return Some(Float::NaN);
    }
    parse_sig(s, pos, neg)
}

// ---------- rendering ----------

pub open spec fn zeros(n: nat) -> Seq<char> {
    Seq::new(n, |i: int| '0')
}

/// The display text of a decimal number: positional notation while the
/// exponent is moderate, scientific notation otherwise; `inf`, `-inf` and
/// `NaN` for the special values.
pub open spec fn float_str(f: Float) -> Seq<char> {
    match f {
        Float::NaN => "NaN"@,
        Float::Inf(s) => if s {
            "-inf"@
        } else {
            "inf"@
        },
        Float::Finite(d) => if d.mant == 0 {
            "0"@
        } else {
            let sign: Seq<char> = if d.neg {
                seq!['-']
            } else {
                Seq::empty()
            };
            let ds = dec_digits(d.mant as int);
            let e = d.exp as int;
            if 0 <= e <= 18 {
                sign + ds + zeros(e as nat)
            } else if e < 0 && -e < ds.len() {
                sign + ds.take(ds.len() - (-e)) + seq!['.'] + ds.skip(ds.len() - (-e))
            } else if e < 0 && -e - ds.len() <= 17 {
                sign + seq!['0', '.'] + zeros((-e - ds.len()) as nat) + ds
            } else {
                sign + ds + seq!['e'] + int_str(e)
            }
        },
    }
}

/// Append `digits`, an `e`, and the exponent.
fn push_sci(out: &mut Vec<char>, digits: &Vec<char>, exp: i64)
    ensures
        final(out)@ == old(out)@ + digits@ + seq!['e'] + int_str(exp as int),
{
    let len = digits.len();
    crate::text::push_range(out, digits, 0, len);
    proof {
        assert(digits@.subrange(0, len as int) =~= digits@);
    }
    out.push('e');
    let ex = crate::text::i64_to_chars(exp);
    let exl = ex.len();
    crate::text::push_range(out, &ex, 0, exl);
    proof {
        assert(ex@.subrange(0, exl as int) =~= ex@);
        assert(out@ =~= old(out)@ + digits@ + seq!['e'] + int_str(exp as int));
    }
}

/// Render a decimal number, exactly as `float_str` describes.
pub fn float_to_chars(f: &Float) -> (r: Vec<char>)
    requires
        float_wf(*f),
    ensures
        r@ == float_str(*f),
{
    match f {
        Float::NaN => crate::text::str_to_chars("NaN"),
        Float::Inf(s) => if *s {
            crate::text::str_to_chars("-inf")
        } else {
            crate::text::str_to_chars("inf")
        },
        Float::Finite(d) => {
            if d.mant == 0 {
                return crate::text::str_to_chars("0");
            }
            let mut digits: Vec<char> = Vec::new();
            crate::text::push_dec_digits(d.mant as u128, &mut digits);
            proof {
                assert(digits@ =~= dec_digits(d.mant as int));
                assert(pow10(20nat) > MANT_CAP as int) by {
                    reveal_with_fuel(pow10, 21);
                }
                crate::text::lemma_dec_digits_len(d.mant as int, 20);
            }
            let len: usize = digits.len();
            let len_i: i64 = len as i64;
            let mut out: Vec<char> = Vec::new();
            let ghost sign: Seq<char> = if d.neg {
                seq!['-']
            } else {
                Seq::empty()
            };
            if d.neg {
                out.push('-');
            }
            proof {
                assert(out@ =~= sign);
            }
            let ghost ds = digits@;
            if d.exp >= 0 && d.exp <= 18 {
                crate::text::push_range(&mut out, &digits, 0, len);
                proof {
                    assert(ds.subrange(0, len as int) =~= ds);
                    assert(zeros(0nat) =~= Seq::<char>::empty());
                    assert(out@ =~= sign + ds + zeros(0nat));
                }
                let mut z: i64 = 0;
                while z < d.exp
                    invariant
                        0 <= z <= d.exp <= 18,
                        out@ == sign + ds + zeros(z as nat),
                    decreases d.exp - z,
                {
                    out.push('0');
                    proof {
                        assert((sign + ds + zeros(z as nat)).push('0') =~= sign + ds + zeros(
                            (z + 1) as nat,
                        ));
                    }
                    z += 1;
                }
                out
            } else if d.exp < 0 {
                let k: i64 = -d.exp;
                if k < len_i {
                    let cut: usize = len - (k as usize);
                    crate::text::push_range(&mut out, &digits, 0, cut);
                    out.push('.');
                    crate::text::push_range(&mut out, &digits, cut, len);
                    proof {
                        assert(ds.subrange(cut as int, len as int) =~= ds.skip(
                            ds.len() - k as int,
                        ));
                        assert(ds.subrange(0, cut as int) =~= ds.take(ds.len() - k as int));
                        assert(out@ =~= sign + ds.take(ds.len() - k as int) + seq!['.']
                            + ds.skip(ds.len() - k as int));
                    }
                    out
                } else if k - len_i <= 17 {
                    out.push('0');
                    out.push('.');
                    proof {
                        assert(zeros(0nat) =~= Seq::<char>::empty());
                        assert(out@ =~= sign + seq!['0', '.'] + zeros(0nat));
                    }
                    let zn: i64 = k - len_i;
                    let mut z: i64 = 0;
                    while z < zn
                        invariant
                            0 <= z <= zn <= 17,
                            out@ == sign + seq!['0', '.'] + zeros(z as nat),
                        decreases zn - z,
                    {
                        out.push('0');
                        proof {
                            assert((sign + seq!['0', '.'] + zeros(z as nat)).push('0') =~= sign
                                + seq!['0', '.'] + zeros((z + 1) as nat));
                        }
                        z += 1;
                    }
                    crate::text::push_range(&mut out, &digits, 0, len);
                    proof {
                        assert(ds.subrange(0, len as int) =~= ds);
                        assert(out@ =~= sign + seq!['0', '.'] + zeros((k - len_i) as nat) + ds);
                    }
                    out
                } else {
                    push_sci(&mut out, &digits, d.exp);
                    proof {
                        assert(out@ =~= sign + ds + seq!['e'] + int_str(d.exp as int));
                    }
                    out
                }
            } else {
                push_sci(&mut out, &digits, d.exp);
                proof {
                    assert(out@ =~= sign + ds + seq!['e'] + int_str(d.exp as int));
                }
                out
            }
        },
    }
}


/// Whatever parses, parses to a canonical number.
pub proof fn lemma_parse_float_wf(s: Seq<char>)
    ensures
        parse_float_spec(s) matches Some(f) ==> float_wf(f),
{
    let t = if s.len() > 0 && (s[0] == '-' || s[0] == '+') {
        s.skip(1)
    } else {
        s
    };
    let neg = s.len() > 0 && s[0] == '-';
    lemma_parse_sig_wf(t, neg);
}

/// The significand form parses to a canonical number.
pub proof fn lemma_parse_sig_wf(t: Seq<char>, neg: bool)
    ensures
        parse_sig_spec(t, neg) matches Some(f) ==> float_wf(f),
{
    let ipl = digit_prefix_len(t);
    let ip = t.take(ipl);
    let r1 = t.skip(ipl);
    let hasdot = r1.len() > 0 && r1[0] == '.';
    let f0 = if hasdot {
        r1.skip(1)
    } else {
        r1
    };
    let fpl = if hasdot {
        digit_prefix_len(f0)
    } else {
        0
    };
    let fp = f0.take(fpl);
    let m = digits_val(ip + fp);
    assert(m >= 0) by {
        crate::text::lemma_digit_prefix_props(t);
        if hasdot {
            crate::text::lemma_digit_prefix_props(f0);
        } else {
            assert(f0.take(0int) =~= Seq::<char>::empty());
        }
        assert(all_digits(ip + fp)) by {
            assert(forall|j: int| 0 <= j < ip.len() ==> #[trigger] (ip + fp)[j] == ip[j]);
            assert(forall|j: int|
                ip.len() <= j < ip.len() + fp.len() ==> #[trigger] (ip + fp)[j] == fp[j
                    - ip.len()]);
        }
        lemma_digits_val_nonneg(ip + fp);
    }
    lemma_make_float_wf(neg, m, -fpl);
    let r2 = if hasdot {
        f0.skip(fpl)
    } else {
        r1
    };
    if r2.len() > 0 && (r2[0] == 'e' || r2[0] == 'E') {
        let eneg = r2.len() > 1 && r2[1] == '-';
        let e0 = if r2.len() > 1 && (r2[1] == '-' || r2[1] == '+') {
            r2.skip(2)
        } else {
            r2.skip(1)
        };
        let ev = if eneg {
            -digits_val(e0)
        } else {
            digits_val(e0)
        };
        lemma_make_float_wf(neg, m, ev - fpl);
    }
}

} // verus!
