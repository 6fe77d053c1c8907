//! JavaScript numbers, held as the bit pattern of an IEEE-754 binary64 value,
//! and their exact conversion to and from Rust integers.
use vstd::arithmetic::power2::{
    lemma2_to64, lemma2_to64_rest, lemma_pow2_adds, lemma_pow2_pos, lemma_pow2_strictly_increases,
    pow2,
};
use vstd::arithmetic::div_mod::{lemma_fundamental_div_mod, lemma_fundamental_div_mod_converse};
use vstd::bits::{lemma_u64_shl_is_mul, lemma_u64_shr_is_div};
use vstd::prelude::*;

use crate::errors::{Error, Result};

verus! {

/// 2^52: the weight of the hidden bit of a normal binary64 value.
pub const HIDDEN_BIT: u64 = 0x10_0000_0000_0000;

/// 2^53: every integer of at most this magnitude is a binary64 value exactly.
pub const MAX_SAFE_MAGNITUDE: u64 = 0x20_0000_0000_0000;

/// The biased exponent field of a binary64 bit pattern.
pub open spec fn exponent_field(bits: u64) -> nat {
    ((bits / HIDDEN_BIT) % 2048) as nat
}

/// The fraction field of a binary64 bit pattern.
pub open spec fn fraction_field(bits: u64) -> nat {
    (bits % HIDDEN_BIT) as nat
}

/// The sign bit of a binary64 bit pattern.
pub open spec fn sign_negative(bits: u64) -> bool {
    bits >= 0x8000_0000_0000_0000
}

/// The magnitude of the number, where it is a whole number below 2^64.
///
/// A normal value is `(2^52 + fraction) * 2^(exponent - 1023) / 2^52`.
pub open spec fn whole_magnitude(bits: u64) -> Option<nat> {
    let e = exponent_field(bits);
    let f = fraction_field(bits);
    if e == 0 && f == 0 {
        Some(0)
    } else if 1023 <= e < 1023 + 64 {
        let scaled: int = (HIDDEN_BIT + f) * pow2((e - 1023) as nat);
        if scaled % (HIDDEN_BIT as int) == 0 {
            Some((scaled / (HIDDEN_BIT as int)) as nat)
        } else {
            None
        }
    } else {
        None
    }
}

/// The value of the number as an integer, where it is a whole number of
/// magnitude below 2^64 (negative zero is zero).
pub open spec fn whole_value(bits: u64) -> Option<int> {
    match whole_magnitude(bits) {
        Some(m) => Some(if sign_negative(bits) { -m } else { m as int }),
        None => None,
    }
}

/// Whether the number is zero (of either sign).
pub open spec fn is_zero_number(bits: u64) -> bool {
    bits % 0x8000_0000_0000_0000 == 0
}

proof fn lemma_fields(bits: u64)
    ensures
        (bits >> 52) & 0x7ff == exponent_field(bits),
        bits & 0xf_ffff_ffff_ffff == fraction_field(bits),
        ((bits >> 63) == 1) == sign_negative(bits),
        (bits >> 63) <= 1,
{
    assert((bits >> 52) & 0x7ff == (bits / 0x10_0000_0000_0000) % 2048) by (bit_vector);
    assert(bits & 0xf_ffff_ffff_ffff == bits % 0x10_0000_0000_0000) by (bit_vector);
    assert(((bits >> 63) == 1) == (bits >= 0x8000_0000_0000_0000)) by (bit_vector);
    assert((bits >> 63) <= 1) by (bit_vector);
}

/// Reads a number as a sign and a magnitude, where it is a whole number of
/// magnitude below 2^64.
pub fn whole_number(bits: u64) -> (r: Option<(bool, u64)>)
    ensures
        r is Some <==> whole_magnitude(bits) is Some,
        r matches Some((neg, m)) ==> whole_magnitude(bits) == Some(m as nat) && neg
            == sign_negative(bits),
{
    proof {
        lemma_fields(bits);
        lemma2_to64();
        lemma2_to64_rest();
    }
    let e: u64 = (bits >> 52) & 0x7ff;
    let f: u64 = bits & 0xf_ffff_ffff_ffff;
    let neg: bool = (bits >> 63) == 1;
    if e == 0 && f == 0 {
        return Some((neg, 0));
    }
    if e < 1023 || e >= 1023 + 64 {
        return None;
    }
    let k: u64 = e - 1023;
    assert(f | HIDDEN_BIT == f + HIDDEN_BIT) by (bit_vector)
        requires
            f < 0x10_0000_0000_0000,
    ;
    let m: u64 = f | HIDDEN_BIT;
    if k >= 52 {
        let s: u64 = k - 52;
        proof {
            lemma_pow2_adds(s as nat, 52);
            lemma_pow2_pos(s as nat);
            if s < 11 {
                lemma_pow2_strictly_increases(s as nat, 11);
            }
            assert(m * pow2(s as nat) <= u64::MAX) by (nonlinear_arith)
                requires
                    m < 0x20_0000_0000_0000,
                    pow2(s as nat) <= 0x800,
            ;
            lemma_u64_shl_is_mul(m, s);
            let q = m * pow2(s as nat);
            assert((HIDDEN_BIT + f) * pow2(k as nat) == q * HIDDEN_BIT) by (nonlinear_arith)
                requires
                    pow2(k as nat) == pow2(s as nat) * HIDDEN_BIT,
                    m == HIDDEN_BIT + f,
                    q == m * pow2(s as nat),
            ;
            lemma_fundamental_div_mod_converse(
                q * HIDDEN_BIT,
                HIDDEN_BIT as int,
                q as int,
                0,
            );
        }
        Some((neg, m << s))
    } else {
        let s: u64 = 52 - k;
        proof {
            lemma_pow2_adds(k as nat, s as nat);
            lemma_pow2_pos(s as nat);
            lemma_pow2_pos(k as nat);
            lemma_pow2_strictly_increases(s as nat, 63);
            lemma_u64_shl_is_mul(1, s);
            lemma_u64_shr_is_div(m, s);
        }
        proof {
            lemma_fundamental_div_mod(m as int, (1u64 << s) as int);
        }
        let unit: u64 = 1u64 << s;
        let low: u64 = m % unit;
        if low == 0 {
            proof {
                let q = m / unit;
                assert((HIDDEN_BIT + f) * pow2(k as nat) == q * HIDDEN_BIT) by (nonlinear_arith)
                    requires
                        pow2(k as nat) * unit == HIDDEN_BIT,
                        m == HIDDEN_BIT + f,
                        m == unit * q,
                ;
                lemma_fundamental_div_mod_converse(
                    q * HIDDEN_BIT,
                    HIDDEN_BIT as int,
                    q as int,
                    0,
                );
            }
            Some((neg, m >> s))
        } else {
            proof {
                let q = m / unit;
                let pk = pow2(k as nat);
                assert((HIDDEN_BIT + f) * pk == q * HIDDEN_BIT + low * pk && 0 < low * pk
                    < HIDDEN_BIT) by (nonlinear_arith)
                    requires
                        pk * unit == HIDDEN_BIT,
                        m == HIDDEN_BIT + f,
                        m == q * unit + low,
                        0 < low < unit,
                        pk > 0,
                ;
                lemma_fundamental_div_mod_converse(
                    (HIDDEN_BIT + f) * pk,
                    HIDDEN_BIT as int,
                    q as int,
                    low * pk,
                );
            }
            None
        }
    }
}

proof fn lemma_compose(s: u64, e: u64, f: u64)
    requires
        s <= 1,
        e < 2048,
        f < HIDDEN_BIT,
    ensures
        ({
            let b = (s << 63) | (e << 52) | f;
            &&& exponent_field(b) == e
            &&& fraction_field(b) == f
            &&& sign_negative(b) == (s == 1)
        }),
{
    let b = (s << 63) | (e << 52) | f;
    assert(((s << 63) | (e << 52) | f) / 0x10_0000_0000_0000 % 2048 == e) by (bit_vector)
        requires
            s <= 1,
            e < 2048,
            f < 0x10_0000_0000_0000,
    ;
    assert(((s << 63) | (e << 52) | f) % 0x10_0000_0000_0000 == f) by (bit_vector)
        requires
            s <= 1,
            e < 2048,
            f < 0x10_0000_0000_0000,
    ;
    assert((((s << 63) | (e << 52) | f) >= 0x8000_0000_0000_0000) == (s == 1)) by (bit_vector)
        requires
            s <= 1,
            e < 2048,
            f < 0x10_0000_0000_0000,
    ;
}

/// The number of magnitude `m * 2^t` and the given sign (zero is always
/// positive zero), where `m` is at most 2^53.
fn number_of_scaled(neg: bool, m: u64, t: u64) -> (r: u64)
    requires
        m <= MAX_SAFE_MAGNITUDE,
        m * pow2(t as nat) <= u64::MAX,
    ensures
        whole_magnitude(r) == Some((m * pow2(t as nat)) as nat),
        sign_negative(r) == (neg && m != 0),
{
    proof {
        lemma2_to64();
        lemma2_to64_rest();
    }
    if m == 0 {
        assert(0u64 / 0x10_0000_0000_0000 % 2048 == 0 && 0u64 % 0x10_0000_0000_0000 == 0);
        assert(0 * pow2(t as nat) == 0);
        return 0;
    }
    let mut k: u64 = 0;
    while k < 53 && (1u64 << (k + 1)) <= m
        invariant
            k <= 53,
            pow2(k as nat) <= m,
            0 < m <= MAX_SAFE_MAGNITUDE,
        decreases 53 - k,
    {
        proof {
            lemma2_to64_rest();
            lemma_pow2_strictly_increases((k + 1) as nat, 63);
            lemma_u64_shl_is_mul(1, (k + 1) as u64);
        }
        k = k + 1;
    }
    let p: u64 = 1u64 << k;
    proof {
        lemma_u64_shl_is_mul(1, k);
        if k < 53 {
            lemma_u64_shl_is_mul(1, (k + 1) as u64);
            lemma_pow2_strictly_increases((k + 1) as nat, 63);
            lemma_pow2_adds(k as nat, 1);
        }
    }
    let f: u64 = if k == 53 {
        0
    } else {
        let q: u64 = 52 - k;
        proof {
            lemma_pow2_adds(k as nat, q as nat);
            lemma_pow2_pos(k as nat);
            assert((m - p) * pow2(q as nat) < HIDDEN_BIT) by (nonlinear_arith)
                requires
                    m - p < p,
                    p * pow2(q as nat) == HIDDEN_BIT,
            ;
            lemma_u64_shl_is_mul((m - p) as u64, q);
            assert(((m - p) * pow2(q as nat)) * p == (m - p) * HIDDEN_BIT) by (nonlinear_arith)
                requires
                    p * pow2(q as nat) == HIDDEN_BIT,
            ;
        }
        (m - p) << q
    };
    assert(f * p == (m - p) * HIDDEN_BIT && f < HIDDEN_BIT);
    let s: u64 = if neg {
        1
    } else {
        0
    };
    proof {
        lemma_pow2_adds(k as nat, t as nat);
        lemma_pow2_pos(t as nat);
        assert(p * pow2(t as nat) <= m * pow2(t as nat)) by (nonlinear_arith)
            requires
                p <= m,
                pow2(t as nat) > 0,
        ;
        if k + t > 64 {
            lemma_pow2_strictly_increases(64, (k + t) as nat);
        }
    }
    let e: u64 = k + t + 1023;
    proof {
        lemma_compose(s, e, f);
        let w = pow2(t as nat);
        assert((HIDDEN_BIT + f) * (p * w) == (m * w) * HIDDEN_BIT) by (nonlinear_arith)
            requires
                f * p == (m - p) * HIDDEN_BIT,
        ;
        lemma_fundamental_div_mod_converse(
            (m * w) * HIDDEN_BIT,
            HIDDEN_BIT as int,
            (m * w) as int,
            0,
        );
    }
    (s << 63) | (e << 52) | f
}

/// Whether a magnitude is exactly a binary64 value: it is at most 2^53, or it
/// is even and its half is exactly a binary64 value. Equivalently, it is
/// `q * 2^t` with `q` at most 2^53.
pub open spec fn representable_magnitude(m: nat) -> bool
    decreases m,
{
    if m <= MAX_SAFE_MAGNITUDE {
        true
    } else if m % 2 == 0 {
        representable_magnitude(m / 2)
    } else {
        false
    }
}

proof fn lemma_scaled_representable(q: nat, j: nat)
    requires
        q <= MAX_SAFE_MAGNITUDE,
    ensures
        representable_magnitude(q * pow2(j)),
    decreases j,
{
    lemma_pow2_pos(j);
    if q * pow2(j) > MAX_SAFE_MAGNITUDE && j > 0 {
        lemma_pow2_adds((j - 1) as nat, 1);
        lemma2_to64();
        let h = q * pow2((j - 1) as nat);
        assert(q * pow2(j) == h * 2) by (nonlinear_arith)
            requires
                h == q * pow2((j - 1) as nat),
                pow2(j) == pow2((j - 1) as nat) * 2,
        ;
        lemma_scaled_representable(q, (j - 1) as nat);
    } else if j == 0 {
        lemma2_to64();
    }
}

/// Every whole number that a binary64 value holds has a magnitude that
/// `representable_magnitude` accepts: the conversion from integers refuses
/// only integers that no number holds.
pub proof fn lemma_whole_numbers_representable(bits: u64)
    ensures
        whole_magnitude(bits) matches Some(m) ==> representable_magnitude(m),
{
    lemma2_to64();
    let e = exponent_field(bits);
    let f = fraction_field(bits);
    if e == 0 && f == 0 {
    } else if 1023 <= e < 1023 + 64 {
        let k = (e - 1023) as nat;
        let scaled: int = (HIDDEN_BIT + f) * pow2(k);
        if scaled % (HIDDEN_BIT as int) == 0 {
            let m = (scaled / (HIDDEN_BIT as int)) as nat;
            if k >= 52 {
                let j = (k - 52) as nat;
                lemma_pow2_adds(j, 52);
                lemma2_to64_rest();
                assert(scaled == ((HIDDEN_BIT + f) * pow2(j)) * HIDDEN_BIT) by (nonlinear_arith)
                    requires
                        scaled == (HIDDEN_BIT + f) * pow2(k),
                        pow2(k) == pow2(j) * pow2(52),
                        pow2(52) == HIDDEN_BIT,
                ;
                lemma_fundamental_div_mod_converse(
                    scaled,
                    HIDDEN_BIT as int,
                    (HIDDEN_BIT + f) * pow2(j),
                    0,
                );
                lemma_scaled_representable((HIDDEN_BIT + f) as nat, j);
            } else {
                lemma_pow2_strictly_increases(k, 52);
                lemma_pow2_pos(k);
                lemma2_to64_rest();
                assert(m <= MAX_SAFE_MAGNITUDE) by (nonlinear_arith)
                    requires
                        f < HIDDEN_BIT,
                        pow2(k) < HIDDEN_BIT,
                        pow2(k) > 0,
                        scaled == (HIDDEN_BIT + f) * pow2(k),
                        m == scaled / (HIDDEN_BIT as int),
                        scaled % (HIDDEN_BIT as int) == 0,
                ;
            }
        }
    }
}

/// Whether a JavaScript number holds the integer exactly.
pub open spec fn exactly_representable(n: int) -> bool {
    representable_magnitude(if n < 0 {
        (-n) as nat
    } else {
        n as nat
    })
}

/// The number whose value is the given sign and magnitude (zero is always
/// positive zero); fails where no number holds the magnitude exactly.
pub fn number_of_magnitude(neg: bool, m: u64) -> (r: Result<u64>)
    ensures
        r is Ok <==> representable_magnitude(m as nat),
        r matches Ok(b) ==> whole_magnitude(b) == Some(m as nat) && sign_negative(b) == (neg
            && m != 0),
        r matches Err(e) ==> e is CastError,
{
    proof {
        lemma2_to64();
    }
    let mut q: u64 = m;
    let mut t: u64 = 0;
    while q > MAX_SAFE_MAGNITUDE && q % 2 == 0
        invariant
            q * pow2(t as nat) == m,
            representable_magnitude(q as nat) == representable_magnitude(m as nat),
            t <= 11,
            q > 0 || m == 0,
        decreases q,
    {
        proof {
            lemma2_to64();
            lemma_pow2_pos(t as nat);
            if t >= 11 {
                if t > 11 {
                    lemma_pow2_strictly_increases(11, t as nat);
                }
                assert(q * pow2(t as nat) > u64::MAX) by (nonlinear_arith)
                    requires
                        q > MAX_SAFE_MAGNITUDE,
                        pow2(t as nat) >= 0x800,
                ;
            }
            lemma_pow2_adds(t as nat, 1);
            assert((q / 2) * pow2((t + 1) as nat) == m) by (nonlinear_arith)
                requires
                    q % 2 == 0,
                    q * pow2(t as nat) == m,
                    pow2((t + 1) as nat) == pow2(t as nat) * 2,
            ;
        }
        q = q / 2;
        t = t + 1;
    }
    if q > MAX_SAFE_MAGNITUDE {
        return Err(Error::CastError);
    }
    let b = number_of_scaled(neg, q, t);
    assert(neg && q != 0 <==> neg && m != 0) by (nonlinear_arith)
        requires
            q * pow2(t as nat) == m,
            pow2(t as nat) > 0,
    ;
    Ok(b)
}

/// The JavaScript number of a signed integer (zero is positive zero); fails
/// where no number holds the integer exactly.
pub fn number_from_i64(n: i64) -> (r: Result<u64>)
    ensures
        r is Ok <==> exactly_representable(n as int),
        r matches Ok(b) ==> whole_value(b) == Some(n as int) && sign_negative(b) == (n < 0),
        r matches Err(e) ==> e is CastError,
{
    let neg: bool = n < 0;
    let m: u64 = if n == i64::MIN {
        0x8000_0000_0000_0000
    } else if neg {
        (-n) as u64
    } else {
        n as u64
    };
    number_of_magnitude(neg, m)
}

/// The JavaScript number of an unsigned integer (zero is positive zero);
/// fails where no number holds the integer exactly.
pub fn number_from_u64(n: u64) -> (r: Result<u64>)
    ensures
        r is Ok <==> exactly_representable(n as int),
        r matches Ok(b) ==> whole_value(b) == Some(n as int) && !sign_negative(b),
        r matches Err(e) ==> e is CastError,
{
    number_of_magnitude(false, n)
}

/// The signed integer that a JavaScript number holds, where it is a whole
/// number within `min..=max`.
pub fn number_to_i64(bits: u64, min: i64, max: i64) -> (r: Result<i64>)
    ensures
        r is Ok <==> (whole_value(bits) matches Some(v) && min <= v <= max),
        r matches Ok(v) ==> whole_value(bits) == Some(v as int),
        r matches Err(e) ==> e is CastError,
{
    match whole_number(bits) {
        None => Err(Error::CastError),
        Some((neg, m)) => {
            let v: i64 = if neg {
                if m > 0x8000_0000_0000_0000 {
                    return Err(Error::CastError);
                } else if m == 0x8000_0000_0000_0000 {
                    i64::MIN
                } else {
                    -(m as i64)
                }
            } else {
                if m > i64::MAX as u64 {
                    return Err(Error::CastError);
                }
                m as i64
            };
            if v < min || v > max {
                Err(Error::CastError)
            } else {
                Ok(v)
            }
        },
    }
}

/// The unsigned integer that a JavaScript number holds, where it is a whole
/// number within `0..=max`.
pub fn number_to_u64(bits: u64, max: u64) -> (r: Result<u64>)
    ensures
        r is Ok <==> (whole_value(bits) matches Some(v) && 0 <= v <= max),
        r matches Ok(v) ==> whole_value(bits) == Some(v as int),
        r matches Err(e) ==> e is CastError,
{
    match whole_number(bits) {
        None => Err(Error::CastError),
        Some((neg, m)) => {
            if (neg && m != 0) || m > max {
                Err(Error::CastError)
            } else {
                Ok(m)
            }
        },
    }
}

} // verus!
