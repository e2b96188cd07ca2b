//! Conversions between integers and `f32` values carried as bit patterns:
//! `x as usize` for an `f32` and `n as f32` for a `u32`, computed on the bits
//! with the rounding that Rust's `as` performs.
use vstd::prelude::*;
use vstd::arithmetic::power2::{pow2, lemma2_to64, lemma2_to64_rest, lemma_pow2_strictly_increases, lemma_pow2_adds, lemma_pow2_pos, lemma_pow2_unfold};
use vstd::arithmetic::div_mod::{lemma_basic_div, lemma_div_is_ordered, lemma_multiply_divide_lt, lemma_div_pos_is_pos};
use vstd::arithmetic::mul::{lemma_mul_inequality, lemma_mul_strict_inequality};
use vstd::bits::{lemma_u64_shl_is_mul, lemma_u64_shr_is_div};
use crate::float_bits::{is_nan, magnitude, sign_bit};

verus! {

/// The exponent field of a binary32 pattern (0 to 255).
pub open spec fn exponent_field(bits: u32) -> int {
    magnitude(bits) / 0x80_0000
}

/// The significand of a normal binary32 value, its implicit leading one included.
pub open spec fn significand(bits: u32) -> int {
    0x80_0000 + magnitude(bits) % 0x80_0000
}

/// The integer part of a finite binary32 value's magnitude: the significand
/// scaled by 2^(exponent - 150) and rounded toward zero; subnormal values are
/// below one.
pub open spec fn integer_part(bits: u32) -> int {
    let e = exponent_field(bits);
    if e == 0 {
        0
    } else if e >= 150 {
        significand(bits) * pow2((e - 150) as nat)
    } else {
        significand(bits) / (pow2((150 - e) as nat) as int)
    }
}

/// What `x as usize` gives for the `f32` with pattern `bits`: NaN and negative
/// values give 0, +inf and values beyond `usize::MAX` saturate, other values
/// are truncated toward zero.
pub open spec fn spec_f32_to_usize(bits: u32) -> int {
    if is_nan(bits) || bits >= sign_bit() {
        0
    } else if magnitude(bits) == 0x7f80_0000 {
        usize::MAX as int
    } else if integer_part(bits) > usize::MAX {
        usize::MAX as int
    } else {
        integer_part(bits)
    }
}

/// `x as usize` for the `f32` whose bit pattern is `bits`.
pub fn f32_to_usize(bits: u32) -> (r: usize)
    ensures
        r == spec_f32_to_usize(bits),
{
    if bits >= 0x8000_0000 || bits > 0x7f80_0000 {
        return 0;
    }
    if bits == 0x7f80_0000 {
        return usize::MAX;
    }
    assert(magnitude(bits) == bits);
    let e: u32 = bits / 0x80_0000;
    let s: u64 = (0x80_0000 + bits % 0x80_0000) as u64;
    assert(e == exponent_field(bits));
    assert(s == significand(bits));
    assert(0x80_0000 <= s < 0x100_0000);
    if e == 0 {
        return 0;
    }
    proof {
        lemma2_to64();
        lemma2_to64_rest();
    }
    if e < 127 {
        proof {
            if 150 - e > 24 {
                lemma_pow2_strictly_increases(24, (150 - e) as nat);
            }
            lemma_basic_div(s as int, pow2((150 - e) as nat) as int);
        }
        return 0;
    }
    let t: u64;
    if e < 150 {
        let shift: u64 = (150 - e) as u64;
        proof {
            lemma_u64_shr_is_div(s, shift);
            lemma_pow2_pos(shift as nat);
            lemma_div_is_ordered(0, s as int, pow2(shift as nat) as int);
            assert(s as nat / pow2(shift as nat) <= s) by (nonlinear_arith)
                requires
                    pow2(shift as nat) >= 1,
            ;
        }
        t = s >> shift;
        assert(t < 0x100_0000);
    } else {
        if e >= 191 {
            proof {
                let p = pow2((e - 150) as nat);
                if e > 191 {
                    lemma_pow2_strictly_increases(41, (e - 150) as nat);
                }
                assert(s * p >= 0x80_0000 * 0x200_0000_0000) by (nonlinear_arith)
                    requires
                        s >= 0x80_0000,
                        p >= 0x200_0000_0000,
                ;
            }
            return usize::MAX;
        }
        let shift: u64 = (e - 150) as u64;
        proof {
            let p = pow2(shift as nat);
            if shift < 40 {
                lemma_pow2_strictly_increases(shift as nat, 40);
            }
            assert(s * p <= u64::MAX) by (nonlinear_arith)
                requires
                    s < 0x100_0000,
                    p <= 0x100_0000_0000,
            ;
            lemma_u64_shl_is_mul(s, shift);
        }
        t = s << shift;
    }
    if t > usize::MAX as u64 {
        usize::MAX
    } else {
        t as usize
    }
}

/// floor(log2 n), for n of at least one.
pub open spec fn log2_floor(n: nat) -> nat
    decreases n,
{
    if n <= 1 {
        0
    } else {
        1 + log2_floor(n / 2)
    }
}

proof fn lemma_log2_floor_bounds(n: nat)
    requires
        n >= 1,
    ensures
        pow2(log2_floor(n)) <= n < pow2(log2_floor(n) + 1),
    decreases n,
{
    lemma_pow2_unfold(log2_floor(n) + 1);
    if n > 1 {
        lemma_log2_floor_bounds(n / 2);
        lemma_pow2_unfold(log2_floor(n));
    } else {
        lemma2_to64();
    }
}

/// The bit pattern of `n as f32`: the binary32 value nearest to `n`, a tie
/// going to the even significand. With e = floor(log2 n), values below 2^24
/// are exact; above, the significand is n / 2^(e - 23), rounded by the
/// remainder, and a carry out of 24 bits raises the exponent.
pub open spec fn spec_u32_to_f32(n: u32) -> int {
    if n == 0 {
        0
    } else {
        let e = log2_floor(n as nat);
        if e <= 23 {
            (e + 127) * 0x80_0000 + (n * pow2((23 - e) as nat) - 0x80_0000) as int
        } else {
            let p = pow2((e - 23) as nat) as int;
            let q = (n as int) / p;
            let rem = (n as int) % p;
            let q2 = if 2 * rem > p || (2 * rem == p && q % 2 == 1) {
                q + 1
            } else {
                q
            };
            if q2 == 0x100_0000 {
                (e + 128) * 0x80_0000 as int
            } else {
                (e + 127) * 0x80_0000 + (q2 - 0x80_0000)
            }
        }
    }
}

/// The bit pattern of `n as f32`.
pub fn u32_to_f32_bits(n: u32) -> (r: u32)
    ensures
        r == spec_u32_to_f32(n),
{
    if n == 0 {
        return 0;
    }
    proof {
        lemma_log2_floor_bounds(n as nat);
        lemma2_to64();
        if log2_floor(n as nat) >= 32 {
            if log2_floor(n as nat) > 32 {
                lemma_pow2_strictly_increases(32, log2_floor(n as nat));
            }
        }
    }
    assert(log2_floor(n as nat) < 32);
    let mut e: u32 = 0;
    let mut m: u32 = n;
    while m > 1
        invariant
            1 <= m <= n,
            log2_floor(n as nat) == e + log2_floor(m as nat),
            log2_floor(n as nat) < 32,
        decreases m,
    {
        m = m / 2;
        e = e + 1;
    }
    assert(e < 32);
    let ghost pe = pow2(e as nat);
    if e <= 23 {
        let shift: u64 = (23 - e) as u64;
        proof {
            lemma_pow2_adds(e as nat, shift as nat);
            lemma_pow2_adds((e + 1) as nat, shift as nat);
            lemma_pow2_unfold(24);
            let ps = pow2(shift as nat);
            lemma_pow2_pos(shift as nat);
            lemma_mul_inequality(pe as int, n as int, ps as int);
            lemma_mul_strict_inequality(n as int, pow2((e + 1) as nat) as int, ps as int);
            lemma_u64_shl_is_mul(n as u64, shift);
        }
        let sig: u64 = (n as u64) << shift;
        assert(0x80_0000 <= sig < 0x100_0000);
        ((e + 127) * 0x80_0000 + (sig as u32 - 0x80_0000)) as u32
    } else {
        let k: u32 = e - 23;
        proof {
            lemma_pow2_strictly_increases(k as nat, 32);
            assert(1u64 * pow2(k as nat) <= u64::MAX);
            lemma_u64_shl_is_mul(1, k as u64);
        }
        let p: u32 = (1u64 << (k as u64)) as u32;
        let ghost pk = pow2(k as nat);
        assert(p == pk);
        let q: u32 = n / p;
        let rem: u32 = n % p;
        proof {
            lemma_pow2_adds(k as nat, 23);
            lemma_pow2_adds(k as nat, 24);
            lemma_pow2_unfold(24);
            assert(e + 1 == k + 24);
            lemma_div_is_ordered(pe as int, n as int, pk as int);
            vstd::arithmetic::div_mod::lemma_div_multiples_vanish(pow2(23) as int, pk as int);
            lemma_multiply_divide_lt(n as int, pk as int, pow2(24) as int);
            assert(pe == pk * pow2(23));
        }
        assert(0x80_0000 <= q < 0x100_0000);
        let up: bool = rem > p - rem || (rem == p - rem && q % 2 == 1);
        let q2: u32 = if up {
            q + 1
        } else {
            q
        };
        if q2 == 0x100_0000 {
            (e + 128) * 0x80_0000
        } else {
            (e + 127) * 0x80_0000 + (q2 - 0x80_0000)
        }
    }
}

/// The magnitude of `x * 0.5` for an `f32` of magnitude `mag`: infinities
/// and NaNs keep their class, a normal value above the smallest exponent
/// loses one from its exponent, and smaller values (counted in units of
/// 2^-149) are halved with a tie rounded to the even neighbour.
pub open spec fn half_magnitude(mag: int) -> int {
    if mag >= 0x7f80_0000 {
        mag
    } else if mag >= 0x100_0000 {
        mag - 0x80_0000
    } else {
        mag / 2 + if mag % 2 == 1 && (mag / 2) % 2 == 1 {
            1int
        } else {
            0int
        }
    }
}

/// The pattern of `x * 0.5` (same sign, halved magnitude; a NaN stays a NaN).
pub open spec fn spec_f32_half(bits: u32) -> int {
    (bits as int - magnitude(bits)) + half_magnitude(magnitude(bits))
}

/// `x * 0.5` for the `f32` whose bit pattern is `bits`.
pub fn f32_half(bits: u32) -> (r: u32)
    ensures
        r == spec_f32_half(bits),
{
    let sign: u32 = if bits >= 0x8000_0000 {
        0x8000_0000
    } else {
        0
    };
    let mag: u32 = bits - sign;
    assert(mag == magnitude(bits));
    let half: u32 = if mag >= 0x7f80_0000 {
        mag
    } else if mag >= 0x100_0000 {
        mag - 0x80_0000
    } else if mag % 2 == 1 && (mag / 2) % 2 == 1 {
        mag / 2 + 1
    } else {
        mag / 2
    };
    sign + half
}

/// Every integer below 2^24 is an `f32` exactly: casting it to `f32` and back
/// to an integer gives it back.
pub proof fn law_small_integers_round_trip(n: u32)
    requires
        n < 0x100_0000,
    ensures
        spec_f32_to_usize(spec_u32_to_f32(n) as u32) == n,
{
    lemma2_to64();
    if n > 0 {
        lemma_log2_floor_bounds(n as nat);
        let e = log2_floor(n as nat);
        if e > 23 {
            lemma_pow2_strictly_increases(24, e);
        }
        assert(e <= 23);
        let k = (23 - e) as nat;
        lemma_pow2_adds(e, k);
        lemma_pow2_adds((e + 1) as nat, k);
        lemma_pow2_unfold(24);
        lemma_pow2_pos(k);
        let sig = n * pow2(k);
        lemma_mul_inequality(pow2(e) as int, n as int, pow2(k) as int);
        lemma_mul_strict_inequality(n as int, pow2((e + 1) as nat) as int, pow2(k) as int);
        assert(0x80_0000 <= sig < 0x100_0000);
        let bits = (e + 127) * 0x80_0000 + (sig - 0x80_0000);
        assert(spec_u32_to_f32(n) == bits);
        assert(bits < 0x7f80_0000);
        let b = bits as u32;
        assert(magnitude(b) == bits);
        assert(exponent_field(b) == e + 127) by {
            vstd::arithmetic::div_mod::lemma_fundamental_div_mod_converse(
                bits as int,
                0x80_0000,
                (e + 127) as int,
                sig - 0x80_0000,
            );
        }
        assert(significand(b) == sig) by {
            vstd::arithmetic::div_mod::lemma_fundamental_div_mod_converse(
                bits as int,
                0x80_0000,
                (e + 127) as int,
                sig - 0x80_0000,
            );
        }
        assert(150 - (e + 127) == k);
        if e == 23 {
            assert(pow2(k) == 1);
            assert(integer_part(b) == sig * pow2(0));
            assert(sig / 1int == sig);
            assert(sig / (pow2(k) as int) == sig);
        } else {
            assert(integer_part(b) == significand(b) / (pow2((150 - exponent_field(b)) as nat) as int));
        }
        assert(integer_part(b) == sig / (pow2(k) as int));
        vstd::arithmetic::div_mod::lemma_div_multiples_vanish(n as int, pow2(k) as int);
        assert(sig / (pow2(k) as int) == n) by {
            vstd::arithmetic::mul::lemma_mul_is_commutative(n as int, pow2(k) as int);
        }
    }
}

} // verus!
