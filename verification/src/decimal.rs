//! Decimal strings and fixed-point conversion.

use rust_decimal::Decimal;
use std::str::FromStr;
use vstd::prelude::*;

verus! {

/// What `rust_decimal::Decimal::from_str` yields for a string, as its mantissa and scale.
pub uninterp spec fn decimal_from_str(s: Seq<char>) -> Option<(i128, u32)>;

/// Largest magnitude of a `Decimal` mantissa: `2^96`.
pub open spec fn decimal_mantissa_bound() -> int {
    0x1_0000_0000_0000_0000_0000_0000int
}

/// Calls `Decimal::from_str` and returns the parsed number as its mantissa and scale
/// (`value == mantissa / 10^scale`). A `Decimal` holds a 96-bit mantissa and a scale of at
/// most 28.
#[verifier::external_body]
pub(crate) fn parse_decimal(s: &str) -> (r: Option<(i128, u32)>)
    ensures
        r == decimal_from_str(s@),
        r matches Some((m, sc)) ==> -decimal_mantissa_bound() < m < decimal_mantissa_bound()
            && sc <= 28,
{
    match Decimal::from_str(s) {
        Ok(d) => Some((d.mantissa(), d.scale())),
        Err(_) => None,
    }
}

/// `10^n`.
pub open spec fn pow10(n: nat) -> nat
    decreases n,
{
    if n == 0 {
        1
    } else {
        10 * pow10((n - 1) as nat)
    }
}

/// `n / d` rounded to the nearest integer, ties to the even neighbour.
pub open spec fn round_half_even(n: nat, d: nat) -> nat {
    let q = n / d;
    let r = n % d;
    if 2 * r > d {
        q + 1
    } else if 2 * r < d {
        q
    } else if q % 2 == 0 {
        q
    } else {
        q + 1
    }
}

/// The magnitude `a / 10^scale` expressed with `precision` decimals (rounded half to even
/// when decimals are dropped), as an integer count of `10^-precision`.
pub open spec fn rescale(a: nat, scale: nat, precision: nat) -> nat {
    if scale <= precision {
        a * pow10((precision - scale) as nat)
    } else {
        round_half_even(a, pow10((scale - precision) as nat))
    }
}

/// Number of decimals of the fixed-point raw representation.
pub const FIXED_PRECISION: u8 = 9;

/// The fixed-point raw magnitude of `a / 10^scale` rounded to `precision` decimals.
pub open spec fn fixed_raw(a: nat, scale: nat, precision: nat) -> nat {
    rescale(a, scale, precision) * pow10((FIXED_PRECISION - precision) as nat)
}

pub proof fn lemma_pow10_positive(n: nat)
    ensures
        pow10(n) >= 1,
    decreases n,
{
    if n > 0 {
        lemma_pow10_positive((n - 1) as nat);
    }
}

proof fn lemma_pow10_add(a: nat, b: nat)
    ensures
        pow10(a + b) == pow10(a) * pow10(b),
    decreases a,
{
    if a > 0 {
        let a1 = (a - 1) as nat;
        lemma_pow10_add(a1, b);
        assert((a + b - 1) as nat == a1 + b);
        assert(pow10(a + b) == 10 * pow10(a1 + b));
        assert(pow10(a) == 10 * pow10(a1));
        let x = pow10(a1);
        let y = pow10(b);
        assert(10 * (x * y) == (10 * x) * y) by (nonlinear_arith);
        assert(pow10(a + b) == pow10(a) * pow10(b));
    } else {
        assert(pow10(a) == 1);
        assert(a + b == b);
    }
}

proof fn lemma_pow10_monotone(a: nat, b: nat)
    requires
        a <= b,
    ensures
        pow10(a) <= pow10(b),
    decreases b,
{
    if a < b {
        lemma_pow10_monotone(a, (b - 1) as nat);
        lemma_pow10_positive((b - 1) as nat);
    }
}

proof fn lemma_pow10_9()
    ensures
        pow10(9) == 1000000000,
{
    reveal_with_fuel(pow10, 10);
}

proof fn lemma_pow10_38()
    ensures
        pow10(38) == 100000000000000000000000000000000000000,
{
    lemma_pow10_9();
    lemma_pow10_add(9, 9);
    let p9 = pow10(9);
    assert(pow10(18) == 1000000000000000000) by {
        assert(p9 * p9 == 1000000000 * 1000000000);
    }
    lemma_pow10_add(18, 18);
    let p18 = pow10(18);
    assert(pow10(36) == 1000000000000000000000000000000000000) by {
        assert(p18 * p18 == 1000000000000000000 * 1000000000000000000);
    }
    lemma_pow10_add(36, 2);
    reveal_with_fuel(pow10, 3);
    let p36 = pow10(36);
    assert(pow10(2) == 100);
    assert(p36 * 100 == 1000000000000000000000000000000000000 * 100);
}

/// `10^n` for `n <= 38`.
pub(crate) fn pow10_u128(n: u32) -> (r: u128)
    requires
        n <= 38,
    ensures
        r == pow10(n as nat),
{
    let mut r: u128 = 1;
    let mut i: u32 = 0;
    while i < n
        invariant
            i <= n <= 38,
            r == pow10(i as nat),
        decreases n - i,
    {
        proof {
            lemma_pow10_monotone((i + 1) as nat, 38);
            lemma_pow10_38();
        }
        r = r * 10;
        i += 1;
    }
    r
}

/// Divides with rounding half to even.
fn round_half_even_u128(n: u128, d: u128) -> (q: u128)
    requires
        d > 0,
        n < 0x1_0000_0000_0000_0000_0000_0000_0000,
    ensures
        q == round_half_even(n as nat, d as nat),
        q <= n,
{
    let q = n / d;
    let r = n % d;
    proof {
        assert(q <= n) by (nonlinear_arith)
            requires
                q == n / d,
                d > 0,
        ;
        assert(r < d);
        assert(d >= 2 || r == 0);
        assert(r > 0 ==> q < n) by (nonlinear_arith)
            requires
                q == n / d,
                r == n % d,
                d > 0,
                r > 0 ==> d >= 2,
        ;
    }
    if r > d - r {
        q + 1
    } else if r < d - r {
        q
    } else if q % 2 == 0 {
        q
    } else {
        proof {
            assert(r > 0 || d == 0 || r == d - r);
            assert(r == d - r);
            assert(r > 0);
        }
        q + 1
    }
}

/// The fixed-point raw magnitude of `abs / 10^scale` rounded to `precision` decimals.
pub(crate) fn fixed_raw_u128(abs: u128, scale: u32, precision: u8) -> (r: u128)
    requires
        abs < decimal_mantissa_bound(),
        scale <= 28,
        precision <= FIXED_PRECISION,
    ensures
        r == fixed_raw(abs as nat, scale as nat, precision as nat),
{
    let p = precision as u32;
    proof {
        lemma_pow10_monotone((9 - p) as nat, 9);
        lemma_pow10_9();
    }
    let rescaled: u128 = if scale <= p {
        let f = pow10_u128(p - scale);
        proof {
            lemma_pow10_monotone((p - scale) as nat, 9);
            assert(abs * f <= abs * 1000000000) by (nonlinear_arith)
                requires
                    f <= 1000000000,
            ;
        }
        abs * f
    } else {
        proof {
            lemma_pow10_positive((scale - p) as nat);
        }
        round_half_even_u128(abs, pow10_u128(scale - p))
    };
    let g = pow10_u128(9 - p);
    proof {
        lemma_pow10_positive((9 - p) as nat);
        if scale <= p {
            lemma_pow10_monotone((9 - scale) as nat, 9);
            lemma_pow10_add((p - scale) as nat, (9 - p) as nat);
            assert(((p - scale) + (9 - p)) as nat == (9 - scale) as nat);
            assert(rescaled * g == abs * pow10((9 - scale) as nat)) by (nonlinear_arith)
                requires
                    rescaled == abs * pow10((p - scale) as nat),
                    g == pow10((9 - p) as nat),
                    pow10((9 - scale) as nat) == pow10((p - scale) as nat) * pow10((9 - p) as nat),
            ;
            assert(abs * pow10((9 - scale) as nat) <= abs * 1000000000) by (nonlinear_arith)
                requires
                    pow10((9 - scale) as nat) <= 1000000000,
            ;
        } else {
            assert(rescaled * g <= abs * 1000000000) by (nonlinear_arith)
                requires
                    rescaled <= abs,
                    g <= 1000000000,
            ;
        }
    }
    rescaled * g
}

} // verus!
