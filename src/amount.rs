//! Fixed-point monetary amounts with four fractional digits.
use std::str::FromStr;

use rust_decimal::Decimal;
use vstd::prelude::*;

verus! {

/// Number of fractional decimal digits an amount retains.
pub const SCALE: u32 = 4;

/// `10^n`.
pub open spec fn pow10(n: nat) -> nat
    decreases n,
{
    if n == 0 {
        1
    } else {
        10 * pow10((n - 1) as nat)
    }
}

/// `m / d` rounded to the nearest integer, ties going to the even neighbour.
pub open spec fn div_round_half_even(m: int, d: int) -> int {
    let q = m / d;
    let r = m % d;
    if 2 * r > d || (2 * r == d && q % 2 == 1) {
        q + 1
    } else {
        q
    }
}

/// A non-negative amount of money, counted in ten-thousandths of a currency unit.
#[derive(Clone, Copy, Debug, PartialEq, Eq, Structural, Hash)]
pub struct Amount {
    pub units: u64,
}

/// The decimal `m / 10^s` rounded to four fractional digits; `None` when it is
/// negative or its count of ten-thousandths does not fit in a `u64`.
pub open spec fn amount_of_parts(m: int, s: nat) -> Option<Amount> {
    let u = if s <= SCALE {
        m * pow10((SCALE - s) as nat)
    } else {
        div_round_half_even(m, pow10((s - SCALE) as nat) as int)
    };
    if m < 0 || u > u64::MAX {
        None
    } else {
        Some(Amount { units: u as u64 })
    }
}

/// The amount written in `text`, as `Decimal::from_str` reads it, rounded to
/// four fractional digits.
pub open spec fn amount_of_text(text: Seq<char>) -> Option<Amount> {
    match decimal_parts(text) {
        Some((m, e)) => amount_of_parts(m as int, e as nat),
        None => None,
    }
}

/// Bound on the magnitude of a decimal's mantissa.
pub const MANTISSA_LIMIT: i128 = 0x1_0000_0000_0000_0000_0000_0000;

impl Amount {
    /// The zero amount.
    pub fn zero() -> (r: Amount)
        ensures
            r.units == 0,
    {
        Amount { units: 0 }
    }

    /// The amount `mantissa / 10^scale`, rounded half-to-even to four fractional
    /// digits. `None` when it is negative or too large to represent.
    pub fn from_parts(mantissa: i128, scale: u32) -> (r: Option<Amount>)
        requires
            -MANTISSA_LIMIT < mantissa < MANTISSA_LIMIT,
            scale <= 28,
        ensures
            r == amount_of_parts(mantissa as int, scale as nat),
    {
        if mantissa < 0 {
            return None;
        }
        let u: i128;
        if scale <= SCALE {
            let p = pow10_i128(SCALE - scale);
            proof {
                lemma_pow10_monotonic((SCALE - scale) as nat, 4);
                reveal_with_fuel(pow10, 5);
                assert(0 <= mantissa * p <= MANTISSA_LIMIT * 10000) by (nonlinear_arith)
                    requires
                        0 <= mantissa < MANTISSA_LIMIT,
                        0 <= p <= 10000,
                ;
            }
            u = mantissa * p;
        } else {
            let d = pow10_i128(scale - SCALE);
            proof {
                lemma_pow10_positive((scale - SCALE) as nat);
                lemma_pow10_monotonic((scale - SCALE) as nat, 28);
                lemma_pow10_28();
            }
            let q = mantissa / d;
            let rem = mantissa % d;
            if 2 * rem > d || (2 * rem == d && q % 2 == 1) {
                u = q + 1;
            } else {
                u = q;
            }
        }
        if u > u64::MAX as i128 {
            None
        } else {
            Some(Amount { units: u as u64 })
        }
    }

    /// Reads a decimal text such as `"100.25"` as an amount rounded to four
    /// fractional digits. `None` when the text is no decimal, or the amount is
    /// negative or too large to represent.
    pub fn parse(text: &str) -> (r: Option<Amount>)
        ensures
            r == amount_of_text(text@),
    {
        match parse_decimal(text) {
            Some((m, e)) => Amount::from_parts(m, e),
            None => None,
        }
    }
}

/// What `Decimal::from_str` reads from a text, as the decimal's mantissa and scale.
pub uninterp spec fn decimal_parts(text: Seq<char>) -> Option<(i128, u32)>;

/// Relies on rust_decimal's `Decimal::from_str` (with `Decimal::mantissa` and
/// `Decimal::scale` to take the result apart): a decimal `m / 10^e` always has
/// `-2^96 < m < 2^96` and `0 <= e <= 28`.
#[verifier::external_body]
fn parse_decimal(text: &str) -> (r: Option<(i128, u32)>)
    ensures
        r == decimal_parts(text@),
        r matches Some((m, e)) ==> -0x1_0000_0000_0000_0000_0000_0000 < m
            < 0x1_0000_0000_0000_0000_0000_0000 && e <= 28,
{
    match Decimal::from_str(text) {
        Ok(d) => Some((d.mantissa(), d.scale())),
        Err(_) => None,
    }
}

/// `10^n` for `n <= 28`.
fn pow10_i128(n: u32) -> (r: i128)
    requires
        n <= 28,
    ensures
        r == pow10(n as nat),
{
    let mut r: i128 = 1;
    let mut i: u32 = 0;
    while i < n
        invariant
            i <= n <= 28,
            r == pow10(i as nat),
        decreases n - i,
    {
        proof {
            lemma_pow10_monotonic((i + 1) as nat, 28);
            lemma_pow10_28();
        }
        r = r * 10;
        i = i + 1;
    }
    r
}

proof fn lemma_pow10_28()
    ensures
        pow10(28) == 10_000_000_000_000_000_000_000_000_000,
{
    reveal_with_fuel(pow10, 29);
}

proof fn lemma_pow10_positive(n: nat)
    ensures
        pow10(n) >= 1,
    decreases n,
{
    if n > 0 {
        lemma_pow10_positive((n - 1) as nat);
    }
}

proof fn lemma_pow10_monotonic(a: nat, b: nat)
    requires
        a <= b,
    ensures
        pow10(a) <= pow10(b),
    decreases b,
{
    if a < b {
        lemma_pow10_monotonic(a, (b - 1) as nat);
    }
}

} // verus!
