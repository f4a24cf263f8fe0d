use vstd::arithmetic::div_mod::{lemma_fundamental_div_mod, lemma_fundamental_div_mod_converse};
use vstd::prelude::*;
use std::str::FromStr;

verus! {

/// Number of fractional decimal digits an amount carries.
pub const FRACTION_DIGITS: u32 = 4;

/// A monetary amount held exactly as a whole number of ten-thousandths.
#[derive(Debug, Clone, Copy, PartialEq, Eq, Structural)]
pub struct Amount {
    pub units: i128,
}

/// Ten to the power `n`.
pub open spec fn pow10(n: nat) -> int
    decreases n,
{
    if n == 0 {
        1
    } else {
        10 * pow10((n - 1) as nat)
    }
}

/// The amount `mantissa / 10^scale` in ten-thousandths, when that is a whole number.
pub open spec fn units_of(mantissa: int, scale: nat) -> Option<int> {
    if scale <= FRACTION_DIGITS {
        Some(mantissa * pow10((FRACTION_DIGITS - scale) as nat))
    } else if mantissa % pow10((scale - FRACTION_DIGITS) as nat) == 0 {
        Some(mantissa / pow10((scale - FRACTION_DIGITS) as nat))
    } else {
        None
    }
}

/// The amount written by a decimal with the given mantissa and scale: present when
/// the scale is one a decimal can have (at most 28), the value has at most four
/// significant fractional digits, and it fits the representation.
pub open spec fn amount_of(mantissa: int, scale: nat) -> Option<Amount> {
    if scale > 28 {
        None
    } else {
        match units_of(mantissa, scale) {
            Some(u) => if i128::MIN <= u <= i128::MAX {
                Some(Amount { units: u as i128 })
            } else {
                None
            },
            None => None,
        }
    }
}

/// The mantissa and scale that `rust_decimal` reads from a decimal string, if it reads one.
pub uninterp spec fn decimal_parts(s: Seq<char>) -> Option<(i128, u32)>;

/// The amount a decimal string denotes, through the decimal parser.
pub open spec fn parsed_amount(s: Seq<char>) -> Option<Amount> {
    match decimal_parts(s) {
        Some((m, sc)) => amount_of(m as int, sc as nat),
        None => None,
    }
}

proof fn lemma_pow10_positive(n: nat)
    ensures
        pow10(n) >= 1,
    decreases n,
{
    if n > 0 {
        lemma_pow10_positive((n - 1) as nat);
    }
}

proof fn lemma_pow10_monotone(i: nat, j: nat)
    requires
        i <= j,
    ensures
        pow10(i) <= pow10(j),
    decreases j,
{
    lemma_pow10_positive(j);
    if i < j {
        lemma_pow10_monotone(i, (j - 1) as nat);
    }
}

proof fn lemma_pow10_24()
    ensures
        pow10(24) == 1_000_000_000_000_000_000_000_000,
{
    reveal_with_fuel(pow10, 25);
}

/// Ten to the power `n`, for `n` up to 24.
fn pow10_u128(n: u32) -> (r: u128)
    requires
        n <= 24,
    ensures
        r as int == pow10(n as nat),
{
    let mut r: u128 = 1;
    let mut i: u32 = 0;
    while i < n
        invariant
            i <= n <= 24,
            r as int == pow10(i as nat),
        decreases n - i,
    {
        proof {
            lemma_pow10_monotone((i + 1) as nat, 24);
            lemma_pow10_24();
        }
        r = r * 10;
        i = i + 1;
    }
    r
}

/// Converts a decimal given by mantissa and scale to an amount in ten-thousandths.
pub fn amount_from_parts(mantissa: i128, scale: u32) -> (r: Option<Amount>)
    ensures
        r == amount_of(mantissa as int, scale as nat),
{
    if scale > 28 {
        return None;
    }
    if scale <= FRACTION_DIGITS {
        let p = pow10_u128(FRACTION_DIGITS - scale);
        proof {
            lemma_pow10_monotone((FRACTION_DIGITS - scale) as nat, 4);
            reveal_with_fuel(pow10, 5);
        }
        match mantissa.checked_mul(p as i128) {
            Some(u) => Some(Amount { units: u }),
            None => None,
        }
    } else {
        let p = pow10_u128(scale - FRACTION_DIGITS);
        let ghost pi = p as int;
        proof {
            lemma_pow10_positive((scale - FRACTION_DIGITS) as nat);
        }
        let neg = mantissa < 0;
        let mag: u128 = if neg {
            (-(mantissa + 1)) as u128 + 1
        } else {
            mantissa as u128
        };
        assert(mag as int == if neg { -(mantissa as int) } else { mantissa as int });
        let rem = mag % p;
        let q = mag / p;
        proof {
            lemma_fundamental_div_mod(mag as int, pi);
            lemma_fundamental_div_mod(mantissa as int, pi);
            reveal_with_fuel(pow10, 2);
            lemma_pow10_monotone(1, (scale - FRACTION_DIGITS) as nat);
            if neg {
                if rem == 0 {
                    assert(mantissa as int == (-(q as int)) * pi + 0) by (nonlinear_arith)
                        requires
                            mag as int == pi * (q as int) + 0,
                            mantissa as int == -(mag as int),
                    ;
                    lemma_fundamental_div_mod_converse(mantissa as int, pi, -(q as int), 0);
                } else {
                    let mq = mantissa as int / pi;
                    if mantissa as int % pi == 0 {
                        assert(mag as int == (-mq) * pi + 0) by (nonlinear_arith)
                            requires
                                mantissa as int == pi * mq + 0,
                                mantissa as int == -(mag as int),
                        ;
                        lemma_fundamental_div_mod_converse(mag as int, pi, -mq, 0);
                    }
                }
            }
            assert(10 * (q as int) <= mag as int) by (nonlinear_arith)
                requires
                    mag as int == pi * (q as int) + (rem as int),
                    pi >= 10,
                    rem >= 0,
                    q >= 0,
            ;
        }
        if rem != 0 {
            None
        } else {
            let u: i128 = if neg {
                -(q as i128)
            } else {
                q as i128
            };
            Some(Amount { units: u })
        }
    }
}

/// Relies on `rust_decimal::Decimal::from_str` to read a decimal string, and on
/// `Decimal::mantissa` and `Decimal::scale` to take the result apart; the outcome
/// depends on the string alone.
#[verifier::external_body]
fn parse_decimal(s: &str) -> (r: Option<(i128, u32)>)
    ensures
        r == decimal_parts(s@),
{
    match rust_decimal::Decimal::from_str(s) {
        Ok(d) => Some((d.mantissa(), d.scale())),
        Err(_) => None,
    }
}

/// Reads an amount from a decimal string with at most four significant fractional digits.
pub fn parse_amount(s: &str) -> (r: Option<Amount>)
    ensures
        r == parsed_amount(s@),
{
    match parse_decimal(s) {
        Some((m, sc)) => amount_from_parts(m, sc),
        None => None,
    }
}

} // verus!
