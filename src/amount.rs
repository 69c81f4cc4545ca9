//! Amounts as fixed-point integers: a value with at most four fractional
//! digits is held as a whole number of ten-thousandths.
use rust_decimal::Decimal;
use vstd::prelude::*;

use crate::model::in_i64;

verus! {

#[verifier::external_type_specification]
#[verifier::external_body]
pub struct ExDecimal(Decimal);

/// Relies on `Decimal::normalize`: the same value with trailing fractional
/// zeros removed.
pub assume_specification[ Decimal::normalize ](d: &Decimal) -> Decimal;

/// Relies on `Decimal::mantissa`: the integer `m` of the value `m / 10^scale`.
pub assume_specification[ Decimal::mantissa ](d: &Decimal) -> i128;

/// Relies on `Decimal::scale`: the power of ten that divides the mantissa.
pub assume_specification[ Decimal::scale ](d: &Decimal) -> u32;

/// Relies on `Decimal::new`: the value `num / 10^scale`; it panics when
/// `scale` exceeds 28.
pub assume_specification[ Decimal::new ](num: i64, scale: u32) -> Decimal
    requires
        scale <= 28,
;

/// Number of fractional digits an amount carries.
pub const AMOUNT_SCALE: u32 = 4;

pub open spec fn pow10(n: nat) -> int
    decreases n,
{
    if n == 0 {
        1
    } else {
        10 * pow10((n - 1) as nat)
    }
}

/// The value `mantissa / 10^scale` counted in ten-thousandths, when it has at
/// most four fractional digits and the count fits in `i64`.
pub open spec fn units_of(mantissa: int, scale: nat) -> Option<i64> {
    if scale <= AMOUNT_SCALE && in_i64(mantissa * pow10((AMOUNT_SCALE - scale) as nat)) {
        Some((mantissa * pow10((AMOUNT_SCALE - scale) as nat)) as i64)
    } else {
        None
    }
}

/// The number of ten-thousandths in `mantissa / 10^scale`; `None` when the
/// scale is above four or the count does not fit in `i64`.
pub fn units_from_parts(mantissa: i128, scale: u32) -> (r: Option<i64>)
    ensures
        r == units_of(mantissa as int, scale as nat),
{
    if scale > AMOUNT_SCALE || mantissa < i64::MIN as i128 || mantissa > i64::MAX as i128 {
        proof {
            if scale <= AMOUNT_SCALE {
                lemma_pow10_positive((AMOUNT_SCALE - scale) as nat);
                assert(mantissa * pow10((AMOUNT_SCALE - scale) as nat) > i64::MAX || mantissa
                    * pow10((AMOUNT_SCALE - scale) as nat) < i64::MIN) by (nonlinear_arith)
                    requires
                        pow10((AMOUNT_SCALE - scale) as nat) >= 1,
                        mantissa < i64::MIN || mantissa > i64::MAX,
                ;
            }
        }
        return None;
    }
    let mut units: i128 = mantissa;
    let mut e: u32 = scale;
    while e < AMOUNT_SCALE
        invariant
            scale <= e <= AMOUNT_SCALE,
            i64::MIN <= mantissa <= i64::MAX,
            units == mantissa * pow10((e - scale) as nat),
            -10000 * 0x8000_0000_0000_0000 <= units <= 10000 * 0x8000_0000_0000_0000,
        decreases AMOUNT_SCALE - e,
    {
        proof {
            lemma_pow10_bound((e - scale) as nat);
            reveal_with_fuel(pow10, 2);
            assert(units * 10 == mantissa * pow10((e + 1 - scale) as nat)) by (nonlinear_arith)
                requires
                    units == mantissa * pow10((e - scale) as nat),
                    pow10((e + 1 - scale) as nat) == 10 * pow10((e - scale) as nat),
            ;
            assert(-10000 * 0x8000_0000_0000_0000 <= units * 10 <= 10000 * 0x8000_0000_0000_0000)
                by (nonlinear_arith)
                requires
                    units == mantissa * pow10((e - scale) as nat),
                    1 <= pow10((e - scale) as nat) <= 1000,
                    i64::MIN <= mantissa <= i64::MAX,
            ;
        }
        units = units * 10;
        e = e + 1;
    }
    if units < i64::MIN as i128 || units > i64::MAX as i128 {
        None
    } else {
        Some(units as i64)
    }
}

proof fn lemma_pow10_positive(n: nat)
    ensures
        pow10(n) >= 1,
    decreases n,
{
    if n > 0 {
        lemma_pow10_positive((n - 1) as nat);
    }
}

proof fn lemma_pow10_bound(n: nat)
    requires
        n < AMOUNT_SCALE,
    ensures
        1 <= pow10(n) <= 1000,
{
    reveal_with_fuel(pow10, 4);
}

/// The amount of `d` in ten-thousandths, when `d` has at most four
/// fractional digits once trailing zeros are removed and the count fits in
/// `i64`.
pub fn amount_from_decimal(d: &Decimal) -> (r: Option<i64>)
    ensures
        exists|m: i128, s: u32| r == units_of(m as int, s as nat),
{
    let n = d.normalize();
    let m = n.mantissa();
    let s = n.scale();
    units_from_parts(m, s)
}

/// The decimal value of an amount counted in ten-thousandths.
pub fn decimal_from_units(units: i64) -> Decimal {
    Decimal::new(units, AMOUNT_SCALE)
}

} // verus!
