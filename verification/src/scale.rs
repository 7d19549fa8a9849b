use vstd::prelude::*;

verus! {

/// The number of decimal places of every amount that the oracle holds: two,
/// so that amounts are counted in hundredths of the quote currency.
pub const PRICE_DECIMALS: i32 = 2;

/// Ten to the power `n`.
pub open spec fn pow10(n: nat) -> nat
    decreases n,
{
    if n == 0 {
        1
    } else {
        10 * pow10((n - 1) as nat)
    }
}

/// The amount `value * 10^expo`, counted in units of `10^-PRICE_DECIMALS` and
/// rounded down to a whole number of them.
pub open spec fn rescaled(value: int, expo: int) -> int {
    let shift = expo + PRICE_DECIMALS;
    if shift >= 0 {
        value * pow10(shift as nat)
    } else {
        value / (pow10((-shift) as nat) as int)
    }
}

/// What `rescale` accepts and hands out: from the least `i64` to the greatest `u64`.
pub open spec fn in_amount_range(value: int) -> bool {
    -0x8000_0000_0000_0000 <= value <= 0xffff_ffff_ffff_ffff
}

pub proof fn lemma_pow10_positive(n: nat)
    ensures
        pow10(n) >= 1,
    decreases n,
{
    if n > 0 {
        lemma_pow10_positive((n - 1) as nat);
    }
}

pub proof fn lemma_pow10_monotone(m: nat, n: nat)
    requires
        m <= n,
    ensures
        pow10(m) <= pow10(n),
    decreases n,
{
    if m < n {
        lemma_pow10_monotone(m, (n - 1) as nat);
        lemma_pow10_positive((n - 1) as nat);
    }
}

/// The two powers of ten on either side of the 64-bit range.
pub proof fn lemma_pow10_landmarks()
    ensures
        pow10(19) == 10_000_000_000_000_000_000,
        pow10(20) == 100_000_000_000_000_000_000,
{
    reveal_with_fuel(pow10, 21);
}

/// Rescaling keeps the sign: a negative amount stays negative, zero stays
/// zero, and a positive amount never turns negative.
pub proof fn lemma_rescaled_sign(value: int, expo: int)
    ensures
        value < 0 <==> rescaled(value, expo) < 0,
        value == 0 ==> rescaled(value, expo) == 0,
{
    let shift = expo + PRICE_DECIMALS;
    if shift >= 0 {
        let p = pow10(shift as nat) as int;
        lemma_pow10_positive(shift as nat);
        assert((value < 0 <==> value * p < 0) && (value == 0 ==> value * p == 0))
            by (nonlinear_arith)
            requires
                p >= 1,
        ;
    } else {
        let d = pow10((-shift) as nat) as int;
        lemma_pow10_positive((-shift) as nat);
        assert((value < 0 <==> value / d < 0) && (value == 0 ==> value / d == 0))
            by (nonlinear_arith)
            requires
                d >= 1,
        ;
    }
}

/// Ten to the power `n`, for the powers that fit in 64 bits.
pub(crate) fn power_of_ten(n: u32) -> (power: u64)
    requires
        n <= 19,
    ensures
        power == pow10(n as nat),
{
    let mut power: u64 = 1;
    let mut i: u32 = 0;
    while i < n
        invariant
            i <= n <= 19,
            power == pow10(i as nat),
        decreases n - i,
    {
        proof {
            lemma_pow10_monotone((i + 1) as nat, 19);
            lemma_pow10_landmarks();
        }
        power = power * 10;
        i = i + 1;
    }
    power
}

/// Rescales `value * 10^expo` to the oracle's fixed number of decimal places.
/// The result is given where it lies in the amount range, and withheld where
/// it does not.
pub(crate) fn rescale(value: i128, expo: i32) -> (scaled: Option<i128>)
    requires
        in_amount_range(value as int),
    ensures
        in_amount_range(rescaled(value as int, expo as int)) ==> scaled == Some(
            rescaled(value as int, expo as int) as i128,
        ),
        !in_amount_range(rescaled(value as int, expo as int)) ==> scaled is None,
{
    let shift: i64 = expo as i64 + PRICE_DECIMALS as i64;
    proof {
        lemma_rescaled_sign(value as int, expo as int);
        lemma_pow10_landmarks();
    }
    if value == 0 {
        return Some(0);
    }
    if shift >= 0 {
        if shift > 19 {
            proof {
                let p = pow10(shift as nat) as int;
                lemma_pow10_monotone(20, shift as nat);
                assert(value * p >= p || value * p <= -p) by (nonlinear_arith)
                    requires
                        value != 0,
                        p >= 1,
                ;
            }
            return None;
        }
        let power: u128 = power_of_ten(shift as u32) as u128;
        proof {
            lemma_pow10_monotone(shift as nat, 19);
        }
        if value > 0 {
            let size: u128 = value as u128;
            assert(size * power <= 0xffff_ffff_ffff_ffff * 10_000_000_000_000_000_000)
                by (nonlinear_arith)
                requires
                    0 <= size <= 0xffff_ffff_ffff_ffff,
                    0 <= power <= 10_000_000_000_000_000_000,
            ;
            let product: u128 = size * power;
            if product > 0xffff_ffff_ffff_ffff {
                None
            } else {
                Some(product as i128)
            }
        } else {
            let size: u128 = (-value) as u128;
            assert(size * power <= 0x8000_0000_0000_0000 * 10_000_000_000_000_000_000)
                by (nonlinear_arith)
                requires
                    0 <= size <= 0x8000_0000_0000_0000,
                    0 <= power <= 10_000_000_000_000_000_000,
            ;
            let product: u128 = size * power;
            assert(value * power == -(size * power)) by (nonlinear_arith)
                requires
                    size == -value,
            ;
            if product > 0x8000_0000_0000_0000 {
                None
            } else {
                Some(-(product as i128))
            }
        }
    } else {
        let places: i64 = -shift;
        if places > 19 {
            proof {
                let d = pow10(places as nat) as int;
                lemma_pow10_monotone(20, places as nat);
                let v = value as int;
                assert(v > 0 ==> v / d == 0) by (nonlinear_arith)
                    requires
                        v < d,
                        d > 0,
                ;
                assert(v < 0 ==> v / d == -1) by (nonlinear_arith)
                    requires
                        -d <= v,
                        d > 0,
                ;
            }
            return if value > 0 {
                Some(0)
            } else {
                Some(-1)
            };
        }
        let divisor: u128 = power_of_ten(places as u32) as u128;
        proof {
            lemma_pow10_positive(places as nat);
        }
        if value > 0 {
            let quotient: u128 = (value as u128) / divisor;
            Some(quotient as i128)
        } else {
            let below: u128 = (-(value + 1)) as u128;
            let quotient: u128 = below / divisor;
            proof {
                let v = value as int;
                let d = divisor as int;
                assert(v / d == -1 - ((-(v + 1)) / d)) by (nonlinear_arith)
                    requires
                        v < 0,
                        d > 0,
                ;
            }
            Some(-1 - (quotient as i128))
        }
    }
}

} // verus!
