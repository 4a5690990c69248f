//! Integer arithmetic of the conversion engine: the fixed-rate price function
//! and the floor of a product over a divisor, computed without overflow.

use vstd::prelude::*;
use vstd::arithmetic::div_mod::lemma_fundamental_div_mod_converse;
use vstd::arithmetic::div_mod::lemma_fundamental_div_mod;

verus! {

/// Pooled yield below this amount (100 units of the stable asset at six
/// decimals) is left in the accumulator.
pub const CONVERSION_THRESHOLD: u128 = 100_000_000;

/// One unit of the stable asset, in its smallest denomination.
pub const USDC_SCALE: u128 = 1_000_000;

/// The same price with the stable asset in its smallest denomination.
pub const BITCOIN_PRICE_USD_MICROS: u128 = 45_000_000_000;

/// Price of one unit of the secondary asset in units of the stable asset. It
/// is the rate of every conversion and of the value that balance queries
/// report.
pub const BITCOIN_PRICE_USD: u128 = 45_000;

/// The secondary-asset amount that `usdc_amount` buys at the fixed rate,
/// rounded down: one unit for every 45 000 of the stable asset.
pub open spec fn usdc_to_bitcoin(usdc_amount: nat) -> nat {
    usdc_amount / (BITCOIN_PRICE_USD as nat)
}

/// The part of `bitcoin_amount` that falls to a holder of `balance` when
/// `total_yield` is the whole: the floor of `balance * bitcoin_amount /
/// total_yield`.
pub open spec fn share_of(balance: nat, bitcoin_amount: nat, total_yield: nat) -> nat {
    (balance * bitcoin_amount) / total_yield
}

/// The reported value of a secondary-asset holding.
pub open spec fn bitcoin_usd_value(bitcoin_balance: nat) -> nat {
    bitcoin_balance * (BITCOIN_PRICE_USD as nat)
}

/// The price function is the floor of the amount, scaled by one unit of the
/// stable asset, over the price of the secondary asset.
pub proof fn lemma_usdc_to_bitcoin_is_fixed_rate(usdc_amount: nat)
    ensures
        usdc_to_bitcoin(usdc_amount) == (usdc_amount * USDC_SCALE) / (
        BITCOIN_PRICE_USD_MICROS as int),
{
    let q = (usdc_amount / 45_000) as int;
    let r = (usdc_amount % 45_000) as int;
    lemma_fundamental_div_mod(usdc_amount as int, 45_000);
    assert(usdc_amount * 1_000_000 == q * 45_000_000_000 + r * 1_000_000);
    lemma_fundamental_div_mod_converse(
        (usdc_amount * 1_000_000) as int,
        45_000_000_000,
        q,
        r * 1_000_000,
    );
}

/// Converts a stable-asset amount at the fixed rate, rounding down. Amounts
/// under 45 000 convert to zero.
pub fn convert_usdc_to_bitcoin(usdc_amount: u128) -> (bitcoin_amount: u64)
    requires
        usdc_to_bitcoin(usdc_amount as nat) <= u64::MAX,
    ensures
        bitcoin_amount == usdc_to_bitcoin(usdc_amount as nat),
{
    (usdc_amount / BITCOIN_PRICE_USD) as u64
}

/// Whether `usdc_amount` converts to an amount that a `u64` holds.
pub fn usdc_conversion_fits(usdc_amount: u128) -> (fits: bool)
    ensures
        fits == (usdc_to_bitcoin(usdc_amount as nat) <= u64::MAX),
{
    usdc_amount / BITCOIN_PRICE_USD <= u64::MAX as u128
}

/// Quotient and remainder of `r * s` by `d` for `r < d`, found by halving `s`.
fn mul_rem(r: u128, s: u64, d: u128) -> (res: (u64, u128))
    requires
        r < d,
    ensures
        r * s == res.0 * d + res.1,
        res.1 < d,
        res.0 <= s,
    decreases s,
{
    if s == 0 {
        assert(r * s == 0 * d + 0) by (nonlinear_arith)
            requires
                s == 0,
        ;
        (0, 0)
    } else {
        let half: u64 = s / 2;
        let low_bit: u64 = s % 2;
        let (half_quot, half_rem) = mul_rem(r, half, d);
        let mut carry: u128 = 0;
        let mut rem: u128 = half_rem;
        if rem >= d - rem {
            rem = rem - (d - rem);
            carry = 1;
        } else {
            rem = rem + rem;
        }
        if low_bit == 1 {
            if rem >= d - r {
                rem = rem - (d - r);
                carry = carry + 1;
            } else {
                rem = rem + r;
            }
        }
        let quot: u128 = 2 * (half_quot as u128) + carry;
        proof {
            let ri = r as int;
            let si = s as int;
            let di = d as int;
            let hi = half as int;
            let bi = low_bit as int;
            let hq = half_quot as int;
            let hr = half_rem as int;
            let ci = carry as int;
            assert(rem as int == 2 * hr + bi * ri - ci * di) by (nonlinear_arith)
                requires
                    bi == 0 || bi == 1,
                    (bi == 0 && ci == 0 && rem as int == 2 * hr) || (bi == 0 && ci == 1
                        && rem as int == 2 * hr - di) || (bi == 1 && ci == 0 && rem as int == 2
                        * hr + ri) || (bi == 1 && ci == 1 && rem as int == 2 * hr + ri - di) || (bi
                        == 1 && ci == 2 && rem as int == 2 * hr + ri - 2 * di),
            ;
            assert(ri * si == quot as int * di + rem as int) by (nonlinear_arith)
                requires
                    si == 2 * hi + bi,
                    ri * hi == hq * di + hr,
                    quot as int == 2 * hq + ci,
                    rem as int == 2 * hr + bi * ri - ci * di,
            ;
            assert(quot as int <= si) by (nonlinear_arith)
                requires
                    ri * si == quot as int * di + rem as int,
                    0 <= rem as int,
                    0 <= ri < di,
                    0 <= si,
                    0 <= quot as int,
            ;
        }
        (quot as u64, rem)
    }
}

/// The floor of `a * b / d`, or `None` where it is more than a `u64` holds.
/// The product itself may be wider than any machine integer.
pub fn mul_div(a: u128, b: u64, d: u128) -> (res: Option<u64>)
    requires
        d > 0,
    ensures
        match res {
            Some(v) => v == share_of(a as nat, b as nat, d as nat),
            None => share_of(a as nat, b as nat, d as nat) > u64::MAX,
        },
{
    let whole: u128 = a / d;
    let part: u128 = a % d;
    let (low_quot, low_rem) = mul_rem(part, b, d);
    proof {
        let ai = a as int;
        let bi = b as int;
        let di = d as int;
        let wi = whole as int;
        let pi = part as int;
        let lq = low_quot as int;
        let lr = low_rem as int;
        lemma_fundamental_div_mod(ai, di);
        assert(ai * bi == (wi * bi + lq) * di + lr) by (nonlinear_arith)
            requires
                ai == di * wi + pi,
                pi * bi == lq * di + lr,
        ;
        lemma_fundamental_div_mod_converse(ai * bi, di, wi * bi + lq, lr);
        assert(share_of(a as nat, b as nat, d as nat) == wi * bi + lq);
    }
    if b == 0 {
        assert(whole * b == 0) by (nonlinear_arith)
            requires
                b == 0,
        ;
        return Some(low_quot);
    }
    if whole > u64::MAX as u128 {
        assert(whole * b >= whole) by (nonlinear_arith)
            requires
                b >= 1,
                whole >= 0,
        ;
        return None;
    }
    assert(whole * b <= u64::MAX * u64::MAX) by (nonlinear_arith)
        requires
            whole <= u64::MAX,
            b <= u64::MAX,
    ;
    let high: u128 = whole * (b as u128);
    let total: u128 = high + low_quot as u128;
    if total > u64::MAX as u128 {
        None
    } else {
        Some(total as u64)
    }
}

/// Rounding down each part separately never hands out more than rounding the
/// sum: `x / d + y / d <= (x + y) / d`.
pub proof fn lemma_floor_sum(x: nat, y: nat, d: nat)
    requires
        d > 0,
    ensures
        x / d + y / d <= (x + y) / d,
{
    let xi = x as int;
    let yi = y as int;
    let di = d as int;
    lemma_fundamental_div_mod(xi, di);
    lemma_fundamental_div_mod(yi, di);
    lemma_fundamental_div_mod(xi + yi, di);
    let qx = xi / di;
    let qy = yi / di;
    let qs = (xi + yi) / di;
    assert(qx + qy <= qs) by (nonlinear_arith)
        requires
            di > 0,
            xi == di * qx + xi % di,
            yi == di * qy + yi % di,
            xi + yi == di * qs + (xi + yi) % di,
            0 <= xi % di < di,
            0 <= yi % di < di,
            0 <= (xi + yi) % di < di,
    ;
}

/// Two shares of one conversion together are at most the share of the two
/// balances taken as one.
pub proof fn lemma_share_superadditive(a: nat, b: nat, bitcoin_amount: nat, total_yield: nat)
    requires
        total_yield > 0,
    ensures
        share_of(a, bitcoin_amount, total_yield) + share_of(b, bitcoin_amount, total_yield)
            <= share_of(a + b, bitcoin_amount, total_yield),
{
    assert((a + b) * bitcoin_amount == a * bitcoin_amount + b * bitcoin_amount)
        by (nonlinear_arith);
    lemma_floor_sum((a * bitcoin_amount) as nat, (b * bitcoin_amount) as nat, total_yield);
}

/// Balances that together are no more than the divisor share no more than
/// the amount produced.
pub proof fn lemma_share_bounded(balance: nat, bitcoin_amount: nat, total_yield: nat)
    requires
        total_yield > 0,
        balance <= total_yield,
    ensures
        share_of(balance, bitcoin_amount, total_yield) <= bitcoin_amount,
{
    let p = (balance * bitcoin_amount) as int;
    let t = total_yield as int;
    let s = bitcoin_amount as int;
    assert(p <= t * s) by (nonlinear_arith)
        requires
            p == balance * bitcoin_amount,
            balance <= total_yield,
            t == total_yield,
            s == bitcoin_amount,
    ;
    lemma_fundamental_div_mod(p, t);
    let q = p / t;
    assert(q <= s) by (nonlinear_arith)
        requires
            t > 0,
            p == t * q + p % t,
            0 <= p % t,
            p <= t * s,
            0 <= s,
    ;
}

} // verus!
