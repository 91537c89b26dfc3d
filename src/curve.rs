//! Fee arithmetic and the pricing curves behind the pool kinds.
use vstd::prelude::*;

verus! {

/// Fee rates are parts of this denominator (basis points).
pub const FEE_DIVISOR: u32 = 10_000;

/// Fixed-point precision of exchange rates and share prices.
pub const RATE_PRECISION: u128 = 100_000_000;

/// The part `bps / FEE_DIVISOR` of `amount`, rounded down.
pub open spec fn fee_part(amount: int, bps: int) -> int {
    amount * bps / FEE_DIVISOR as int
}

/// What is left of `amount` once the fee at rate `bps` is taken.
pub open spec fn net_of_fee(amount: int, bps: int) -> int {
    amount - fee_part(amount, bps)
}

/// Output of the constant-product curve for `net` input against reserves
/// `rin` and `rout`.
pub open spec fn product_out(net: int, rin: int, rout: int) -> int {
    if rin + net == 0 {
        0
    } else {
        net * rout / (rin + net)
    }
}

/// Output of the constant-sum curve, converting `net` at the ratio of the
/// two rates.
pub open spec fn sum_out(net: int, rate_in: int, rate_out: int) -> int {
    net * rate_in / rate_out
}

/// Computes `fee_part(amount, bps)` without a wider integer type.
pub fn fee_of(amount: u128, bps: u32) -> (r: u128)
    requires
        bps <= FEE_DIVISOR,
    ensures
        r == fee_part(amount as int, bps as int),
        r <= amount,
{
    let d: u128 = FEE_DIVISOR as u128;
    let b: u128 = bps as u128;
    let q = amount / d;
    let m = amount % d;
    proof {
        let (a, bi, di, qi, mi) = (amount as int, b as int, d as int, q as int, m as int);
        assert(a == qi * di + mi && 0 <= mi < di) by (nonlinear_arith)
            requires
                qi == a / di,
                mi == a % di,
                di > 0,
        ;
        assert(qi * bi <= a) by (nonlinear_arith)
            requires
                a == qi * di + mi,
                0 <= mi,
                0 <= qi,
                0 <= bi <= di,
        ;
        assert(mi * bi <= di * di) by (nonlinear_arith)
            requires
                0 <= mi < di,
                0 <= bi <= di,
        ;
        assert((qi * di + mi) * bi / di == qi * bi + mi * bi / di) by (nonlinear_arith)
            requires
                di > 0,
        ;
        assert(mi * bi / di <= mi) by (nonlinear_arith)
            requires
                0 <= mi,
                0 <= bi <= di,
                di > 0,
        ;
        assert(qi * bi + mi <= a) by (nonlinear_arith)
            requires
                a == qi * di + mi,
                0 <= qi,
                0 <= bi <= di,
        ;
    }
    let hi = q * b;
    let lo = m * b / d;
    hi + lo
}

/// Constant-product output; `None` when an intermediate value does not fit
/// in 128 bits.
pub fn product_out_of(net: u128, rin: u128, rout: u128) -> (r: Option<u128>)
    ensures
        r is Some <==> (rin + net <= u128::MAX && net * rout <= u128::MAX),
        r matches Some(v) ==> v == product_out(net as int, rin as int, rout as int) && v <= rout,
{
    let den = match rin.checked_add(net) {
        Some(d) => d,
        None => {
            return None;
        },
    };
    let num = match net.checked_mul(rout) {
        Some(n) => n,
        None => {
            return None;
        },
    };
    if den == 0 {
        return Some(0);
    }
    proof {
        assert(num / den <= rout) by (nonlinear_arith)
            requires
                num == net * rout,
                den == rin + net,
                den > 0,
        ;
    }
    Some(num / den)
}

/// Constant-sum output; `None` when `net * rate_in` does not fit in 128 bits.
pub fn sum_out_of(net: u128, rate_in: u128, rate_out: u128) -> (r: Option<u128>)
    requires
        rate_out > 0,
    ensures
        r is Some <==> net * rate_in <= u128::MAX,
        r matches Some(v) ==> v == sum_out(net as int, rate_in as int, rate_out as int),
{
    match net.checked_mul(rate_in) {
        Some(n) => Some(n / rate_out),
        None => None,
    }
}

/// Taking a fee never raises the amount, and the amount left grows with
/// the amount paid.
pub proof fn lemma_net_of_fee_monotone(a1: int, a2: int, bps: int)
    requires
        0 <= a1 <= a2,
        0 <= bps <= FEE_DIVISOR,
    ensures
        0 <= net_of_fee(a1, bps) <= net_of_fee(a2, bps),
        net_of_fee(a2, bps) <= a2,
        net_of_fee(a2, 0) == a2,
{
    let d = FEE_DIVISOR as int;
    assert(a1 * bps / d <= a1) by (nonlinear_arith)
        requires
            0 <= a1,
            0 <= bps <= d,
            d > 0,
    ;
    assert(a2 * bps / d >= 0) by (nonlinear_arith)
        requires
            0 <= a2,
            0 <= bps,
            d > 0,
    ;
    // Paying one more unit adds at most one unit of fee; so over the whole
    // step the fee grows by at most the growth of the amount.
    assert(a2 * bps / d - a1 * bps / d <= a2 - a1) by (nonlinear_arith)
        requires
            0 <= a1 <= a2,
            0 <= bps <= d,
            d > 0,
    ;
}

/// The constant-product output grows with the input, reserves held fixed.
pub proof fn lemma_product_out_monotone(n1: int, n2: int, rin: int, rout: int)
    requires
        0 <= n1 <= n2,
        0 <= rin,
        0 <= rout,
    ensures
        product_out(n1, rin, rout) <= product_out(n2, rin, rout),
{
    if rin + n1 > 0 {
        let d1 = rin + n1;
        let d2 = rin + n2;
        let q1 = n1 * rout / d1;
        assert(q1 * d1 <= n1 * rout) by (nonlinear_arith)
            requires
                q1 == n1 * rout / d1,
                d1 > 0,
        ;
        assert(n1 * rout * d2 <= n2 * rout * d1) by (nonlinear_arith)
            requires
                d1 == rin + n1,
                d2 == rin + n2,
                0 <= n1 <= n2,
                0 <= rin,
                0 <= rout,
        ;
        assert(q1 * d2 <= n2 * rout) by (nonlinear_arith)
            requires
                q1 * d1 <= n1 * rout,
                n1 * rout * d2 <= n2 * rout * d1,
                d1 > 0,
                d2 >= d1,
                q1 >= 0,
        ;
        assert(q1 <= n2 * rout / d2) by (nonlinear_arith)
            requires
                q1 * d2 <= n2 * rout,
                d2 > 0,
        ;
    } else {
        assert(product_out(n2, rin, rout) >= 0) by (nonlinear_arith)
            requires
                0 <= n2,
                0 <= rin,
                0 <= rout,
        ;
    }
}

/// The constant-sum output grows with the input, rates held fixed.
pub proof fn lemma_sum_out_monotone(n1: int, n2: int, rate_in: int, rate_out: int)
    requires
        0 <= n1 <= n2,
        0 <= rate_in,
        0 < rate_out,
    ensures
        sum_out(n1, rate_in, rate_out) <= sum_out(n2, rate_in, rate_out),
{
    assert(n1 * rate_in <= n2 * rate_in) by (nonlinear_arith)
        requires
            0 <= n1 <= n2,
            0 <= rate_in,
    ;
    vstd::arithmetic::div_mod::lemma_div_is_ordered(n1 * rate_in, n2 * rate_in, rate_out);
}

} // verus!
