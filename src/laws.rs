//! Properties that hold across the pool's operations, proved over the same
//! spec functions that the operations' contracts use.
use vstd::prelude::*;

use crate::curve::{
    lemma_net_of_fee_monotone, lemma_product_out_monotone, lemma_sum_out_monotone, net_of_fee,
};
use crate::error::PoolError;
use crate::fees::AdminFees;
use crate::ledger::{lemma_find_range, sum_balances};
use crate::pool::Pool;
use crate::record::{read_record, tag_of};
use crate::reserves::{
    add_proportional_spec, add_weighted_spec, lemma_fair_supply_bound, rates_ok,
    remove_by_shares_spec, remove_weighted_spec, swap_spec, PoolCore,
};
use crate::vecops::{scaled_seq, sum_seq, weighted};

verus! {

/// The share balances of every well-formed pool sum to its total supply;
/// every operation keeps the pool well formed.
pub proof fn lemma_shares_sum_to_supply(p: Pool)
    requires
        p.wf(),
    ensures
        p.state().shares.total_supply == sum_balances(p.state().shares.balances@),
{
}

/// Rates that price a stable pool are positive, one per token.
proof fn lemma_pricing_rates_ok(p: Pool)
    requires
        p.wf(),
    ensures
        p.pricing_rates().len() == p.state().n(),
        forall|k: int| 0 <= k < p.state().n() ==> p.pricing_rates()[k] > 0,
{
}

/// With the reserves held fixed, paying in more never pays out less.
pub proof fn lemma_quote_monotone(p: Pool, tin: Seq<char>, a1: u128, a2: u128, tout: Seq<char>)
    requires
        p.wf(),
        a1 <= a2,
        p.state().quote(p.is_product(), p.pricing_rates(), tin, a1 as int, tout) is Ok,
        p.state().quote(p.is_product(), p.pricing_rates(), tin, a2 as int, tout) is Ok,
    ensures
        p.state().quote(p.is_product(), p.pricing_rates(), tin, a1 as int, tout)->Ok_0 <= p.state().quote(
            p.is_product(),
            p.pricing_rates(),
            tin,
            a2 as int,
            tout,
        )->Ok_0,
{
    let s = p.state();
    let fee = s.total_fee as int;
    let i = s.index(tin);
    let j = s.index(tout);
    lemma_net_of_fee_monotone(a1 as int, a2 as int, fee);
    let n1 = net_of_fee(a1 as int, fee);
    let n2 = net_of_fee(a2 as int, fee);
    lemma_find_range(s.token_account_ids@, tin);
    lemma_find_range(s.token_account_ids@, tout);
    if p.is_product() {
        lemma_product_out_monotone(n1, n2, s.amounts@[i] as int, s.amounts@[j] as int);
    } else {
        lemma_pricing_rates_ok(p);
        let rates = p.pricing_rates();
        lemma_sum_out_monotone(n1, n2, rates[i] as int, rates[j] as int);
    }
}

/// The pool's fee never raises a quote: it pays out at most what the same
/// swap would pay with no fee taken.
pub proof fn lemma_fee_never_raises_quote(p: Pool, tin: Seq<char>, a: u128, tout: Seq<char>)
    requires
        p.wf(),
        p.state().quote(p.is_product(), p.pricing_rates(), tin, a as int, tout) is Ok,
    ensures
        p.state().quote(p.is_product(), p.pricing_rates(), tin, a as int, tout)->Ok_0 <= p.state().curve_out(
            p.is_product(),
            p.pricing_rates(),
            p.state().index(tin),
            p.state().index(tout),
            a as int,
        ),
{
    let s = p.state();
    let i = s.index(tin);
    let j = s.index(tout);
    lemma_net_of_fee_monotone(a as int, a as int, s.total_fee as int);
    lemma_find_range(s.token_account_ids@, tin);
    lemma_find_range(s.token_account_ids@, tout);
    let n = net_of_fee(a as int, s.total_fee as int);
    if p.is_product() {
        lemma_product_out_monotone(n, a as int, s.amounts@[i] as int, s.amounts@[j] as int);
    } else {
        lemma_pricing_rates_ok(p);
        let rates = p.pricing_rates();
        lemma_sum_out_monotone(n, a as int, rates[i] as int, rates[j] as int);
    }
}

/// A swap whose minimum output is above its quote fails with
/// `SlippageExceeded` and leaves the pool as it was: reserves, volumes,
/// admin fees and shares.
pub proof fn lemma_swap_below_minimum_changes_nothing(
    pre: PoolCore,
    post: PoolCore,
    product: bool,
    rates: Seq<u128>,
    tin: Seq<char>,
    amount_in: u128,
    tout: Seq<char>,
    min_amount_out: u128,
    fees: AdminFees,
    r: Result<u128, PoolError>,
)
    requires
        swap_spec(pre, post, product, rates, tin, amount_in, tout, min_amount_out, fees, r),
        pre.quote(product, rates, tin, amount_in as int, tout) is Ok,
        pre.quote(product, rates, tin, amount_in as int, tout)->Ok_0 < min_amount_out,
    ensures
        r == Err::<u128, PoolError>(PoolError::SlippageExceeded),
        post == pre,
{
}

/// A withdrawal by amounts whose bound on burnt shares is below what it
/// needs fails with `SlippageExceeded` and leaves the pool as it was.
pub proof fn lemma_burn_above_maximum_changes_nothing(
    pre: PoolCore,
    post: PoolCore,
    rates: Seq<u128>,
    sender: Seq<char>,
    amounts: Seq<u128>,
    max_burn_shares: u128,
    r: Result<u128, PoolError>,
)
    requires
        remove_weighted_spec(pre, post, rates, sender, amounts, max_burn_shares, r),
        pre.weighted_burn_shares(rates, amounts) is Ok,
        pre.weighted_burn_shares(rates, amounts)->Ok_0 > max_burn_shares,
    ensures
        r == Err::<u128, PoolError>(PoolError::SlippageExceeded),
        post == pre,
{
}

/// Quotes read only the committed rates: a pool that differs from another
/// only in whether a refresh is in flight quotes every swap the same.
pub proof fn lemma_quote_ignores_refresh_in_flight(
    pre: Pool,
    post: Pool,
    tin: Seq<char>,
    amount_in: int,
    tout: Seq<char>,
)
    requires
        post.state() == pre.state(),
        post.kind_of() == pre.kind_of(),
        post.committed_rates() == pre.committed_rates(),
    ensures
        post.state().quote(post.is_product(), post.pricing_rates(), tin, amount_in, tout) == pre.state().quote(
            pre.is_product(),
            pre.pricing_rates(),
            tin,
            amount_in,
            tout,
        ),
{
}

/// Proportional round trip on a pool with shares: depositing for `f` shares
/// and at once withdrawing those `f` shares returns, token by token, no more
/// than was deposited.
pub proof fn lemma_proportional_round_trip(res: Seq<u128>, t: int, f: int)
    requires
        t > 0,
        f >= 0,
        forall|k: int| 0 <= k < res.len() ==> res[k] + scaled_seq(res, f, t)[k] <= u128::MAX,
        forall|k: int| 0 <= k < res.len() ==> res[k] * f / t <= u128::MAX,
    ensures
        forall|k: int|
            0 <= k < res.len() ==> #[trigger] scaled_seq(sum_seq(res, scaled_seq(res, f, t)), f, t + f)[k]
                <= scaled_seq(res, f, t)[k],
{
    let d = scaled_seq(res, f, t);
    let back = scaled_seq(sum_seq(res, d), f, t + f);
    assert forall|k: int| 0 <= k < res.len() implies #[trigger] back[k] <= d[k] by {
        let r = res[k] as int;
        let dk = r * f / t;
        assert(0 <= dk) by (nonlinear_arith)
            requires
                r >= 0,
                f >= 0,
                t > 0,
                dk == r * f / t,
        ;
        assert(d[k] == dk);
        assert((r + dk) * f / (t + f) <= dk) by (nonlinear_arith)
            requires
                dk == r * f / t,
                r >= 0,
                f >= 0,
                t > 0,
                dk >= 0,
        ;
        assert((r + dk) * f / (t + f) >= 0) by (nonlinear_arith)
            requires
                r >= 0,
                dk >= 0,
                f >= 0,
                t > 0,
        ;
    }
}

/// Proportional round trip: depositing into a pool and at once withdrawing
/// every share minted returns, token by token, no more than was taken, which
/// is no more than was offered.
pub proof fn lemma_proportional_add_then_remove(
    pre: PoolCore,
    mid: PoolCore,
    post: PoolCore,
    sender: Seq<char>,
    offered: Seq<u128>,
    taken: Seq<u128>,
    r1: Result<u128, PoolError>,
    min_amounts: Seq<u128>,
    r2: Result<Vec<u128>, PoolError>,
)
    requires
        pre.wf(),
        add_proportional_spec(pre, mid, sender, offered, taken, r1),
        r1 is Ok,
        remove_by_shares_spec(mid, post, sender, r1->Ok_0, min_amounts, r2),
        r2 is Ok,
    ensures
        forall|k: int| 0 <= k < pre.n() ==> #[trigger] r2->Ok_0@[k] <= taken[k] && taken[k] <= offered[k],
{
    let t = pre.shares.total_supply as int;
    let res = pre.amounts@;
    let f = r1->Ok_0 as int;
    if t == 0 {
        assert forall|k: int| 0 <= k < pre.n() implies #[trigger] r2->Ok_0@[k] <= taken[k] && taken[k]
            <= offered[k] by {
            let x = offered[k] as int;
            assert(mid.amounts@[k] == x);
            assert(x * f / f == x) by (nonlinear_arith)
                requires
                    f > 0,
            ;
        }
    } else {
        lemma_fair_supply_bound(offered, res, t, pre.n());
        assert forall|k: int| 0 <= k < pre.n() implies res[k] * f / t <= offered[k] by {
            let rk = res[k] as int;
            let ak = offered[k] as int;
            assert(rk * f / t <= ak) by (nonlinear_arith)
                requires
                    rk * f <= ak * t,
                    t > 0,
            ;
        }
        lemma_proportional_round_trip(res, t, f);
    }
}

/// Round trip on a stable pool: depositing amounts in proportion to the
/// reserves' value and at once withdrawing every share minted returns, token
/// by token, no more than was deposited.
pub proof fn lemma_weighted_add_then_remove(
    pre: PoolCore,
    mid: PoolCore,
    post: PoolCore,
    rates: Seq<u128>,
    sender: Seq<char>,
    amounts: Seq<u128>,
    min_shares: u128,
    r1: Result<u128, PoolError>,
    min_amounts: Seq<u128>,
    r2: Result<Vec<u128>, PoolError>,
)
    requires
        pre.wf(),
        rates_ok(rates, pre.n()),
        forall|k: int|
            0 <= k < pre.n() ==> amounts[k] * pre.reserve_value(rates) == pre.amounts@[k] * weighted(
                amounts,
                rates,
            ),
        add_weighted_spec(pre, mid, rates, sender, amounts, min_shares, r1),
        r1 is Ok,
        remove_by_shares_spec(mid, post, sender, r1->Ok_0, min_amounts, r2),
        r2 is Ok,
    ensures
        forall|k: int| 0 <= k < pre.n() ==> #[trigger] r2->Ok_0@[k] <= amounts[k],
{
    let t = pre.shares.total_supply as int;
    let s = r1->Ok_0 as int;
    let wa = weighted(amounts, rates);
    let wr = pre.reserve_value(rates);
    if t == 0 {
        assert forall|k: int| 0 <= k < pre.n() implies #[trigger] r2->Ok_0@[k] <= amounts[k] by {
            let x = amounts[k] as int;
            assert(mid.amounts@[k] == x);
            assert(x * s / s == x) by (nonlinear_arith)
                requires
                    s > 0,
            ;
        }
    } else {
        crate::vecops::lemma_weighted_nonneg(pre.amounts@, rates);
        assert(wr > 0);
        assert(s == t * wa / wr);
        assert forall|k: int| 0 <= k < pre.n() implies #[trigger] r2->Ok_0@[k] <= amounts[k] by {
            let rk = pre.amounts@[k] as int;
            let ak = amounts[k] as int;
            assert(mid.amounts@[k] == rk + ak);
            assert(s * wr <= t * wa) by (nonlinear_arith)
                requires
                    s == t * wa / wr,
                    wr > 0,
            ;
            assert(rk * s * wr <= t * ak * wr) by (nonlinear_arith)
                requires
                    s * wr <= t * wa,
                    ak * wr == rk * wa,
                    rk >= 0,
            ;
            assert(rk * s <= t * ak) by (nonlinear_arith)
                requires
                    rk * s * wr <= t * ak * wr,
                    wr > 0,
            ;
            assert((rk + ak) * s / (t + s) <= ak) by (nonlinear_arith)
                requires
                    rk * s <= t * ak,
                    t > 0,
                    s >= 0,
                    ak >= 0,
            ;
        }
    }
}

/// The record of a pool reads back as that pool's kind and the payload it
/// was framed with.
pub proof fn lemma_pool_record_round_trip(p: Pool, payload: Seq<u8>)
    ensures
        read_record(seq![tag_of(p.kind_of())] + payload) == Some((p.kind_of(), payload)),
{
    crate::record::lemma_record_round_trip(p.kind_of(), payload);
}

} // verus!
