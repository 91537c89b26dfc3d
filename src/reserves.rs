//! State shared by every pool kind: tokens, reserves, fees, volumes and
//! shares, with the swap and liquidity rules over it.
use vstd::prelude::*;

use crate::curve::{
    fee_of, fee_part, net_of_fee, product_out, product_out_of, sum_out, sum_out_of, FEE_DIVISOR,
    RATE_PRECISION,
};
use crate::error::PoolError;
use crate::fees::{sat_add, AdminFees, SwapVolume};
use crate::ledger::{
    index_of_name, lemma_elem_le_sum, lemma_find_range, lemma_find_unique, unique_names, SharesLedger,
};
use crate::vecops::{
    add_each, all_at_least, any_zero, diff_seq, products_fit, scaled, scaled_seq, sub_each, sum_seq,
    sums_fit, weighted, weighted_sum, filled,
};

verus! {

/// Shares minted by the first deposit into an empty proportional pool.
pub const INIT_SHARES_SUPPLY: u128 = 1_000_000_000_000_000_000_000_000;

/// The largest share count that deposits of `a` can back in full, among the
/// first `k` tokens: the least `a[i] * t / r[i]`.
pub open spec fn ratio(a: Seq<u128>, r: Seq<u128>, t: int, k: int) -> int {
    a[k] as int * t / r[k] as int
}

pub open spec fn fair_supply(a: Seq<u128>, r: Seq<u128>, t: int, k: int) -> int
    decreases k,
{
    if k <= 1 {
        ratio(a, r, t, 0)
    } else {
        let prev = fair_supply(a, r, t, k - 1);
        let here = ratio(a, r, t, k - 1);
        if here < prev {
            here
        } else {
            prev
        }
    }
}

/// Divisor used to share out reserves: the total supply, or 1 when there is
/// none (then no shares can be redeemed).
pub open spec fn supply_divisor(t: int) -> int {
    if t == 0 {
        1
    } else {
        t
    }
}

/// `x / y` rounded up.
pub open spec fn ceil_div(x: int, y: int) -> int {
    (x + y - 1) / y
}

/// Computes `ceil_div(x, y)`.
pub fn ceil_div_of(x: u128, y: u128) -> (r: u128)
    requires
        y > 0,
    ensures
        r == ceil_div(x as int, y as int),
{
    let q = x / y;
    if x % y == 0 {
        proof {
            assert((x as int + y - 1) / (y as int) == (x as int) / (y as int)) by (nonlinear_arith)
                requires
                    (x as int) % (y as int) == 0,
                    y > 0,
            ;
        }
        q
    } else {
        proof {
            assert((x as int + y - 1) / (y as int) == (x as int) / (y as int) + 1 && (x as int) / (y as int)
                < u128::MAX) by (nonlinear_arith)
                requires
                    (x as int) % (y as int) != 0,
                    y > 0,
                    x <= u128::MAX,
            ;
        }
        q + 1
    }
}

/// Rates usable for pricing: one positive rate per token.
pub open spec fn rates_ok(rates: Seq<u128>, n: int) -> bool {
    rates.len() == n && forall|k: int| 0 <= k < n ==> rates[k] > 0
}

/// Tokens, reserves, fee rate, swap volumes, accrued admin fees and the
/// shares ledger of one pool.
pub struct PoolCore {
    pub token_account_ids: Vec<String>,
    pub amounts: Vec<u128>,
    pub total_fee: u32,
    pub volumes: Vec<SwapVolume>,
    pub admin_fees: Vec<u128>,
    pub shares: SharesLedger,
}

/// What `PoolCore::swap` does: a refused swap (by `quote`, by the minimum
/// output, or by overflow) changes nothing; an accepted one moves the
/// reserves, sets aside the admin part of the fee and counts the volumes.
pub open spec fn swap_spec(
    pre: PoolCore,
    post: PoolCore,
    product: bool,
    rates: Seq<u128>,
    tin: Seq<char>,
    amount_in: u128,
    tout: Seq<char>,
    min_amount_out: u128,
    fees: AdminFees,
    r: Result<u128, PoolError>,
) -> bool {
    let q = pre.quote(product, rates, tin, amount_in as int, tout);
    let i = pre.index(tin);
    let j = pre.index(tout);
    let admin = pre.admin_part(amount_in as int, fees);
    match q {
        Err(e) => r == Err::<u128, PoolError>(e) && post == pre,
        Ok(out) => if out < min_amount_out {
            r == Err::<u128, PoolError>(PoolError::SlippageExceeded) && post == pre
        } else if pre.amounts@[i] + amount_in - admin > u128::MAX
            || pre.admin_fees@[i] + admin > u128::MAX {
            r == Err::<u128, PoolError>(PoolError::Overflow) && post == pre
        } else {
            &&& r == Ok::<u128, PoolError>(out as u128)
            &&& post.token_account_ids == pre.token_account_ids
            &&& post.total_fee == pre.total_fee
            &&& post.shares == pre.shares
            &&& post.amounts@ == pre.amounts@.update(
                i,
                (pre.amounts@[i] + amount_in - admin) as u128,
            ).update(j, (pre.amounts@[j] - out) as u128)
            &&& post.admin_fees@ == pre.admin_fees@.update(
                i,
                (pre.admin_fees@[i] + admin) as u128,
            )
            &&& post.volumes@ == pre.volumes@.update(
                i,
                SwapVolume {
                    input: sat_add(pre.volumes@[i].input as int, amount_in as int) as u128,
                    output: pre.volumes@[i].output,
                },
            ).update(
                j,
                SwapVolume {
                    input: pre.volumes@[j].input,
                    output: sat_add(pre.volumes@[j].output as int, out) as u128,
                },
            )
        },
    }
}

/// What `PoolCore::remove_by_shares` does, error by error in order of
/// precedence, and the state after a withdrawal.
pub open spec fn remove_by_shares_spec(
    pre: PoolCore,
    post: PoolCore,
    sender: Seq<char>,
    shares: u128,
    min_amounts: Seq<u128>,
    r: Result<Vec<u128>, PoolError>,
) -> bool {
    let t = pre.shares.total_supply as int;
    let outs = scaled_seq(pre.amounts@, shares as int, supply_divisor(t));
    if min_amounts.len() != pre.n() {
        r == Err::<Vec<u128>, PoolError>(PoolError::BadAmounts) && post == pre
    } else if pre.shares.balance(sender) < shares {
        r == Err::<Vec<u128>, PoolError>(PoolError::InsufficientShares) && post == pre
    } else if exists|k: int| 0 <= k < pre.n() && pre.amounts@[k] * shares > u128::MAX {
        r == Err::<Vec<u128>, PoolError>(PoolError::Overflow) && post == pre
    } else if exists|k: int| 0 <= k < pre.n() && outs[k] < min_amounts[k] {
        r == Err::<Vec<u128>, PoolError>(PoolError::SlippageExceeded) && post == pre
    } else {
        &&& r matches Ok(v) && v@ == outs
        &&& post.amounts@ == diff_seq(pre.amounts@, outs)
        &&& post.token_account_ids == pre.token_account_ids
        &&& post.total_fee == pre.total_fee
        &&& post.volumes == pre.volumes
        &&& post.admin_fees == pre.admin_fees
        &&& post.shares.total_supply == pre.shares.total_supply - shares
        &&& forall|g: Seq<char>| #[trigger] post.shares.balance(g) == pre.shares.balance(g)
            - (if g == sender { shares as int } else { 0 })
    }
}

/// What `PoolCore::add_proportional` does, error by error in order of
/// precedence, and the reserves and amounts after a deposit.
pub open spec fn add_proportional_spec(
    pre: PoolCore,
    post: PoolCore,
    sender: Seq<char>,
    amounts_in: Seq<u128>,
    amounts_out: Seq<u128>,
    r: Result<u128, PoolError>,
) -> bool {
    &&& ({
        let t = pre.shares.total_supply as int;
        let a = amounts_in;
        let res = pre.amounts@;
        let f = fair_supply(a, res, t, pre.n());
        let d = scaled_seq(res, f, supply_divisor(t));
        if a.len() != pre.n() {
            r == Err::<u128, PoolError>(PoolError::BadAmounts)
        } else if t == 0 && exists|k: int| 0 <= k < a.len() && a[k] == 0 {
            r == Err::<u128, PoolError>(PoolError::BadAmounts)
        } else if t == 0 && exists|k: int| 0 <= k < a.len() && res[k] + a[k] > u128::MAX {
            r == Err::<u128, PoolError>(PoolError::Overflow)
        } else if t == 0 {
            &&& r == Ok::<u128, PoolError>(INIT_SHARES_SUPPLY)
            &&& amounts_out == a
            &&& post.amounts@ == sum_seq(res, a)
        } else if exists|k: int| 0 <= k < a.len() && res[k] == 0 {
            r == Err::<u128, PoolError>(PoolError::InsufficientLiquidity)
        } else if exists|k: int| 0 <= k < a.len() && a[k] * t > u128::MAX {
            r == Err::<u128, PoolError>(PoolError::Overflow)
        } else if f == 0 {
            r == Err::<u128, PoolError>(PoolError::BadAmounts)
        } else if t + f > u128::MAX || exists|k: int| 0 <= k < a.len() && res[k] + d[k] > u128::MAX {
            r == Err::<u128, PoolError>(PoolError::Overflow)
        } else {
            &&& r == Ok::<u128, PoolError>(f as u128)
            &&& amounts_out == d
            &&& post.amounts@ == sum_seq(res, d)
        }
    })
    &&& r is Err ==> post == pre && amounts_out == amounts_in
    &&& r matches Ok(minted) ==> {
        &&& post.token_account_ids == pre.token_account_ids
        &&& post.total_fee == pre.total_fee
        &&& post.volumes == pre.volumes
        &&& post.admin_fees == pre.admin_fees
        &&& post.shares.total_supply == pre.shares.total_supply + minted
        &&& forall|g: Seq<char>| #[trigger] post.shares.balance(g) == pre.shares.balance(g)
            + (if g == sender { minted as int } else { 0 })
    }
}

/// What `PoolCore::add_weighted` does, given `weighted_add_shares`.
pub open spec fn add_weighted_spec(
    pre: PoolCore,
    post: PoolCore,
    rates: Seq<u128>,
    sender: Seq<char>,
    amounts: Seq<u128>,
    min_shares: u128,
    r: Result<u128, PoolError>,
) -> bool {
    &&& match pre.weighted_add_shares(rates, amounts) {
        Err(e) => r == Err::<u128, PoolError>(e),
        Ok(s) => if s < min_shares {
            r == Err::<u128, PoolError>(PoolError::SlippageExceeded)
        } else if pre.shares.total_supply + s > u128::MAX || exists|k: int|
            0 <= k < amounts.len() && pre.amounts@[k] + amounts[k] > u128::MAX {
            r == Err::<u128, PoolError>(PoolError::Overflow)
        } else {
            r == Ok::<u128, PoolError>(s as u128) && post.amounts@ == sum_seq(
                pre.amounts@,
                amounts,
            )
        },
    }
    &&& r is Err ==> post == pre
    &&& r matches Ok(minted) ==> {
        &&& post.token_account_ids == pre.token_account_ids
        &&& post.total_fee == pre.total_fee
        &&& post.volumes == pre.volumes
        &&& post.admin_fees == pre.admin_fees
        &&& post.shares.total_supply == pre.shares.total_supply + minted
        &&& forall|g: Seq<char>| #[trigger] post.shares.balance(g) == pre.shares.balance(g)
            + (if g == sender { minted as int } else { 0 })
    }
}

/// What `PoolCore::remove_weighted` does, given `weighted_burn_shares`.
pub open spec fn remove_weighted_spec(
    pre: PoolCore,
    post: PoolCore,
    rates: Seq<u128>,
    sender: Seq<char>,
    amounts: Seq<u128>,
    max_burn_shares: u128,
    r: Result<u128, PoolError>,
) -> bool {
    &&& match pre.weighted_burn_shares(rates, amounts) {
        Err(e) => r == Err::<u128, PoolError>(e),
        Ok(b) => if b > max_burn_shares {
            r == Err::<u128, PoolError>(PoolError::SlippageExceeded)
        } else if pre.shares.balance(sender) < b {
            r == Err::<u128, PoolError>(PoolError::InsufficientShares)
        } else {
            r == Ok::<u128, PoolError>(b as u128) && post.amounts@ == diff_seq(
                pre.amounts@,
                amounts,
            )
        },
    }
    &&& r is Err ==> post == pre
    &&& r matches Ok(burned) ==> {
        &&& post.token_account_ids == pre.token_account_ids
        &&& post.total_fee == pre.total_fee
        &&& post.volumes == pre.volumes
        &&& post.admin_fees == pre.admin_fees
        &&& post.shares.total_supply == pre.shares.total_supply - burned
        &&& forall|g: Seq<char>| #[trigger] post.shares.balance(g) == pre.shares.balance(g)
            - (if g == sender { burned as int } else { 0 })
    }
}

impl PoolCore {
    pub open spec fn n(&self) -> int {
        self.token_account_ids@.len() as int
    }

    pub open spec fn wf(&self) -> bool {
        &&& self.n() >= 2
        &&& self.amounts@.len() == self.n()
        &&& self.volumes@.len() == self.n()
        &&& self.admin_fees@.len() == self.n()
        &&& unique_names(self.token_account_ids@)
        &&& self.total_fee <= FEE_DIVISOR
        &&& self.shares.wf()
        &&& self.shares.total_supply == 0 ==> forall|k: int| 0 <= k < self.n() ==> self.amounts@[k] == 0
    }

    /// Position of token `t`, or -1.
    pub open spec fn index(&self, t: Seq<char>) -> int {
        index_of_name(self.token_account_ids@, t)
    }

    /// Whether the curve's intermediate values fit in 128 bits.
    pub open spec fn curve_fits(&self, product: bool, rates: Seq<u128>, i: int, j: int, net: int) -> bool {
        if product {
            self.amounts@[i] + net <= u128::MAX && net * self.amounts@[j] <= u128::MAX
        } else {
            net * rates[i] <= u128::MAX
        }
    }

    /// Output of the curve (constant product, or constant sum at `rates`).
    pub open spec fn curve_out(&self, product: bool, rates: Seq<u128>, i: int, j: int, net: int) -> int {
        if product {
            product_out(net, self.amounts@[i] as int, self.amounts@[j] as int)
        } else {
            sum_out(net, rates[i] as int, rates[j] as int)
        }
    }

    /// What a swap of `amount_in` of `tin` for `tout` pays out, after the
    /// pool's fee, or why it is refused.
    pub open spec fn quote(
        &self,
        product: bool,
        rates: Seq<u128>,
        tin: Seq<char>,
        amount_in: int,
        tout: Seq<char>,
    ) -> Result<int, PoolError> {
        let i = self.index(tin);
        let j = self.index(tout);
        let net = net_of_fee(amount_in, self.total_fee as int);
        if tin == tout {
            Err(PoolError::SameToken)
        } else if i < 0 || j < 0 {
            Err(PoolError::UnknownToken)
        } else if self.shares.total_supply == 0 {
            Err(PoolError::InsufficientLiquidity)
        } else if !self.curve_fits(product, rates, i, j, net) {
            Err(PoolError::Overflow)
        } else if self.curve_out(product, rates, i, j, net) > self.amounts@[j] {
            Err(PoolError::InsufficientLiquidity)
        } else {
            Ok(self.curve_out(product, rates, i, j, net))
        }
    }

    /// The protocol's part of the fee on a swap of `amount_in`.
    pub open spec fn admin_part(&self, amount_in: int, fees: AdminFees) -> int {
        fee_part(fee_part(amount_in, self.total_fee as int), fees.admin_fee_bps as int)
    }

    /// An empty pool over `token_account_ids` charging `total_fee` on swaps.
    pub fn new(token_account_ids: Vec<String>, total_fee: u32) -> (r: PoolCore)
        requires
            token_account_ids@.len() >= 2,
            unique_names(token_account_ids@),
            total_fee <= FEE_DIVISOR,
        ensures
            r.wf(),
            r.token_account_ids@ == token_account_ids@,
            r.total_fee == total_fee,
            r.amounts@ == Seq::new(token_account_ids@.len(), |k: int| 0u128),
            r.admin_fees@ == Seq::new(token_account_ids@.len(), |k: int| 0u128),
            r.volumes@ == Seq::new(token_account_ids@.len(), |k: int| SwapVolume { input: 0, output: 0 }),
            r.shares.total_supply == 0,
            forall|h: Seq<char>| !r.shares.is_registered(h) && r.shares.balance(h) == 0,
    {
        let n = token_account_ids.len();
        let mut volumes: Vec<SwapVolume> = Vec::new();
        let mut i: usize = 0;
        while i < n
            invariant
                0 <= i <= n,
                volumes@ =~= Seq::new(i as nat, |k: int| SwapVolume { input: 0, output: 0 }),
            decreases n - i,
        {
            volumes.push(SwapVolume { input: 0, output: 0 });
            i = i + 1;
        }
        PoolCore {
            token_account_ids,
            amounts: filled(n, 0),
            total_fee,
            volumes,
            admin_fees: filled(n, 0),
            shares: SharesLedger::new(),
        }
    }

    pub fn token_index(&self, t: &String) -> (r: Option<usize>)
        requires
            self.wf(),
        ensures
            match r {
                Some(i) => i == self.index(t@) && i < self.n(),
                None => self.index(t@) == -1,
            },
    {
        let mut i: usize = 0;
        while i < self.token_account_ids.len()
            invariant
                self.wf(),
                0 <= i <= self.n(),
                forall|k: int| 0 <= k < i ==> self.token_account_ids@[k]@ != t@,
            decreases self.n() - i,
        {
            if self.token_account_ids[i] == *t {
                proof {
                    lemma_find_unique(self.token_account_ids@, i as int, t@);
                }
                return Some(i);
            }
            i = i + 1;
        }
        proof {
            lemma_find_range(self.token_account_ids@, t@);
        }
        None
    }

    /// Computes `quote`.
    pub fn get_return(
        &self,
        product: bool,
        rates: &Vec<u128>,
        tin: &String,
        amount_in: u128,
        tout: &String,
    ) -> (r: Result<u128, PoolError>)
        requires
            self.wf(),
            product || rates_ok(rates@, self.n()),
        ensures
            match r {
                Ok(v) => self.quote(product, rates@, tin@, amount_in as int, tout@) == Ok::<int, PoolError>(v as int),
                Err(e) => self.quote(product, rates@, tin@, amount_in as int, tout@) == Err::<int, PoolError>(e),
            },
    {
        if *tin == *tout {
            return Err(PoolError::SameToken);
        }
        let i = match self.token_index(tin) {
            Some(i) => i,
            None => {
                return Err(PoolError::UnknownToken);
            },
        };
        let j = match self.token_index(tout) {
            Some(j) => j,
            None => {
                return Err(PoolError::UnknownToken);
            },
        };
        if self.shares.total_supply == 0 {
            return Err(PoolError::InsufficientLiquidity);
        }
        let net = amount_in - fee_of(amount_in, self.total_fee);
        let out = if product {
            product_out_of(net, self.amounts[i], self.amounts[j])
        } else {
            sum_out_of(net, rates[i], rates[j])
        };
        match out {
            None => Err(PoolError::Overflow),
            Some(v) => {
                if v > self.amounts[j] {
                    Err(PoolError::InsufficientLiquidity)
                } else {
                    Ok(v)
                }
            },
        }
    }

    /// Swaps `amount_in` of `tin` for `tout`. The pool's fee stays in the
    /// reserves but for the admin part, which is set aside per token.
    pub fn swap(
        &mut self,
        product: bool,
        rates: &Vec<u128>,
        tin: &String,
        amount_in: u128,
        tout: &String,
        min_amount_out: u128,
        fees: &AdminFees,
    ) -> (r: Result<u128, PoolError>)
        requires
            old(self).wf(),
            fees.wf(),
            product || rates_ok(rates@, old(self).n()),
        ensures
            final(self).wf(),
            swap_spec(*old(self), *final(self), product, rates@, tin@, amount_in, tout@, min_amount_out, *fees, r),
    {
        let out = match self.get_return(product, rates, tin, amount_in, tout) {
            Ok(v) => v,
            Err(e) => {
                return Err(e);
            },
        };
        if out < min_amount_out {
            return Err(PoolError::SlippageExceeded);
        }
        let i = match self.token_index(tin) {
            Some(i) => i,
            None => {
                return Err(PoolError::UnknownToken);
            },
        };
        let j = match self.token_index(tout) {
            Some(j) => j,
            None => {
                return Err(PoolError::UnknownToken);
            },
        };
        let fee = fee_of(amount_in, self.total_fee);
        let (_, admin) = fees.split(fee);
        proof {
            assert(admin <= fee) by (nonlinear_arith)
                requires
                    admin == fee as int * fees.admin_fee_bps as int / 10_000,
                    fees.admin_fee_bps <= 10_000,
            ;
        }
        proof {
            lemma_find_range(self.token_account_ids@, tin@);
            lemma_find_range(self.token_account_ids@, tout@);
            assert(i != j);
            assert(admin == old(self).admin_part(amount_in as int, *fees));
        }
        let kept = amount_in - admin;
        if self.amounts[i] > u128::MAX - kept || self.admin_fees[i] > u128::MAX - admin {
            return Err(PoolError::Overflow);
        }
        let ai = self.amounts[i] + kept;
        self.amounts.set(i, ai);
        let aj = self.amounts[j] - out;
        self.amounts.set(j, aj);
        let fi = self.admin_fees[i] + admin;
        self.admin_fees.set(i, fi);
        let vi = SwapVolume { input: self.volumes[i].input.saturating_add(amount_in), output: self.volumes[i].output };
        self.volumes.set(i, vi);
        let vj = SwapVolume { input: self.volumes[j].input, output: self.volumes[j].output.saturating_add(out) };
        self.volumes.set(j, vj);
        Ok(out)
    }

    /// Withdraws `shares` of `sender` as the same part of every reserve,
    /// rounded down, each at least `min_amounts`.
    pub fn remove_by_shares(&mut self, sender: &String, shares: u128, min_amounts: &Vec<u128>) -> (r: Result<
        Vec<u128>,
        PoolError,
    >)
        requires
            old(self).wf(),
        ensures
            final(self).wf(),
            remove_by_shares_spec(*old(self), *final(self), sender@, shares, min_amounts@, r),
    {
        if min_amounts.len() != self.amounts.len() {
            return Err(PoolError::BadAmounts);
        }
        if self.shares.balance_of(sender) < shares {
            return Err(PoolError::InsufficientShares);
        }
        if !products_fit(&self.amounts, shares) {
            return Err(PoolError::Overflow);
        }
        let t = self.shares.total_supply;
        proof {
            lemma_find_range(self.shares.holders@, sender@);
            if self.shares.balance(sender@) > 0 {
                lemma_elem_le_sum(self.shares.balances@, index_of_name(self.shares.holders@, sender@));
            }
        }
        let den: u128 = if t == 0 { 1 } else { t };
        let outs = scaled(&self.amounts, shares, den);
        assert(outs@ == scaled_seq(self.amounts@, shares as int, supply_divisor(t as int)));
        if !all_at_least(&outs, min_amounts) {
            proof {
                let k = choose|k: int| 0 <= k < outs@.len() && !(outs@[k] >= min_amounts@[k]);
                assert(outs@[k] < min_amounts@[k]);
            }
            return Err(PoolError::SlippageExceeded);
        }
        proof {
            assert forall|k: int| 0 <= k < outs@.len() implies self.amounts@[k] >= outs@[k] by {
                let a = self.amounts@[k] as int;
                let (si, di) = (shares as int, den as int);
                assert(a * si / di <= a) by (nonlinear_arith)
                    requires
                        0 <= si <= di,
                        di > 0,
                        a >= 0,
                ;
            }
        }
        proof {
            if shares == t && t > 0 {
                assert forall|k: int| 0 <= k < outs@.len() implies outs@[k] == self.amounts@[k] by {
                    let a = self.amounts@[k] as int;
                    let ti = t as int;
                    assert(a * ti / ti == a) by (nonlinear_arith)
                        requires
                            ti > 0,
                    ;
                }
            }
        }
        let ghost before = self.amounts@;
        self.amounts = sub_each(&self.amounts, &outs);
        self.shares.burn(sender, shares);
        proof {
            if self.shares.total_supply == 0 {
                assert forall|k: int| 0 <= k < self.n() implies self.amounts@[k] == 0 by {
                    assert(self.amounts@[k] == before[k] - outs@[k]);
                }
            }
        }
        Ok(outs)
    }

    /// Deposits `amounts` in proportion to the reserves. On an empty pool all
    /// of `amounts` goes in for `INIT_SHARES_SUPPLY` shares; otherwise the
    /// shares are the largest count that `amounts` backs in full, and
    /// `amounts` becomes what was taken of each token (rounded down).
    pub fn add_proportional(&mut self, sender: &String, amounts: &mut Vec<u128>) -> (r: Result<u128, PoolError>)
        requires
            old(self).wf(),
        ensures
            final(self).wf(),
            add_proportional_spec(*old(self), *final(self), sender@, old(amounts)@, final(amounts)@, r),
    {
        let n = self.amounts.len();
        if amounts.len() != n {
            return Err(PoolError::BadAmounts);
        }
        let t = self.shares.total_supply;
        if t == 0 {
            if any_zero(amounts) {
                return Err(PoolError::BadAmounts);
            }
            if !sums_fit(&self.amounts, amounts) {
                return Err(PoolError::Overflow);
            }
            let new_amounts = add_each(&self.amounts, amounts);
            match self.shares.mint(sender, INIT_SHARES_SUPPLY) {
                Ok(()) => {},
                Err(e) => {
                    return Err(e);
                },
            }
            self.amounts = new_amounts;
            return Ok(INIT_SHARES_SUPPLY);
        }
        if any_zero(&self.amounts) {
            return Err(PoolError::InsufficientLiquidity);
        }
        if !products_fit(amounts, t) {
            return Err(PoolError::Overflow);
        }
        let mut f: u128 = amounts[0] * t / self.amounts[0];
        let mut i: usize = 1;
        while i < n
            invariant
                self.wf(),
                n == self.n(),
                amounts@.len() == n,
                t == self.shares.total_supply,
                1 <= i <= n,
                forall|k: int| 0 <= k < n ==> self.amounts@[k] != 0,
                forall|k: int| 0 <= k < n ==> amounts@[k] * t <= u128::MAX,
                f == fair_supply(amounts@, self.amounts@, t as int, i as int),
            decreases n - i,
        {
            let here = amounts[i] * t / self.amounts[i];
            if here < f {
                f = here;
            }
            i = i + 1;
        }
        if f == 0 {
            return Err(PoolError::BadAmounts);
        }
        proof {
            lemma_fair_supply_bound(amounts@, self.amounts@, t as int, n as int);
        }
        let d = scaled(&self.amounts, f, t);
        if f > u128::MAX - t || !sums_fit(&self.amounts, &d) {
            return Err(PoolError::Overflow);
        }
        let new_amounts = add_each(&self.amounts, &d);
        match self.shares.mint(sender, f) {
            Ok(()) => {},
            Err(e) => {
                return Err(e);
            },
        }
        self.amounts = new_amounts;
        *amounts = d;
        Ok(f)
    }
}

/// Every token backs the fair supply: `r[k] * f <= a[k] * t`.
pub proof fn lemma_fair_supply_bound(a: Seq<u128>, r: Seq<u128>, t: int, n: int)
    requires
        1 <= n <= a.len(),
        n <= r.len(),
        t >= 0,
        forall|k: int| 0 <= k < n ==> r[k] > 0,
    ensures
        forall|k: int| 0 <= k < n ==> r[k] * fair_supply(a, r, t, n) <= a[k] * t,
        fair_supply(a, r, t, n) >= 0,
    decreases n,
{
    let f = fair_supply(a, r, t, n);
    if n > 1 {
        lemma_fair_supply_bound(a, r, t, n - 1);
    }
    assert forall|k: int| 0 <= k < n implies r[k] * f <= a[k] * t by {
        let ak = a[k] as int;
        let rk = r[k] as int;
        let q = ak * t / rk;
        assert(f <= q) by {
            lemma_fair_supply_le(a, r, t, n, k);
        }
        assert(ak * t >= 0) by (nonlinear_arith)
            requires
                ak >= 0,
                t >= 0,
        ;
        assert(rk * f <= ak * t) by (nonlinear_arith)
            requires
                f <= q,
                q == ak * t / rk,
                rk > 0,
                ak * t >= 0,
        ;
    }
    assert(f >= 0) by {
        lemma_fair_supply_nonneg(a, r, t, n);
    }
}

proof fn lemma_fair_supply_le(a: Seq<u128>, r: Seq<u128>, t: int, n: int, k: int)
    requires
        0 <= k < n,
        n <= a.len(),
        n <= r.len(),
    ensures
        fair_supply(a, r, t, n) <= ratio(a, r, t, k),
    decreases n,
{
    if n > 1 && k < n - 1 {
        lemma_fair_supply_le(a, r, t, n - 1, k);
    }
}

proof fn lemma_fair_supply_nonneg(a: Seq<u128>, r: Seq<u128>, t: int, n: int)
    requires
        1 <= n <= a.len(),
        n <= r.len(),
        t >= 0,
        forall|k: int| 0 <= k < n ==> r[k] > 0,
    ensures
        fair_supply(a, r, t, n) >= 0,
    decreases n,
{
    if n > 1 {
        lemma_fair_supply_nonneg(a, r, t, n - 1);
    }
    lemma_ratio_nonneg(a, r, t, n - 1);
    lemma_ratio_nonneg(a, r, t, 0);
}

proof fn lemma_ratio_nonneg(a: Seq<u128>, r: Seq<u128>, t: int, k: int)
    requires
        0 <= k < a.len(),
        k < r.len(),
        t >= 0,
        r[k] > 0,
    ensures
        ratio(a, r, t, k) >= 0,
{
    let x = a[k] as int;
    let y = r[k] as int;
    assert(x * t / y >= 0) by (nonlinear_arith)
        requires
            x >= 0,
            t >= 0,
            y > 0,
    ;
}

impl PoolCore {
    /// Total value of the reserves at `rates`, in rate-scaled units.
    pub open spec fn reserve_value(&self, rates: Seq<u128>) -> int {
        weighted(self.amounts@, rates)
    }

    /// Shares that depositing `a` earns on a constant-sum pool priced at
    /// `rates`: the deposit's share of the value after it, or its value in
    /// whole units on an empty pool. The curve has no imbalance, so no fee
    /// is taken.
    pub open spec fn weighted_add_shares(&self, rates: Seq<u128>, a: Seq<u128>) -> Result<int, PoolError> {
        let t = self.shares.total_supply as int;
        let wa = weighted(a, rates);
        let wr = self.reserve_value(rates);
        if a.len() != self.n() {
            Err(PoolError::BadAmounts)
        } else if wa > u128::MAX {
            Err(PoolError::Overflow)
        } else if t == 0 {
            if wa / RATE_PRECISION as int == 0 {
                Err(PoolError::BadAmounts)
            } else {
                Ok(wa / RATE_PRECISION as int)
            }
        } else if wr > u128::MAX {
            Err(PoolError::Overflow)
        } else if wr == 0 {
            Err(PoolError::InsufficientLiquidity)
        } else if t * wa > u128::MAX {
            Err(PoolError::Overflow)
        } else if t * wa / wr == 0 {
            Err(PoolError::BadAmounts)
        } else {
            Ok(t * wa / wr)
        }
    }

    /// Shares that withdrawing exactly `a` burns: the withdrawal's part of
    /// the reserve value, rounded up. A withdrawal that would burn every
    /// share must take every reserve in full, so that no reserve is left
    /// without shares. The curve has no imbalance, so no fee is taken.
    pub open spec fn weighted_burn_shares(&self, rates: Seq<u128>, a: Seq<u128>) -> Result<int, PoolError> {
        let t = self.shares.total_supply as int;
        let wa = weighted(a, rates);
        let wr = self.reserve_value(rates);
        if a.len() != self.n() {
            Err(PoolError::BadAmounts)
        } else if exists|k: int| 0 <= k < a.len() && a[k] > self.amounts@[k] {
            Err(PoolError::InsufficientLiquidity)
        } else if wr > u128::MAX || wa > u128::MAX {
            Err(PoolError::Overflow)
        } else if wr == 0 {
            Err(PoolError::InsufficientLiquidity)
        } else if t * wa > u128::MAX {
            Err(PoolError::Overflow)
        } else if ceil_div(t * wa, wr) >= t && exists|k: int| 0 <= k < a.len() && a[k] < self.amounts@[k] {
            Err(PoolError::InsufficientLiquidity)
        } else {
            Ok(ceil_div(t * wa, wr))
        }
    }

    /// Computes `weighted_add_shares` without changing the pool.
    pub fn predict_add_weighted(&self, rates: &Vec<u128>, amounts: &Vec<u128>) -> (r: Result<u128, PoolError>)
        requires
            self.wf(),
            rates_ok(rates@, self.n()),
        ensures
            match r {
                Ok(v) => self.weighted_add_shares(rates@, amounts@) == Ok::<int, PoolError>(v as int),
                Err(e) => self.weighted_add_shares(rates@, amounts@) == Err::<int, PoolError>(e),
            },
    {
        if amounts.len() != self.amounts.len() {
            return Err(PoolError::BadAmounts);
        }
        let wa = match weighted_sum(amounts, rates) {
            Some(w) => w,
            None => {
                return Err(PoolError::Overflow);
            },
        };
        let t = self.shares.total_supply;
        if t == 0 {
            let s = wa / RATE_PRECISION;
            if s == 0 {
                return Err(PoolError::BadAmounts);
            }
            return Ok(s);
        }
        let wr = match weighted_sum(&self.amounts, rates) {
            Some(w) => w,
            None => {
                return Err(PoolError::Overflow);
            },
        };
        if wr == 0 {
            return Err(PoolError::InsufficientLiquidity);
        }
        let num = match t.checked_mul(wa) {
            Some(x) => x,
            None => {
                return Err(PoolError::Overflow);
            },
        };
        let s = num / wr;
        if s == 0 {
            return Err(PoolError::BadAmounts);
        }
        Ok(s)
    }

    /// Deposits all of `amounts` for `weighted_add_shares` shares, which must
    /// be at least `min_shares`.
    pub fn add_weighted(
        &mut self,
        rates: &Vec<u128>,
        sender: &String,
        amounts: &Vec<u128>,
        min_shares: u128,
    ) -> (r: Result<u128, PoolError>)
        requires
            old(self).wf(),
            rates_ok(rates@, old(self).n()),
        ensures
            final(self).wf(),
            add_weighted_spec(*old(self), *final(self), rates@, sender@, amounts@, min_shares, r),
    {
        let s = match self.predict_add_weighted(rates, amounts) {
            Ok(s) => s,
            Err(e) => {
                return Err(e);
            },
        };
        if s < min_shares {
            return Err(PoolError::SlippageExceeded);
        }
        if s > u128::MAX - self.shares.total_supply || !sums_fit(&self.amounts, amounts) {
            return Err(PoolError::Overflow);
        }
        let new_amounts = add_each(&self.amounts, amounts);
        match self.shares.mint(sender, s) {
            Ok(()) => {},
            Err(e) => {
                return Err(e);
            },
        }
        self.amounts = new_amounts;
        Ok(s)
    }

    /// Computes `weighted_burn_shares` without changing the pool.
    pub fn predict_burn_weighted(&self, rates: &Vec<u128>, amounts: &Vec<u128>) -> (r: Result<u128, PoolError>)
        requires
            self.wf(),
            rates_ok(rates@, self.n()),
        ensures
            match r {
                Ok(v) => self.weighted_burn_shares(rates@, amounts@) == Ok::<int, PoolError>(v as int),
                Err(e) => self.weighted_burn_shares(rates@, amounts@) == Err::<int, PoolError>(e),
            },
    {
        if amounts.len() != self.amounts.len() {
            return Err(PoolError::BadAmounts);
        }
        if !all_at_least(&self.amounts, amounts) {
            proof {
                let k = choose|k: int| 0 <= k < amounts@.len() && !(self.amounts@[k] >= amounts@[k]);
                assert(amounts@[k] > self.amounts@[k]);
            }
            return Err(PoolError::InsufficientLiquidity);
        }
        let wr = match weighted_sum(&self.amounts, rates) {
            Some(w) => w,
            None => {
                return Err(PoolError::Overflow);
            },
        };
        let wa = match weighted_sum(amounts, rates) {
            Some(w) => w,
            None => {
                return Err(PoolError::Overflow);
            },
        };
        if wr == 0 {
            return Err(PoolError::InsufficientLiquidity);
        }
        let num = match self.shares.total_supply.checked_mul(wa) {
            Some(x) => x,
            None => {
                return Err(PoolError::Overflow);
            },
        };
        let b = ceil_div_of(num, wr);
        if b >= self.shares.total_supply && !all_at_least(amounts, &self.amounts) {
            proof {
                let k = choose|k: int| 0 <= k < amounts@.len() && !(amounts@[k] >= self.amounts@[k]);
                assert(amounts@[k] < self.amounts@[k]);
            }
            return Err(PoolError::InsufficientLiquidity);
        }
        Ok(b)
    }

    /// Withdraws exactly `amounts`, burning `weighted_burn_shares` of the
    /// sender's shares, at most `max_burn_shares`.
    pub fn remove_weighted(
        &mut self,
        rates: &Vec<u128>,
        sender: &String,
        amounts: &Vec<u128>,
        max_burn_shares: u128,
    ) -> (r: Result<u128, PoolError>)
        requires
            old(self).wf(),
            rates_ok(rates@, old(self).n()),
        ensures
            final(self).wf(),
            remove_weighted_spec(*old(self), *final(self), rates@, sender@, amounts@, max_burn_shares, r),
    {
        let b = match self.predict_burn_weighted(rates, amounts) {
            Ok(b) => b,
            Err(e) => {
                return Err(e);
            },
        };
        if b > max_burn_shares {
            return Err(PoolError::SlippageExceeded);
        }
        if self.shares.balance_of(sender) < b {
            return Err(PoolError::InsufficientShares);
        }
        self.amounts = sub_each(&self.amounts, amounts);
        self.shares.burn(sender, b);
        Ok(b)
    }

    /// What the reserves pay out for `shares`, as `remove_by_shares` would,
    /// without changing the pool.
    pub fn predict_remove_by_shares(&self, shares: u128) -> (r: Result<Vec<u128>, PoolError>)
        requires
            self.wf(),
        ensures
            shares > self.shares.total_supply ==> r == Err::<Vec<u128>, PoolError>(PoolError::InsufficientShares),
            shares <= self.shares.total_supply && (exists|k: int|
                0 <= k < self.n() && self.amounts@[k] * shares > u128::MAX) ==> r == Err::<
                Vec<u128>,
                PoolError,
            >(PoolError::Overflow),
            r is Ok <==> shares <= self.shares.total_supply && forall|k: int|
                0 <= k < self.n() ==> self.amounts@[k] * shares <= u128::MAX,
            r matches Ok(v) ==> v@ == scaled_seq(
                self.amounts@,
                shares as int,
                supply_divisor(self.shares.total_supply as int),
            ),
    {
        if shares > self.shares.total_supply {
            return Err(PoolError::InsufficientShares);
        }
        if !products_fit(&self.amounts, shares) {
            return Err(PoolError::Overflow);
        }
        let t = self.shares.total_supply;
        let den: u128 = if t == 0 { 1 } else { t };
        Ok(scaled(&self.amounts, shares, den))
    }

    /// Value of one share in units of `RATE_PRECISION`; one whole unit on a
    /// pool without shares.
    pub fn share_price(&self, rates: &Vec<u128>) -> (r: Result<u128, PoolError>)
        requires
            self.wf(),
            rates_ok(rates@, self.n()),
        ensures
            self.shares.total_supply == 0 ==> r == Ok::<u128, PoolError>(RATE_PRECISION),
            self.shares.total_supply > 0 && self.reserve_value(rates@) > u128::MAX ==> r == Err::<
                u128,
                PoolError,
            >(PoolError::Overflow),
            self.shares.total_supply > 0 && self.reserve_value(rates@) <= u128::MAX ==> r == Ok::<
                u128,
                PoolError,
            >((self.reserve_value(rates@) / self.shares.total_supply as int) as u128),
    {
        let t = self.shares.total_supply;
        if t == 0 {
            return Ok(RATE_PRECISION);
        }
        match weighted_sum(&self.amounts, rates) {
            Some(w) => Ok(w / t),
            None => Err(PoolError::Overflow),
        }
    }
}

} // verus!
