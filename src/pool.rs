//! The pool type: one tagged value per pool, holding exactly one of the
//! market-maker kinds, with every operation routed to that kind or refused
//! with `PoolError::Unsupported` where the kind does not offer it.
use vstd::prelude::*;

use crate::curve::{FEE_DIVISOR, RATE_PRECISION};
use crate::error::PoolError;
use crate::fees::{AdminFees, SwapVolume};
use crate::ledger::unique_names;
use crate::oracle::{payload_ok, payload_rates, RateOracle};
use crate::record::tag_of;
use crate::reserves::{
    add_proportional_spec, add_weighted_spec, rates_ok, remove_by_shares_spec, remove_weighted_spec,
    supply_divisor, swap_spec, PoolCore,
};
use crate::vecops::{any_zero, filled, scaled_seq};

verus! {

/// Constant-product pool: swaps keep the product of the two reserves, and
/// liquidity goes in and out in proportion to the reserves.
pub struct SimplePool {
    pub state: PoolCore,
}

/// Stable pool: all tokens are worth the same, so swaps convert at par
/// (constant sum) and deposits of any mix earn shares by value.
pub struct StableSwapPool {
    pub state: PoolCore,
}

/// Stable pool whose tokens are valued at committed exchange rates.
pub struct RatedSwapPool {
    pub state: PoolCore,
    pub rates: RateOracle,
}

/// The kinds of pool, in the order of their stored tags.
#[derive(Debug, Clone, Copy, PartialEq, Eq, Structural)]
pub enum PoolKind {
    Simple,
    StableSwap,
    RatedSwap,
}

/// Name of each kind as `Pool::kind` reports it.
pub open spec fn kind_name(k: PoolKind) -> Seq<char> {
    match k {
        PoolKind::Simple => "SIMPLE_POOL"@,
        PoolKind::StableSwap => "STABLE_SWAP"@,
        PoolKind::RatedSwap => "RATED_SWAP"@,
    }
}

/// Decimals of a share of each kind.
pub open spec fn share_decimals(k: PoolKind) -> u8 {
    match k {
        PoolKind::Simple => 24,
        PoolKind::StableSwap => 18,
        PoolKind::RatedSwap => 24,
    }
}

/// A request for fresh exchange rates, one for each token listed; the
/// response goes to `Pool::update_callback`.
pub struct RateRequest {
    pub tokens: Vec<String>,
}

/// A pool of one kind. Its kind never changes.
pub enum Pool {
    SimplePool(SimplePool),
    StableSwapPool(StableSwapPool),
    RatedSwapPool(RatedSwapPool),
}

/// Copies of the tokens of `ids`.
fn copy_ids(ids: &Vec<String>) -> (r: Vec<String>)
    ensures
        r@.len() == ids@.len(),
        forall|k: int| 0 <= k < ids@.len() ==> r@[k]@ == ids@[k]@,
{
    let mut out: Vec<String> = Vec::new();
    let mut i: usize = 0;
    while i < ids.len()
        invariant
            0 <= i <= ids@.len(),
            out@.len() == i,
            forall|k: int| 0 <= k < i ==> out@[k]@ == ids@[k]@,
        decreases ids@.len() - i,
    {
        out.push(ids[i].clone());
        i = i + 1;
    }
    out
}

/// Rates given for a single call, or the committed ones where none are.
fn rates_or(given: &Option<Vec<u128>>, committed: &Vec<u128>) -> (r: Vec<u128>)
    ensures
        r@ == match given {
            Some(v) => v@,
            None => committed@,
        },
{
    match given {
        Some(v) => v.clone(),
        None => committed.clone(),
    }
}

/// Whether rates handed in for one call can price the pool's `n` tokens.
pub open spec fn given_rates_ok(given: Option<Vec<u128>>, n: int) -> bool {
    match given {
        Some(v) => rates_ok(v@, n),
        None => true,
    }
}

fn check_given_rates(given: &Option<Vec<u128>>, n: usize) -> (r: bool)
    ensures
        r == given_rates_ok(*given, n as int),
{
    match given {
        Some(v) => v.len() == n && !any_zero(v),
        None => true,
    }
}

impl Pool {
    /// Rates that price a single call: those handed in, else the committed
    /// ones.
    pub open spec fn effective_rates(&self, given: Option<Vec<u128>>) -> Seq<u128> {
        match given {
            Some(v) => v@,
            None => self.committed_rates(),
        }
    }

    pub open spec fn kind_of(&self) -> PoolKind {
        match self {
            Pool::SimplePool(_) => PoolKind::Simple,
            Pool::StableSwapPool(_) => PoolKind::StableSwap,
            Pool::RatedSwapPool(_) => PoolKind::RatedSwap,
        }
    }

    pub open spec fn state(&self) -> PoolCore {
        match self {
            Pool::SimplePool(p) => p.state,
            Pool::StableSwapPool(p) => p.state,
            Pool::RatedSwapPool(p) => p.state,
        }
    }

    /// Committed rates of a rated pool; empty for the other kinds.
    pub open spec fn committed_rates(&self) -> Seq<u128> {
        match self {
            Pool::RatedSwapPool(p) => p.rates.rates@,
            _ => Seq::empty(),
        }
    }

    /// Whether a rate refresh is in flight.
    pub open spec fn refreshing(&self) -> bool {
        match self {
            Pool::RatedSwapPool(p) => p.rates.refreshing,
            _ => false,
        }
    }

    /// Rates the stable kinds price with: par for the stable pool, the
    /// committed rates for the rated pool.
    pub open spec fn pricing_rates(&self) -> Seq<u128> {
        match self {
            Pool::RatedSwapPool(p) => p.rates.rates@,
            _ => Seq::new(self.state().n() as nat, |k: int| RATE_PRECISION),
        }
    }

    pub open spec fn is_product(&self) -> bool {
        self.kind_of() == PoolKind::Simple
    }

    pub open spec fn wf(&self) -> bool {
        &&& self.state().wf()
        &&& match self {
            Pool::RatedSwapPool(p) => p.rates.wf() && p.rates.rates@.len() == p.state.n(),
            _ => true,
        }
    }

    /// Everything but the state is as in `pre`: the kind, and for a rated
    /// pool its rates and refresh state.
    pub open spec fn same_frame(&self, pre: &Pool) -> bool {
        &&& self.kind_of() == pre.kind_of()
        &&& self.committed_rates() == pre.committed_rates()
        &&& self.refreshing() == pre.refreshing()
    }

    pub fn new_simple_pool(token_account_ids: Vec<String>, total_fee: u32) -> (r: Pool)
        requires
            token_account_ids@.len() >= 2,
            unique_names(token_account_ids@),
            total_fee <= FEE_DIVISOR,
        ensures
            r.wf(),
            r.kind_of() == PoolKind::Simple,
            r.state().token_account_ids@ == token_account_ids@,
            r.state().total_fee == total_fee,
            r.state().shares.total_supply == 0,
            forall|k: int| 0 <= k < token_account_ids@.len() ==> r.state().amounts@[k] == 0,
    {
        Pool::SimplePool(SimplePool { state: PoolCore::new(token_account_ids, total_fee) })
    }

    pub fn new_stable_swap_pool(token_account_ids: Vec<String>, total_fee: u32) -> (r: Pool)
        requires
            token_account_ids@.len() >= 2,
            unique_names(token_account_ids@),
            total_fee <= FEE_DIVISOR,
        ensures
            r.wf(),
            r.kind_of() == PoolKind::StableSwap,
            r.state().token_account_ids@ == token_account_ids@,
            r.state().total_fee == total_fee,
            r.state().shares.total_supply == 0,
            forall|k: int| 0 <= k < token_account_ids@.len() ==> r.state().amounts@[k] == 0,
    {
        Pool::StableSwapPool(StableSwapPool { state: PoolCore::new(token_account_ids, total_fee) })
    }

    pub fn new_rated_swap_pool(token_account_ids: Vec<String>, total_fee: u32, rates: Vec<u128>) -> (r: Pool)
        requires
            token_account_ids@.len() >= 2,
            unique_names(token_account_ids@),
            total_fee <= FEE_DIVISOR,
            rates_ok(rates@, token_account_ids@.len() as int),
        ensures
            r.wf(),
            r.kind_of() == PoolKind::RatedSwap,
            r.state().token_account_ids@ == token_account_ids@,
            r.state().total_fee == total_fee,
            r.state().shares.total_supply == 0,
            forall|k: int| 0 <= k < token_account_ids@.len() ==> r.state().amounts@[k] == 0,
            r.committed_rates() == rates@,
            !r.refreshing(),
    {
        Pool::RatedSwapPool(
            RatedSwapPool { state: PoolCore::new(token_account_ids, total_fee), rates: RateOracle::new(rates) },
        )
    }

    /// Tag under which this pool's record is stored.
    pub fn stored_tag(&self) -> (r: u8)
        ensures
            r == tag_of(self.kind_of()),
    {
        match self {
            Pool::SimplePool(_) => 0,
            Pool::StableSwapPool(_) => 1,
            Pool::RatedSwapPool(_) => 2,
        }
    }

    /// Returns pool kind.
    pub fn kind(&self) -> (r: String)
        ensures
            r@ == kind_name(self.kind_of()),
    {
        match self {
            Pool::SimplePool(_) => String::from_str("SIMPLE_POOL"),
            Pool::StableSwapPool(_) => String::from_str("STABLE_SWAP"),
            Pool::RatedSwapPool(_) => String::from_str("RATED_SWAP"),
        }
    }

    /// Returns which tokens are in the underlying pool.
    pub fn tokens(&self) -> (r: &[String])
        ensures
            r@ == self.state().token_account_ids@,
    {
        match self {
            Pool::SimplePool(p) => p.state.token_account_ids.as_slice(),
            Pool::StableSwapPool(p) => p.state.token_account_ids.as_slice(),
            Pool::RatedSwapPool(p) => p.state.token_account_ids.as_slice(),
        }
    }
    /// Adds liquidity in proportion to the reserves; proportional kind only.
    /// `amounts` becomes what was taken of each token.
    pub fn add_liquidity(&mut self, sender_id: &String, amounts: &mut Vec<u128>) -> (r: Result<u128, PoolError>)
        requires
            old(self).wf(),
        ensures
            final(self).wf(),
            old(self).kind_of() != PoolKind::Simple ==> r == Err::<u128, PoolError>(PoolError::Unsupported) && *final(self) == *old(self) && final(amounts)@ == old(amounts)@,
            old(self).kind_of() == PoolKind::Simple ==> final(self).same_frame(old(self)) && add_proportional_spec(
                old(self).state(),
                final(self).state(),
                sender_id@,
                old(amounts)@,
                final(amounts)@,
                r,
            ),
    {
        match self {
            Pool::SimplePool(p) => p.state.add_proportional(sender_id, amounts),
            Pool::StableSwapPool(_) => Err(PoolError::Unsupported),
            Pool::RatedSwapPool(_) => Err(PoolError::Unsupported),
        }
    }

    /// Adds any mix of tokens for shares by value, at least `min_shares`;
    /// stable kinds only. The constant-sum curve has no imbalance, so no fee
    /// is charged: `admin_fee` is taken for a uniform interface, and the
    /// contract keeps the accrued admin fees unchanged.
    pub fn add_stable_liquidity(
        &mut self,
        sender_id: &String,
        amounts: &Vec<u128>,
        min_shares: u128,
        admin_fee: AdminFees,
    ) -> (r: Result<u128, PoolError>)
        requires
            old(self).wf(),
            admin_fee.wf(),
        ensures
            final(self).wf(),
            old(self).kind_of() == PoolKind::Simple ==> r == Err::<u128, PoolError>(PoolError::Unsupported) && *final(self) == *old(self),
            old(self).kind_of() != PoolKind::Simple ==> final(self).same_frame(old(self)) && add_weighted_spec(
                old(self).state(),
                final(self).state(),
                old(self).pricing_rates(),
                sender_id@,
                amounts@,
                min_shares,
                r,
            ),
    {
        match self {
            Pool::SimplePool(_) => Err(PoolError::Unsupported),
            Pool::StableSwapPool(p) => {
                let rates = filled(p.state.amounts.len(), RATE_PRECISION);
                p.state.add_weighted(&rates, sender_id, amounts, min_shares)
            },
            Pool::RatedSwapPool(p) => p.state.add_weighted(&p.rates.rates, sender_id, amounts, min_shares),
        }
    }

    /// Removes liquidity from underlying pool.
    pub fn remove_liquidity(&mut self, sender_id: &String, shares: u128, min_amounts: Vec<u128>) -> (r: Result<
        Vec<u128>,
        PoolError,
    >)
        requires
            old(self).wf(),
        ensures
            final(self).wf(),
            final(self).same_frame(old(self)),
            remove_by_shares_spec(old(self).state(), final(self).state(), sender_id@, shares, min_amounts@, r),
    {
        match self {
            Pool::SimplePool(p) => p.state.remove_by_shares(sender_id, shares, &min_amounts),
            Pool::StableSwapPool(p) => p.state.remove_by_shares(sender_id, shares, &min_amounts),
            Pool::RatedSwapPool(p) => p.state.remove_by_shares(sender_id, shares, &min_amounts),
        }
    }

    /// Removes exactly `amounts`, burning at most `max_burn_shares`; stable
    /// kinds only. As for deposits, no fee is charged and the accrued admin
    /// fees stay unchanged.
    pub fn remove_liquidity_by_tokens(
        &mut self,
        sender_id: &String,
        amounts: Vec<u128>,
        max_burn_shares: u128,
        admin_fee: AdminFees,
    ) -> (r: Result<u128, PoolError>)
        requires
            old(self).wf(),
            admin_fee.wf(),
        ensures
            final(self).wf(),
            old(self).kind_of() == PoolKind::Simple ==> r == Err::<u128, PoolError>(PoolError::Unsupported) && *final(self) == *old(self),
            old(self).kind_of() != PoolKind::Simple ==> final(self).same_frame(old(self)) && remove_weighted_spec(
                old(self).state(),
                final(self).state(),
                old(self).pricing_rates(),
                sender_id@,
                amounts@,
                max_burn_shares,
                r,
            ),
    {
        match self {
            Pool::SimplePool(_) => Err(PoolError::Unsupported),
            Pool::StableSwapPool(p) => {
                let rates = filled(p.state.amounts.len(), RATE_PRECISION);
                p.state.remove_weighted(&rates, sender_id, &amounts, max_burn_shares)
            },
            Pool::RatedSwapPool(p) => p.state.remove_weighted(&p.rates.rates, sender_id, &amounts, max_burn_shares),
        }
    }

    /// Returns how many tokens will one receive swapping given amount of
    /// token_in for token_out.
    pub fn get_return(&self, token_in: &String, amount_in: u128, token_out: &String, fees: &AdminFees) -> (r:
        Result<u128, PoolError>)
        requires
            self.wf(),
        ensures
            match r {
                Ok(v) => self.state().quote(self.is_product(), self.pricing_rates(), token_in@, amount_in as int, token_out@)
                    == Ok::<int, PoolError>(v as int),
                Err(e) => self.state().quote(self.is_product(), self.pricing_rates(), token_in@, amount_in as int, token_out@)
                    == Err::<int, PoolError>(e),
            },
    {
        match self {
            Pool::SimplePool(p) => p.state.get_return(true, &Vec::new(), token_in, amount_in, token_out),
            Pool::StableSwapPool(p) => {
                let rates = filled(p.state.amounts.len(), RATE_PRECISION);
                p.state.get_return(false, &rates, token_in, amount_in, token_out)
            },
            Pool::RatedSwapPool(p) => p.state.get_return(false, &p.rates.rates, token_in, amount_in, token_out),
        }
    }

    /// Return share decimal.
    pub fn get_share_decimal(&self) -> (r: u8)
        ensures
            r == share_decimals(self.kind_of()),
    {
        match self {
            Pool::SimplePool(_) => 24,
            Pool::StableSwapPool(_) => 18,
            Pool::RatedSwapPool(_) => 24,
        }
    }

    /// Returns given pool's total fee.
    pub fn get_fee(&self) -> (r: u32)
        ensures
            r == self.state().total_fee,
    {
        match self {
            Pool::SimplePool(p) => p.state.total_fee,
            Pool::StableSwapPool(p) => p.state.total_fee,
            Pool::RatedSwapPool(p) => p.state.total_fee,
        }
    }

    /// Returns volumes of the given pool.
    pub fn get_volumes(&self) -> (r: Vec<SwapVolume>)
        ensures
            r@ == self.state().volumes@,
    {
        let v = match self {
            Pool::SimplePool(p) => &p.state.volumes,
            Pool::StableSwapPool(p) => &p.state.volumes,
            Pool::RatedSwapPool(p) => &p.state.volumes,
        };
        let mut out: Vec<SwapVolume> = Vec::new();
        let mut i: usize = 0;
        while i < v.len()
            invariant
                0 <= i <= v@.len(),
                out@ =~= v@.subrange(0, i as int),
            decreases v@.len() - i,
        {
            out.push(v[i]);
            i = i + 1;
        }
        proof {
            assert(out@ =~= v@);
        }
        out
    }

    /// Returns given pool's share price in precision 1e8; stable kinds only.
    pub fn get_share_price(&self) -> (r: Result<u128, PoolError>)
        requires
            self.wf(),
        ensures
            self.kind_of() == PoolKind::Simple ==> r == Err::<u128, PoolError>(PoolError::Unsupported),
            self.kind_of() != PoolKind::Simple && self.state().shares.total_supply == 0 ==> r == Ok::<u128, PoolError>(
                RATE_PRECISION,
            ),
            self.kind_of() != PoolKind::Simple && self.state().shares.total_supply > 0 ==> r == if self.state().reserve_value(
                self.pricing_rates(),
            ) > u128::MAX {
                Err::<u128, PoolError>(PoolError::Overflow)
            } else {
                Ok::<u128, PoolError>(
                    (self.state().reserve_value(self.pricing_rates()) / self.state().shares.total_supply as int) as u128,
                )
            },
    {
        match self {
            Pool::SimplePool(_) => Err(PoolError::Unsupported),
            Pool::StableSwapPool(p) => {
                let rates = filled(p.state.amounts.len(), RATE_PRECISION);
                p.state.share_price(&rates)
            },
            Pool::RatedSwapPool(p) => p.state.share_price(&p.rates.rates),
        }
    }

    /// Swaps given number of token_in for token_out and returns received
    /// amount, which must be at least `min_amount_out`.
    pub fn swap(
        &mut self,
        token_in: &String,
        amount_in: u128,
        token_out: &String,
        min_amount_out: u128,
        admin_fee: AdminFees,
    ) -> (r: Result<u128, PoolError>)
        requires
            old(self).wf(),
            admin_fee.wf(),
        ensures
            final(self).wf(),
            final(self).same_frame(old(self)),
            swap_spec(
                old(self).state(),
                final(self).state(),
                old(self).is_product(),
                old(self).pricing_rates(),
                token_in@,
                amount_in,
                token_out@,
                min_amount_out,
                admin_fee,
                r,
            ),
    {
        match self {
            Pool::SimplePool(p) => p.state.swap(true, &Vec::new(), token_in, amount_in, token_out, min_amount_out, &admin_fee),
            Pool::StableSwapPool(p) => {
                let rates = filled(p.state.amounts.len(), RATE_PRECISION);
                p.state.swap(false, &rates, token_in, amount_in, token_out, min_amount_out, &admin_fee)
            },
            Pool::RatedSwapPool(p) => p.state.swap(
                false,
                &p.rates.rates,
                token_in,
                amount_in,
                token_out,
                min_amount_out,
                &admin_fee,
            ),
        }
    }

    pub fn share_total_balance(&self) -> (r: u128)
        ensures
            r == self.state().shares.total_supply,
    {
        match self {
            Pool::SimplePool(p) => p.state.shares.total_supply,
            Pool::StableSwapPool(p) => p.state.shares.total_supply,
            Pool::RatedSwapPool(p) => p.state.shares.total_supply,
        }
    }

    pub fn share_balances(&self, account_id: &String) -> (r: u128)
        requires
            self.wf(),
        ensures
            r == self.state().shares.balance(account_id@),
    {
        match self {
            Pool::SimplePool(p) => p.state.shares.balance_of(account_id),
            Pool::StableSwapPool(p) => p.state.shares.balance_of(account_id),
            Pool::RatedSwapPool(p) => p.state.shares.balance_of(account_id),
        }
    }

    pub fn share_transfer(&mut self, sender_id: &String, receiver_id: &String, amount: u128) -> (r: Result<
        (),
        PoolError,
    >)
        requires
            old(self).wf(),
        ensures
            final(self).wf(),
            final(self).same_frame(old(self)),
            final(self).state().token_account_ids == old(self).state().token_account_ids,
            final(self).state().amounts == old(self).state().amounts,
            final(self).state().volumes == old(self).state().volumes,
            final(self).state().admin_fees == old(self).state().admin_fees,
            final(self).state().total_fee == old(self).state().total_fee,
            r == Err::<(), PoolError>(PoolError::UnregisteredHolder) <==> !old(self).state().shares.is_registered(receiver_id@),
            r == Err::<(), PoolError>(PoolError::InsufficientShares) <==> (old(self).state().shares.is_registered(receiver_id@)
                && old(self).state().shares.balance(sender_id@) < amount),
            r is Ok <==> (old(self).state().shares.is_registered(receiver_id@) && old(self).state().shares.balance(
                sender_id@,
            ) >= amount),
            r is Err ==> *final(self) == *old(self),
            r is Ok ==> {
                &&& final(self).state().shares.total_supply == old(self).state().shares.total_supply
                &&& forall|g: Seq<char>| #[trigger] final(self).state().shares.balance(g) == old(self).state().shares.balance(g)
                    - (if g == sender_id@ { amount as int } else { 0 }) + (if g == receiver_id@ { amount as int } else { 0 })
            },
    {
        match self {
            Pool::SimplePool(p) => p.state.shares.transfer(sender_id, receiver_id, amount),
            Pool::StableSwapPool(p) => p.state.shares.transfer(sender_id, receiver_id, amount),
            Pool::RatedSwapPool(p) => p.state.shares.transfer(sender_id, receiver_id, amount),
        }
    }

    pub fn share_register(&mut self, account_id: &String)
        requires
            old(self).wf(),
        ensures
            final(self).wf(),
            final(self).same_frame(old(self)),
            final(self).state().token_account_ids == old(self).state().token_account_ids,
            final(self).state().amounts == old(self).state().amounts,
            final(self).state().volumes == old(self).state().volumes,
            final(self).state().admin_fees == old(self).state().admin_fees,
            final(self).state().total_fee == old(self).state().total_fee,
            final(self).state().shares.is_registered(account_id@),
            old(self).state().shares.is_registered(account_id@) ==> *final(self) == *old(self),
            forall|g: Seq<char>|
                g != account_id@ ==> #[trigger] final(self).state().shares.is_registered(g) == old(self).state().shares.is_registered(g),
            final(self).state().shares.total_supply == old(self).state().shares.total_supply,
            forall|g: Seq<char>| #[trigger] final(self).state().shares.balance(g) == old(self).state().shares.balance(g),
    {
        match self {
            Pool::SimplePool(p) => p.state.shares.register(account_id),
            Pool::StableSwapPool(p) => p.state.shares.register(account_id),
            Pool::RatedSwapPool(p) => p.state.shares.register(account_id),
        }
    }
    pub fn predict_add_stable_liquidity(&self, amounts: &Vec<u128>, fees: &AdminFees) -> (r: Result<u128, PoolError>)
        requires
            self.wf(),
        ensures
            self.kind_of() != PoolKind::StableSwap ==> r == Err::<u128, PoolError>(PoolError::Unsupported),
            self.kind_of() == PoolKind::StableSwap ==> match r {
                Ok(v) => self.state().weighted_add_shares(self.pricing_rates(), amounts@) == Ok::<int, PoolError>(v as int),
                Err(e) => self.state().weighted_add_shares(self.pricing_rates(), amounts@) == Err::<int, PoolError>(e),
            },
    {
        match self {
            Pool::SimplePool(_) => Err(PoolError::Unsupported),
            Pool::StableSwapPool(p) => {
                let rates = filled(p.state.amounts.len(), RATE_PRECISION);
                p.state.predict_add_weighted(&rates, amounts)
            },
            Pool::RatedSwapPool(_) => Err(PoolError::Unsupported),
        }
    }

    pub fn predict_remove_liquidity(&self, shares: u128) -> (r: Result<Vec<u128>, PoolError>)
        requires
            self.wf(),
        ensures
            self.kind_of() == PoolKind::Simple ==> r == Err::<Vec<u128>, PoolError>(PoolError::Unsupported),
            self.kind_of() != PoolKind::Simple ==> {
                &&& shares > self.state().shares.total_supply ==> r == Err::<Vec<u128>, PoolError>(
                    PoolError::InsufficientShares,
                )
                &&& r is Ok <==> shares <= self.state().shares.total_supply && forall|k: int|
                    0 <= k < self.state().n() ==> self.state().amounts@[k] * shares <= u128::MAX
                &&& r is Err ==> r == Err::<Vec<u128>, PoolError>(PoolError::InsufficientShares) || r == Err::<
                    Vec<u128>,
                    PoolError,
                >(PoolError::Overflow)
                &&& r matches Ok(v) ==> v@ == scaled_seq(
                    self.state().amounts@,
                    shares as int,
                    supply_divisor(self.state().shares.total_supply as int),
                )
            },
    {
        match self {
            Pool::SimplePool(_) => Err(PoolError::Unsupported),
            Pool::StableSwapPool(p) => p.state.predict_remove_by_shares(shares),
            Pool::RatedSwapPool(p) => p.state.predict_remove_by_shares(shares),
        }
    }

    pub fn predict_remove_liquidity_by_tokens(&self, amounts: &Vec<u128>, fees: &AdminFees) -> (r: Result<
        u128,
        PoolError,
    >)
        requires
            self.wf(),
        ensures
            self.kind_of() == PoolKind::Simple ==> r == Err::<u128, PoolError>(PoolError::Unsupported),
            self.kind_of() != PoolKind::Simple ==> match r {
                Ok(v) => self.state().weighted_burn_shares(self.pricing_rates(), amounts@) == Ok::<int, PoolError>(v as int),
                Err(e) => self.state().weighted_burn_shares(self.pricing_rates(), amounts@) == Err::<int, PoolError>(e),
            },
    {
        match self {
            Pool::SimplePool(_) => Err(PoolError::Unsupported),
            Pool::StableSwapPool(p) => {
                let rates = filled(p.state.amounts.len(), RATE_PRECISION);
                p.state.predict_burn_weighted(&rates, amounts)
            },
            Pool::RatedSwapPool(p) => p.state.predict_burn_weighted(&p.rates.rates, amounts),
        }
    }

    /// Shares a deposit would earn, priced at `rates` where given; rated
    /// kind only. Rates that do not price every token are `BadAmounts`.
    pub fn predict_add_rated_liquidity(
        &self,
        amounts: &Vec<u128>,
        rates: &Option<Vec<u128>>,
        fees: &AdminFees,
    ) -> (r: Result<u128, PoolError>)
        requires
            self.wf(),
        ensures
            self.kind_of() != PoolKind::RatedSwap ==> r == Err::<u128, PoolError>(PoolError::Unsupported),
            self.kind_of() == PoolKind::RatedSwap && !given_rates_ok(*rates, self.state().n()) ==> r == Err::<
                u128,
                PoolError,
            >(PoolError::BadAmounts),
            self.kind_of() == PoolKind::RatedSwap && given_rates_ok(*rates, self.state().n()) ==> match r {
                Ok(v) => self.state().weighted_add_shares(self.effective_rates(*rates), amounts@) == Ok::<int, PoolError>(v as int),
                Err(e) => self.state().weighted_add_shares(self.effective_rates(*rates), amounts@) == Err::<int, PoolError>(e),
            },
    {
        match self {
            Pool::RatedSwapPool(p) => {
                if !check_given_rates(rates, p.state.amounts.len()) {
                    return Err(PoolError::BadAmounts);
                }
                let used = rates_or(rates, &p.rates.rates);
                p.state.predict_add_weighted(&used, amounts)
            },
            _ => Err(PoolError::Unsupported),
        }
    }

    /// Shares a withdrawal of exactly `amounts` would burn, priced at
    /// `rates` where given; rated kind only.
    pub fn predict_remove_rated_liquidity_by_tokens(
        &self,
        amounts: &Vec<u128>,
        rates: &Option<Vec<u128>>,
        fees: &AdminFees,
    ) -> (r: Result<u128, PoolError>)
        requires
            self.wf(),
        ensures
            self.kind_of() != PoolKind::RatedSwap ==> r == Err::<u128, PoolError>(PoolError::Unsupported),
            self.kind_of() == PoolKind::RatedSwap && !given_rates_ok(*rates, self.state().n()) ==> r == Err::<
                u128,
                PoolError,
            >(PoolError::BadAmounts),
            self.kind_of() == PoolKind::RatedSwap && given_rates_ok(*rates, self.state().n()) ==> match r {
                Ok(v) => self.state().weighted_burn_shares(self.effective_rates(*rates), amounts@) == Ok::<int, PoolError>(v as int),
                Err(e) => self.state().weighted_burn_shares(self.effective_rates(*rates), amounts@) == Err::<int, PoolError>(e),
            },
    {
        match self {
            Pool::RatedSwapPool(p) => {
                if !check_given_rates(rates, p.state.amounts.len()) {
                    return Err(PoolError::BadAmounts);
                }
                let used = rates_or(rates, &p.rates.rates);
                p.state.predict_burn_weighted(&used, amounts)
            },
            _ => Err(PoolError::Unsupported),
        }
    }

    /// Swap quote priced at `rates` where given, else at the committed
    /// rates; rated kind only.
    pub fn get_rated_return(
        &self,
        token_in: &String,
        amount_in: u128,
        token_out: &String,
        rates: &Option<Vec<u128>>,
        fees: &AdminFees,
    ) -> (r: Result<u128, PoolError>)
        requires
            self.wf(),
        ensures
            self.kind_of() != PoolKind::RatedSwap ==> r == Err::<u128, PoolError>(PoolError::Unsupported),
            self.kind_of() == PoolKind::RatedSwap && !given_rates_ok(*rates, self.state().n()) ==> r == Err::<
                u128,
                PoolError,
            >(PoolError::BadAmounts),
            self.kind_of() == PoolKind::RatedSwap && given_rates_ok(*rates, self.state().n()) ==> match r {
                Ok(v) => self.state().quote(false, self.effective_rates(*rates), token_in@, amount_in as int, token_out@) == Ok::<int, PoolError>(v as int),
                Err(e) => self.state().quote(false, self.effective_rates(*rates), token_in@, amount_in as int, token_out@) == Err::<int, PoolError>(e),
            },
    {
        match self {
            Pool::RatedSwapPool(p) => {
                if !check_given_rates(rates, p.state.amounts.len()) {
                    return Err(PoolError::BadAmounts);
                }
                let used = rates_or(rates, &p.rates.rates);
                p.state.get_return(false, &used, token_in, amount_in, token_out)
            },
            _ => Err(PoolError::Unsupported),
        }
    }

    /// Starts a refresh of the exchange rates; rated kind only. The
    /// committed rates stay as they are until the response arrives.
    pub fn update_rates(&mut self) -> (r: Result<RateRequest, PoolError>)
        requires
            old(self).wf(),
        ensures
            final(self).wf(),
            final(self).state() == old(self).state(),
            final(self).kind_of() == old(self).kind_of(),
            final(self).committed_rates() == old(self).committed_rates(),
            old(self).kind_of() != PoolKind::RatedSwap ==> r is Err && r->Err_0 == PoolError::Unsupported
                && *final(self) == *old(self),
            old(self).kind_of() == PoolKind::RatedSwap && old(self).refreshing() ==> r is Err && r->Err_0
                == PoolError::RefreshInProgress && *final(self) == *old(self),
            old(self).kind_of() == PoolKind::RatedSwap && !old(self).refreshing() ==> final(self).refreshing() && (
            r matches Ok(req) && req.tokens@.len() == old(self).state().n() && forall|k: int|
                0 <= k < req.tokens@.len() ==> req.tokens@[k]@ == old(self).state().token_account_ids@[k]@),
    {
        match self {
            Pool::RatedSwapPool(p) => {
                match p.rates.request_refresh() {
                    Ok(()) => Ok(RateRequest { tokens: copy_ids(&p.state.token_account_ids) }),
                    Err(e) => Err(e),
                }
            },
            _ => Err(PoolError::Unsupported),
        }
    }

    /// Completes a rate refresh with the raw response; rated kind only.
    /// `Ok(true)`: the response held a positive rate for every token and
    /// all of them are now committed. `Ok(false)`: it did not, and the
    /// committed rates are unchanged. The refresh is over either way.
    pub fn update_callback(&mut self, cross_call_result: &Vec<u8>) -> (r: Result<bool, PoolError>)
        requires
            old(self).wf(),
        ensures
            final(self).wf(),
            final(self).state() == old(self).state(),
            final(self).kind_of() == old(self).kind_of(),
            !final(self).refreshing(),
            old(self).kind_of() != PoolKind::RatedSwap ==> r == Err::<bool, PoolError>(PoolError::Unsupported)
                && *final(self) == *old(self),
            old(self).kind_of() == PoolKind::RatedSwap ==> r == Ok::<bool, PoolError>(
                payload_ok(cross_call_result@, old(self).state().n()),
            ),
            r == Ok::<bool, PoolError>(true) ==> final(self).committed_rates() == payload_rates(
                cross_call_result@,
                old(self).state().n(),
            ),
            r != Ok::<bool, PoolError>(true) ==> final(self).committed_rates() == old(self).committed_rates(),
    {
        match self {
            Pool::RatedSwapPool(p) => Ok(p.rates.complete_refresh(cross_call_result)),
            _ => Err(PoolError::Unsupported),
        }
    }
}

} // verus!
