//! Per-pool ledger of liquidity shares.
use vstd::prelude::*;

use crate::error::PoolError;

verus! {

/// Sum of a sequence of balances.
pub open spec fn sum_balances(s: Seq<u128>) -> int
    decreases s.len(),
{
    if s.len() == 0 {
        0
    } else {
        sum_balances(s.drop_last()) + s.last()
    }
}

/// Index of the last holder named `h`, or -1.
pub open spec fn index_of_name(hs: Seq<String>, h: Seq<char>) -> int
    decreases hs.len(),
{
    if hs.len() == 0 {
        -1
    } else if hs.last()@ == h {
        hs.len() - 1
    } else {
        index_of_name(hs.drop_last(), h)
    }
}

pub open spec fn unique_names(hs: Seq<String>) -> bool {
    forall|i: int, j: int| 0 <= i < j < hs.len() ==> hs[i]@ != hs[j]@
}

pub proof fn lemma_sum_nonneg(s: Seq<u128>)
    ensures
        sum_balances(s) >= 0,
    decreases s.len(),
{
    if s.len() > 0 {
        lemma_sum_nonneg(s.drop_last());
    }
}

pub proof fn lemma_elem_le_sum(s: Seq<u128>, i: int)
    requires
        0 <= i < s.len(),
    ensures
        s[i] <= sum_balances(s),
    decreases s.len(),
{
    lemma_sum_nonneg(s.drop_last());
    if i < s.len() - 1 {
        lemma_elem_le_sum(s.drop_last(), i);
    }
}

pub proof fn lemma_sum_update(s: Seq<u128>, i: int, v: u128)
    requires
        0 <= i < s.len(),
    ensures
        sum_balances(s.update(i, v)) == sum_balances(s) - s[i] + v,
    decreases s.len(),
{
    let t = s.update(i, v);
    if i == s.len() - 1 {
        assert(t.drop_last() =~= s.drop_last());
    } else {
        assert(t.drop_last() =~= s.drop_last().update(i, v));
        lemma_sum_update(s.drop_last(), i, v);
    }
}

pub proof fn lemma_sum_push(s: Seq<u128>, v: u128)
    ensures
        sum_balances(s.push(v)) == sum_balances(s) + v,
{
    assert(s.push(v).drop_last() =~= s);
}

pub proof fn lemma_find_range(hs: Seq<String>, h: Seq<char>)
    ensures
        -1 <= index_of_name(hs, h) < hs.len(),
        index_of_name(hs, h) >= 0 ==> hs[index_of_name(hs, h)]@ == h,
        index_of_name(hs, h) == -1 ==> forall|k: int| 0 <= k < hs.len() ==> hs[k]@ != h,
    decreases hs.len(),
{
    if hs.len() > 0 && hs.last()@ != h {
        let t = hs.drop_last();
        lemma_find_range(t, h);
        assert forall|k: int| 0 <= k < t.len() implies hs[k] == #[trigger] t[k] by {}
        if index_of_name(hs, h) == -1 {
            assert forall|k: int| 0 <= k < hs.len() implies hs[k]@ != h by {
                if k < t.len() {
                    assert(t[k]@ != h);
                }
            }
        }
    }
}

pub proof fn lemma_find_unique(hs: Seq<String>, i: int, h: Seq<char>)
    requires
        unique_names(hs),
        0 <= i < hs.len(),
        hs[i]@ == h,
    ensures
        index_of_name(hs, h) == i,
    decreases hs.len(),
{
    if i < hs.len() - 1 {
        assert(hs.last()@ != h);
        lemma_find_unique(hs.drop_last(), i, h);
    }
}

pub proof fn lemma_find_push(hs: Seq<String>, x: String, h: Seq<char>)
    ensures
        index_of_name(hs.push(x), h) == if x@ == h { hs.len() as int } else { index_of_name(hs, h) },
{
    assert(hs.push(x).drop_last() =~= hs);
}

/// Share balances of the registered holders and their total supply.
pub struct SharesLedger {
    pub holders: Vec<String>,
    pub balances: Vec<u128>,
    pub total_supply: u128,
}

impl SharesLedger {
    /// Holders are unique, each has one balance, and the balances sum to the
    /// total supply.
    pub open spec fn wf(&self) -> bool {
        &&& self.holders@.len() == self.balances@.len()
        &&& unique_names(self.holders@)
        &&& self.total_supply == sum_balances(self.balances@)
    }

    pub open spec fn is_registered(&self, h: Seq<char>) -> bool {
        index_of_name(self.holders@, h) >= 0
    }

    /// Balance of `h`; zero for a holder that is not registered.
    pub open spec fn balance(&self, h: Seq<char>) -> nat {
        let i = index_of_name(self.holders@, h);
        if i >= 0 {
            self.balances@[i] as nat
        } else {
            0
        }
    }

    pub fn new() -> (r: SharesLedger)
        ensures
            r.wf(),
            r.total_supply == 0,
            forall|h: Seq<char>| !r.is_registered(h) && r.balance(h) == 0,
    {
        SharesLedger { holders: Vec::new(), balances: Vec::new(), total_supply: 0 }
    }

    /// Position of `h` among the holders.
    pub fn position(&self, h: &String) -> (r: Option<usize>)
        requires
            self.wf(),
        ensures
            match r {
                Some(i) => i == index_of_name(self.holders@, h@) && i < self.holders@.len(),
                None => index_of_name(self.holders@, h@) == -1,
            },
    {
        let mut i: usize = 0;
        while i < self.holders.len()
            invariant
                self.wf(),
                0 <= i <= self.holders@.len(),
                forall|k: int| 0 <= k < i ==> self.holders@[k]@ != h@,
            decreases self.holders@.len() - i,
        {
            if self.holders[i] == *h {
                proof {
                    lemma_find_unique(self.holders@, i as int, h@);
                }
                return Some(i);
            }
            i = i + 1;
        }
        proof {
            lemma_find_range(self.holders@, h@);
        }
        None
    }

    pub fn balance_of(&self, h: &String) -> (r: u128)
        requires
            self.wf(),
        ensures
            r == self.balance(h@),
    {
        match self.position(h) {
            Some(i) => self.balances[i],
            None => 0,
        }
    }

    /// Registers `h` with a zero balance; does nothing if it is registered.
    pub fn register(&mut self, h: &String)
        requires
            old(self).wf(),
        ensures
            final(self).wf(),
            final(self).is_registered(h@),
            old(self).is_registered(h@) ==> *final(self) == *old(self),
            final(self).total_supply == old(self).total_supply,
            forall|g: Seq<char>| g != h@ ==> final(self).is_registered(g) == old(self).is_registered(g),
            forall|g: Seq<char>| final(self).balance(g) == old(self).balance(g),
    {
        match self.position(h) {
            Some(_) => {},
            None => {
                proof {
                    lemma_find_range(self.holders@, h@);
                    lemma_sum_push(self.balances@, 0);
                }
                let ghost hs0 = self.holders@;
                let ghost bs0 = self.balances@;
                let hc = h.clone();
                self.holders.push(hc);
                self.balances.push(0);
                proof {
                    assert(self.holders@ == hs0.push(hc));
                    assert forall|g: Seq<char>|
                        #![trigger index_of_name(self.holders@, g)]
                        index_of_name(self.holders@, g) == if h@ == g {
                            hs0.len() as int
                        } else {
                            index_of_name(hs0, g)
                        } by {
                        lemma_find_push(hs0, hc, g);
                    }
                    assert forall|g: Seq<char>| #[trigger] self.balance(g) == old(self).balance(g) by {
                        lemma_find_range(hs0, g);
                    }
                }
            },
        }
    }
    /// Moves `amount` shares from `from` to `to`.
    pub fn transfer(&mut self, from: &String, to: &String, amount: u128) -> (r: Result<(), PoolError>)
        requires
            old(self).wf(),
        ensures
            final(self).wf(),
            r == Err::<(), PoolError>(PoolError::UnregisteredHolder) <==> !old(self).is_registered(to@),
            r == Err::<(), PoolError>(PoolError::InsufficientShares) <==> (old(self).is_registered(to@)
                && old(self).balance(from@) < amount),
            r is Ok <==> (old(self).is_registered(to@) && old(self).balance(from@) >= amount),
            r is Err ==> *final(self) == *old(self),
            r is Ok ==> {
                &&& final(self).total_supply == old(self).total_supply
                &&& final(self).holders@ == old(self).holders@
                &&& forall|g: Seq<char>| #[trigger] final(self).balance(g) == old(self).balance(g)
                    - (if g == from@ { amount as int } else { 0 }) + (if g == to@ { amount as int } else { 0 })
            },
    {
        let ti = match self.position(to) {
            Some(i) => i,
            None => {
                return Err(PoolError::UnregisteredHolder);
            },
        };
        let fi = match self.position(from) {
            Some(i) => i,
            None => {
                if amount == 0 {
                    proof {
                        assert forall|g: Seq<char>| #[trigger] self.balance(g) == old(self).balance(g)
                            - (if g == from@ { amount as int } else { 0 }) + (if g == to@ { amount as int } else { 0 }) by {}
                    }
                    return Ok(());
                }
                return Err(PoolError::InsufficientShares);
            },
        };
        if self.balances[fi] < amount {
            return Err(PoolError::InsufficientShares);
        }
        let ghost b0 = self.balances@;
        let nf = self.balances[fi] - amount;
        self.balances.set(fi, nf);
        proof {
            lemma_sum_update(b0, fi as int, nf);
            lemma_elem_le_sum(self.balances@, ti as int);
        }
        let ghost b1 = self.balances@;
        let nt = self.balances[ti] + amount;
        self.balances.set(ti, nt);
        proof {
            lemma_sum_update(b1, ti as int, nt);
            assert forall|g: Seq<char>| #[trigger] self.balance(g) == old(self).balance(g)
                - (if g == from@ { amount as int } else { 0 }) + (if g == to@ { amount as int } else { 0 }) by {
                lemma_find_range(self.holders@, g);
                lemma_find_range(self.holders@, from@);
                lemma_find_range(self.holders@, to@);
                if g == from@ {
                    assert(index_of_name(self.holders@, g) == fi);
                }
                if g == to@ {
                    assert(index_of_name(self.holders@, g) == ti);
                }
            }
        }
        Ok(())
    }

    /// Creates `amount` new shares for `h`, registering it if needed.
    pub fn mint(&mut self, h: &String, amount: u128) -> (r: Result<(), PoolError>)
        requires
            old(self).wf(),
        ensures
            final(self).wf(),
            r is Ok <==> old(self).total_supply + amount <= u128::MAX,
            r is Err ==> r == Err::<(), PoolError>(PoolError::Overflow) && *final(self) == *old(self),
            r is Ok ==> {
                &&& final(self).total_supply == old(self).total_supply + amount
                &&& final(self).is_registered(h@)
                &&& forall|g: Seq<char>| g != h@ ==> final(self).is_registered(g) == old(self).is_registered(g)
                &&& forall|g: Seq<char>| #[trigger] final(self).balance(g) == old(self).balance(g)
                    + (if g == h@ { amount as int } else { 0 })
            },
    {
        if amount > u128::MAX - self.total_supply {
            return Err(PoolError::Overflow);
        }
        self.register(h);
        let ghost mid = *self;
        let i = match self.position(h) {
            Some(i) => i,
            None => {
                proof {
                    assert(false);
                }
                return Err(PoolError::Overflow);
            },
        };
        let ghost b0 = self.balances@;
        proof {
            lemma_elem_le_sum(b0, i as int);
        }
        let v = self.balances[i] + amount;
        self.balances.set(i, v);
        self.total_supply = self.total_supply + amount;
        proof {
            lemma_sum_update(b0, i as int, v);
            assert forall|g: Seq<char>| #[trigger] self.balance(g) == old(self).balance(g)
                + (if g == h@ { amount as int } else { 0 }) by {
                lemma_find_range(self.holders@, g);
                lemma_find_range(self.holders@, h@);
                assert(mid.balance(g) == old(self).balance(g));
            }
        }
        Ok(())
    }

    /// Destroys `amount` of the shares of `h`.
    pub fn burn(&mut self, h: &String, amount: u128)
        requires
            old(self).wf(),
            old(self).balance(h@) >= amount,
        ensures
            final(self).wf(),
            final(self).total_supply == old(self).total_supply - amount,
            final(self).holders@ == old(self).holders@,
            forall|g: Seq<char>| #[trigger] final(self).balance(g) == old(self).balance(g)
                - (if g == h@ { amount as int } else { 0 }),
    {
        match self.position(h) {
            Some(i) => {
                let ghost b0 = self.balances@;
                proof {
                    lemma_elem_le_sum(b0, i as int);
                }
                let v = self.balances[i] - amount;
                self.balances.set(i, v);
                self.total_supply = self.total_supply - amount;
                proof {
                    lemma_sum_update(b0, i as int, v);
                    assert forall|g: Seq<char>| #[trigger] self.balance(g) == old(self).balance(g)
                        - (if g == h@ { amount as int } else { 0 }) by {
                        lemma_find_range(self.holders@, g);
                        lemma_find_range(self.holders@, h@);
                    }
                }
            },
            None => {},
        }
    }
}

} // verus!
