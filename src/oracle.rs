//! Exchange rates of a rated pool and the two-step protocol that refreshes
//! them: a request marks the rates as being refreshed, and a later callback
//! either commits a complete new set or leaves the old one in place.
use vstd::prelude::*;

use crate::error::PoolError;

verus! {

/// Bytes that carry one rate in a refresh response.
pub const RATE_WIDTH: usize = 16;

/// Value of bytes read little-endian.
pub open spec fn le_value(s: Seq<u8>) -> nat
    decreases s.len(),
{
    if s.len() == 0 {
        0
    } else {
        (s[0] as nat + 256 * le_value(s.drop_first())) as nat
    }
}

pub open spec fn pow256(k: nat) -> nat
    decreases k,
{
    if k == 0 {
        1
    } else {
        256 * pow256((k - 1) as nat)
    }
}

/// The `k`-th rate of a response.
pub open spec fn rate_at(b: Seq<u8>, k: int) -> nat {
    le_value(b.subrange(RATE_WIDTH * k, RATE_WIDTH * k + RATE_WIDTH))
}

/// A response is well formed for `n` tokens when it holds exactly `n`
/// rates and none of them is zero.
pub open spec fn payload_ok(b: Seq<u8>, n: int) -> bool {
    &&& b.len() == RATE_WIDTH * n
    &&& forall|k: int| 0 <= k < n ==> rate_at(b, k) > 0
}

pub open spec fn payload_rates(b: Seq<u8>, n: int) -> Seq<u128> {
    Seq::new(n as nat, |k: int| rate_at(b, k) as u128)
}

proof fn lemma_pow256_mono(k: nat)
    requires
        k <= 16,
    ensures
        pow256(k) <= pow256(16),
    decreases 16 - k,
{
    if k < 16 {
        lemma_pow256_mono(k + 1);
    }
}

/// Reads the 16 bytes at `base` as a little-endian rate.
fn read_rate(b: &Vec<u8>, base: usize) -> (r: u128)
    requires
        base + RATE_WIDTH <= b@.len(),
    ensures
        r == le_value(b@.subrange(base as int, base + RATE_WIDTH)),
{
    let len = b.len();
    let mut v: u128 = 0;
    let mut j: usize = RATE_WIDTH;
    proof {
        reveal_with_fuel(pow256, 17);
        assert(pow256(16) == 0x1_0000_0000_0000_0000_0000_0000_0000_0000nat);
        assert(b@.subrange(base + j, base + RATE_WIDTH).len() == 0);
    }
    while j > 0
        invariant
            base + RATE_WIDTH <= b@.len(),
            len == b@.len(),
            0 <= j <= RATE_WIDTH,
            v == le_value(b@.subrange(base + j, base + RATE_WIDTH)),
            v < pow256((RATE_WIDTH - j) as nat),
            pow256(16) == 0x1_0000_0000_0000_0000_0000_0000_0000_0000nat,
        decreases j,
    {
        let ghost rest = b@.subrange(base + j, base + RATE_WIDTH);
        let ghost s = b@.subrange(base + j - 1, base + RATE_WIDTH);
        proof {
            assert(s.drop_first() =~= rest);
            assert(s[0] == b@[base + j - 1]);
            let k = (RATE_WIDTH - j) as nat;
            lemma_pow256_mono(k + 1);
            assert(pow256(k + 1) == 256 * pow256(k));
            assert(v * 256 + b@[base + j - 1] < pow256(k + 1)) by (nonlinear_arith)
                requires
                    v < pow256(k),
                    b@[base + j - 1] < 256,
                    pow256(k + 1) == 256 * pow256(k),
            ;
        }
        proof {
            lemma_pow256_mono((RATE_WIDTH - j + 1) as nat);
            assert(v * 256 + b@[base + j - 1] <= u128::MAX);
            assert(v * 256 <= u128::MAX);
        }
        let byte = b[base + (j - 1)] as u128;
        let shifted = v * 256;
        v = shifted + byte;
        j = j - 1;
    }
    v
}

/// Decodes a refresh response for `n` tokens; `None` where it is not well
/// formed.
pub fn decode_rates(b: &Vec<u8>, n: usize) -> (r: Option<Vec<u128>>)
    ensures
        r is Some <==> payload_ok(b@, n as int),
        r matches Some(v) ==> v@ == payload_rates(b@, n as int) && forall|k: int|
            0 <= k < v@.len() ==> v@[k] > 0,
{
    let len = b.len();
    if n > usize::MAX / RATE_WIDTH || len != RATE_WIDTH * n {
        return None;
    }
    let mut out: Vec<u128> = Vec::new();
    let mut k: usize = 0;
    while k < n
        invariant
            n <= usize::MAX / RATE_WIDTH,
            b@.len() == RATE_WIDTH * n,
            0 <= k <= n,
            out@ =~= payload_rates(b@, n as int).subrange(0, k as int),
            forall|i: int| 0 <= i < k ==> rate_at(b@, i) > 0,
            forall|i: int| 0 <= i < k ==> out@[i] > 0,
        decreases n - k,
    {
        proof {
            assert(RATE_WIDTH * k + RATE_WIDTH <= RATE_WIDTH * n) by (nonlinear_arith)
                requires
                    k < n,
            ;
        }
        let v = read_rate(b, RATE_WIDTH * k);
        assert(v == rate_at(b@, k as int));
        if v == 0 {
            return None;
        }
        out.push(v);
        k = k + 1;
    }
    assert(out@ =~= payload_rates(b@, n as int));
    Some(out)
}

/// Committed exchange rates, one per token in `RATE_PRECISION` units, and
/// whether a refresh is in flight.
pub struct RateOracle {
    pub rates: Vec<u128>,
    pub refreshing: bool,
}

impl RateOracle {
    pub open spec fn wf(&self) -> bool {
        forall|k: int| 0 <= k < self.rates@.len() ==> self.rates@[k] > 0
    }

    pub fn new(rates: Vec<u128>) -> (r: RateOracle)
        requires
            forall|k: int| 0 <= k < rates@.len() ==> rates@[k] > 0,
        ensures
            r.wf(),
            r.rates@ == rates@,
            !r.refreshing,
    {
        RateOracle { rates, refreshing: false }
    }

    /// Starts a refresh. Refused while one is in flight; the committed rates
    /// are never touched.
    pub fn request_refresh(&mut self) -> (r: Result<(), PoolError>)
        ensures
            final(self).rates == old(self).rates,
            old(self).refreshing ==> r == Err::<(), PoolError>(PoolError::RefreshInProgress)
                && final(self).refreshing,
            !old(self).refreshing ==> r is Ok && final(self).refreshing,
    {
        if self.refreshing {
            return Err(PoolError::RefreshInProgress);
        }
        self.refreshing = true;
        Ok(())
    }

    /// Completes a refresh with the raw response. A well-formed response for
    /// every token replaces all rates at once and yields `true`; anything
    /// else leaves them as they were and yields `false`. The refresh is over
    /// either way.
    pub fn complete_refresh(&mut self, payload: &Vec<u8>) -> (r: bool)
        requires
            old(self).wf(),
        ensures
            final(self).wf(),
            !final(self).refreshing,
            r == payload_ok(payload@, old(self).rates@.len() as int),
            r ==> final(self).rates@ == payload_rates(payload@, old(self).rates@.len() as int),
            !r ==> final(self).rates == old(self).rates,
    {
        self.refreshing = false;
        match decode_rates(payload, self.rates.len()) {
            Some(v) => {
                self.rates = v;
                true
            },
            None => false,
        }
    }
}

} // verus!
