//! Element-wise arithmetic on amount vectors, one entry per token.
use vstd::prelude::*;

verus! {

/// `v[k] * num / den` for each entry.
pub open spec fn scaled_seq(v: Seq<u128>, num: int, den: int) -> Seq<u128> {
    Seq::new(v.len(), |k: int| (v[k] * num / den) as u128)
}

pub open spec fn sum_seq(a: Seq<u128>, b: Seq<u128>) -> Seq<u128> {
    Seq::new(a.len(), |k: int| (a[k] + b[k]) as u128)
}

pub open spec fn diff_seq(a: Seq<u128>, b: Seq<u128>) -> Seq<u128> {
    Seq::new(a.len(), |k: int| (a[k] - b[k]) as u128)
}

/// Sum of `a[k] * w[k]`.
pub open spec fn weighted(a: Seq<u128>, w: Seq<u128>) -> int
    decreases a.len(),
{
    if a.len() == 0 || w.len() < a.len() {
        0
    } else {
        weighted(a.drop_last(), w) + a.last() * w[a.len() - 1]
    }
}

/// `n` copies of `v`.
pub fn filled(n: usize, v: u128) -> (r: Vec<u128>)
    ensures
        r@ == Seq::new(n as nat, |k: int| v),
{
    let mut out: Vec<u128> = Vec::new();
    let mut i: usize = 0;
    while i < n
        invariant
            0 <= i <= n,
            out@ =~= Seq::new(i as nat, |k: int| v),
        decreases n - i,
    {
        out.push(v);
        i = i + 1;
    }
    out
}

pub fn any_zero(v: &Vec<u128>) -> (r: bool)
    ensures
        r == exists|k: int| 0 <= k < v@.len() && v@[k] == 0,
{
    let mut i: usize = 0;
    while i < v.len()
        invariant
            0 <= i <= v@.len(),
            forall|k: int| 0 <= k < i ==> v@[k] != 0,
        decreases v@.len() - i,
    {
        if v[i] == 0 {
            return true;
        }
        i = i + 1;
    }
    false
}

/// Whether every `v[k] * m` fits in 128 bits.
pub fn products_fit(v: &Vec<u128>, m: u128) -> (r: bool)
    ensures
        r == forall|k: int| 0 <= k < v@.len() ==> v@[k] * m <= u128::MAX,
{
    let mut i: usize = 0;
    while i < v.len()
        invariant
            0 <= i <= v@.len(),
            forall|k: int| 0 <= k < i ==> v@[k] * m <= u128::MAX,
        decreases v@.len() - i,
    {
        if v[i].checked_mul(m).is_none() {
            return false;
        }
        i = i + 1;
    }
    true
}

/// Whether every `a[k] + b[k]` fits in 128 bits.
pub fn sums_fit(a: &Vec<u128>, b: &Vec<u128>) -> (r: bool)
    requires
        a@.len() == b@.len(),
    ensures
        r == forall|k: int| 0 <= k < a@.len() ==> a@[k] + b@[k] <= u128::MAX,
{
    let mut i: usize = 0;
    while i < a.len()
        invariant
            a@.len() == b@.len(),
            0 <= i <= a@.len(),
            forall|k: int| 0 <= k < i ==> a@[k] + b@[k] <= u128::MAX,
        decreases a@.len() - i,
    {
        if a[i].checked_add(b[i]).is_none() {
            return false;
        }
        i = i + 1;
    }
    true
}

/// Whether `a[k] >= b[k]` for every entry.
pub fn all_at_least(a: &Vec<u128>, b: &Vec<u128>) -> (r: bool)
    requires
        a@.len() == b@.len(),
    ensures
        r == forall|k: int| 0 <= k < a@.len() ==> a@[k] >= b@[k],
{
    let mut i: usize = 0;
    while i < a.len()
        invariant
            a@.len() == b@.len(),
            0 <= i <= a@.len(),
            forall|k: int| 0 <= k < i ==> a@[k] >= b@[k],
        decreases a@.len() - i,
    {
        if a[i] < b[i] {
            return false;
        }
        i = i + 1;
    }
    true
}

pub fn scaled(v: &Vec<u128>, num: u128, den: u128) -> (r: Vec<u128>)
    requires
        den > 0,
        forall|k: int| 0 <= k < v@.len() ==> v@[k] * num <= u128::MAX,
    ensures
        r@ == scaled_seq(v@, num as int, den as int),
{
    let mut out: Vec<u128> = Vec::new();
    let mut i: usize = 0;
    while i < v.len()
        invariant
            den > 0,
            forall|k: int| 0 <= k < v@.len() ==> v@[k] * num <= u128::MAX,
            0 <= i <= v@.len(),
            out@ =~= scaled_seq(v@, num as int, den as int).subrange(0, i as int),
        decreases v@.len() - i,
    {
        proof {
            assert(v@[i as int] * num <= u128::MAX);
        }
        out.push(v[i] * num / den);
        i = i + 1;
    }
    out
}

pub fn add_each(a: &Vec<u128>, b: &Vec<u128>) -> (r: Vec<u128>)
    requires
        a@.len() == b@.len(),
        forall|k: int| 0 <= k < a@.len() ==> a@[k] + b@[k] <= u128::MAX,
    ensures
        r@ == sum_seq(a@, b@),
{
    let mut out: Vec<u128> = Vec::new();
    let mut i: usize = 0;
    while i < a.len()
        invariant
            a@.len() == b@.len(),
            forall|k: int| 0 <= k < a@.len() ==> a@[k] + b@[k] <= u128::MAX,
            0 <= i <= a@.len(),
            out@ =~= sum_seq(a@, b@).subrange(0, i as int),
        decreases a@.len() - i,
    {
        out.push(a[i] + b[i]);
        i = i + 1;
    }
    out
}

pub fn sub_each(a: &Vec<u128>, b: &Vec<u128>) -> (r: Vec<u128>)
    requires
        a@.len() == b@.len(),
        forall|k: int| 0 <= k < a@.len() ==> a@[k] >= b@[k],
    ensures
        r@ == diff_seq(a@, b@),
{
    let mut out: Vec<u128> = Vec::new();
    let mut i: usize = 0;
    while i < a.len()
        invariant
            a@.len() == b@.len(),
            forall|k: int| 0 <= k < a@.len() ==> a@[k] >= b@[k],
            0 <= i <= a@.len(),
            out@ =~= diff_seq(a@, b@).subrange(0, i as int),
        decreases a@.len() - i,
    {
        out.push(a[i] - b[i]);
        i = i + 1;
    }
    out
}

pub proof fn lemma_weighted_prefix(a: Seq<u128>, w: Seq<u128>, i: int)
    requires
        0 <= i <= a.len(),
        w.len() >= a.len(),
    ensures
        weighted(a.subrange(0, i), w) <= weighted(a, w),
    decreases a.len(),
{
    if i < a.len() {
        assert(a.drop_last().subrange(0, i) =~= a.subrange(0, i));
        lemma_weighted_prefix(a.drop_last(), w, i);
        assert(a.last() * w[a.len() - 1] >= 0) by (nonlinear_arith);
    } else {
        assert(a.subrange(0, i) =~= a);
    }
}

/// `weighted(a, w)`, or `None` where it does not fit in 128 bits.
pub fn weighted_sum(a: &Vec<u128>, w: &Vec<u128>) -> (r: Option<u128>)
    requires
        a@.len() == w@.len(),
    ensures
        r is Some <==> weighted(a@, w@) <= u128::MAX,
        r matches Some(v) ==> v == weighted(a@, w@),
{
    let mut acc: u128 = 0;
    let mut i: usize = 0;
    while i < a.len()
        invariant
            a@.len() == w@.len(),
            0 <= i <= a@.len(),
            acc == weighted(a@.subrange(0, i as int), w@),
        decreases a@.len() - i,
    {
        let ghost pre = a@.subrange(0, i as int + 1);
        proof {
            assert(pre.drop_last() =~= a@.subrange(0, i as int));
            lemma_weighted_prefix(a@, w@, i as int + 1);
        }
        let t = match a[i].checked_mul(w[i]) {
            Some(t) => t,
            None => {
                proof {
                    assert(weighted(a@.subrange(0, i as int), w@) >= 0) by {
                        lemma_weighted_nonneg(a@.subrange(0, i as int), w@);
                    }
                }
                return None;
            },
        };
        acc = match acc.checked_add(t) {
            Some(s) => s,
            None => {
                return None;
            },
        };
        i = i + 1;
    }
    proof {
        assert(a@.subrange(0, i as int) =~= a@);
    }
    Some(acc)
}

pub proof fn lemma_weighted_nonneg(a: Seq<u128>, w: Seq<u128>)
    ensures
        weighted(a, w) >= 0,
    decreases a.len(),
{
    if a.len() > 0 && w.len() >= a.len() {
        lemma_weighted_nonneg(a.drop_last(), w);
        assert(a.last() * w[a.len() - 1] >= 0) by (nonlinear_arith);
    }
}

} // verus!
