use ref_exchange::error::PoolError;
use ref_exchange::fees::{AdminFees, SwapVolume};
use ref_exchange::pool::Pool;
use ref_exchange::reserves::INIT_SHARES_SUPPLY;

fn a() -> String {
    "a.near".to_string()
}

fn b() -> String {
    "b.near".to_string()
}

fn alice() -> String {
    "alice.near".to_string()
}

fn bob() -> String {
    "bob.near".to_string()
}

fn reserves(p: &Pool) -> Vec<u128> {
    match p {
        Pool::SimplePool(x) => x.state.amounts.clone(),
        Pool::StableSwapPool(x) => x.state.amounts.clone(),
        Pool::RatedSwapPool(x) => x.state.amounts.clone(),
    }
}

fn balances_sum(p: &Pool) -> u128 {
    let l = match p {
        Pool::SimplePool(x) => &x.state.shares,
        Pool::StableSwapPool(x) => &x.state.shares,
        Pool::RatedSwapPool(x) => &x.state.shares,
    };
    l.balances.iter().sum()
}

fn funded_simple(fee: u32) -> Pool {
    let mut p = Pool::new_simple_pool(vec![a(), b()], fee);
    let mut amounts = vec![100_000, 100_000];
    assert_eq!(p.add_liquidity(&alice(), &mut amounts), Ok(INIT_SHARES_SUPPLY));
    p
}

fn funded_stable() -> Pool {
    let mut p = Pool::new_stable_swap_pool(vec![a(), b()], 0);
    assert_eq!(p.add_stable_liquidity(&alice(), &vec![1000, 3000], 0, AdminFees::new(0)), Ok(4000));
    p
}

#[test]
fn first_deposit_mints_initial_supply() {
    let p = funded_simple(30);
    assert_eq!(p.share_total_balance(), INIT_SHARES_SUPPLY);
    assert_eq!(p.share_balances(&alice()), INIT_SHARES_SUPPLY);
    assert_eq!(reserves(&p), vec![100_000, 100_000]);
}

#[test]
fn first_deposit_needs_every_token() {
    let mut p = Pool::new_simple_pool(vec![a(), b()], 30);
    let mut amounts = vec![100, 0];
    assert_eq!(p.add_liquidity(&alice(), &mut amounts), Err(PoolError::BadAmounts));
    let mut short = vec![100];
    assert_eq!(p.add_liquidity(&alice(), &mut short), Err(PoolError::BadAmounts));
}

#[test]
fn proportional_deposit_takes_fair_part() {
    let mut p = funded_simple(30);
    let mut amounts = vec![50_000, 10_000];
    let minted = p.add_liquidity(&bob(), &mut amounts).unwrap();
    assert_eq!(minted, INIT_SHARES_SUPPLY / 10);
    assert_eq!(amounts, vec![10_000, 10_000]);
    assert_eq!(reserves(&p), vec![110_000, 110_000]);
    assert_eq!(balances_sum(&p), p.share_total_balance());
}

#[test]
fn proportional_round_trip_returns_no_more() {
    let mut p = funded_simple(0);
    let mut amounts = vec![333, 777];
    let minted = p.add_liquidity(&bob(), &mut amounts).unwrap();
    let back = p.remove_liquidity(&bob(), minted, vec![0, 0]).unwrap();
    assert!(back[0] <= amounts[0]);
    assert!(back[1] <= amounts[1]);
    assert_eq!(back, vec![333, 333]);
    assert_eq!(p.share_balances(&bob()), 0);
}

#[test]
fn remove_by_shares_exact_and_guarded() {
    let mut p = funded_simple(30);
    let half = INIT_SHARES_SUPPLY / 2;
    assert_eq!(p.remove_liquidity(&alice(), half, vec![50_001, 0]), Err(PoolError::SlippageExceeded));
    assert_eq!(p.share_total_balance(), INIT_SHARES_SUPPLY);
    assert_eq!(p.remove_liquidity(&bob(), 1, vec![0, 0]), Err(PoolError::InsufficientShares));
    assert_eq!(p.remove_liquidity(&alice(), half, vec![0]), Err(PoolError::BadAmounts));
    assert_eq!(p.remove_liquidity(&alice(), half, vec![50_000, 50_000]), Ok(vec![50_000, 50_000]));
    assert_eq!(reserves(&p), vec![50_000, 50_000]);
    assert_eq!(p.share_total_balance(), half);
    assert_eq!(balances_sum(&p), half);
}

#[test]
fn constant_product_swap_exact() {
    let mut p = funded_simple(30);
    assert_eq!(p.get_return(&a(), 10_000, &b(), &AdminFees::new(2000)), Ok(9066));
    assert_eq!(p.swap(&a(), 10_000, &b(), 9066, AdminFees::new(2000)), Ok(9066));
    assert_eq!(reserves(&p), vec![109_994, 90_934]);
    let v = p.get_volumes();
    assert_eq!(v[0], SwapVolume { input: 10_000, output: 0 });
    assert_eq!(v[1], SwapVolume { input: 0, output: 9066 });
    match &p {
        Pool::SimplePool(x) => assert_eq!(x.state.admin_fees, vec![6, 0]),
        _ => unreachable!(),
    }
}

#[test]
fn swap_quote_monotone_in_amount() {
    let p = funded_simple(30);
    let mut last = 0;
    for amount in [0u128, 1, 10, 100, 1000, 5000, 10_000, 50_000] {
        let out = p.get_return(&a(), amount, &b(), &AdminFees::new(0)).unwrap();
        assert!(out >= last);
        last = out;
    }
}

#[test]
fn fee_lowers_quote() {
    let with_fee = funded_simple(30);
    let free = funded_simple(0);
    let q1 = with_fee.get_return(&a(), 10_000, &b(), &AdminFees::new(0)).unwrap();
    let q0 = free.get_return(&a(), 10_000, &b(), &AdminFees::new(0)).unwrap();
    assert_eq!(q0, 9090);
    assert!(q1 < q0);
}

#[test]
fn swap_below_minimum_changes_nothing() {
    let mut p = funded_simple(30);
    let r = p.swap(&a(), 10_000, &b(), 9067, AdminFees::new(2000));
    assert_eq!(r, Err(PoolError::SlippageExceeded));
    assert_eq!(reserves(&p), vec![100_000, 100_000]);
    assert_eq!(p.get_volumes()[0], SwapVolume { input: 0, output: 0 });
    assert_eq!(p.share_total_balance(), INIT_SHARES_SUPPLY);
}

#[test]
fn swap_token_errors() {
    let mut p = funded_simple(30);
    let c = "c.near".to_string();
    assert_eq!(p.swap(&a(), 10, &c, 0, AdminFees::new(0)), Err(PoolError::UnknownToken));
    assert_eq!(p.get_return(&b(), 10, &b(), &AdminFees::new(0)), Err(PoolError::SameToken));
}

#[test]
fn stable_deposit_by_value() {
    let mut p = funded_stable();
    assert_eq!(p.get_share_price(), Ok(100_000_000));
    assert_eq!(p.predict_add_stable_liquidity(&vec![500, 500], &AdminFees::new(0)), Ok(1000));
    assert_eq!(
        p.add_stable_liquidity(&bob(), &vec![500, 500], 1001, AdminFees::new(0)),
        Err(PoolError::SlippageExceeded)
    );
    assert_eq!(p.add_stable_liquidity(&bob(), &vec![500, 500], 1000, AdminFees::new(0)), Ok(1000));
    assert_eq!(reserves(&p), vec![1500, 3500]);
    assert_eq!(balances_sum(&p), 5000);
}

#[test]
fn stable_swap_at_par() {
    let mut p = funded_stable();
    assert_eq!(p.swap(&a(), 100, &b(), 100, AdminFees::new(0)), Ok(100));
    assert_eq!(reserves(&p), vec![1100, 2900]);
    assert_eq!(p.get_return(&a(), 3000, &b(), &AdminFees::new(0)), Err(PoolError::InsufficientLiquidity));
}

#[test]
fn remove_by_tokens_exact_burn() {
    let mut p = funded_stable();
    assert_eq!(p.predict_remove_liquidity_by_tokens(&vec![100, 100], &AdminFees::new(0)), Ok(200));
    assert_eq!(p.predict_remove_liquidity_by_tokens(&vec![1, 0], &AdminFees::new(0)), Ok(1));
    assert_eq!(p.remove_liquidity_by_tokens(&alice(), vec![100, 100], 200, AdminFees::new(0)), Ok(200));
    assert_eq!(reserves(&p), vec![900, 2900]);
    assert_eq!(p.share_total_balance(), 3800);
}

#[test]
fn remove_by_tokens_above_bound_changes_nothing() {
    let mut p = funded_stable();
    let r = p.remove_liquidity_by_tokens(&alice(), vec![100, 100], 199, AdminFees::new(0));
    assert_eq!(r, Err(PoolError::SlippageExceeded));
    assert_eq!(reserves(&p), vec![1000, 3000]);
    assert_eq!(p.share_balances(&alice()), 4000);
    let r = p.remove_liquidity_by_tokens(&bob(), vec![100, 100], 200, AdminFees::new(0));
    assert_eq!(r, Err(PoolError::InsufficientShares));
    let r = p.remove_liquidity_by_tokens(&alice(), vec![1001, 0], 5000, AdminFees::new(0));
    assert_eq!(r, Err(PoolError::InsufficientLiquidity));
}

#[test]
fn predicted_removal_matches_removal() {
    let mut p = funded_stable();
    let predicted = p.predict_remove_liquidity(2000).unwrap();
    assert_eq!(predicted, vec![500, 1500]);
    assert_eq!(p.predict_remove_liquidity(4001), Err(PoolError::InsufficientShares));
    assert_eq!(p.remove_liquidity(&alice(), 2000, vec![0, 0]), Ok(predicted));
}

#[test]
fn share_transfers() {
    let mut p = funded_stable();
    assert_eq!(p.share_transfer(&alice(), &bob(), 10), Err(PoolError::UnregisteredHolder));
    p.share_register(&bob());
    p.share_register(&bob());
    assert_eq!(p.share_balances(&bob()), 0);
    assert_eq!(p.share_transfer(&alice(), &bob(), 4001), Err(PoolError::InsufficientShares));
    assert_eq!(p.share_transfer(&alice(), &bob(), 1000), Ok(()));
    assert_eq!(p.share_balances(&alice()), 3000);
    assert_eq!(p.share_balances(&bob()), 1000);
    assert_eq!(p.share_total_balance(), 4000);
    assert_eq!(balances_sum(&p), 4000);
    assert_eq!(p.share_transfer(&bob(), &bob(), 1000), Ok(()));
    assert_eq!(p.share_balances(&bob()), 1000);
}

#[test]
fn oversized_amounts_overflow() {
    let p = funded_simple(0);
    assert_eq!(p.get_return(&a(), u128::MAX, &b(), &AdminFees::new(0)), Err(PoolError::Overflow));
    let mut s = Pool::new_stable_swap_pool(vec![a(), b()], 0);
    let r = s.add_stable_liquidity(&alice(), &vec![u128::MAX, 1], 0, AdminFees::new(0));
    assert_eq!(r, Err(PoolError::Overflow));
    assert_eq!(s.share_total_balance(), 0);
}

#[test]
fn swap_into_pool_without_shares_is_refused() {
    let mut p = Pool::new_simple_pool(vec![a(), b()], 0);
    assert_eq!(p.swap(&a(), 100, &b(), 0, AdminFees::new(0)), Err(PoolError::InsufficientLiquidity));
    assert_eq!(reserves(&p), vec![0, 0]);
    let mut s = Pool::new_stable_swap_pool(vec![a(), b()], 0);
    assert_eq!(s.swap(&a(), 100, &b(), 0, AdminFees::new(0)), Err(PoolError::InsufficientLiquidity));
    assert_eq!(
        s.remove_liquidity_by_tokens(&alice(), vec![0, 0], 0, AdminFees::new(0)),
        Err(PoolError::InsufficientLiquidity)
    );
}

#[test]
fn stable_round_trip_returns_no_more() {
    let mut p = funded_stable();
    let deposit = vec![10, 30];
    let minted = p.add_stable_liquidity(&bob(), &deposit, 0, AdminFees::new(0)).unwrap();
    assert_eq!(minted, 40);
    let back = p.remove_liquidity(&bob(), minted, vec![0, 0]).unwrap();
    assert_eq!(back, vec![10, 30]);
    let mut q = funded_stable();
    q.remove_liquidity(&alice(), 4000, vec![0, 0]).unwrap();
    assert_eq!(reserves(&q), vec![0, 0]);
    let first = q.add_stable_liquidity(&bob(), &vec![7, 9], 0, AdminFees::new(0)).unwrap();
    assert_eq!(q.remove_liquidity(&bob(), first, vec![0, 0]), Ok(vec![7, 9]));
}

#[test]
fn register_is_idempotent() {
    let mut p = funded_stable();
    p.share_register(&alice());
    assert_eq!(p.share_balances(&alice()), 4000);
    assert_eq!(p.share_total_balance(), 4000);
    assert_eq!(p.stored_tag(), 1);
}
