use ref_exchange::curve::{fee_of, RATE_PRECISION};
use ref_exchange::error::PoolError;
use ref_exchange::fees::AdminFees;
use ref_exchange::oracle::decode_rates;
use ref_exchange::pool::Pool;

fn a() -> String {
    "a.near".to_string()
}

fn b() -> String {
    "b.near".to_string()
}

fn payload(rates: &[u128]) -> Vec<u8> {
    let mut out = Vec::new();
    for r in rates {
        out.extend_from_slice(&r.to_le_bytes());
    }
    out
}

fn committed(p: &Pool) -> Vec<u128> {
    match p {
        Pool::RatedSwapPool(x) => x.rates.rates.clone(),
        _ => unreachable!(),
    }
}

fn funded_rated() -> Pool {
    let mut p = Pool::new_rated_swap_pool(vec![a(), b()], 0, vec![RATE_PRECISION, 2 * RATE_PRECISION]);
    let r = p.add_stable_liquidity(&"alice.near".to_string(), &vec![1000, 1000], 0, AdminFees::new(0));
    assert_eq!(r, Ok(3000));
    p
}

#[test]
fn rated_quote_uses_rates() {
    let p = funded_rated();
    assert_eq!(p.get_return(&a(), 100, &b(), &AdminFees::new(0)), Ok(50));
    assert_eq!(p.get_rated_return(&a(), 100, &b(), &None, &AdminFees::new(0)), Ok(50));
    let par = Some(vec![RATE_PRECISION, RATE_PRECISION]);
    assert_eq!(p.get_rated_return(&a(), 100, &b(), &par, &AdminFees::new(0)), Ok(100));
    assert_eq!(committed(&p), vec![RATE_PRECISION, 2 * RATE_PRECISION]);
    let bad = Some(vec![RATE_PRECISION]);
    assert_eq!(p.get_rated_return(&a(), 100, &b(), &bad, &AdminFees::new(0)), Err(PoolError::BadAmounts));
    let zero = Some(vec![RATE_PRECISION, 0]);
    assert_eq!(p.predict_add_rated_liquidity(&vec![1, 1], &zero, &AdminFees::new(0)), Err(PoolError::BadAmounts));
}

#[test]
fn rated_predictions_with_given_rates() {
    let p = funded_rated();
    assert_eq!(p.predict_add_rated_liquidity(&vec![100, 100], &None, &AdminFees::new(0)), Ok(300));
    let par = Some(vec![RATE_PRECISION, RATE_PRECISION]);
    assert_eq!(p.predict_add_rated_liquidity(&vec![100, 100], &par, &AdminFees::new(0)), Ok(300));
    assert_eq!(p.predict_remove_rated_liquidity_by_tokens(&vec![0, 100], &None, &AdminFees::new(0)), Ok(200));
    assert_eq!(p.get_share_price(), Ok(RATE_PRECISION));
}

#[test]
fn refresh_request_keeps_rates() {
    let mut p = funded_rated();
    let before = p.get_return(&a(), 100, &b(), &AdminFees::new(0));
    let req = p.update_rates().ok().unwrap();
    assert_eq!(req.tokens, vec![a(), b()]);
    assert_eq!(committed(&p), vec![RATE_PRECISION, 2 * RATE_PRECISION]);
    assert_eq!(p.get_return(&a(), 100, &b(), &AdminFees::new(0)), before);
    assert!(matches!(p.update_rates(), Err(PoolError::RefreshInProgress)));
}

#[test]
fn malformed_callback_keeps_rates() {
    let mut p = funded_rated();
    assert!(p.update_rates().is_ok());
    assert_eq!(p.update_callback(&vec![1, 2, 3]), Ok(false));
    assert_eq!(committed(&p), vec![RATE_PRECISION, 2 * RATE_PRECISION]);
    assert!(p.update_rates().is_ok());
    assert_eq!(p.update_callback(&payload(&[5, 0])), Ok(false));
    assert_eq!(committed(&p), vec![RATE_PRECISION, 2 * RATE_PRECISION]);
    assert!(p.update_rates().is_ok());
    assert_eq!(p.update_callback(&payload(&[5])), Ok(false));
    assert_eq!(committed(&p), vec![RATE_PRECISION, 2 * RATE_PRECISION]);
}

#[test]
fn wellformed_callback_replaces_all_rates() {
    let mut p = funded_rated();
    assert!(p.update_rates().is_ok());
    assert_eq!(p.update_callback(&payload(&[3 * RATE_PRECISION, RATE_PRECISION])), Ok(true));
    assert_eq!(committed(&p), vec![3 * RATE_PRECISION, RATE_PRECISION]);
    assert_eq!(p.get_return(&a(), 100, &b(), &AdminFees::new(0)), Ok(300));
    assert!(p.update_rates().is_ok());
}

#[test]
fn callback_without_request_still_commits_wellformed_rates() {
    let mut p = funded_rated();
    assert_eq!(p.update_callback(&payload(&[7, 7])), Ok(true));
    assert_eq!(committed(&p), vec![7, 7]);
    assert_eq!(p.update_callback(&payload(&[7])), Ok(false));
    assert_eq!(committed(&p), vec![7, 7]);
}

#[test]
fn burning_every_share_must_take_every_reserve() {
    let mut p = Pool::new_rated_swap_pool(vec![a(), b()], 0, vec![RATE_PRECISION, 3]);
    let alice = "alice.near".to_string();
    assert_eq!(p.add_stable_liquidity(&alice, &vec![1000, 1], 0, AdminFees::new(0)), Ok(1000));
    let r = p.remove_liquidity_by_tokens(&alice, vec![1000, 0], 1000, AdminFees::new(0));
    assert_eq!(r, Err(PoolError::InsufficientLiquidity));
    assert_eq!(p.share_total_balance(), 1000);
    let r = p.remove_liquidity_by_tokens(&alice, vec![1000, 1], 1000, AdminFees::new(0));
    assert_eq!(r, Ok(1000));
    assert_eq!(p.share_total_balance(), 0);
}

#[test]
fn decode_little_endian_rates() {
    let mut bytes = vec![0u8; 32];
    bytes[0] = 1;
    bytes[1] = 2;
    bytes[31] = 1;
    let r = decode_rates(&bytes, 2).unwrap();
    assert_eq!(r, vec![0x0201, 1u128 << 120]);
    assert_eq!(decode_rates(&bytes, 1), None);
    assert_eq!(decode_rates(&payload(&[u128::MAX]), 1), Some(vec![u128::MAX]));
}

#[test]
fn fee_arithmetic_exact() {
    assert_eq!(fee_of(10_000, 30), 30);
    assert_eq!(fee_of(9_999, 30), 29);
    assert_eq!(fee_of(u128::MAX, 10_000), u128::MAX);
    assert_eq!(AdminFees::new(2000).split(30), (24, 6));
    assert_eq!(AdminFees::new(0).split(30), (30, 0));
}
