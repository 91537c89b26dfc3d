use ref_exchange::error::PoolError;
use ref_exchange::fees::AdminFees;
use ref_exchange::pool::Pool;
use ref_exchange::record::{frame_record, kind_from_tag, kind_tag, split_record};
use ref_exchange::pool::PoolKind;

fn ids() -> Vec<String> {
    vec!["a.near".to_string(), "b.near".to_string()]
}

fn simple() -> Pool {
    Pool::new_simple_pool(ids(), 30)
}

fn stable() -> Pool {
    Pool::new_stable_swap_pool(ids(), 30)
}

fn rated() -> Pool {
    Pool::new_rated_swap_pool(ids(), 30, vec![100_000_000, 200_000_000])
}

fn no_fee() -> AdminFees {
    AdminFees::new(0)
}

#[test]
fn kind_names() {
    assert_eq!(simple().kind(), "SIMPLE_POOL");
    assert_eq!(stable().kind(), "STABLE_SWAP");
    assert_eq!(rated().kind(), "RATED_SWAP");
}

#[test]
fn share_decimals_per_kind() {
    assert_eq!(simple().get_share_decimal(), 24);
    assert_eq!(stable().get_share_decimal(), 18);
    assert_eq!(rated().get_share_decimal(), 24);
}

#[test]
fn tokens_and_fee() {
    let p = rated();
    assert_eq!(p.tokens().to_vec(), ids());
    assert_eq!(p.get_fee(), 30);
    assert_eq!(p.get_volumes().len(), 2);
}

#[test]
fn proportional_add_unsupported_on_stable_kinds() {
    let mut amounts = vec![10, 10];
    assert_eq!(stable().add_liquidity(&"u".to_string(), &mut amounts), Err(PoolError::Unsupported));
    assert_eq!(rated().add_liquidity(&"u".to_string(), &mut amounts), Err(PoolError::Unsupported));
    assert_eq!(amounts, vec![10, 10]);
}

#[test]
fn arbitrary_add_unsupported_on_simple() {
    let mut p = simple();
    let r = p.add_stable_liquidity(&"u".to_string(), &vec![10, 10], 0, no_fee());
    assert_eq!(r, Err(PoolError::Unsupported));
    assert_eq!(p.share_total_balance(), 0);
}

#[test]
fn remove_by_tokens_unsupported_on_simple() {
    let mut p = simple();
    let r = p.remove_liquidity_by_tokens(&"u".to_string(), vec![1, 1], 10, no_fee());
    assert_eq!(r, Err(PoolError::Unsupported));
}

#[test]
fn share_price_unsupported_on_simple() {
    assert_eq!(simple().get_share_price(), Err(PoolError::Unsupported));
    assert_eq!(stable().get_share_price(), Ok(100_000_000));
}

#[test]
fn rated_quote_unsupported_on_other_kinds() {
    let a = "a.near".to_string();
    let b = "b.near".to_string();
    assert_eq!(simple().get_rated_return(&a, 10, &b, &None, &no_fee()), Err(PoolError::Unsupported));
    assert_eq!(stable().get_rated_return(&a, 10, &b, &None, &no_fee()), Err(PoolError::Unsupported));
}

#[test]
fn predictions_unsupported_per_kind() {
    let amounts = vec![10u128, 10];
    assert_eq!(simple().predict_add_stable_liquidity(&amounts, &no_fee()), Err(PoolError::Unsupported));
    assert_eq!(rated().predict_add_stable_liquidity(&amounts, &no_fee()), Err(PoolError::Unsupported));
    assert_eq!(simple().predict_remove_liquidity(1), Err(PoolError::Unsupported));
    assert_eq!(simple().predict_remove_liquidity_by_tokens(&amounts, &no_fee()), Err(PoolError::Unsupported));
    assert_eq!(simple().predict_add_rated_liquidity(&amounts, &None, &no_fee()), Err(PoolError::Unsupported));
    assert_eq!(stable().predict_add_rated_liquidity(&amounts, &None, &no_fee()), Err(PoolError::Unsupported));
    assert_eq!(
        stable().predict_remove_rated_liquidity_by_tokens(&amounts, &None, &no_fee()),
        Err(PoolError::Unsupported)
    );
}

#[test]
fn rate_refresh_unsupported_on_other_kinds() {
    let mut s = simple();
    assert!(matches!(s.update_rates(), Err(PoolError::Unsupported)));
    assert_eq!(s.update_callback(&vec![0u8; 32]), Err(PoolError::Unsupported));
    let mut t = stable();
    assert!(matches!(t.update_rates(), Err(PoolError::Unsupported)));
    assert_eq!(t.update_callback(&vec![0u8; 32]), Err(PoolError::Unsupported));
}

#[test]
fn every_kind_swaps_and_removes() {
    for mut p in [simple(), stable(), rated()] {
        let a = "a.near".to_string();
        let b = "b.near".to_string();
        assert_eq!(p.swap(&a, 10, &a, 0, no_fee()), Err(PoolError::SameToken));
        assert_eq!(p.remove_liquidity(&"u".to_string(), 0, vec![0, 0]), Ok(vec![0, 0]));
        assert_ne!(p.get_return(&a, 10, &b, &no_fee()), Err(PoolError::Unsupported));
    }
}

#[test]
fn record_tags_are_fixed() {
    assert_eq!(kind_tag(PoolKind::Simple), 0);
    assert_eq!(kind_tag(PoolKind::StableSwap), 1);
    assert_eq!(kind_tag(PoolKind::RatedSwap), 2);
    assert_eq!(kind_from_tag(1), Some(PoolKind::StableSwap));
    assert_eq!(kind_from_tag(3), None);
}

#[test]
fn record_round_trip() {
    let framed = frame_record(PoolKind::RatedSwap, &vec![7, 8, 9]);
    assert_eq!(framed, vec![2, 7, 8, 9]);
    assert_eq!(split_record(&framed), Some((PoolKind::RatedSwap, vec![7, 8, 9])));
    assert_eq!(split_record(&vec![1]), Some((PoolKind::StableSwap, vec![])));
}

#[test]
fn record_with_unknown_tag_is_refused() {
    assert_eq!(split_record(&vec![3, 1, 2]), None);
    assert_eq!(split_record(&vec![]), None);
}
