use polymarket_rust_rl::policy::Action;
use polymarket_rust_rl::signal::Exchange;
use polymarket_rust_rl::types::CachePadded;

#[test]
fn cache_padded_deref_mut() {
    let mut padded = CachePadded(10u64);
    *padded = 20;
    assert_eq!(*padded, 20);
}

#[test]
fn cache_padded_deref() {
    let padded = CachePadded(42u64);
    assert_eq!(*padded, 42);
    assert_eq!(padded.0, 42);
}

#[test]
fn action_from_index_roundtrip() {
    for i in 0..Action::COUNT {
        let a = Action::from_index(i);
        assert_eq!(a as usize, i);
        assert_eq!(a.index(), i);
    }
}

#[test]
fn action_from_index_out_of_range_is_hold() {
    assert_eq!(Action::from_index(6), Action::Hold);
    assert_eq!(Action::from_index(usize::MAX), Action::Hold);
    assert_eq!(Action::from_index(4), Action::MarketBuy);
}

#[test]
fn exchange_spot_or_perp() {
    assert!(Exchange::BinanceSpot.is_spot());
    assert!(Exchange::Bybit.is_spot());
    assert!(!Exchange::BinanceFutures.is_spot());
}
