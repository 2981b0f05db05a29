use dex_arb::bignum::{BigNum, Ratio};
use dex_arb::listener::{
    AlgebraSwap, ListenerState, ListenerStep, QuickSwapV3Listener, StreamEvent,
    UniswapV2Listener, UniswapV3Listener, V2Swap, V3Swap,
};
use dex_arb::types::{Address, DexPairConfig, Token};

fn addr(n: u8) -> Address {
    Address { bytes: [n; 20] }
}

fn to_f64(r: &Ratio) -> f64 {
    let f = |b: &BigNum| b.digits.iter().rev().fold(0.0f64, |v, d| v * 4294967296.0 + *d as f64);
    f(&r.num) / f(&r.den)
}

/// WETH-like base (18 decimals) against a USDC-like quote (6 decimals).
fn pair() -> DexPairConfig {
    DexPairConfig {
        pair: addr(9),
        base: Token { id: addr(1), decimals: 18 },
        quote: Token { id: addr(2), decimals: 6 },
        trade_size: 15_000_000_000,
    }
}

fn swap(a0i: u64, a1i: u64, a0o: u64, a1o: u64) -> StreamEvent<V2Swap> {
    StreamEvent::Swap(V2Swap {
        amount0_in: BigNum::from_u64(a0i),
        amount1_in: BigNum::from_u64(a1i),
        amount0_out: BigNum::from_u64(a0o),
        amount1_out: BigNum::from_u64(a1o),
    })
}

#[test]
fn v2_listener_skips_undecodable_and_keeps_going() {
    let mut l = UniswapV2Listener::new(addr(7), pair(), addr(1), addr(2)).unwrap();
    assert_eq!(l.core.state, ListenerState::Initializing);
    l.core.on_subscribed(true);
    assert_eq!(l.core.state, ListenerState::Subscribed);
    assert!(matches!(l.handle(StreamEvent::Undecodable), ListenerStep::Skip));
    assert_eq!(l.core.state, ListenerState::Streaming);
    // 1 base unit (10^18 raw) sold for 2500 quote units (2500 * 10^6 raw)
    match l.handle(swap(1_000_000_000_000_000_000, 0, 0, 2_500_000_000)) {
        ListenerStep::Publish(u) => {
            assert_eq!(u.key.dex_factory, addr(7));
            assert_eq!(u.key.pair_address, addr(9));
            assert_eq!(u.base, addr(1));
            assert_eq!(u.quote, addr(2));
            assert!((to_f64(&u.price) - 2500.0).abs() < 1e-9);
        }
        other => panic!("unexpected {:?}", other),
    }
    assert_eq!(l.core.state, ListenerState::Streaming);
}

#[test]
fn v2_listener_with_base_as_token1() {
    let mut l = UniswapV2Listener::new(addr(7), pair(), addr(2), addr(1)).unwrap();
    assert!(!l.core.binding.token0_is_base);
    l.core.on_subscribed(true);
    // 2 base units bought with 5000 quote units: token0 (quote) in, token1 (base) out
    match l.handle(swap(5_000_000_000, 0, 0, 2_000_000_000_000_000_000)) {
        ListenerStep::Publish(u) => assert!((to_f64(&u.price) - 2500.0).abs() < 1e-9),
        other => panic!("unexpected {:?}", other),
    }
}

#[test]
fn v2_listener_drops_ambiguous_swap() {
    let mut l = UniswapV2Listener::new(addr(7), pair(), addr(1), addr(2)).unwrap();
    l.core.on_subscribed(true);
    assert!(matches!(l.handle(swap(0, 0, 0, 0)), ListenerStep::Skip));
    assert_eq!(l.core.state, ListenerState::Streaming);
}

#[test]
fn listener_stops_for_good_when_stream_closes() {
    let mut l = UniswapV2Listener::new(addr(7), pair(), addr(1), addr(2)).unwrap();
    l.core.on_subscribed(true);
    assert!(matches!(l.handle(StreamEvent::Closed), ListenerStep::Stop));
    assert_eq!(l.core.state, ListenerState::Terminated);
    assert!(matches!(l.handle(swap(1, 0, 0, 1)), ListenerStep::Stop));
    assert_eq!(l.core.state, ListenerState::Terminated);
}

#[test]
fn listener_terminates_when_subscription_fails() {
    let mut l = UniswapV3Listener::new(addr(7), pair(), addr(1), addr(2)).unwrap();
    l.core.on_subscribed(false);
    assert_eq!(l.core.state, ListenerState::Terminated);
}

#[test]
fn listener_refuses_pool_without_the_pair() {
    assert!(UniswapV2Listener::new(addr(7), pair(), addr(3), addr(2)).is_err());
    assert!(UniswapV3Listener::new(addr(7), pair(), addr(1), addr(3)).is_err());
    assert!(QuickSwapV3Listener::new(addr(7), pair(), addr(4), addr(5)).is_err());
}

#[test]
fn v3_listener_prices_from_sqrt_price() {
    let mut l = UniswapV3Listener::new(addr(7), pair(), addr(1), addr(2)).unwrap();
    l.core.on_subscribed(true);
    // raw token1/token0 = 2500 * 10^6 / 10^18 = 2.5e-9 is not a perfect square;
    // use sqrt = 2^96 / 2^20 so the raw price is 2^-40
    let x = BigNum::from_u64(2).pow(76);
    match l.handle(StreamEvent::Swap(V3Swap { sqrt_price_x96: x })) {
        ListenerStep::Publish(u) => {
            let expected = 2f64.powi(-40) * 1e12;
            assert!(((to_f64(&u.price) - expected) / expected).abs() < 1e-12);
        }
        other => panic!("unexpected {:?}", other),
    }
    assert!(matches!(
        l.handle(StreamEvent::Swap(V3Swap { sqrt_price_x96: BigNum::zero() })),
        ListenerStep::Skip
    ));
    assert_eq!(l.core.state, ListenerState::Streaming);
}

#[test]
fn swapped_pair_gives_reciprocal_price() {
    let p = pair();
    let q = DexPairConfig { pair: p.pair, base: p.quote, quote: p.base, trade_size: 1 };
    let mut l1 = QuickSwapV3Listener::new(addr(7), p, addr(1), addr(2)).unwrap();
    let mut l2 = QuickSwapV3Listener::new(addr(7), q, addr(1), addr(2)).unwrap();
    l1.core.on_subscribed(true);
    l2.core.on_subscribed(true);
    let x = || BigNum::from_u64(3).mul(&BigNum::from_u64(2).pow(90));
    let a = match l1.handle(StreamEvent::Swap(AlgebraSwap { price: x() })) {
        ListenerStep::Publish(u) => to_f64(&u.price),
        other => panic!("unexpected {:?}", other),
    };
    let b = match l2.handle(StreamEvent::Swap(AlgebraSwap { price: x() })) {
        ListenerStep::Publish(u) => to_f64(&u.price),
        other => panic!("unexpected {:?}", other),
    };
    assert!((a * b - 1.0).abs() < 1e-9);
}

#[test]
fn events_before_subscription_are_ignored() {
    let mut l = QuickSwapV3Listener::new(addr(7), pair(), addr(1), addr(2)).unwrap();
    let step = l.handle(StreamEvent::Swap(AlgebraSwap { price: BigNum::from_u64(1) }));
    assert!(matches!(step, ListenerStep::Skip));
    assert_eq!(l.core.state, ListenerState::Initializing);
}

#[test]
fn v2_listener_skips_swap_in_both_directions() {
    let mut l = UniswapV2Listener::new(addr(7), pair(), addr(1), addr(2)).unwrap();
    l.core.on_subscribed(true);
    let step = l.handle(swap(1_000_000_000_000_000_000, 5_000_000, 2_000_000_000_000, 2_500_000_000));
    assert!(matches!(step, ListenerStep::Skip));
    assert_eq!(l.core.state, ListenerState::Streaming);
}
