use dex_arb::bignum::BigNum;
use dex_arb::config::{asset_decimals, extract_pair_configs, pair_tokens, trade_size};
use dex_arb::resolver::{accept_symbol, QuickSwapV3Resolver, ResolveError, SymbolError, UniswapV2Resolver, UniswapV3Resolver};
use dex_arb::types::{Address, DexConfig, DexPairConfig, DexType, Token};
use std::cmp::Ordering;

fn addr(n: u8) -> Address {
    Address { bytes: [n; 20] }
}

fn value(b: &BigNum) -> u128 {
    let mut v: u128 = 0;
    for d in b.digits.iter().rev() {
        v = (v << 32) | (*d as u128);
    }
    v
}

#[test]
fn bignum_arithmetic() {
    let a = BigNum::from_u64(u64::MAX);
    let b = BigNum::from_u64(3);
    assert_eq!(value(&a.mul(&b)), (u64::MAX as u128) * 3);
    assert_eq!(value(&a.sub(&b)), (u64::MAX as u128) - 3);
    assert_eq!(value(&b.pow(5)), 243);
    assert_eq!(a.cmp(&b), Ordering::Greater);
    assert_eq!(b.cmp(&a), Ordering::Less);
    assert_eq!(b.cmp(&BigNum::from_u64(3)), Ordering::Equal);
    assert!(BigNum::zero().is_zero());
    assert!(!b.is_zero());
}

#[test]
fn bignum_from_big_endian_bytes() {
    assert_eq!(value(&BigNum::from_be_bytes(&[0x01, 0x00])), 256);
    assert_eq!(value(&BigNum::from_be_bytes(b"AB")), 16706);
    assert_eq!(value(&BigNum::from_be_bytes(&[])), 0);
    let mut bytes = [0u8; 32];
    bytes[16] = 1;
    assert_eq!(value(&BigNum::from_be_bytes(&bytes)), 1u128 << 15 * 8);
}

#[test]
fn resolvers_reject_zero_address() {
    assert!(matches!(UniswapV2Resolver::accept(Address::zero()), Err(ResolveError::PoolNotFound)));
    assert!(matches!(UniswapV3Resolver::<3000>::accept(Address::zero()), Err(ResolveError::PoolNotFound)));
    assert!(matches!(QuickSwapV3Resolver::accept(Address::zero()), Err(ResolveError::PoolNotFound)));
    assert_eq!(UniswapV2Resolver::accept(addr(5)).unwrap(), addr(5));
    assert_eq!(UniswapV3Resolver::<500>::fee(), 500);
    let mut almost_zero = [0u8; 20];
    almost_zero[19] = 1;
    assert!(QuickSwapV3Resolver::accept(Address { bytes: almost_zero }).is_ok());
}

#[test]
fn symbols_must_be_non_empty() {
    assert_eq!(accept_symbol(String::from("WETH")).unwrap(), "WETH");
    assert!(matches!(accept_symbol(String::new()), Err(SymbolError::EmptySymbol)));
}

#[test]
fn decimals_and_trade_sizes() {
    let stables = [addr(2), addr(3)];
    assert_eq!(asset_decimals(addr(2), &stables), 6);
    assert_eq!(asset_decimals(addr(4), &stables), 18);
    let (b, q) = pair_tokens(addr(1), addr(3), &stables);
    assert_eq!(b, Token { id: addr(1), decimals: 18 });
    assert_eq!(q, Token { id: addr(3), decimals: 6 });
    assert_eq!(trade_size(15000, 6), Some(15_000_000_000));
    assert_eq!(trade_size(15000, 18), Some(15_000_000_000_000_000_000_000));
    assert_eq!(trade_size(1, 39), None);
    assert_eq!(trade_size(0, 200), Some(0));
}

#[test]
fn pair_configs_per_venue() {
    let p = DexPairConfig {
        pair: addr(9),
        base: Token { id: addr(1), decimals: 18 },
        quote: Token { id: addr(2), decimals: 6 },
        trade_size: 7,
    };
    let venues = vec![
        DexConfig { name: String::from("a"), factory: addr(10), pairs: vec![p, p], dex_type: DexType::V2 },
        DexConfig { name: String::from("b"), factory: addr(20), pairs: vec![], dex_type: DexType::V3 },
    ];
    let out = extract_pair_configs(&venues);
    assert_eq!(out.len(), 2);
    assert_eq!(out[0].0, addr(10));
    assert_eq!(out[0].1.len(), 2);
    assert_eq!(out[1].0, addr(20));
    assert!(out[1].1.is_empty());
}

#[test]
fn defaults_are_zero_addresses() {
    let k = dex_arb::types::DexPairKey::default();
    assert!(k.dex_factory.is_zero());
    assert!(k.pair_address.is_zero());
    assert!(Address::default().is_zero());
}
