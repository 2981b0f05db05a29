use dex_arb::bignum::{BigNum, Ratio};
use dex_arb::pricing::{
    compute_price, compute_spread, detect_token_ordering, normalize_amount,
    sqrt_price_x96_to_price, OrderingError, PriceError, SpreadError,
};
use dex_arb::types::{Address, DexPairKey, PriceInfo};

fn addr(n: u8) -> Address {
    Address { bytes: [n; 20] }
}

fn big_to_f64(b: &BigNum) -> f64 {
    let mut v = 0.0f64;
    for d in b.digits.iter().rev() {
        v = v * 4294967296.0 + (*d as f64);
    }
    v
}

fn big_to_u128(b: &BigNum) -> u128 {
    let mut v: u128 = 0;
    for d in b.digits.iter().rev() {
        v = (v << 32) | (*d as u128);
    }
    v
}

fn ratio_to_f64(r: &Ratio) -> f64 {
    big_to_f64(&r.num) / big_to_f64(&r.den)
}

/// The natural number nearest below a non-negative float, exactly.
fn big_from_f64(x: f64) -> BigNum {
    let bits = x.to_bits();
    let exp = ((bits >> 52) & 0x7ff) as i64 - 1075;
    let mantissa = (bits & ((1u64 << 52) - 1)) | (1u64 << 52);
    if exp >= 0 {
        BigNum::from_u64(mantissa).mul(&BigNum::from_u64(2).pow(exp as u32))
    } else {
        BigNum::from_u64(mantissa >> ((-exp) as u32))
    }
}

fn entry(factory: u8, pool: u8, num: u64, den: u64) -> (DexPairKey, PriceInfo) {
    (
        DexPairKey { dex_factory: addr(factory), pair_address: addr(pool) },
        PriceInfo { base: addr(1), quote: addr(2), price: Ratio::from_u64s(num, den) },
    )
}

#[test]
fn spread_two_venues_either_order() {
    let ab = vec![entry(10, 11, 2500, 1), entry(20, 21, 2505, 1)];
    let ba = vec![entry(20, 21, 2505, 1), entry(10, 11, 2500, 1)];
    for prices in [ab, ba] {
        let (spread, buy, sell) = compute_spread(&prices).unwrap();
        assert_eq!(buy.dex_factory, addr(10));
        assert_eq!(sell.dex_factory, addr(20));
        assert!((ratio_to_f64(&spread) - 0.002).abs() < 1e-12);
        // 2505 / 2500 - 1 = 5 / 2500, exactly
        assert_eq!(big_to_u128(&spread.num) * 2500, big_to_u128(&spread.den) * 5);
    }
}

#[test]
fn spread_needs_two_positive_prices() {
    let none: Vec<(DexPairKey, PriceInfo)> = vec![];
    assert!(matches!(compute_spread(&none), Err(SpreadError::InsufficientSources)));
    let one = vec![entry(10, 11, 2500, 1)];
    assert!(matches!(compute_spread(&one), Err(SpreadError::InsufficientSources)));
    let one_positive = vec![entry(10, 11, 2500, 1), entry(20, 21, 0, 1)];
    assert!(matches!(compute_spread(&one_positive), Err(SpreadError::InsufficientSources)));
}

#[test]
fn spread_ignores_zero_prices_and_breaks_ties_by_order() {
    let prices = vec![
        entry(10, 11, 0, 1),
        entry(20, 21, 100, 1),
        entry(30, 31, 200, 2),
        entry(40, 41, 300, 2),
        entry(50, 51, 150, 1),
    ];
    let (spread, buy, sell) = compute_spread(&prices).unwrap();
    assert_eq!(buy.dex_factory, addr(20));
    assert_eq!(sell.dex_factory, addr(40));
    assert!((ratio_to_f64(&spread) - 0.5).abs() < 1e-12);
}

#[test]
fn spread_of_equal_prices_is_zero() {
    let prices = vec![entry(10, 11, 7, 2), entry(20, 21, 35, 10)];
    let (spread, buy, sell) = compute_spread(&prices).unwrap();
    assert!(spread.num.is_zero());
    assert_eq!(buy.dex_factory, addr(10));
    assert_eq!(sell.dex_factory, addr(10));
}

#[test]
fn constant_product_buying_base() {
    let in0 = Ratio::from_u64s(0, 1);
    let in1 = Ratio::from_u64s(1000, 1);
    let out0 = Ratio::from_u64s(398, 1000);
    let out1 = Ratio::from_u64s(0, 1);
    let p = compute_price(&in0, &in1, &out0, &out1, true).unwrap();
    assert_eq!(big_to_u128(&p.num), 1_000_000);
    assert_eq!(big_to_u128(&p.den), 398);
    assert!((ratio_to_f64(&p) - 2512.56).abs() < 0.01);
}

#[test]
fn constant_product_selling_base_and_mirrored() {
    let r = |n, d| Ratio::from_u64s(n, d);
    // base is token0, sold: quote out / base in
    let p = compute_price(&r(2, 1), &r(0, 1), &r(0, 1), &r(5000, 1), true).unwrap();
    assert!((ratio_to_f64(&p) - 2500.0).abs() < 1e-9);
    // base is token1, sold: token0 out / token1 in
    let p = compute_price(&r(0, 1), &r(4, 1), &r(10000, 1), &r(0, 1), false).unwrap();
    assert!((ratio_to_f64(&p) - 2500.0).abs() < 1e-9);
    // base is token1, bought: token0 in / token1 out
    let p = compute_price(&r(7500, 1), &r(0, 1), &r(0, 1), &r(3, 1), false).unwrap();
    assert!((ratio_to_f64(&p) - 2500.0).abs() < 1e-9);
}

#[test]
fn constant_product_ambiguous_swap_has_no_price() {
    let r = |n, d| Ratio::from_u64s(n, d);
    assert!(compute_price(&r(0, 1), &r(0, 1), &r(0, 1), &r(0, 1), true).is_none());
    assert!(compute_price(&r(5, 1), &r(0, 1), &r(3, 1), &r(0, 1), true).is_none());
    assert!(compute_price(&r(0, 1), &r(5, 1), &r(0, 1), &r(3, 1), false).is_none());
}

#[test]
fn constant_product_swap_in_both_directions_has_no_price() {
    let r = |n, d| Ratio::from_u64s(n, d);
    assert!(compute_price(&r(2, 1), &r(7, 1), &r(3, 1), &r(5000, 1), true).is_none());
    assert!(compute_price(&r(2, 1), &r(7, 1), &r(3, 1), &r(5000, 1), false).is_none());
}

#[test]
fn normalize_amount_divides_by_decimals() {
    let a = normalize_amount(BigNum::from_u64(1_500_000), 6);
    assert_eq!(big_to_u128(&a.num), 1_500_000);
    assert_eq!(big_to_u128(&a.den), 1_000_000);
    assert!((ratio_to_f64(&a) - 1.5).abs() < 1e-12);
}

#[test]
fn sqrt_price_exact_square_round_trips() {
    // sqrt(2500) * 2^96 = 50 * 2^96
    let mut bytes = vec![50u8];
    bytes.extend_from_slice(&[0u8; 12]);
    let x = BigNum::from_be_bytes(&bytes);
    let p = sqrt_price_x96_to_price(&x, true, 18, 18).unwrap();
    assert_eq!(ratio_to_f64(&p), 2500.0);
    let q = sqrt_price_x96_to_price(&x, false, 18, 18).unwrap();
    assert_eq!(ratio_to_f64(&q), 1.0 / 2500.0);
}

#[test]
fn sqrt_price_round_trips_within_tolerance() {
    for price in [2512.56f64, 0.000345, 1.0, 98765.4321] {
        let x = big_from_f64(price.sqrt() * 2f64.powi(96));
        let p = sqrt_price_x96_to_price(&x, true, 6, 6).unwrap();
        let got = ratio_to_f64(&p);
        assert!(((got - price) / price).abs() < 1e-6, "{} vs {}", got, price);
    }
}

#[test]
fn sqrt_price_needs_more_than_64_bits() {
    // 2^100 does not fit in 64 bits: (2^100 / 2^96)^2 = 256
    let x = BigNum::from_u64(2).pow(100);
    let p = sqrt_price_x96_to_price(&x, true, 0, 0).unwrap();
    assert_eq!(ratio_to_f64(&p), 256.0);
}

#[test]
fn sqrt_price_rescales_by_decimals() {
    // raw token1/token0 = 1 with token0 at 18 decimals, token1 at 6 decimals
    let x = BigNum::from_u64(2).pow(96);
    let p = sqrt_price_x96_to_price(&x, true, 18, 6).unwrap();
    assert!((ratio_to_f64(&p) - 1e12).abs() < 1.0);
    let q = sqrt_price_x96_to_price(&x, false, 18, 6).unwrap();
    assert!((ratio_to_f64(&q) - 1e-12).abs() < 1e-24);
}

#[test]
fn sqrt_price_reciprocal_when_base_side_flips() {
    let x = big_from_f64(2512.56f64.sqrt() * 2f64.powi(96));
    let p = sqrt_price_x96_to_price(&x, true, 18, 6).unwrap();
    let q = sqrt_price_x96_to_price(&x, false, 18, 6).unwrap();
    assert!((ratio_to_f64(&p) * ratio_to_f64(&q) - 1.0).abs() < 1e-9);
    // with equal decimals, exchanging them changes nothing either
    let p = sqrt_price_x96_to_price(&x, true, 18, 18).unwrap();
    let q = sqrt_price_x96_to_price(&x, false, 18, 18).unwrap();
    assert!((ratio_to_f64(&p) * ratio_to_f64(&q) - 1.0).abs() < 1e-9);
}

#[test]
fn sqrt_price_zero_is_rejected() {
    let x = BigNum::zero();
    assert!(matches!(sqrt_price_x96_to_price(&x, true, 18, 6), Err(PriceError::ZeroSqrtPrice)));
}

#[test]
fn token_ordering_both_ways_and_errors() {
    let (a, b, c, pool) = (addr(1), addr(2), addr(3), addr(9));
    assert!(matches!(detect_token_ordering(a, b, a, b, pool), Ok((true, false))));
    assert!(matches!(detect_token_ordering(b, a, a, b, pool), Ok((false, true))));
    match detect_token_ordering(b, c, a, b, pool) {
        Err(OrderingError::BaseNotInPool(p)) => assert_eq!(p, pool),
        other => panic!("unexpected {:?}", other),
    }
    match detect_token_ordering(a, c, a, b, pool) {
        Err(OrderingError::QuoteNotInPool(p)) => assert_eq!(p, pool),
        other => panic!("unexpected {:?}", other),
    }
}

#[test]
fn spread_sides_do_not_depend_on_listing_order() {
    let base = [(10u8, 1000u64), (20, 1003), (30, 997), (40, 0)];
    let orders = [[0usize, 1, 2, 3], [2, 0, 3, 1], [3, 2, 1, 0], [1, 3, 0, 2]];
    for order in orders {
        let prices: Vec<(DexPairKey, PriceInfo)> =
            order.iter().map(|&i| entry(base[i].0, base[i].0 + 1, base[i].1, 10)).collect();
        let (spread, buy, sell) = compute_spread(&prices).unwrap();
        assert_eq!(buy.dex_factory, addr(30));
        assert_eq!(sell.dex_factory, addr(20));
        assert!((ratio_to_f64(&spread) - (1003.0 / 997.0 - 1.0)).abs() < 1e-12);
    }
}
