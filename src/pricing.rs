//! Venue price models and the cross-venue spread.
use vstd::prelude::*;
use vstd::arithmetic::power::{pow, lemma_pow_positive, lemma_pow_adds};
use vstd::arithmetic::mul::lemma_mul_strictly_positive;
use crate::bignum::{BigNum, Ratio, ratio_eq, ratio_lt, lemma_ratio_lt_le, lemma_ratio_le_lt};
use crate::types::{Address, DexPairKey, PriceInfo};

verus! {

/// A pool whose tokens do not match the configured pair.
#[derive(Clone, Copy, Debug)]
pub enum OrderingError {
    /// Neither pool token is the base asset; carries the pool.
    BaseNotInPool(Address),
    /// Neither pool token is the quote asset; carries the pool.
    QuoteNotInPool(Address),
}

/// A swap payload from which no price can be taken.
#[derive(Clone, Copy, Debug, PartialEq, Eq, Structural)]
pub enum PriceError {
    /// A square-root price of zero encodes no price.
    ZeroSqrtPrice,
}

#[derive(Clone, Copy, Debug, PartialEq, Eq, Structural)]
pub enum SpreadError {
    /// Fewer than two sources with a positive price.
    InsufficientSources,
}

/// Both the base and the quote are among the pool's two tokens.
pub open spec fn pool_has_pair(token0: Address, token1: Address, base: Address, quote: Address) -> bool {
    (token0 == base || token1 == base) && (token0 == quote || token1 == quote)
}

/// Which pool token is the base and which is the quote: returns
/// `(token0_is_base, token0_is_quote)`.
pub fn detect_token_ordering(
    token0: Address,
    token1: Address,
    base: Address,
    quote: Address,
    pair_address: Address,
) -> (r: Result<(bool, bool), OrderingError>)
    ensures
        match r {
            Ok((t0_base, t0_quote)) => {
                &&& token0 == base || token1 == base
                &&& token0 == quote || token1 == quote
                &&& t0_base == (token0 == base)
                &&& t0_quote == (token0 == quote)
            },
            Err(OrderingError::BaseNotInPool(p)) => token0 != base && token1 != base && p
                == pair_address,
            Err(OrderingError::QuoteNotInPool(p)) => (token0 == base || token1 == base) && token0
                != quote && token1 != quote && p == pair_address,
        },
{
    let token0_is_base = token0 == base;
    let token1_is_base = token1 == base;
    let token0_is_quote = token0 == quote;
    let token1_is_quote = token1 == quote;
    if !token0_is_base && !token1_is_base {
        return Err(OrderingError::BaseNotInPool(pair_address));
    }
    if !token0_is_quote && !token1_is_quote {
        return Err(OrderingError::QuoteNotInPool(pair_address));
    }
    Ok((token0_is_base, token0_is_quote))
}

/// `a / b` for fractions, as `(a.num * b.den) / (a.den * b.num)`.
pub open spec fn ratio_div(a: (nat, nat), b: (nat, nat)) -> (nat, nat) {
    (a.0 * b.1, a.1 * b.0)
}

/// A raw token amount in whole units: `raw / 10^decimals`.
pub fn normalize_amount(raw: BigNum, decimals: u8) -> (r: Ratio)
    ensures
        r@ == (raw@, pow(10, decimals as nat) as nat),
        r.wf(),
{
    let ten = BigNum::from_u64(10);
    let scale = ten.pow(decimals as u32);
    proof {
        lemma_pow_positive(10, decimals as nat);
    }
    Ratio { num: raw, den: scale }
}

/// The constant-product price, quote per base, of a swap given its four
/// normalized amounts; `None` unless the amounts give exactly one direction.
pub open spec fn cp_price(
    a0_in: (nat, nat),
    a1_in: (nat, nat),
    a0_out: (nat, nat),
    a1_out: (nat, nat),
    token0_is_base: bool,
) -> Option<(nat, nat)> {
    // token0 goes in and token1 comes out, or the other way round
    let zero_for_one = a0_in.0 > 0 && a1_out.0 > 0;
    let one_for_zero = a1_in.0 > 0 && a0_out.0 > 0;
    if zero_for_one == one_for_zero {
        None
    } else if token0_is_base {
        if zero_for_one {
            Some(ratio_div(a1_out, a0_in))
        } else {
            Some(ratio_div(a1_in, a0_out))
        }
    } else {
        if one_for_zero {
            Some(ratio_div(a0_out, a1_in))
        } else {
            Some(ratio_div(a0_in, a1_out))
        }
    }
}

/// The quotient of two positive fractions is a positive fraction.
proof fn lemma_div_positive(a: (nat, nat), b: (nat, nat))
    requires
        a.0 > 0,
        a.1 > 0,
        b.0 > 0,
        b.1 > 0,
    ensures
        ratio_div(a, b).0 > 0,
        ratio_div(a, b).1 > 0,
{
    lemma_mul_strictly_positive(a.0 as int, b.1 as int);
    lemma_mul_strictly_positive(a.1 as int, b.0 as int);
}

/// Price of a constant-product swap from its normalized amounts. Selling base
/// gives quote-out over base-in; buying base gives quote-in over base-out. A
/// swap with amounts in both directions, or in neither, is ambiguous and has
/// no price.
pub fn compute_price(
    amount0_in: &Ratio,
    amount1_in: &Ratio,
    amount0_out: &Ratio,
    amount1_out: &Ratio,
    token0_is_base: bool,
) -> (r: Option<Ratio>)
    requires
        amount0_in.wf(),
        amount1_in.wf(),
        amount0_out.wf(),
        amount1_out.wf(),
    ensures
        match r {
            Some(p) => cp_price(amount0_in@, amount1_in@, amount0_out@, amount1_out@, token0_is_base)
                == Some(p@) && p.wf() && p.is_positive(),
            None => cp_price(amount0_in@, amount1_in@, amount0_out@, amount1_out@, token0_is_base)
                is None,
        },
{
    let zero_for_one = amount0_in.positive() && amount1_out.positive();
    let one_for_zero = amount1_in.positive() && amount0_out.positive();
    if zero_for_one == one_for_zero {
        None
    } else if token0_is_base {
        if zero_for_one {
            proof { lemma_div_positive(amount1_out@, amount0_in@); }
            Some(amount1_out.div(amount0_in))
        } else {
            proof { lemma_div_positive(amount1_in@, amount0_out@); }
            Some(amount1_in.div(amount0_out))
        }
    } else {
        if one_for_zero {
            proof { lemma_div_positive(amount0_out@, amount1_in@); }
            Some(amount0_out.div(amount1_in))
        } else {
            proof { lemma_div_positive(amount0_in@, amount1_out@); }
            Some(amount0_in.div(amount1_out))
        }
    }
}

/// The canonical price held by a Q64.96 square-root price `x`: the pool's raw
/// price `(x / 2^96)^2` (token1 per token0) rescaled by
/// `10^(token0_decimals - token1_decimals)`, inverted when token1 is the base.
pub open spec fn sqrt_price_ratio(x: nat, token0_is_base: bool, d0: nat, d1: nat) -> (nat, nat) {
    let num = x * x * (pow(10, d0) as nat);
    let den = (pow(2, 192) as nat) * (pow(10, d1) as nat);
    if token0_is_base {
        (num, den)
    } else {
        (den, num)
    }
}

/// Converts a Q64.96 square-root price to the canonical price (quote per
/// base), exactly. The decimals are those of the pool's token0 and token1.
pub fn sqrt_price_x96_to_price(
    sqrt_price_x96: &BigNum,
    token0_is_base: bool,
    token0_decimals: u8,
    token1_decimals: u8,
) -> (r: Result<Ratio, PriceError>)
    ensures
        match r {
            Ok(p) => sqrt_price_x96@ > 0 && p@ == sqrt_price_ratio(
                sqrt_price_x96@,
                token0_is_base,
                token0_decimals as nat,
                token1_decimals as nat,
            ) && p.wf() && p.is_positive(),
            Err(e) => sqrt_price_x96@ == 0 && e == PriceError::ZeroSqrtPrice,
        },
{
    if sqrt_price_x96.is_zero() {
        return Err(PriceError::ZeroSqrtPrice);
    }
    let q96 = BigNum::from_u64(2).pow(96);
    let scale0 = BigNum::from_u64(10).pow(token0_decimals as u32);
    let scale1 = BigNum::from_u64(10).pow(token1_decimals as u32);
    let num = sqrt_price_x96.mul(sqrt_price_x96).mul(&scale0);
    let den = q96.mul(&q96).mul(&scale1);
    proof {
        let x = sqrt_price_x96@ as int;
        lemma_pow_adds(2, 96, 96);
        lemma_pow_positive(2, 192);
        lemma_pow_positive(10, token0_decimals as nat);
        lemma_pow_positive(10, token1_decimals as nat);
        lemma_mul_strictly_positive(x, x);
        lemma_mul_strictly_positive(x * x, pow(10, token0_decimals as nat));
        lemma_mul_strictly_positive(pow(2, 192), pow(10, token1_decimals as nat));
    }
    let raw = Ratio { num, den };
    if token0_is_base {
        Ok(raw)
    } else {
        Ok(raw.recip())
    }
}

/// One source's latest price.
pub type PriceEntry = (DexPairKey, PriceInfo);

pub open spec fn entry_positive(e: PriceEntry) -> bool {
    e.1.price.num@ > 0
}

/// Every price in `s` is a fraction with a positive denominator.
pub open spec fn entries_wf(s: Seq<PriceEntry>) -> bool {
    forall|i: int| 0 <= i < s.len() ==> (#[trigger] s[i]).1.price.wf()
}

/// How many of the first `n` entries have a positive price.
pub open spec fn count_positive(s: Seq<PriceEntry>, n: int) -> nat
    decreases n,
{
    if n <= 0 {
        0
    } else {
        count_positive(s, n - 1) + if entry_positive(s[n - 1]) {
            1nat
        } else {
            0nat
        }
    }
}

/// Among the first `n` entries, `i` holds the lowest positive price, and no
/// earlier entry holds a price as low.
pub open spec fn first_min_before(s: Seq<PriceEntry>, i: int, n: int) -> bool {
    &&& 0 <= i < n <= s.len()
    &&& entry_positive(s[i])
    &&& forall|j: int|
        #![trigger s[j]]
        0 <= j < n && entry_positive(s[j]) ==> !ratio_lt(s[j].1.price@, s[i].1.price@)
    &&& forall|j: int|
        #![trigger s[j]]
        0 <= j < i && entry_positive(s[j]) ==> ratio_lt(s[i].1.price@, s[j].1.price@)
}

/// Among the first `n` entries, `i` holds the highest positive price, and no
/// earlier entry holds a price as high.
pub open spec fn first_max_before(s: Seq<PriceEntry>, i: int, n: int) -> bool {
    &&& 0 <= i < n <= s.len()
    &&& entry_positive(s[i])
    &&& forall|j: int|
        #![trigger s[j]]
        0 <= j < n && entry_positive(s[j]) ==> !ratio_lt(s[i].1.price@, s[j].1.price@)
    &&& forall|j: int|
        #![trigger s[j]]
        0 <= j < i && entry_positive(s[j]) ==> ratio_lt(s[j].1.price@, s[i].1.price@)
}

/// The entry to buy from: the first one with the lowest positive price.
pub open spec fn buy_index(s: Seq<PriceEntry>) -> int {
    choose|i: int| first_min_before(s, i, s.len() as int)
}

/// The entry to sell to: the first one with the highest positive price.
pub open spec fn sell_index(s: Seq<PriceEntry>) -> int {
    choose|i: int| first_max_before(s, i, s.len() as int)
}

/// `hi / lo - 1`, as the fraction `(hi.num * lo.den - lo.num * hi.den) / (lo.num * hi.den)`.
pub open spec fn spread_of(lo: (nat, nat), hi: (nat, nat)) -> (nat, nat) {
    ((hi.0 * lo.1 - lo.0 * hi.1) as nat, lo.0 * hi.1)
}

/// There is at most one first lowest entry.
pub proof fn lemma_first_min_unique(s: Seq<PriceEntry>, i: int, k: int, n: int)
    requires
        first_min_before(s, i, n),
        first_min_before(s, k, n),
    ensures
        i == k,
{
    if i < k {
        assert(ratio_lt(s[k].1.price@, s[i].1.price@));
    } else if k < i {
        assert(ratio_lt(s[i].1.price@, s[k].1.price@));
    }
}

/// There is at most one first highest entry.
pub proof fn lemma_first_max_unique(s: Seq<PriceEntry>, i: int, k: int, n: int)
    requires
        first_max_before(s, i, n),
        first_max_before(s, k, n),
    ensures
        i == k,
{
    if i < k {
        assert(ratio_lt(s[i].1.price@, s[k].1.price@));
    } else if k < i {
        assert(ratio_lt(s[k].1.price@, s[i].1.price@));
    }
}

/// Spread between the cheapest and the dearest source with a positive price:
/// `(max / min) - 1`, with the keys of the buy (min) and sell (max) sources.
/// Ties go to the earliest entry.
pub fn compute_spread(prices: &[PriceEntry]) -> (r: Result<(Ratio, DexPairKey, DexPairKey), SpreadError>)
    requires
        entries_wf(prices@),
    ensures
        match r {
            Ok((spread, buy, sell)) => {
                let s = prices@;
                &&& count_positive(s, s.len() as int) >= 2
                &&& first_min_before(s, buy_index(s), s.len() as int)
                &&& first_max_before(s, sell_index(s), s.len() as int)
                &&& buy == s[buy_index(s)].0
                &&& sell == s[sell_index(s)].0
                &&& spread@ == spread_of(s[buy_index(s)].1.price@, s[sell_index(s)].1.price@)
                &&& spread.wf()
            },
            Err(e) => count_positive(prices@, prices@.len() as int) < 2 && e
                == SpreadError::InsufficientSources,
        },
{
    let ghost s = prices@;
    let n = prices.len();
    let mut count: usize = 0;
    let mut bi: usize = 0;
    let mut si: usize = 0;
    let mut k: usize = 0;
    while k < n
        invariant
            s == prices@,
            n == s.len(),
            entries_wf(s),
            0 <= k <= n,
            count == count_positive(s, k as int),
            count <= k,
            count == 0 ==> forall|j: int| 0 <= j < k ==> !entry_positive(#[trigger] s[j]),
            count > 0 ==> first_min_before(s, bi as int, k as int),
            count > 0 ==> first_max_before(s, si as int, k as int),
        decreases n - k,
    {
        let ghost kk = k as int;
        if prices[k].1.price.positive() {
            if count == 0 {
                bi = k;
                si = k;
            } else {
                let ghost obi = bi as int;
                let ghost osi = si as int;
                if prices[k].1.price.lt(&prices[bi].1.price) {
                    bi = k;
                    proof {
                        assert forall|j: int|
                            #![trigger s[j]]
                            0 <= j < kk && entry_positive(s[j]) implies ratio_lt(
                            s[kk].1.price@,
                            s[j].1.price@,
                        ) by {
                            lemma_ratio_lt_le(s[kk].1.price@, s[obi].1.price@, s[j].1.price@);
                        }
                    }
                }
                if prices[si].1.price.lt(&prices[k].1.price) {
                    si = k;
                    proof {
                        assert forall|j: int|
                            #![trigger s[j]]
                            0 <= j < kk && entry_positive(s[j]) implies ratio_lt(
                            s[j].1.price@,
                            s[kk].1.price@,
                        ) by {
                            lemma_ratio_le_lt(s[j].1.price@, s[osi].1.price@, s[kk].1.price@);
                        }
                    }
                }
            }
            count = count + 1;
        }
        k = k + 1;
    }
    if count < 2 {
        return Err(SpreadError::InsufficientSources);
    }
    proof {
        lemma_first_min_unique(s, buy_index(s), bi as int, n as int);
        lemma_first_max_unique(s, sell_index(s), si as int, n as int);
    }
    let lo = &prices[bi].1.price;
    let hi = &prices[si].1.price;
    let a = hi.num.mul(&lo.den);
    let b = lo.num.mul(&hi.den);
    let den = lo.num.mul(&hi.den);
    proof {
        lemma_mul_strictly_positive(lo.num@ as int, hi.den@ as int);
    }
    let spread = Ratio { num: a.sub(&b), den };
    Ok((spread, prices[bi].0, prices[si].0))
}

/// For two sources with positive, different prices, the cheaper one is the
/// buy side and the dearer one the sell side, whichever order they come in.
pub proof fn lemma_spread_order_independent(a: PriceEntry, b: PriceEntry)
    requires
        a.1.price.wf(),
        b.1.price.wf(),
        entry_positive(a),
        entry_positive(b),
        ratio_lt(a.1.price@, b.1.price@),
    ensures
        ({
            let ab = seq![a, b];
            let ba = seq![b, a];
            &&& count_positive(ab, 2) == 2
            &&& count_positive(ba, 2) == 2
            &&& ab[buy_index(ab)] == a
            &&& ab[sell_index(ab)] == b
            &&& ba[buy_index(ba)] == a
            &&& ba[sell_index(ba)] == b
        }),
{
    let ab = seq![a, b];
    let ba = seq![b, a];
    assert(ab[0] == a && ab[1] == b && ba[0] == b && ba[1] == a);
    assert(count_positive(ab, 0) == 0);
    assert(count_positive(ab, 1) == 1);
    assert(count_positive(ab, 2) == 2);
    assert(count_positive(ba, 0) == 0);
    assert(count_positive(ba, 1) == 1);
    assert(count_positive(ba, 2) == 2);
    assert(!ratio_lt(b.1.price@, a.1.price@)) by (nonlinear_arith)
        requires
            a.1.price@.0 * b.1.price@.1 < b.1.price@.0 * a.1.price@.1,
    ;
    assert(first_min_before(ab, 0, 2));
    assert(first_max_before(ab, 1, 2));
    assert(first_min_before(ba, 1, 2));
    assert(first_max_before(ba, 0, 2));
    lemma_first_min_unique(ab, buy_index(ab), 0, 2);
    lemma_first_max_unique(ab, sell_index(ab), 1, 2);
    lemma_first_min_unique(ba, buy_index(ba), 1, 2);
    lemma_first_max_unique(ba, sell_index(ba), 0, 2);
}

/// A square-root price built for a price `pn / pd` (the largest `x` with
/// `(x / 2^96)^2 <= pn / pd`), with equal decimals and token0 as the base,
/// converts back to at most `pn / pd` and within a relative 10^-6 of it; to
/// exactly `pn / pd` when the square root is exact. Holds for `x >= 2000001`,
/// that is for every price above about 6.4e-46.
pub proof fn lemma_sqrt_price_round_trip(pn: nat, pd: nat, x: nat, d: nat)
    requires
        pd > 0,
        x >= 2000001,
        x * x * pd <= pn * (pow(2, 192) as nat),
        pn * (pow(2, 192) as nat) < (x + 1) * (x + 1) * pd,
    ensures
        ({
            let p = sqrt_price_ratio(x, true, d, d);
            &&& p.0 * pd <= pn * p.1
            &&& (pn * p.1 - p.0 * pd) * 1000000 <= pn * p.1
            &&& (x * x * pd == pn * (pow(2, 192) as nat) ==> p.0 * pd == pn * p.1)
        }),
{
    let q = pow(2, 192) as nat;
    let t = pow(10, d) as nat;
    lemma_pow_positive(2, 192);
    lemma_pow_positive(10, d);
    let p = sqrt_price_ratio(x, true, d, d);
    assert(p.0 == x * x * t);
    assert(p.1 == q * t);
    assert(p.0 * pd == t * (x * x * pd)) by (nonlinear_arith)
        requires
            p.0 == x * x * t,
    ;
    assert(pn * p.1 == t * (pn * q)) by (nonlinear_arith)
        requires
            p.1 == q * t,
    ;
    assert(t * (x * x * pd) <= t * (pn * q)) by (nonlinear_arith)
        requires
            x * x * pd <= pn * q,
    ;
    assert(pn * q - x * x * pd < (2 * x + 1) * pd) by (nonlinear_arith)
        requires
            pn * q < (x + 1) * (x + 1) * pd,
    ;
    assert(1000000 * (2 * x + 1) <= x * x) by (nonlinear_arith)
        requires
            x >= 2000001,
    ;
    assert((pn * q - x * x * pd) * 1000000 <= x * x * pd) by (nonlinear_arith)
        requires
            pn * q - x * x * pd < (2 * x + 1) * pd,
            1000000 * (2 * x + 1) <= x * x,
            pd > 0,
    ;
    assert((t * (pn * q) - t * (x * x * pd)) * 1000000 <= t * (pn * q)) by (nonlinear_arith)
        requires
            (pn * q - x * x * pd) * 1000000 <= x * x * pd,
            x * x * pd <= pn * q,
    ;
}

/// Counting positive prices over a longer prefix never gives less.
proof fn lemma_count_monotone(s: Seq<PriceEntry>, m: int, n: int)
    requires
        0 <= m <= n <= s.len(),
    ensures
        count_positive(s, m) <= count_positive(s, n),
    decreases n - m,
{
    if m < n {
        lemma_count_monotone(s, m, n - 1);
    }
}

/// Two positive prices among the first `n` entries count as two.
proof fn lemma_count_from_two(s: Seq<PriceEntry>, i: int, j: int, n: int)
    requires
        0 <= i < j < n <= s.len(),
        entry_positive(s[i]),
        entry_positive(s[j]),
    ensures
        count_positive(s, n) >= 2,
{
    lemma_count_monotone(s, i + 1, j);
    lemma_count_monotone(s, j + 1, n);
}

/// A positive count has a positive entry behind it.
proof fn lemma_positive_witness(s: Seq<PriceEntry>, n: int)
    requires
        0 <= n <= s.len(),
        count_positive(s, n) >= 1,
    ensures
        exists|j: int| 0 <= j < n && entry_positive(#[trigger] s[j]),
    decreases n,
{
    if !entry_positive(s[n - 1]) {
        lemma_positive_witness(s, n - 1);
    }
}

/// A count of at least two has two positive entries behind it.
proof fn lemma_two_positive_witnesses(s: Seq<PriceEntry>, n: int)
    requires
        0 <= n <= s.len(),
        count_positive(s, n) >= 2,
    ensures
        exists|i: int, j: int|
            0 <= i < j < n && entry_positive(#[trigger] s[i]) && entry_positive(#[trigger] s[j]),
    decreases n,
{
    if entry_positive(s[n - 1]) {
        lemma_positive_witness(s, n - 1);
        let i = choose|i: int| 0 <= i < n - 1 && entry_positive(#[trigger] s[i]);
        assert(entry_positive(s[i]) && entry_positive(s[n - 1]));
    } else {
        lemma_two_positive_witnesses(s, n - 1);
    }
}

/// Among the first `n` entries, if any has a positive price then one of them
/// is the first lowest.
pub proof fn lemma_first_min_exists(s: Seq<PriceEntry>, n: int)
    requires
        entries_wf(s),
        0 <= n <= s.len(),
        exists|j: int| 0 <= j < n && entry_positive(#[trigger] s[j]),
    ensures
        exists|i: int| first_min_before(s, i, n),
    decreases n,
{
    let k = n - 1;
    if exists|j: int| 0 <= j < k && entry_positive(#[trigger] s[j]) {
        lemma_first_min_exists(s, k);
        let m = choose|i: int| first_min_before(s, i, k);
        if entry_positive(s[k]) && ratio_lt(s[k].1.price@, s[m].1.price@) {
            assert forall|j: int|
                #![trigger s[j]]
                0 <= j < k && entry_positive(s[j]) implies ratio_lt(
                s[k].1.price@,
                s[j].1.price@,
            ) by {
                lemma_ratio_lt_le(s[k].1.price@, s[m].1.price@, s[j].1.price@);
            }
            assert(first_min_before(s, k, n));
        } else {
            assert(first_min_before(s, m, n));
        }
    } else {
        assert(first_min_before(s, k, n));
    }
}

/// Among the first `n` entries, if any has a positive price then one of them
/// is the first highest.
pub proof fn lemma_first_max_exists(s: Seq<PriceEntry>, n: int)
    requires
        entries_wf(s),
        0 <= n <= s.len(),
        exists|j: int| 0 <= j < n && entry_positive(#[trigger] s[j]),
    ensures
        exists|i: int| first_max_before(s, i, n),
    decreases n,
{
    let k = n - 1;
    if exists|j: int| 0 <= j < k && entry_positive(#[trigger] s[j]) {
        lemma_first_max_exists(s, k);
        let m = choose|i: int| first_max_before(s, i, k);
        if entry_positive(s[k]) && ratio_lt(s[m].1.price@, s[k].1.price@) {
            assert forall|j: int|
                #![trigger s[j]]
                0 <= j < k && entry_positive(s[j]) implies ratio_lt(
                s[j].1.price@,
                s[k].1.price@,
            ) by {
                lemma_ratio_le_lt(s[j].1.price@, s[m].1.price@, s[k].1.price@);
            }
            assert(first_max_before(s, k, n));
        } else {
            assert(first_max_before(s, m, n));
        }
    } else {
        assert(first_max_before(s, k, n));
    }
}

/// `b` lists the entries of `a` in another order: `b[i] == a[perm[i]]`, where
/// `perm` is a bijection on the indices with inverse `inv`.
pub open spec fn is_reordering(
    a: Seq<PriceEntry>,
    b: Seq<PriceEntry>,
    perm: Seq<int>,
    inv: Seq<int>,
) -> bool {
    &&& a.len() == b.len()
    &&& perm.len() == a.len()
    &&& inv.len() == a.len()
    &&& forall|i: int| 0 <= i < b.len() ==> 0 <= #[trigger] perm[i] < a.len() && b[i] == a[perm[i]]
    &&& forall|j: int| 0 <= j < a.len() ==> 0 <= #[trigger] inv[j] < b.len() && perm[inv[j]] == j
}

/// The lowest positive price is held by one entry only: two entries with the
/// same positive price always have a lower positive price beside them.
pub open spec fn lowest_price_unique(s: Seq<PriceEntry>) -> bool {
    forall|i: int, j: int|
        0 <= i < s.len() && 0 <= j < s.len() && i != j && entry_positive(#[trigger] s[i])
            && entry_positive(#[trigger] s[j]) && ratio_eq(s[i].1.price@, s[j].1.price@)
            ==> exists|k: int|
            0 <= k < s.len() && entry_positive(#[trigger] s[k]) && ratio_lt(
                s[k].1.price@,
                s[i].1.price@,
            )
}

/// The highest positive price is held by one entry only: two entries with the
/// same positive price always have a higher positive price beside them.
pub open spec fn highest_price_unique(s: Seq<PriceEntry>) -> bool {
    forall|i: int, j: int|
        0 <= i < s.len() && 0 <= j < s.len() && i != j && entry_positive(#[trigger] s[i])
            && entry_positive(#[trigger] s[j]) && ratio_eq(s[i].1.price@, s[j].1.price@)
            ==> exists|k: int|
            0 <= k < s.len() && entry_positive(#[trigger] s[k]) && ratio_lt(
                s[i].1.price@,
                s[k].1.price@,
            )
}

/// When the lowest and the highest positive prices are each held by one
/// source, the buy and sell sources, and so the spread, do not depend on the
/// order in which the sources are listed.
pub proof fn lemma_spread_reorder_invariant(
    a: Seq<PriceEntry>,
    b: Seq<PriceEntry>,
    perm: Seq<int>,
    inv: Seq<int>,
)
    requires
        entries_wf(a),
        is_reordering(a, b, perm, inv),
        lowest_price_unique(a),
        highest_price_unique(a),
        count_positive(a, a.len() as int) >= 2,
    ensures
        count_positive(b, b.len() as int) >= 2,
        a[buy_index(a)] == b[buy_index(b)],
        a[sell_index(a)] == b[sell_index(b)],
        spread_of(a[buy_index(a)].1.price@, a[sell_index(a)].1.price@) == spread_of(
            b[buy_index(b)].1.price@,
            b[sell_index(b)].1.price@,
        ),
{
    let n = a.len() as int;
    lemma_two_positive_witnesses(a, n);
    let (j1, j2) = choose|j1: int, j2: int|
        0 <= j1 < j2 < n && entry_positive(#[trigger] a[j1]) && entry_positive(#[trigger] a[j2]);
    let i1 = inv[j1];
    let i2 = inv[j2];
    assert(b[i1] == a[j1] && b[i2] == a[j2]);
    if i1 < i2 {
        lemma_count_from_two(b, i1, i2, n);
    } else {
        lemma_count_from_two(b, i2, i1, n);
    }
    assert(entries_wf(b)) by {
        assert forall|i: int| 0 <= i < b.len() implies (#[trigger] b[i]).1.price.wf() by {
            assert(b[i] == a[perm[i]]);
        }
    }
    lemma_first_min_exists(b, n);
    lemma_first_max_exists(b, n);
    let bi = buy_index(b);
    let si = sell_index(b);
    // the first lowest of `b`, seen in `a`, is the first lowest of `a`
    assert forall|j: int|
        #![trigger a[j]]
        0 <= j < n && entry_positive(a[j]) implies !ratio_lt(a[j].1.price@, a[perm[bi]].1.price@)
        && (j != perm[bi] ==> ratio_lt(a[perm[bi]].1.price@, a[j].1.price@)) by {
        let i = inv[j];
        assert(b[i] == a[j]);
        let e = perm[bi];
        if j != e && ratio_eq(a[j].1.price@, a[e].1.price@) {
            let k = choose|k: int|
                0 <= k < n && entry_positive(#[trigger] a[k]) && ratio_lt(
                    a[k].1.price@,
                    a[j].1.price@,
                );
            lemma_ratio_lt_le(a[k].1.price@, a[j].1.price@, a[e].1.price@);
            assert(b[inv[k]] == a[k]);
        }
    }
    assert(first_min_before(a, perm[bi], n));
    lemma_first_min_unique(a, buy_index(a), perm[bi], n);
    assert forall|j: int|
        #![trigger a[j]]
        0 <= j < n && entry_positive(a[j]) implies !ratio_lt(a[perm[si]].1.price@, a[j].1.price@)
        && (j != perm[si] ==> ratio_lt(a[j].1.price@, a[perm[si]].1.price@)) by {
        let i = inv[j];
        assert(b[i] == a[j]);
        let e = perm[si];
        if j != e && ratio_eq(a[j].1.price@, a[e].1.price@) {
            let k = choose|k: int|
                0 <= k < n && entry_positive(#[trigger] a[k]) && ratio_lt(
                    a[j].1.price@,
                    a[k].1.price@,
                );
            lemma_ratio_le_lt(a[e].1.price@, a[j].1.price@, a[k].1.price@);
            assert(b[inv[k]] == a[k]);
        }
    }
    assert(first_max_before(a, perm[si], n));
    lemma_first_max_unique(a, sell_index(a), perm[si], n);
}

} // verus!
