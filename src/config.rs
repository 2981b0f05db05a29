//! Rules of the static configuration: token precision, trade sizes, and the
//! per-venue view of the resolved pairs.
use vstd::prelude::*;
use vstd::arithmetic::power::{pow, lemma_pow_increases, lemma_pow_positive};
use crate::types::{Address, DexConfig, DexPairConfig, Token};

verus! {

/// Decimal precision of the listed six-decimal stablecoins.
pub const STABLE_DECIMALS: u8 = 6;

/// Decimal precision of every other configured asset.
pub const DEFAULT_DECIMALS: u8 = 18;

/// The configured precision of an asset: six for the listed six-decimal
/// stablecoins, eighteen otherwise.
pub open spec fn decimals_for(asset: Address, six_decimal: Seq<Address>) -> u8 {
    if six_decimal.contains(asset) {
        STABLE_DECIMALS
    } else {
        DEFAULT_DECIMALS
    }
}

pub fn asset_decimals(asset: Address, six_decimal: &[Address]) -> (r: u8)
    ensures
        r == decimals_for(asset, six_decimal@),
{
    let mut i: usize = 0;
    while i < six_decimal.len()
        invariant
            0 <= i <= six_decimal@.len(),
            forall|j: int| 0 <= j < i ==> six_decimal@[j] != asset,
        decreases six_decimal@.len() - i,
    {
        if six_decimal[i] == asset {
            assert(six_decimal@.contains(asset)) by {
                assert(six_decimal@[i as int] == asset);
            }
            return STABLE_DECIMALS;
        }
        i = i + 1;
    }
    DEFAULT_DECIMALS
}

/// The base and quote tokens of a configured pair, each with its precision.
pub fn pair_tokens(base: Address, quote: Address, six_decimal: &[Address]) -> (r: (Token, Token))
    ensures
        r.0 == (Token { id: base, decimals: decimals_for(base, six_decimal@) }),
        r.1 == (Token { id: quote, decimals: decimals_for(quote, six_decimal@) }),
{
    (
        Token { id: base, decimals: asset_decimals(base, six_decimal) },
        Token { id: quote, decimals: asset_decimals(quote, six_decimal) },
    )
}

/// `units` whole tokens in the smallest unit of a token with `decimals`
/// decimals, or `None` when that does not fit in 128 bits.
pub fn trade_size(units: u64, decimals: u8) -> (r: Option<u128>)
    ensures
        match r {
            Some(v) => v as nat == units as nat * pow(10, decimals as nat),
            None => units as nat * pow(10, decimals as nat) > u128::MAX,
        },
{
    if units == 0 {
        assert(units as nat * pow(10, decimals as nat) == 0);
        return Some(0);
    }
    let mut scale: u128 = 1;
    let mut i: u8 = 0;
    proof {
        vstd::arithmetic::power::lemma_pow0(10);
    }
    while i < decimals
        invariant
            units >= 1,
            0 <= i <= decimals,
            scale as int == pow(10, i as nat),
        decreases decimals - i,
    {
        proof {
            lemma_pow_adds_one(i as nat);
        }
        match scale.checked_mul(10) {
            Some(s) => scale = s,
            None => {
                proof {
                    lemma_pow_increases(10, (i + 1) as nat, decimals as nat);
                    assert(units as nat * pow(10, decimals as nat) >= pow(10, decimals as nat))
                        by (nonlinear_arith)
                        requires
                            units >= 1,
                            pow(10, decimals as nat) >= 0,
                    ;
                }
                return None;
            },
        }
        i = i + 1;
    }
    proof {
        lemma_pow_positive(10, decimals as nat);
    }
    match scale.checked_mul(units as u128) {
        Some(v) => {
            assert(v as nat == units as nat * pow(10, decimals as nat)) by (nonlinear_arith)
                requires
                    v as int == scale as int * units as int,
                    scale as int == pow(10, decimals as nat),
            ;
            Some(v)
        },
        None => {
            assert(units as nat * pow(10, decimals as nat) > u128::MAX) by (nonlinear_arith)
                requires
                    scale as int * units as int > u128::MAX,
                    scale as int == pow(10, decimals as nat),
            ;
            None
        },
    }
}

proof fn lemma_pow_adds_one(i: nat)
    ensures
        pow(10, i + 1) == pow(10, i) * 10,
{
    vstd::arithmetic::power::lemma_pow_adds(10, i, 1);
    vstd::arithmetic::power::lemma_pow1(10);
}

/// Each venue's factory with the pairs resolved on it, in venue order.
pub fn extract_pair_configs(dex_configs: &[DexConfig]) -> (r: Vec<(Address, Vec<DexPairConfig>)>)
    ensures
        r@.len() == dex_configs@.len(),
        forall|i: int|
            0 <= i < r@.len() ==> (#[trigger] r@[i]).0 == dex_configs@[i].factory && r@[i].1@
                == dex_configs@[i].pairs@,
{
    let mut r: Vec<(Address, Vec<DexPairConfig>)> = Vec::new();
    let mut i: usize = 0;
    while i < dex_configs.len()
        invariant
            0 <= i <= dex_configs@.len(),
            r@.len() == i,
            forall|j: int|
                0 <= j < i ==> (#[trigger] r@[j]).0 == dex_configs@[j].factory && r@[j].1@
                    == dex_configs@[j].pairs@,
        decreases dex_configs@.len() - i,
    {
        let pairs = dex_configs[i].pairs.clone();
        assert(pairs@ =~= dex_configs@[i as int].pairs@);
        r.push((dex_configs[i].factory, pairs));
        i = i + 1;
    }
    r
}

} // verus!
