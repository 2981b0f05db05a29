//! The data model shared by the resolvers, listeners, tracker and workers.
use vstd::prelude::*;
use crate::bignum::Ratio;

verus! {

/// A 20-byte account or contract identity on the chain.
#[derive(Clone, Copy, Debug, Eq, Hash)]
pub struct Address {
    pub bytes: [u8; 20],
}

impl PartialEq for Address {
    fn eq(&self, o: &Address) -> (r: bool)
        ensures
            r == (*self == *o),
    {
        let mut i: usize = 0;
        while i < 20
            invariant
                0 <= i <= 20,
                forall|j: int| 0 <= j < i ==> self.bytes[j] == o.bytes[j],
            decreases 20 - i,
        {
            if self.bytes[i] != o.bytes[i] {
                return false;
            }
            i = i + 1;
        }
        assert(self.bytes =~= o.bytes);
        true
    }
}

impl vstd::std_specs::cmp::PartialEqSpecImpl for Address {
    open spec fn obeys_eq_spec() -> bool {
        true
    }

    open spec fn eq_spec(&self, o: &Address) -> bool {
        *self == *o
    }
}

impl Default for Address {
    fn default() -> (r: Address)
        ensures
            r.is_zero_spec(),
    {
        Address::zero()
    }
}

impl Address {
    /// The all-zero address, which factories return for a pool that does not exist.
    pub fn zero() -> (r: Address)
        ensures
            r.is_zero_spec(),
    {
        Address { bytes: [0u8; 20] }
    }

    pub open spec fn is_zero_spec(&self) -> bool {
        forall|i: int| 0 <= i < 20 ==> self.bytes[i] == 0u8
    }

    pub fn is_zero(&self) -> (r: bool)
        ensures
            r == self.is_zero_spec(),
    {
        let mut i: usize = 0;
        while i < 20
            invariant
                0 <= i <= 20,
                forall|j: int| 0 <= j < i ==> self.bytes[j] == 0u8,
            decreases 20 - i,
        {
            if self.bytes[i] != 0 {
                return false;
            }
            i = i + 1;
        }
        true
    }
}

/// An asset: its identity and its decimal precision (ERC-20 `decimals`).
#[derive(Clone, Copy, Debug, Eq, Hash)]
pub struct Token {
    pub id: Address,
    pub decimals: u8,
}

impl PartialEq for Token {
    fn eq(&self, o: &Token) -> (r: bool)
        ensures
            r == (*self == *o),
    {
        self.id == o.id && self.decimals == o.decimals
    }
}

impl vstd::std_specs::cmp::PartialEqSpecImpl for Token {
    open spec fn obeys_eq_spec() -> bool {
        true
    }

    open spec fn eq_spec(&self, o: &Token) -> bool {
        *self == *o
    }
}

/// Identifies one price source: a venue's factory and one of its pools.
#[derive(Clone, Copy, Debug, Eq, Hash)]
pub struct DexPairKey {
    pub dex_factory: Address,
    pub pair_address: Address,
}

impl PartialEq for DexPairKey {
    fn eq(&self, o: &DexPairKey) -> (r: bool)
        ensures
            r == (*self == *o),
    {
        self.dex_factory == o.dex_factory && self.pair_address == o.pair_address
    }
}

impl vstd::std_specs::cmp::PartialEqSpecImpl for DexPairKey {
    open spec fn obeys_eq_spec() -> bool {
        true
    }

    open spec fn eq_spec(&self, o: &DexPairKey) -> bool {
        *self == *o
    }
}

impl Default for DexPairKey {
    fn default() -> (r: DexPairKey)
        ensures
            r.dex_factory.is_zero_spec(),
            r.pair_address.is_zero_spec(),
    {
        DexPairKey { dex_factory: Address::zero(), pair_address: Address::zero() }
    }
}

/// The latest canonical price of one source: quote units per one base unit.
#[derive(Debug)]
pub struct PriceInfo {
    pub base: Address,
    pub quote: Address,
    pub price: Ratio,
}

impl View for PriceInfo {
    type V = (Address, Address, (nat, nat));

    open spec fn view(&self) -> (Address, Address, (nat, nat)) {
        (self.base, self.quote, self.price@)
    }
}

impl Clone for PriceInfo {
    fn clone(&self) -> (r: PriceInfo)
        ensures
            r@ == self@,
    {
        PriceInfo { base: self.base, quote: self.quote, price: self.price.clone() }
    }
}

/// One tradable pair at one venue: its pool, its two assets and the size of a trade.
#[derive(Clone, Copy, Debug)]
pub struct DexPairConfig {
    pub pair: Address,
    pub base: Token,
    pub quote: Token,
    /// Trade amount in the quote asset's smallest unit.
    pub trade_size: u128,
}

/// The pool family of a venue.
#[derive(Clone, Copy, Debug, PartialEq, Eq, Structural)]
pub enum DexType {
    /// Constant-product pools priced from swap amounts.
    V2,
    /// Concentrated-liquidity pools with a fee tier, priced from the square-root price.
    V3,
    /// Concentrated-liquidity pools without a fee tier, priced from the square-root price.
    QuickSwap,
}

#[derive(Clone, Copy, Debug)]
pub struct BalancerPoolInfo {}

/// One venue: its name, factory, family and the pairs resolved on it.
#[derive(Debug)]
pub struct DexConfig {
    pub name: String,
    pub factory: Address,
    pub pairs: Vec<DexPairConfig>,
    pub dex_type: DexType,
}

impl Clone for DexConfig {
    fn clone(&self) -> (r: DexConfig)
        ensures
            r.name@ == self.name@,
            r.factory == self.factory,
            r.pairs@ == self.pairs@,
            r.dex_type == self.dex_type,
    {
        let pairs = self.pairs.clone();
        assert(pairs@ =~= self.pairs@);
        DexConfig { name: self.name.clone(), factory: self.factory, pairs, dex_type: self.dex_type }
    }
}

/// A trade decided in one evaluation cycle: buy the base asset where it is
/// cheapest and sell it where it is dearest.
#[derive(Clone, Copy, Debug)]
pub struct ArbOpportunity {
    pub trade_amt: u128,
    pub quote_asset: Address,
    pub base_asset: Address,
    pub buy_dex: Address,
    pub sell_dex: Address,
}

} // verus!
