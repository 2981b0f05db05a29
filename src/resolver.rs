//! Pool resolution: each venue family's factory is read once per pair, and
//! its zero-address answer means the pool does not exist.
use vstd::prelude::*;
use crate::types::Address;

verus! {

#[derive(Clone, Copy, Debug)]
pub enum ResolveError {
    /// The factory answered the zero address: no pool for this pair.
    PoolNotFound,
}

/// The pool a factory answered, or `PoolNotFound` for the zero address.
pub fn accept_pool(answer: Address) -> (r: Result<Address, ResolveError>)
    ensures
        r == accept_pool_spec(answer),
{
    if answer.is_zero() {
        Err(ResolveError::PoolNotFound)
    } else {
        Ok(answer)
    }
}

/// Constant-product factories (`getPair(tokenA, tokenB)`).
#[derive(Clone, Copy, Debug)]
pub struct UniswapV2Resolver;

/// Concentrated-liquidity factories with a fee tier (`getPool(tokenA, tokenB, FEE)`).
#[derive(Clone, Copy, Debug)]
pub struct UniswapV3Resolver<const FEE: u32>;

/// Concentrated-liquidity factories without a fee tier (`poolByPair(tokenA, tokenB)`).
#[derive(Clone, Copy, Debug)]
pub struct QuickSwapV3Resolver;

impl UniswapV2Resolver {
    pub fn accept(answer: Address) -> (r: Result<Address, ResolveError>)
        ensures
            r == accept_pool_spec(answer),
    {
        accept_pool(answer)
    }
}

impl<const FEE: u32> UniswapV3Resolver<FEE> {
    /// The fee tier the factory is asked for.
    pub fn fee() -> (r: u32)
        ensures
            r == FEE,
    {
        FEE
    }

    pub fn accept(answer: Address) -> (r: Result<Address, ResolveError>)
        ensures
            r == accept_pool_spec(answer),
    {
        accept_pool(answer)
    }
}

impl QuickSwapV3Resolver {
    pub fn accept(answer: Address) -> (r: Result<Address, ResolveError>)
        ensures
            r == accept_pool_spec(answer),
    {
        accept_pool(answer)
    }
}

/// What `accept_pool` returns.
pub open spec fn accept_pool_spec(answer: Address) -> Result<Address, ResolveError> {
    if answer.is_zero_spec() {
        Err(ResolveError::PoolNotFound)
    } else {
        Ok(answer)
    }
}

#[derive(Clone, Copy, Debug)]
pub enum SymbolError {
    /// The token answered an empty symbol.
    EmptySymbol,
}

/// A token's symbol as read from its contract; an empty answer is unreadable.
pub fn accept_symbol(symbol: String) -> (r: Result<String, SymbolError>)
    ensures
        match r {
            Ok(s) => symbol@.len() > 0 && s@ == symbol@,
            Err(SymbolError::EmptySymbol) => symbol@.len() == 0,
        },
{
    if symbol.as_str().is_empty() {
        Err(SymbolError::EmptySymbol)
    } else {
        Ok(symbol)
    }
}

} // verus!
