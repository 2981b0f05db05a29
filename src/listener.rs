//! Per-pool swap listeners: one state machine per resolved pool, one price
//! model per venue family. The caller owns the subscription; it hands each
//! arrival to `handle` and applies the returned step.
use vstd::prelude::*;
use vstd::arithmetic::power::pow;
use crate::bignum::{BigNum, Ratio};
use crate::pricing::{
    OrderingError, compute_price, pool_has_pair, cp_price, detect_token_ordering, normalize_amount,
    sqrt_price_ratio, sqrt_price_x96_to_price,
};
use crate::types::{Address, DexPairConfig, DexPairKey};

verus! {

/// Lifecycle of a listener.
#[derive(Clone, Copy, Debug, PartialEq, Eq, Structural)]
pub enum ListenerState {
    /// Pool tokens matched to the pair; no subscription yet.
    Initializing,
    /// Subscription open; nothing received yet.
    Subscribed,
    /// At least one event received.
    Streaming,
    /// The subscription failed or ended; nothing more is processed.
    Terminated,
}

impl ListenerState {
    /// Events are processed only while the subscription is open.
    pub open spec fn is_live(self) -> bool {
        self is Subscribed || self is Streaming
    }
}

/// One arrival on a swap subscription.
#[derive(Debug)]
pub enum StreamEvent<P> {
    /// A decoded swap payload.
    Swap(P),
    /// A payload that could not be decoded.
    Undecodable,
    /// The subscription ended or its transport failed.
    Closed,
}

/// The state after an arrival: a live listener keeps streaming until its
/// subscription closes; otherwise nothing changes.
pub open spec fn next_state<P>(s: ListenerState, e: StreamEvent<P>) -> ListenerState {
    if !s.is_live() {
        s
    } else if e is Closed {
        ListenerState::Terminated
    } else {
        ListenerState::Streaming
    }
}

fn advance<P>(s: ListenerState, e: &StreamEvent<P>) -> (r: ListenerState)
    ensures
        r == next_state(s, *e),
{
    match s {
        ListenerState::Subscribed | ListenerState::Streaming => match e {
            StreamEvent::Closed => ListenerState::Terminated,
            _ => ListenerState::Streaming,
        },
        _ => s,
    }
}

/// A price to record for one source.
#[derive(Debug)]
pub struct PriceUpdate {
    pub key: DexPairKey,
    pub base: Address,
    pub quote: Address,
    pub price: Ratio,
}

/// What the caller does after an arrival.
#[derive(Debug)]
pub enum ListenerStep {
    /// Record this price in the tracker.
    Publish(PriceUpdate),
    /// Nothing to record; keep listening.
    Skip,
    /// The listener is done.
    Stop,
}

/// A pool matched to its configured pair: which pool token is the base.
#[derive(Clone, Copy, Debug)]
pub struct PoolBinding {
    pub dex_factory: Address,
    pub pair: DexPairConfig,
    pub token0_is_base: bool,
}

impl PoolBinding {
    pub open spec fn token0_decimals_spec(&self) -> u8 {
        if self.token0_is_base {
            self.pair.base.decimals
        } else {
            self.pair.quote.decimals
        }
    }

    pub open spec fn token1_decimals_spec(&self) -> u8 {
        if self.token0_is_base {
            self.pair.quote.decimals
        } else {
            self.pair.base.decimals
        }
    }

    pub open spec fn key_spec(&self) -> DexPairKey {
        DexPairKey { dex_factory: self.dex_factory, pair_address: self.pair.pair }
    }

    /// Matches the pool's tokens against the pair's base and quote.
    pub fn bind(dex_factory: Address, pair: DexPairConfig, token0: Address, token1: Address) -> (r:
        Result<PoolBinding, OrderingError>)
        ensures
            match r {
                Ok(b) => {
                    &&& token0 == pair.base.id || token1 == pair.base.id
                    &&& token0 == pair.quote.id || token1 == pair.quote.id
                    &&& b.dex_factory == dex_factory
                    &&& b.pair == pair
                    &&& b.token0_is_base == (token0 == pair.base.id)
                },
                Err(OrderingError::BaseNotInPool(p)) => token0 != pair.base.id && token1
                    != pair.base.id && p == pair.pair,
                Err(OrderingError::QuoteNotInPool(p)) => (token0 == pair.base.id || token1
                    == pair.base.id) && token0 != pair.quote.id && token1 != pair.quote.id && p
                    == pair.pair,
            },
    {
        match detect_token_ordering(token0, token1, pair.base.id, pair.quote.id, pair.pair) {
            Ok((token0_is_base, _)) => Ok(PoolBinding { dex_factory, pair, token0_is_base }),
            Err(e) => Err(e),
        }
    }

    pub fn token0_decimals(&self) -> (r: u8)
        ensures
            r == self.token0_decimals_spec(),
    {
        if self.token0_is_base {
            self.pair.base.decimals
        } else {
            self.pair.quote.decimals
        }
    }

    pub fn token1_decimals(&self) -> (r: u8)
        ensures
            r == self.token1_decimals_spec(),
    {
        if self.token0_is_base {
            self.pair.quote.decimals
        } else {
            self.pair.base.decimals
        }
    }

    /// The update that records `price` for this pool.
    pub fn update_with(&self, price: Ratio) -> (r: PriceUpdate)
        ensures
            r.key == self.key_spec(),
            r.base == self.pair.base.id,
            r.quote == self.pair.quote.id,
            r.price@ == price@,
    {
        PriceUpdate {
            key: DexPairKey { dex_factory: self.dex_factory, pair_address: self.pair.pair },
            base: self.pair.base.id,
            quote: self.pair.quote.id,
            price,
        }
    }
}

/// State shared by every listener: its pool binding and lifecycle state.
#[derive(Clone, Copy, Debug)]
pub struct ListenerCore {
    pub binding: PoolBinding,
    pub state: ListenerState,
}

impl ListenerCore {
    /// Starts a listener in `Initializing`, or fails when the pool's tokens do
    /// not match the pair.
    pub fn bind(dex_factory: Address, pair: DexPairConfig, token0: Address, token1: Address) -> (r:
        Result<ListenerCore, OrderingError>)
        ensures
            match r {
                Ok(c) => {
                    &&& pool_has_pair(token0, token1, pair.base.id, pair.quote.id)
                    &&& c.state == ListenerState::Initializing
                    &&& c.binding == (PoolBinding {
                        dex_factory,
                        pair,
                        token0_is_base: token0 == pair.base.id,
                    })
                },
                Err(_) => !pool_has_pair(token0, token1, pair.base.id, pair.quote.id),
            },
    {
        match PoolBinding::bind(dex_factory, pair, token0, token1) {
            Ok(binding) => Ok(ListenerCore { binding, state: ListenerState::Initializing }),
            Err(e) => Err(e),
        }
    }

    /// Records whether the swap subscription opened: an open one moves an
    /// initializing listener to `Subscribed`, a failed one terminates it.
    pub fn on_subscribed(&mut self, opened: bool)
        ensures
            final(self).binding == old(self).binding,
            final(self).state == if old(self).state is Initializing {
                if opened {
                    ListenerState::Subscribed
                } else {
                    ListenerState::Terminated
                }
            } else {
                old(self).state
            },
    {
        if self.state == ListenerState::Initializing {
            self.state = if opened {
                ListenerState::Subscribed
            } else {
                ListenerState::Terminated
            };
        }
    }
}

/// A raw amount in whole units, `raw / 10^decimals`, as a fraction.
pub open spec fn normalized(raw: nat, decimals: u8) -> (nat, nat) {
    (raw, pow(10, decimals as nat) as nat)
}

/// The four raw amounts of a constant-product swap, in pool token order.
#[derive(Debug)]
pub struct V2Swap {
    pub amount0_in: BigNum,
    pub amount1_in: BigNum,
    pub amount0_out: BigNum,
    pub amount1_out: BigNum,
}

/// Listener for constant-product pools, priced from the swap amounts.
#[derive(Clone, Copy, Debug)]
pub struct UniswapV2Listener {
    pub core: ListenerCore,
}

impl UniswapV2Listener {
    pub fn new(dex_factory: Address, pair: DexPairConfig, token0: Address, token1: Address) -> (r:
        Result<UniswapV2Listener, OrderingError>)
        ensures
            match r {
                Ok(l) => {
                    &&& pool_has_pair(token0, token1, pair.base.id, pair.quote.id)
                    &&& l.core.state == ListenerState::Initializing
                    &&& l.core.binding == (PoolBinding {
                        dex_factory,
                        pair,
                        token0_is_base: token0 == pair.base.id,
                    })
                },
                Err(_) => !pool_has_pair(token0, token1, pair.base.id, pair.quote.id),
            },
    {
        match ListenerCore::bind(dex_factory, pair, token0, token1) {
            Ok(core) => Ok(UniswapV2Listener { core }),
            Err(e) => Err(e),
        }
    }

    /// The price a swap gives, or `None` when its amounts give no single direction.
    pub open spec fn price_spec(&self, s: V2Swap) -> Option<(nat, nat)> {
        let b = self.core.binding;
        let d0 = b.token0_decimals_spec();
        let d1 = b.token1_decimals_spec();
        cp_price(
            normalized(s.amount0_in@, d0),
            normalized(s.amount1_in@, d1),
            normalized(s.amount0_out@, d0),
            normalized(s.amount1_out@, d1),
            b.token0_is_base,
        )
    }

    pub fn price_of(&self, swap: V2Swap) -> (r: Option<Ratio>)
        ensures
            match r {
                Some(p) => self.price_spec(swap) == Some(p@) && p.wf() && p.is_positive(),
                None => self.price_spec(swap) is None,
            },
    {
        let d0 = self.core.binding.token0_decimals();
        let d1 = self.core.binding.token1_decimals();
        let a0_in = normalize_amount(swap.amount0_in, d0);
        let a1_in = normalize_amount(swap.amount1_in, d1);
        let a0_out = normalize_amount(swap.amount0_out, d0);
        let a1_out = normalize_amount(swap.amount1_out, d1);
        compute_price(&a0_in, &a1_in, &a0_out, &a1_out, self.core.binding.token0_is_base)
    }

    /// Processes one arrival. A decoded swap with a clean direction publishes
    /// its price; an undecodable payload or an ambiguous swap is skipped and
    /// the listener keeps streaming; a closed subscription stops it for good.
    pub fn handle(&mut self, event: StreamEvent<V2Swap>) -> (step: ListenerStep)
        ensures
            final(self).core.binding == old(self).core.binding,
            final(self).core.state == next_state(old(self).core.state, event),
            match step {
                ListenerStep::Stop => old(self).core.state is Terminated || (old(
                    self,
                ).core.state.is_live() && event is Closed),
                ListenerStep::Skip => old(self).core.state is Initializing || (old(
                    self,
                ).core.state.is_live() && (event is Undecodable || (event matches StreamEvent::Swap(
                    s,
                ) && old(self).price_spec(s) is None))),
                ListenerStep::Publish(u) => {
                    &&& old(self).core.state.is_live()
                    &&& event matches StreamEvent::Swap(s)
                    &&& old(self).price_spec(s) == Some(u.price@)
                    &&& u.key == old(self).core.binding.key_spec()
                    &&& u.base == old(self).core.binding.pair.base.id
                    &&& u.quote == old(self).core.binding.pair.quote.id
                    &&& u.price.wf()
                    &&& u.price.is_positive()
                },
            },
    {
        let prior = self.core.state;
        self.core.state = advance(prior, &event);
        match prior {
            ListenerState::Terminated => return ListenerStep::Stop,
            ListenerState::Initializing => return ListenerStep::Skip,
            _ => {},
        }
        match event {
            StreamEvent::Swap(swap) => match self.price_of(swap) {
                Some(p) => ListenerStep::Publish(self.core.binding.update_with(p)),
                None => ListenerStep::Skip,
            },
            StreamEvent::Undecodable => ListenerStep::Skip,
            StreamEvent::Closed => ListenerStep::Stop,
        }
    }
}

impl ListenerCore {
    /// The canonical price a Q64.96 square-root price gives for this pool;
    /// `None` for zero, which encodes no price.
    pub open spec fn sqrt_price_spec(&self, x: nat) -> Option<(nat, nat)> {
        let b = self.binding;
        if x == 0 {
            None
        } else {
            Some(
                sqrt_price_ratio(
                    x,
                    b.token0_is_base,
                    b.token0_decimals_spec() as nat,
                    b.token1_decimals_spec() as nat,
                ),
            )
        }
    }

    /// One arrival on a square-root-price subscription.
    fn handle_sqrt_price(&mut self, event: StreamEvent<BigNum>) -> (step: ListenerStep)
        ensures
            final(self).binding == old(self).binding,
            final(self).state == next_state(old(self).state, event),
            match step {
                ListenerStep::Stop => old(self).state is Terminated || (old(self).state.is_live()
                    && event is Closed),
                ListenerStep::Skip => old(self).state is Initializing || (old(self).state.is_live()
                    && (event is Undecodable || (event matches StreamEvent::Swap(x) && old(
                    self,
                ).sqrt_price_spec(x@) is None))),
                ListenerStep::Publish(u) => {
                    &&& old(self).state.is_live()
                    &&& event matches StreamEvent::Swap(x)
                    &&& old(self).sqrt_price_spec(x@) == Some(u.price@)
                    &&& u.key == old(self).binding.key_spec()
                    &&& u.base == old(self).binding.pair.base.id
                    &&& u.quote == old(self).binding.pair.quote.id
                    &&& u.price.wf()
                    &&& u.price.is_positive()
                },
            },
    {
        let prior = self.state;
        self.state = advance(prior, &event);
        match prior {
            ListenerState::Terminated => return ListenerStep::Stop,
            ListenerState::Initializing => return ListenerStep::Skip,
            _ => {},
        }
        match event {
            StreamEvent::Swap(x) => match sqrt_price_x96_to_price(
                &x,
                self.binding.token0_is_base,
                self.binding.token0_decimals(),
                self.binding.token1_decimals(),
            ) {
                Ok(p) => ListenerStep::Publish(self.binding.update_with(p)),
                Err(_) => ListenerStep::Skip,
            },
            StreamEvent::Undecodable => ListenerStep::Skip,
            StreamEvent::Closed => ListenerStep::Stop,
        }
    }
}

/// The payload of a concentrated-liquidity swap that the price is read from.
#[derive(Debug)]
pub struct V3Swap {
    /// The pool's square-root price after the swap, Q64.96.
    pub sqrt_price_x96: BigNum,
}

/// Listener for concentrated-liquidity pools with a fee tier.
#[derive(Clone, Copy, Debug)]
pub struct UniswapV3Listener {
    pub core: ListenerCore,
}

impl UniswapV3Listener {
    pub fn new(dex_factory: Address, pair: DexPairConfig, token0: Address, token1: Address) -> (r:
        Result<UniswapV3Listener, OrderingError>)
        ensures
            match r {
                Ok(l) => {
                    &&& pool_has_pair(token0, token1, pair.base.id, pair.quote.id)
                    &&& l.core.state == ListenerState::Initializing
                    &&& l.core.binding == (PoolBinding {
                        dex_factory,
                        pair,
                        token0_is_base: token0 == pair.base.id,
                    })
                },
                Err(_) => !pool_has_pair(token0, token1, pair.base.id, pair.quote.id),
            },
    {
        match ListenerCore::bind(dex_factory, pair, token0, token1) {
            Ok(core) => Ok(UniswapV3Listener { core }),
            Err(e) => Err(e),
        }
    }

    /// Processes one arrival: a swap with a non-zero square-root price
    /// publishes its price; anything else but a closed subscription is skipped.
    pub fn handle(&mut self, event: StreamEvent<V3Swap>) -> (step: ListenerStep)
        ensures
            final(self).core.binding == old(self).core.binding,
            final(self).core.state == next_state(old(self).core.state, event),
            match step {
                ListenerStep::Stop => old(self).core.state is Terminated || (old(
                    self,
                ).core.state.is_live() && event is Closed),
                ListenerStep::Skip => old(self).core.state is Initializing || (old(
                    self,
                ).core.state.is_live() && (event is Undecodable || (event matches StreamEvent::Swap(
                    s,
                ) && old(self).core.sqrt_price_spec(s.sqrt_price_x96@) is None))),
                ListenerStep::Publish(u) => {
                    &&& old(self).core.state.is_live()
                    &&& event matches StreamEvent::Swap(s)
                    &&& old(self).core.sqrt_price_spec(s.sqrt_price_x96@) == Some(u.price@)
                    &&& u.key == old(self).core.binding.key_spec()
                    &&& u.base == old(self).core.binding.pair.base.id
                    &&& u.quote == old(self).core.binding.pair.quote.id
                    &&& u.price.wf()
                    &&& u.price.is_positive()
                },
            },
    {
        let inner = match event {
            StreamEvent::Swap(s) => StreamEvent::Swap(s.sqrt_price_x96),
            StreamEvent::Undecodable => StreamEvent::Undecodable,
            StreamEvent::Closed => StreamEvent::Closed,
        };
        self.core.handle_sqrt_price(inner)
    }
}

/// The payload of an Algebra-style swap that the price is read from.
#[derive(Debug)]
pub struct AlgebraSwap {
    /// The pool's square-root price after the swap, Q64.96.
    pub price: BigNum,
}

/// Listener for concentrated-liquidity pools without a fee tier (Algebra).
#[derive(Clone, Copy, Debug)]
pub struct QuickSwapV3Listener {
    pub core: ListenerCore,
}

impl QuickSwapV3Listener {
    pub fn new(dex_factory: Address, pair: DexPairConfig, token0: Address, token1: Address) -> (r:
        Result<QuickSwapV3Listener, OrderingError>)
        ensures
            match r {
                Ok(l) => {
                    &&& pool_has_pair(token0, token1, pair.base.id, pair.quote.id)
                    &&& l.core.state == ListenerState::Initializing
                    &&& l.core.binding == (PoolBinding {
                        dex_factory,
                        pair,
                        token0_is_base: token0 == pair.base.id,
                    })
                },
                Err(_) => !pool_has_pair(token0, token1, pair.base.id, pair.quote.id),
            },
    {
        match ListenerCore::bind(dex_factory, pair, token0, token1) {
            Ok(core) => Ok(QuickSwapV3Listener { core }),
            Err(e) => Err(e),
        }
    }

    /// Processes one arrival: a swap with a non-zero square-root price
    /// publishes its price; anything else but a closed subscription is skipped.
    pub fn handle(&mut self, event: StreamEvent<AlgebraSwap>) -> (step: ListenerStep)
        ensures
            final(self).core.binding == old(self).core.binding,
            final(self).core.state == next_state(old(self).core.state, event),
            match step {
                ListenerStep::Stop => old(self).core.state is Terminated || (old(
                    self,
                ).core.state.is_live() && event is Closed),
                ListenerStep::Skip => old(self).core.state is Initializing || (old(
                    self,
                ).core.state.is_live() && (event is Undecodable || (event matches StreamEvent::Swap(
                    s,
                ) && old(self).core.sqrt_price_spec(s.price@) is None))),
                ListenerStep::Publish(u) => {
                    &&& old(self).core.state.is_live()
                    &&& event matches StreamEvent::Swap(s)
                    &&& old(self).core.sqrt_price_spec(s.price@) == Some(u.price@)
                    &&& u.key == old(self).core.binding.key_spec()
                    &&& u.base == old(self).core.binding.pair.base.id
                    &&& u.quote == old(self).core.binding.pair.quote.id
                    &&& u.price.wf()
                    &&& u.price.is_positive()
                },
            },
    {
        let inner = match event {
            StreamEvent::Swap(s) => StreamEvent::Swap(s.price),
            StreamEvent::Undecodable => StreamEvent::Undecodable,
            StreamEvent::Closed => StreamEvent::Closed,
        };
        self.core.handle_sqrt_price(inner)
    }
}

/// An undecodable payload does not end a live listener: it is left streaming,
/// and whatever arrives next is handled as by any streaming listener.
pub proof fn lemma_undecodable_keeps_listening<P>(s: ListenerState, next: StreamEvent<P>)
    requires
        s.is_live(),
    ensures
        next_state(s, StreamEvent::<P>::Undecodable) == ListenerState::Streaming,
        next_state(s, StreamEvent::<P>::Undecodable).is_live(),
        next_state(next_state(s, StreamEvent::<P>::Undecodable), next) == next_state(
            ListenerState::Streaming,
            next,
        ),
{
}

/// One pool seen with base and quote exchanged (so with the decimals of the
/// two sides exchanged and token0's role inverted) gives the reciprocal
/// price for every square-root price.
pub proof fn lemma_swapped_pair_reciprocal(
    dex_factory: Address,
    pair: DexPairConfig,
    swapped: DexPairConfig,
    token0: Address,
    token1: Address,
    x: nat,
)
    requires
        x > 0,
        pool_has_pair(token0, token1, pair.base.id, pair.quote.id),
        pair.base.id != pair.quote.id,
        swapped.base == pair.quote,
        swapped.quote == pair.base,
        swapped.pair == pair.pair,
    ensures
        ({
            let as_given = ListenerCore {
                binding: PoolBinding {
                    dex_factory,
                    pair,
                    token0_is_base: token0 == pair.base.id,
                },
                state: ListenerState::Initializing,
            };
            let as_swapped = ListenerCore {
                binding: PoolBinding {
                    dex_factory,
                    pair: swapped,
                    token0_is_base: token0 == swapped.base.id,
                },
                state: ListenerState::Initializing,
            };
            &&& as_given.binding.token0_is_base != as_swapped.binding.token0_is_base
            &&& as_given.sqrt_price_spec(x) matches Some(fwd)
            &&& as_swapped.sqrt_price_spec(x) matches Some(rev)
            &&& fwd.0 == rev.1
            &&& fwd.1 == rev.0
            &&& fwd.0 * rev.0 == fwd.1 * rev.1
        }),
{
    let fwd = sqrt_price_ratio(
        x,
        token0 == pair.base.id,
        (if token0 == pair.base.id { pair.base.decimals } else { pair.quote.decimals }) as nat,
        (if token0 == pair.base.id { pair.quote.decimals } else { pair.base.decimals }) as nat,
    );
    assert(fwd.0 * fwd.1 == fwd.1 * fwd.0) by (nonlinear_arith);
}

} // verus!
