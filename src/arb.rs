//! Turning a price snapshot into a trade: the spread decision, the router
//! lookup and the settlement payload.
use vstd::prelude::*;
use crate::bignum::{Ratio, ratio_eq, ratio_lt, be_bytes_value};
use crate::pricing::{
    PriceEntry, SpreadError, buy_index, compute_spread, count_positive, entries_wf,
    first_max_before, first_min_before, highest_price_unique, is_reordering,
    lemma_first_max_unique, lemma_first_min_unique, lemma_spread_reorder_invariant,
    lowest_price_unique, sell_index, spread_of,
};
use crate::tracker::{PriceTracker, is_pair_snapshot};
use crate::types::{Address, ArbOpportunity, DexPairConfig, DexPairKey};
use ethers::abi::Token as AbiToken;
use ethers::types::{H160, U256};

verus! {

/// An address as one ABI word: twelve zero bytes, then its twenty bytes.
pub open spec fn address_word(a: Address) -> Seq<u8> {
    Seq::new(12, |i: int| 0u8) + a.bytes@
}

/// The settlement payload of an opportunity: five 32-byte words, in order the
/// trade amount (big-endian), the quote asset, the base asset, the buy-venue
/// router and the sell-venue router.
pub open spec fn calldata_ok(c: Seq<u8>, o: ArbOpportunity) -> bool {
    &&& c.len() == 160
    &&& be_bytes_value(c.subrange(0, 32)) == o.trade_amt as nat
    &&& c.subrange(32, 64) == address_word(o.quote_asset)
    &&& c.subrange(64, 96) == address_word(o.base_asset)
    &&& c.subrange(96, 128) == address_word(o.buy_dex)
    &&& c.subrange(128, 160) == address_word(o.sell_dex)
}

/// Relies on `ethers::abi::encode`: static tokens are encoded one 32-byte word
/// each, in order; an unsigned integer as its big-endian value, an address
/// left-padded with twelve zero bytes.
#[verifier::external_body]
fn abi_encode_opportunity(o: &ArbOpportunity) -> (r: Vec<u8>)
    ensures
        calldata_ok(r@, *o),
{
    ethers::abi::encode(
        &[
            AbiToken::Uint(U256::from(o.trade_amt)),
            AbiToken::Address(H160(o.quote_asset.bytes)),
            AbiToken::Address(H160(o.base_asset.bytes)),
            AbiToken::Address(H160(o.buy_dex.bytes)),
            AbiToken::Address(H160(o.sell_dex.bytes)),
        ],
    )
}

/// The settlement payload for an opportunity, in the settlement contract's
/// fixed field order.
pub fn create_arb_calldata(arb_opp: &ArbOpportunity) -> (r: Vec<u8>)
    ensures
        calldata_ok(r@, *arb_opp),
{
    abi_encode_opportunity(arb_opp)
}

/// The router of the first entry for `factory`, if any.
pub open spec fn router_lookup(entries: Seq<(Address, Address)>, factory: Address) -> Option<Address>
    decreases entries.len(),
{
    if entries.len() == 0 {
        None
    } else if entries[0].0 == factory {
        Some(entries[0].1)
    } else {
        router_lookup(entries.drop_first(), factory)
    }
}

/// Which router trades on each venue, keyed by the venue's factory.
#[derive(Debug)]
pub struct RouterTable {
    pub entries: Vec<(Address, Address)>,
}

impl RouterTable {
    pub open spec fn lookup(&self, factory: Address) -> Option<Address> {
        router_lookup(self.entries@, factory)
    }

    pub fn router_for(&self, factory: Address) -> (r: Option<Address>)
        ensures
            r == self.lookup(factory),
    {
        let n = self.entries.len();
        let mut k: usize = 0;
        assert(self.entries@.subrange(0, n as int) =~= self.entries@);
        while k < n
            invariant
                n == self.entries@.len(),
                0 <= k <= n,
                router_lookup(self.entries@, factory) == router_lookup(
                    self.entries@.subrange(k as int, n as int),
                    factory,
                ),
            decreases n - k,
        {
            let ghost rest = self.entries@.subrange(k as int, n as int);
            assert(rest.drop_first() =~= self.entries@.subrange(k + 1, n as int));
            if self.entries[k].0 == factory {
                return Some(self.entries[k].1);
            }
            k = k + 1;
        }
        None
    }
}

/// Why an opportunity was given up.
#[derive(Clone, Copy, Debug)]
pub enum ArbError {
    /// No router is configured for this venue factory.
    RouterNotConfigured(Address),
}

/// Builds the opportunity for a pair between two venues and its settlement
/// payload; fails when either venue has no router (the buy venue is looked
/// up first).
pub fn handle_arb_opportunity(
    buy_k: DexPairKey,
    sell_k: DexPairKey,
    pair: &DexPairConfig,
    routers: &RouterTable,
) -> (r: Result<(ArbOpportunity, Vec<u8>), ArbError>)
    ensures
        match r {
            Ok((o, calldata)) => {
                &&& routers.lookup(buy_k.dex_factory) == Some(o.buy_dex)
                &&& routers.lookup(sell_k.dex_factory) == Some(o.sell_dex)
                &&& o.trade_amt == pair.trade_size
                &&& o.base_asset == pair.base.id
                &&& o.quote_asset == pair.quote.id
                &&& calldata_ok(calldata@, o)
            },
            Err(ArbError::RouterNotConfigured(f)) => {
                ||| routers.lookup(buy_k.dex_factory) is None && f == buy_k.dex_factory
                ||| routers.lookup(buy_k.dex_factory) is Some && routers.lookup(
                    sell_k.dex_factory,
                ) is None && f == sell_k.dex_factory
            },
        },
{
    let buy_dex = match routers.router_for(buy_k.dex_factory) {
        Some(a) => a,
        None => return Err(ArbError::RouterNotConfigured(buy_k.dex_factory)),
    };
    let sell_dex = match routers.router_for(sell_k.dex_factory) {
        Some(a) => a,
        None => return Err(ArbError::RouterNotConfigured(sell_k.dex_factory)),
    };
    let o = ArbOpportunity {
        trade_amt: pair.trade_size,
        base_asset: pair.base.id,
        quote_asset: pair.quote.id,
        buy_dex,
        sell_dex,
    };
    let calldata = create_arb_calldata(&o);
    Ok((o, calldata))
}

/// The outcome of one evaluation cycle.
#[derive(Debug)]
pub enum WorkerDecision {
    /// Fewer than two sources with a positive price.
    Idle,
    /// The spread, below the threshold.
    BelowThreshold(Ratio),
    /// An opportunity to submit, with its settlement payload.
    Execute(ArbOpportunity, Vec<u8>),
    /// The spread met the threshold but the opportunity could not be built.
    Abandoned(ArbError),
}

/// The decisions of the evaluator for one tradable pair.
#[derive(Debug)]
pub struct ArbWorker {
    pub pair: DexPairConfig,
    /// The least spread worth trading.
    pub threshold: Ratio,
    pub routers: RouterTable,
}

impl ArbWorker {
    pub fn new(pair: DexPairConfig, threshold: Ratio, routers: RouterTable) -> (r: ArbWorker)
        ensures
            r.pair == pair,
            r.threshold@ == threshold@,
            r.routers.entries@ == routers.entries@,
    {
        ArbWorker { pair, threshold, routers }
    }

    /// What one evaluation decides on a snapshot `s`: idle with fewer than two
    /// positive prices; otherwise the spread between the first cheapest and the
    /// first dearest source, reported when below the threshold, else a trade
    /// between them or the reason it was given up.
    pub open spec fn decision_ok(&self, s: Seq<PriceEntry>, r: WorkerDecision) -> bool {
        let buy = s[buy_index(s)];
        let sell = s[sell_index(s)];
        let spread = spread_of(buy.1.price@, sell.1.price@);
        match r {
            WorkerDecision::Idle => count_positive(s, s.len() as int) < 2,
            WorkerDecision::BelowThreshold(sp) => count_positive(s, s.len() as int) >= 2
                && sp@ == spread && ratio_lt(spread, self.threshold@),
            WorkerDecision::Execute(o, calldata) => {
                &&& count_positive(s, s.len() as int) >= 2
                &&& !ratio_lt(spread, self.threshold@)
                &&& self.routers.lookup(buy.0.dex_factory) == Some(o.buy_dex)
                &&& self.routers.lookup(sell.0.dex_factory) == Some(o.sell_dex)
                &&& o.trade_amt == self.pair.trade_size
                &&& o.base_asset == self.pair.base.id
                &&& o.quote_asset == self.pair.quote.id
                &&& calldata_ok(calldata@, o)
            },
            WorkerDecision::Abandoned(ArbError::RouterNotConfigured(f)) => {
                &&& count_positive(s, s.len() as int) >= 2
                &&& !ratio_lt(spread, self.threshold@)
                &&& {
                    ||| self.routers.lookup(buy.0.dex_factory) is None && f
                        == buy.0.dex_factory
                    ||| self.routers.lookup(buy.0.dex_factory) is Some
                        && self.routers.lookup(sell.0.dex_factory) is None && f
                        == sell.0.dex_factory
                }
            },
        }
    }

    /// One evaluation on a snapshot of this pair's prices: idle with fewer
    /// than two positive prices; otherwise the spread `max / min - 1`, and a
    /// trade from the cheapest to the dearest source when it reaches the
    /// threshold.
    pub fn evaluate(&self, prices: &[PriceEntry]) -> (r: WorkerDecision)
        requires
            entries_wf(prices@),
            self.threshold.wf(),
        ensures
            self.decision_ok(prices@, r),
    {
        match compute_spread(prices) {
            Err(SpreadError::InsufficientSources) => WorkerDecision::Idle,
            Ok((spread, buy_k, sell_k)) => {
                if spread.lt(&self.threshold) {
                    WorkerDecision::BelowThreshold(spread)
                } else {
                    match handle_arb_opportunity(buy_k, sell_k, &self.pair, &self.routers) {
                        Ok((o, calldata)) => WorkerDecision::Execute(o, calldata),
                        Err(e) => WorkerDecision::Abandoned(e),
                    }
                }
            },
        }
    }
}

impl ArbWorker {
    /// One evaluation cycle: a snapshot of this pair's prices from the
    /// tracker, then `evaluate` on it.
    pub fn on_block(&self, tracker: &PriceTracker) -> (r: WorkerDecision)
        requires
            tracker.wf(),
            self.threshold.wf(),
        ensures
            exists|snapshot: Seq<PriceEntry>|
                is_pair_snapshot(tracker@, self.pair.base.id, self.pair.quote.id, snapshot)
                    && self.decision_ok(snapshot, r),
    {
        let prices = tracker.get_all_for_pair(self.pair.base.id, self.pair.quote.id);
        let r = self.evaluate(prices.as_slice());
        assert(is_pair_snapshot(tracker@, self.pair.base.id, self.pair.quote.id, prices@));
        r
    }
}

/// One arrival on the block channel.
#[derive(Clone, Copy, Debug)]
pub enum BlockEvent {
    /// A new block.
    Block,
    /// The worker fell behind; this many notifications were skipped.
    Lagged(u64),
    /// The channel closed.
    Closed,
}

/// What the worker does after an arrival on the block channel.
#[derive(Debug)]
pub enum WorkerStep {
    /// One evaluation cycle ran.
    Evaluated(WorkerDecision),
    /// A skipped backlog; wait for the next block.
    Skipped,
    /// The channel closed; the worker is done.
    Stopped,
}

impl ArbWorker {
    /// Reacts to one arrival: a block runs an evaluation cycle on the
    /// tracker, a lag is skipped without blocking anything, a closed channel
    /// stops the worker.
    pub fn on_block_event(&self, event: BlockEvent, tracker: &PriceTracker) -> (r: WorkerStep)
        requires
            tracker.wf(),
            self.threshold.wf(),
        ensures
            match event {
                BlockEvent::Block => r matches WorkerStep::Evaluated(d) && exists|
                    snapshot: Seq<PriceEntry>,
                | is_pair_snapshot(tracker@, self.pair.base.id, self.pair.quote.id, snapshot)
                    && self.decision_ok(snapshot, d),
                BlockEvent::Lagged(_) => r is Skipped,
                BlockEvent::Closed => r is Stopped,
            },
    {
        match event {
            BlockEvent::Block => WorkerStep::Evaluated(self.on_block(tracker)),
            BlockEvent::Lagged(_) => WorkerStep::Skipped,
            BlockEvent::Closed => WorkerStep::Stopped,
        }
    }
}

/// Three sources quoting 100.0, 100.3 and 99.7 for the pair, listed in any
/// order, against a 0.2% threshold: the spread `100.3 / 99.7 - 1` (about
/// 0.6%) triggers a trade that buys at the 99.7 source and sells at the
/// 100.3 source, whenever both have a router.
pub proof fn lemma_three_venue_trigger(
    w: ArbWorker,
    a: Seq<PriceEntry>,
    snapshot: Seq<PriceEntry>,
    perm: Seq<int>,
    inv: Seq<int>,
    r: WorkerDecision,
)
    requires
        a.len() == 3,
        a[0].1.price@ == (1000nat, 10nat),
        a[1].1.price@ == (1003nat, 10nat),
        a[2].1.price@ == (997nat, 10nat),
        w.threshold@ == (2nat, 1000nat),
        w.routers.lookup(a[1].0.dex_factory) is Some,
        w.routers.lookup(a[2].0.dex_factory) is Some,
        is_reordering(a, snapshot, perm, inv),
        w.decision_ok(snapshot, r),
    ensures
        r matches WorkerDecision::Execute(o, calldata) && {
            &&& w.routers.lookup(a[2].0.dex_factory) == Some(o.buy_dex)
            &&& w.routers.lookup(a[1].0.dex_factory) == Some(o.sell_dex)
            &&& o.trade_amt == w.pair.trade_size
            &&& o.base_asset == w.pair.base.id
            &&& o.quote_asset == w.pair.quote.id
            &&& calldata_ok(calldata@, o)
        },
{
    assert(entries_wf(a));
    assert(count_positive(a, 0) == 0);
    assert(count_positive(a, 1) == 1);
    assert(count_positive(a, 2) == 2);
    assert(count_positive(a, 3) == 3);
    let p0 = (1000nat, 10nat);
    let p1 = (1003nat, 10nat);
    let p2 = (997nat, 10nat);
    lemma_tenths_distinct(1000, 1003);
    lemma_tenths_distinct(1003, 1000);
    lemma_tenths_distinct(1000, 997);
    lemma_tenths_distinct(997, 1000);
    lemma_tenths_distinct(1003, 997);
    lemma_tenths_distinct(997, 1003);
    assert forall|i: int, j: int|
        0 <= i < 3 && 0 <= j < 3 && i != j implies !ratio_eq(
        #[trigger] a[i].1.price@,
        #[trigger] a[j].1.price@,
    ) by {
        assert(a[0].1.price@ == p0 && a[1].1.price@ == p1 && a[2].1.price@ == p2);
    }
    assert(lowest_price_unique(a));
    assert(highest_price_unique(a));
    assert(first_min_before(a, 2, 3));
    assert(first_max_before(a, 1, 3));
    lemma_first_min_unique(a, buy_index(a), 2, 3);
    lemma_first_max_unique(a, sell_index(a), 1, 3);
    lemma_spread_reorder_invariant(a, snapshot, perm, inv);
    let sp = spread_of(p2, p1);
    assert(sp == (60nat, 9970nat) && !ratio_lt(sp, (2nat, 1000nat))) by (nonlinear_arith)
        requires
            sp == spread_of(p2, p1),
            p1 == (1003nat, 10nat),
            p2 == (997nat, 10nat),
    ;
}

/// Two fractions in tenths with different numerators differ.
proof fn lemma_tenths_distinct(x: nat, y: nat)
    requires
        x != y,
    ensures
        !ratio_eq((x, 10nat), (y, 10nat)),
{
    assert(x * 10 != y * 10) by (nonlinear_arith)
        requires
            x != y,
    ;
}

} // verus!
