//! The shared cache of the latest price per source.
use vstd::prelude::*;
use crate::bignum::Ratio;
use crate::pricing::{PriceEntry, entries_wf, entry_positive};
use crate::types::{Address, DexPairKey, PriceInfo};

verus! {

/// What the cache holds for one source: base, quote and price as a fraction.
pub type SampleView = (Address, Address, (nat, nat));

/// `r` lists, once each and in any order, exactly the sources of `m` whose
/// stored base and quote are `base` and `quote`, with their samples; every
/// listed price is a positive fraction.
pub open spec fn is_pair_snapshot(
    m: Map<DexPairKey, SampleView>,
    base: Address,
    quote: Address,
    r: Seq<PriceEntry>,
) -> bool {
    &&& entries_wf(r)
    &&& forall|i: int|
        0 <= i < r.len() ==> entry_positive(#[trigger] r[i]) && m.contains_key(r[i].0) && m[r[i].0]
            == r[i].1@ && PriceTracker::sample_matches(r[i].1@, base, quote)
    &&& forall|k: DexPairKey|
        #[trigger] m.contains_key(k) && PriceTracker::sample_matches(m[k], base, quote) ==> exists|
            i: int,
        | 0 <= i < r.len() && (#[trigger] r[i]).0 == k
    &&& forall|i: int, j: int|
        0 <= i < r.len() && 0 <= j < r.len() && i != j ==> (#[trigger] r[i]).0 != (#[trigger] r[j]).0
}

/// Latest canonical price per source (venue factory and pool). Each key maps
/// to at most one sample and every stored price is positive; a write replaces
/// what was there.
///
/// The samples are held in a vector with unique keys rather than a hash map:
/// the key is a struct whose `Hash` and `Eq` are derived, and for such keys
/// the map's specification lets little about lookups and inserts be proved,
/// while a scan over a vector is proved in full. The number of sources is
/// small, so a write costs a scan of a few entries.
pub struct PriceTracker {
    entries: Vec<PriceEntry>,
}

impl View for PriceTracker {
    type V = Map<DexPairKey, SampleView>;

    closed spec fn view(&self) -> Map<DexPairKey, SampleView> {
        Map::new(
            |k: DexPairKey| self.has_key(k),
            |k: DexPairKey| self.entries@[self.index_of(k)].1@,
        )
    }
}

impl PriceTracker {
    closed spec fn has_key(&self, k: DexPairKey) -> bool {
        exists|i: int| 0 <= i < self.entries@.len() && (#[trigger] self.entries@[i]).0 == k
    }

    closed spec fn index_of(&self, k: DexPairKey) -> int {
        choose|i: int| 0 <= i < self.entries@.len() && (#[trigger] self.entries@[i]).0 == k
    }

    /// Keys are unique and every stored price is a positive fraction.
    pub closed spec fn wf(&self) -> bool {
        &&& entries_wf(self.entries@)
        &&& forall|i: int|
            0 <= i < self.entries@.len() ==> entry_positive(#[trigger] self.entries@[i])
        &&& forall|i: int, j: int|
            0 <= i < self.entries@.len() && 0 <= j < self.entries@.len() && i != j
                ==> (#[trigger] self.entries@[i]).0 != (#[trigger] self.entries@[j]).0
    }

    /// Whether a stored sample is for exactly this base and quote.
    pub open spec fn sample_matches(v: SampleView, base: Address, quote: Address) -> bool {
        v.0 == base && v.1 == quote
    }

    proof fn lemma_view_at(&self, i: int)
        requires
            self.wf(),
            0 <= i < self.entries@.len(),
        ensures
            self@.contains_key(self.entries@[i].0),
            self@[self.entries@[i].0] == self.entries@[i].1@,
    {
        let k = self.entries@[i].0;
        assert(self.has_key(k));
        let j = self.index_of(k);
        assert(self.entries@[j].0 == k);
    }

    pub fn new() -> (r: PriceTracker)
        ensures
            r.wf(),
            r@ == Map::<DexPairKey, SampleView>::empty(),
    {
        let r = PriceTracker { entries: Vec::new() };
        assert(r@ =~= Map::<DexPairKey, SampleView>::empty());
        r
    }

    /// Records the latest price of the source `(dex_factory, pair_address)`,
    /// replacing any earlier one.
    pub fn update(
        &mut self,
        dex_factory: Address,
        pair_address: Address,
        base: Address,
        quote: Address,
        price: Ratio,
    )
        requires
            old(self).wf(),
            price.wf(),
            price.is_positive(),
        ensures
            final(self).wf(),
            final(self)@ == old(self)@.insert(
                DexPairKey { dex_factory, pair_address },
                (base, quote, price@),
            ),
    {
        let key = DexPairKey { dex_factory, pair_address };
        let info = PriceInfo { base, quote, price };
        let ghost old_self = *self;
        let ghost v = info@;
        let n = self.entries.len();
        let mut i: usize = 0;
        while i < n
            invariant
                *self == old_self,
                old_self == *old(self),
                old_self.wf(),
                info.price.wf(),
                info.price.is_positive(),
                info@ == v,
                v == (base, quote, price@),
                key == (DexPairKey { dex_factory, pair_address }),
                n == self.entries@.len(),
                0 <= i <= n,
                forall|j: int| 0 <= j < i ==> (#[trigger] self.entries@[j]).0 != key,
            decreases n - i,
        {
            if self.entries[i].0 == key {
                self.entries.set(i, (key, info));
                proof {
                    let ii = i as int;
                    let s0 = old_self.entries@;
                    let s1 = self.entries@;
                    assert(s1 == s0.update(ii, (key, info)));
                    assert forall|j: int| 0 <= j < s1.len() implies (#[trigger] s1[j]).0 == s0[j].0
                        by {}
                    assert(s0[ii].0 == key);
                    assert(old_self.has_key(key));
                    assert forall|k: DexPairKey| self.has_key(k) == old_self.has_key(k) by {
                        if old_self.has_key(k) {
                            let j = choose|j: int| 0 <= j < s0.len() && (#[trigger] s0[j]).0 == k;
                            assert(s1[j].0 == k);
                        }
                        if self.has_key(k) {
                            let j = choose|j: int| 0 <= j < s1.len() && (#[trigger] s1[j]).0 == k;
                            assert(s0[j].0 == k);
                        }
                    }
                    assert(self.wf());
                    assert forall|k: DexPairKey| #[trigger] self@.contains_key(k) implies self@[k]
                        == old_self@.insert(key, v)[k] by {
                        let j = self.index_of(k);
                        if k == key {
                            assert(s1[ii].0 == key);
                        } else {
                            old_self.lemma_view_at(j);
                        }
                    }
                    assert(self@ =~= old_self@.insert(key, v));
                }
                return;
            }
            i = i + 1;
        }
        self.entries.push((key, info));
        proof {
            let s0 = old_self.entries@;
            let s1 = self.entries@;
            assert(s1 == s0.push((key, info)));
            assert(!old_self.has_key(key));
            assert(s1[n as int].0 == key);
            assert forall|k: DexPairKey| self.has_key(k) == (old_self.has_key(k) || k == key) by {
                if old_self.has_key(k) {
                    let j = choose|j: int| 0 <= j < s0.len() && (#[trigger] s0[j]).0 == k;
                    assert(s1[j].0 == k);
                }
                if self.has_key(k) && k != key {
                    let j = choose|j: int| 0 <= j < s1.len() && (#[trigger] s1[j]).0 == k;
                    assert(s0[j].0 == k);
                }
            }
            assert(self.wf());
            assert forall|k: DexPairKey| #[trigger] self@.contains_key(k) implies self@[k]
                == old_self@.insert(key, v)[k] by {
                let j = self.index_of(k);
                if k == key {
                    assert(s1[n as int].0 == key);
                } else {
                    old_self.lemma_view_at(j);
                }
            }
            assert(self@ =~= old_self@.insert(key, v));
        }
    }

    /// A snapshot of every source whose stored base and quote are exactly
    /// `base` and `quote`, in no particular order.
    pub fn get_all_for_pair(&self, base: Address, quote: Address) -> (r: Vec<PriceEntry>)
        requires
            self.wf(),
        ensures
            is_pair_snapshot(self@, base, quote, r@),
    {
        let ghost s = self.entries@;
        let mut r: Vec<PriceEntry> = Vec::new();
        let n = self.entries.len();
        let mut k: usize = 0;
        while k < n
            invariant
                s == self.entries@,
                self.wf(),
                n == s.len(),
                0 <= k <= n,
                forall|i: int|
                    0 <= i < r@.len() ==> exists|j: int|
                        0 <= j < k && (#[trigger] s[j]).0 == (#[trigger] r@[i]).0 && s[j].1@
                            == r@[i].1@,
                forall|i: int|
                    0 <= i < r@.len() ==> Self::sample_matches((#[trigger] r@[i]).1@, base, quote),
                forall|j: int|
                    0 <= j < k && Self::sample_matches((#[trigger] s[j]).1@, base, quote)
                        ==> exists|i: int| 0 <= i < r@.len() && (#[trigger] r@[i]).0 == s[j].0,
                forall|i: int, j: int|
                    0 <= i < r@.len() && 0 <= j < r@.len() && i != j ==> (#[trigger] r@[i]).0
                        != (#[trigger] r@[j]).0,
            decreases n - k,
        {
            let e = &self.entries[k];
            if e.1.base == base && e.1.quote == quote {
                let ghost before = r@;
                let item = (e.0, e.1.clone());
                r.push(item);
                proof {
                    let kk = k as int;
                    assert(r@ == before.push(item));
                    assert forall|i: int|
                        0 <= i < r@.len() implies exists|j: int|
                            0 <= j < k + 1 && (#[trigger] s[j]).0 == (#[trigger] r@[i]).0 && s[j].1@
                                == r@[i].1@ by {
                        if i < before.len() {
                            assert(before[i] == r@[i]);
                        } else {
                            assert(s[kk].0 == r@[i].0);
                        }
                    }
                    assert forall|i: int, j: int|
                        0 <= i < r@.len() && 0 <= j < r@.len() && i != j implies (#[trigger] r@[i]).0
                            != (#[trigger] r@[j]).0 by {
                        if i == before.len() && j < before.len() {
                            assert(before[j] == r@[j]);
                            let jj = choose|jj: int|
                                0 <= jj < kk && (#[trigger] s[jj]).0 == before[j].0 && s[jj].1@
                                    == before[j].1@;
                            assert(s[jj].0 != s[kk].0);
                        } else if j == before.len() && i < before.len() {
                            assert(before[i] == r@[i]);
                            let jj = choose|jj: int|
                                0 <= jj < kk && (#[trigger] s[jj]).0 == before[i].0 && s[jj].1@
                                    == before[i].1@;
                            assert(s[jj].0 != s[kk].0);
                        } else if i < before.len() && j < before.len() {
                            assert(before[i] == r@[i]);
                            assert(before[j] == r@[j]);
                        }
                    }
                    assert forall|j: int|
                        0 <= j < k + 1 && Self::sample_matches((#[trigger] s[j]).1@, base, quote)
                            implies exists|i: int| 0 <= i < r@.len() && (#[trigger] r@[i]).0 == s[j].0 by {
                        if j < kk {
                            let i = choose|i: int| 0 <= i < before.len() && (#[trigger] before[i]).0 == s[j].0;
                            assert(r@[i] == before[i]);
                        } else {
                            assert(r@[before.len() as int].0 == s[j].0);
                        }
                    }
                }
            }
            k = k + 1;
        }
        proof {
            assert forall|i: int|
                0 <= i < r@.len() implies entry_positive(#[trigger] r@[i]) && self@.contains_key(r@[i].0)
                    && self@[r@[i].0] == r@[i].1@ && r@[i].1.price.wf() by {
                let j = choose|j: int|
                    0 <= j < n && (#[trigger] s[j]).0 == (#[trigger] r@[i]).0 && s[j].1@ == r@[i].1@;
                self.lemma_view_at(j);
            }
            assert forall|kk: DexPairKey|
                #[trigger] self@.contains_key(kk) && Self::sample_matches(self@[kk], base, quote)
                    implies exists|i: int| 0 <= i < r@.len() && (#[trigger] r@[i]).0 == kk by {
                let j = self.index_of(kk);
                assert(s[j].0 == kk);
            }
        }
        r
    }
}

/// Writing the same sample to the same source twice leaves the cache as a
/// single write does.
pub proof fn lemma_update_idempotent(t: PriceTracker, key: DexPairKey, sample: SampleView)
    ensures
        t@.insert(key, sample).insert(key, sample) == t@.insert(key, sample),
{
    assert(t@.insert(key, sample).insert(key, sample) =~= t@.insert(key, sample));
}

/// Of two writes to the same source, the later one is what remains, whatever
/// the earlier one held.
pub proof fn lemma_update_last_write_wins(
    t: PriceTracker,
    key: DexPairKey,
    first: SampleView,
    second: SampleView,
)
    ensures
        t@.insert(key, first).insert(key, second) == t@.insert(key, second),
{
    assert(t@.insert(key, first).insert(key, second) =~= t@.insert(key, second));
}

} // verus!
