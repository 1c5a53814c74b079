//! The price cache: latest sample per instrument, last write wins.
//!
//! The store is the one piece of state shared between the decode path
//! (its single writer) and any readers; the shell wraps it in whatever
//! access discipline its runtime offers, while the operations here carry
//! the map contract that must hold regardless of that mechanism.

use crate::types::{StockPrice, StockPriceModel};
use vstd::prelude::*;

verus! {

/// Samples as their models.
pub open spec fn entries_models(s: Seq<StockPrice>) -> Seq<StockPriceModel> {
    s.map_values(|p: StockPrice| p@)
}

/// Map stood for by a run of entries; a later entry overrides an
/// earlier one of the same symbol.
pub open spec fn entries_map(s: Seq<StockPriceModel>) -> Map<Seq<u8>, StockPriceModel>
    decreases s.len(),
{
    if s.len() == 0 {
        Map::empty()
    } else {
        entries_map(s.drop_last()).insert(s.last().symbol, s.last())
    }
}

/// In-memory cache of the latest price sample per instrument symbol.
pub struct PriceStore {
    entries: Vec<StockPrice>,
}

impl View for PriceStore {
    type V = Map<Seq<u8>, StockPriceModel>;

    closed spec fn view(&self) -> Map<Seq<u8>, StockPriceModel> {
        entries_map(entries_models(self.entries@))
    }
}

impl PriceStore {
    /// One entry per symbol.
    pub closed spec fn wf(&self) -> bool {
        forall|i: int, j: int|
            0 <= i < j < self.entries@.len() ==> self.entries@[i].symbol@ != self.entries@[j].symbol@
    }

    pub fn new() -> (r: Self)
        ensures
            r@ == Map::<Seq<u8>, StockPriceModel>::empty(),
            r.wf(),
    {
        let r = PriceStore { entries: Vec::new() };
        proof {
            assert(entries_models(r.entries@) =~= Seq::<StockPriceModel>::empty());
        }
        r
    }

    /// Inserts or overwrites the entry for the sample's symbol; the
    /// store never rejects a write.
    pub fn put(&mut self, sample: StockPrice)
        requires
            old(self).wf(),
        ensures
            final(self).wf(),
            final(self)@ == old(self)@.insert(sample@.symbol, sample@),
    {
        let ghost ms = entries_models(self.entries@);
        proof {
            assert forall|j: int| 0 <= j < ms.len() implies #[trigger] ms[j]
                == self.entries@[j]@ by {
                assert(entries_models(self.entries@)[j] == self.entries@[j]@);
            }
        }
        let n = self.entries.len();
        let mut i: usize = 0;
        while i < n
            invariant
                i <= n,
                n == self.entries@.len(),
                self == old(self),
                self.wf(),
                ms == entries_models(self.entries@),
                forall|j: int| 0 <= j < ms.len() ==> #[trigger] ms[j] == self.entries@[j]@,
                forall|k: int| 0 <= k < i ==> self.entries@[k].symbol@ != sample.symbol@,
            decreases n - i,
        {
            if bytes_eq(&self.entries[i].symbol, &sample.symbol) {
                let ghost prev = self.entries@;
                proof {
                    assert(ms[i as int].symbol == sample@.symbol);
                    assert forall|j: int| i < j < ms.len() implies (#[trigger] ms[j].symbol)
                        != sample@.symbol by {
                        assert(prev[i as int].symbol@ != prev[j].symbol@);
                    }
                    lemma_entries_map_update(ms, i as int, sample@);
                }
                self.entries[i] = sample;
                proof {
                    assert(self.entries@ =~= prev.update(i as int, sample));
                    assert forall|j: int| 0 <= j < self.entries@.len() implies #[trigger] entries_models(
                        self.entries@,
                    )[j] == ms.update(i as int, sample@)[j] by {
                        assert(entries_models(self.entries@)[j] == self.entries@[j]@);
                    }
                    assert(entries_models(self.entries@) =~= ms.update(i as int, sample@));
                    assert forall|a: int, b: int|
                        0 <= a < b < self.entries@.len() implies self.entries@[a].symbol@
                        != self.entries@[b].symbol@ by {
                        assert(prev[a].symbol@ != prev[b].symbol@);
                    }
                }
                return;
            }
            i = i + 1;
        }
        let ghost prev = self.entries@;
        self.entries.push(sample);
        proof {
            let ms2 = entries_models(self.entries@);
            assert forall|j: int| 0 <= j < ms2.len() implies #[trigger] ms2[j]
                == self.entries@[j]@ by {
                assert(entries_models(self.entries@)[j] == self.entries@[j]@);
            }
            assert(ms2.drop_last() =~= ms);
            assert(ms2.last() == sample@);
            assert forall|a: int, b: int|
                0 <= a < b < self.entries@.len() implies self.entries@[a].symbol@
                != self.entries@[b].symbol@ by {
                if b < prev.len() {
                    assert(prev[a].symbol@ != prev[b].symbol@);
                } else {
                    assert(prev[a].symbol@ != sample.symbol@);
                }
            }
        }
    }

    /// Writes a run of samples in order, one `put` each.
    pub fn put_all(&mut self, samples: Vec<StockPrice>)
        requires
            old(self).wf(),
        ensures
            final(self).wf(),
            final(self)@ == store_after(old(self)@, entries_models(samples@)),
    {
        let ghost all = entries_models(samples@);
        proof {
            assert forall|j: int| 0 <= j < all.len() implies #[trigger] all[j]
                == samples@[j]@ by {
                assert(entries_models(samples@)[j] == samples@[j]@);
            }
        }
        let mut rest = samples;
        let mut done: usize = 0;
        let cap = rest.len();
        proof {
            assert(self@ == store_after(old(self)@, all.take(0)));
        }
        while rest.len() > 0
            invariant
                self.wf(),
                all.len() == cap <= usize::MAX,
                done + rest@.len() == all.len(),
                forall|m: int| 0 <= m < rest@.len() ==> #[trigger] rest@[m]@ == all[done + m],
                self@ == store_after(old(self)@, all.take(done as int)),
            decreases rest@.len(),
        {
            let ghost k = done as int;
            let s = rest.remove(0);
            proof {
                assert(s@ == all[k]);
                assert(forall|m: int|
                    0 <= m < rest@.len() ==> #[trigger] rest@[m]@ == all[k + 1 + m]);
            }
            self.put(s);
            done = done + 1;
            proof {
                assert(all.take(k + 1).drop_last() =~= all.take(k));
                assert(all.take(k + 1).last() == all[k]);
            }
        }
        proof {
            assert(all.take(all.len() as int) =~= all);
        }
    }

    /// The entry for one symbol, if the store holds one.
    pub fn get(&self, symbol: &Vec<u8>) -> (r: Option<&StockPrice>)
        requires
            self.wf(),
        ensures
            match r {
                Some(p) => self@.contains_key(symbol@) && p@ == self@[symbol@],
                None => !self@.contains_key(symbol@),
            },
    {
        let ghost ms = entries_models(self.entries@);
        let n = self.entries.len();
        let mut i: usize = 0;
        while i < n
            invariant
                i <= n,
                n == self.entries@.len(),
                self.wf(),
                ms == entries_models(self.entries@),
                forall|k: int| 0 <= k < i ==> self.entries@[k].symbol@ != symbol@,
            decreases n - i,
        {
            if bytes_eq(&self.entries[i].symbol, &symbol) {
                proof {
                    lemma_entries_map_get(ms, i as int);
                }
                return Some(&self.entries[i]);
            }
            i = i + 1;
        }
        proof {
            lemma_entries_map_keys(ms);
            assert(forall|k: int| 0 <= k < ms.len() ==> (#[trigger] ms[k].symbol) != symbol@);
            assert(!self@.contains_key(symbol@)) by {
                if self@.contains_key(symbol@) {
                    let i = choose|i: int| 0 <= i < ms.len() && (#[trigger] ms[i].symbol) == symbol@;
                    assert(ms[i].symbol != symbol@);
                }
            }
        }
        None
    }

    /// Whether the store holds no entry at all.
    pub fn is_empty(&self) -> (r: bool)
        requires
            self.wf(),
        ensures
            r == (self@ =~= Map::<Seq<u8>, StockPriceModel>::empty()),
    {
        let ghost ms = entries_models(self.entries@);
        proof {
            lemma_entries_map_keys(ms);
            if ms.len() > 0 {
                let k = ms[ms.len() - 1].symbol;
                assert(exists|i: int| 0 <= i < ms.len() && (#[trigger] ms[i].symbol) == k) by {
                    assert(ms[ms.len() - 1].symbol == k);
                }
                assert(self@.contains_key(k));
            } else {
                assert(ms =~= Seq::<StockPriceModel>::empty());
            }
        }
        self.entries.len() == 0
    }

    /// A point-in-time copy of all entries, for read-only consumption:
    /// exactly the store's entries, one per symbol, in no stated order.
    pub fn snapshot(&self) -> (r: Vec<StockPrice>)
        requires
            self.wf(),
        ensures
            forall|i: int|
                0 <= i < r@.len() ==> self@.contains_key(#[trigger] r@[i]@.symbol) && self@[r@[i]@.symbol]
                    == r@[i]@,
            forall|k: Seq<u8>|
                self@.contains_key(k) ==> exists|i: int| 0 <= i < r@.len() && #[trigger] r@[i]@.symbol == k,
            forall|i: int, j: int| 0 <= i < j < r@.len() ==> r@[i]@.symbol != r@[j]@.symbol,
    {
        let ghost ms = entries_models(self.entries@);
        let n = self.entries.len();
        let mut r: Vec<StockPrice> = Vec::new();
        let mut i: usize = 0;
        while i < n
            invariant
                i <= n,
                n == self.entries@.len(),
                self.wf(),
                ms == entries_models(self.entries@),
                r@.len() == i,
                forall|k: int| 0 <= k < i ==> #[trigger] r@[k]@ == self.entries@[k]@,
            decreases n - i,
        {
            let dup = self.entries[i].duplicate();
            r.push(dup);
            i = i + 1;
        }
        proof {
            assert forall|i: int| 0 <= i < r@.len() implies self@.contains_key(
                #[trigger] r@[i]@.symbol,
            ) && self@[r@[i]@.symbol] == r@[i]@ by {
                assert(r@[i]@ == ms[i]);
                lemma_entries_map_get(ms, i);
            }
            lemma_entries_map_keys(ms);
            assert forall|k: Seq<u8>| self@.contains_key(k) implies exists|i: int|
                0 <= i < r@.len() && #[trigger] r@[i]@.symbol == k by {
                let i = choose|i: int| 0 <= i < ms.len() && (#[trigger] ms[i].symbol) == k;
                assert(r@[i]@ == ms[i]);
                assert(r@[i]@.symbol == k);
            }
        }
        r
    }
}

fn bytes_eq(a: &Vec<u8>, b: &Vec<u8>) -> (r: bool)
    ensures
        r == (a@ == b@),
{
    if a.len() != b.len() {
        return false;
    }
    let n = a.len();
    let mut i: usize = 0;
    while i < n
        invariant
            i <= n,
            n == a@.len() == b@.len(),
            forall|k: int| 0 <= k < i ==> a@[k] == b@[k],
        decreases n - i,
    {
        if a[i] != b[i] {
            return false;
        }
        i = i + 1;
    }
    proof {
        assert(a@ =~= b@);
    }
    true
}

/// The store's state after a run of samples is written in order.
pub open spec fn store_after(
    m: Map<Seq<u8>, StockPriceModel>,
    ss: Seq<StockPriceModel>,
) -> Map<Seq<u8>, StockPriceModel>
    decreases ss.len(),
{
    if ss.len() == 0 {
        m
    } else {
        store_after(m, ss.drop_last()).insert(ss.last().symbol, ss.last())
    }
}

/// Position of the most recent sample of a symbol in a run, or -1 when
/// the run holds none.
pub open spec fn last_index_of(ss: Seq<StockPriceModel>, k: Seq<u8>) -> int
    decreases ss.len(),
{
    if ss.len() == 0 {
        -1
    } else if ss.last().symbol == k {
        ss.len() - 1
    } else {
        last_index_of(ss.drop_last(), k)
    }
}

/// `last_index_of` finds the most recent sample of a symbol: it points
/// at a sample of that symbol with none after it, and is negative
/// exactly when the run holds no sample of the symbol.
pub proof fn lemma_last_index_of(ss: Seq<StockPriceModel>, k: Seq<u8>)
    ensures
        last_index_of(ss, k) >= 0 <==> exists|i: int|
            0 <= i < ss.len() && (#[trigger] ss[i].symbol) == k,
        last_index_of(ss, k) >= 0 ==> last_index_of(ss, k) < ss.len() && ss[last_index_of(
            ss,
            k,
        )].symbol == k && forall|j: int|
            last_index_of(ss, k) < j < ss.len() ==> (#[trigger] ss[j].symbol) != k,
    decreases ss.len(),
{
    if ss.len() > 0 {
        let d = ss.drop_last();
        lemma_last_index_of(d, k);
        assert(ss[ss.len() - 1] == ss.last());
        if ss.last().symbol == k {
            assert(ss[ss.len() - 1].symbol == k);
        } else {
            let li = last_index_of(d, k);
            assert(last_index_of(ss, k) == li);
            if li >= 0 {
                assert(d[li] == ss[li]);
                assert(ss[li].symbol == k);
                assert forall|j: int| li < j < ss.len() implies (#[trigger] ss[j].symbol) != k by {
                    if j < ss.len() - 1 {
                        assert(d[j].symbol != k);
                        assert(ss[j] == d[j]);
                    } else {
                        assert(ss[j] == ss.last());
                    }
                }
            } else {
                if exists|i: int| 0 <= i < ss.len() && (#[trigger] ss[i].symbol) == k {
                    let i = choose|i: int| 0 <= i < ss.len() && (#[trigger] ss[i].symbol) == k;
                    assert(i < ss.len() - 1);
                    assert(d[i] == ss[i]);
                    assert(d[i].symbol == k);
                }
            }
        }
    }
}

/// Last write wins: after a run of samples, each symbol seen in the run
/// maps to its most recent sample, and every other key keeps whatever
/// the store held before.
pub proof fn lemma_last_write_wins(
    m: Map<Seq<u8>, StockPriceModel>,
    ss: Seq<StockPriceModel>,
    k: Seq<u8>,
)
    ensures
        last_index_of(ss, k) >= 0 ==> store_after(m, ss).contains_key(k) && store_after(m, ss)[k]
            == ss[last_index_of(ss, k)],
        last_index_of(ss, k) < 0 ==> (store_after(m, ss).contains_key(k) <==> m.contains_key(k))
            && (m.contains_key(k) ==> store_after(m, ss)[k] == m[k]),
    decreases ss.len(),
{
    if ss.len() > 0 {
        let d = ss.drop_last();
        lemma_last_write_wins(m, d, k);
        if ss.last().symbol != k && last_index_of(d, k) >= 0 {
            lemma_last_index_of(d, k);
            let li = last_index_of(d, k);
            assert(last_index_of(ss, k) == li);
            assert(0 <= li < d.len());
            assert(ss[li] == d[li]);
        }
    }
}

/// Overriding the only entry of a symbol rewrites just that key.
proof fn lemma_entries_map_update(s: Seq<StockPriceModel>, i: int, v: StockPriceModel)
    requires
        0 <= i < s.len(),
        s[i].symbol == v.symbol,
        forall|j: int| i < j < s.len() ==> #[trigger] s[j].symbol != v.symbol,
    ensures
        entries_map(s.update(i, v)) == entries_map(s).insert(v.symbol, v),
    decreases s.len(),
{
    let t = s.update(i, v);
    if i == s.len() - 1 {
        assert(t.drop_last() =~= s.drop_last());
        assert(t.last() == v);
        assert(s.last().symbol == v.symbol);
        assert(entries_map(t) =~= entries_map(s).insert(v.symbol, v));
    } else {
        assert(t.drop_last() =~= s.drop_last().update(i, v));
        assert(forall|j: int|
            i < j < s.drop_last().len() ==> #[trigger] s.drop_last()[j].symbol != v.symbol);
        lemma_entries_map_update(s.drop_last(), i, v);
        assert(t.last() == s.last());
        assert(s.last().symbol != v.symbol);
        assert(entries_map(t) =~= entries_map(s).insert(v.symbol, v));
    }
}

/// With no later entry of the same symbol, entry `i` is the map's value
/// at its symbol.
proof fn lemma_entries_map_get(s: Seq<StockPriceModel>, i: int)
    requires
        0 <= i < s.len(),
        forall|j: int, k: int| 0 <= j < k < s.len() ==> s[j].symbol != s[k].symbol,
    ensures
        entries_map(s).contains_key(s[i].symbol),
        entries_map(s)[s[i].symbol] == s[i],
    decreases s.len(),
{
    if i == s.len() - 1 {
    } else {
        lemma_entries_map_get(s.drop_last(), i);
        assert(s.last().symbol != s[i].symbol);
    }
}

/// The map's keys are exactly the symbols of the entries.
proof fn lemma_entries_map_keys(s: Seq<StockPriceModel>)
    ensures
        forall|k: Seq<u8>|
            #[trigger] entries_map(s).contains_key(k) <==> exists|i: int|
                0 <= i < s.len() && (#[trigger] s[i].symbol) == k,
    decreases s.len(),
{
    if s.len() > 0 {
        let d = s.drop_last();
        lemma_entries_map_keys(d);
        assert forall|k: Seq<u8>| #[trigger] entries_map(s).contains_key(k) implies exists|i: int|
            0 <= i < s.len() && (#[trigger] s[i].symbol) == k by {
            if k == s.last().symbol {
                assert(s[s.len() - 1].symbol == k);
            } else {
                assert(entries_map(d).contains_key(k));
                let i = choose|i: int| 0 <= i < d.len() && (#[trigger] d[i].symbol) == k;
                assert(s[i] == d[i]);
                assert(s[i].symbol == k);
            }
        }
        assert forall|k: Seq<u8>|
            (exists|i: int| 0 <= i < s.len() && (#[trigger] s[i].symbol) == k) implies
            #[trigger] entries_map(s).contains_key(k) by {
            let i = choose|i: int| 0 <= i < s.len() && (#[trigger] s[i].symbol) == k;
            if i == s.len() - 1 {
                assert(entries_map(s).contains_key(s.last().symbol));
            } else {
                assert(d[i] == s[i]);
                assert(entries_map(d).contains_key(k));
            }
        }
    }
}

} // verus!
