//! Per-symbol trade and quote totals.
//!
//! The summarizer is the sink that every decoder folds its messages into. It
//! keeps one entry per symbol, found by the symbol's text itself, and makes
//! the entry the first time a symbol is seen.
use vstd::prelude::*;

verus! {

/// The running totals of one symbol.
#[derive(Clone, Copy, Debug, PartialEq, Eq, Structural)]
pub struct Totals {
    pub trade_volume: u64,
    pub bid_high: u64,
    pub bid_low: u64,
    pub ask_high: u64,
    pub ask_low: u64,
}

impl Totals {
    /// The totals of a symbol of which nothing has been seen: the lows start
    /// at the largest value, so that the first price becomes the low.
    pub open spec fn fresh() -> Totals {
        Totals { trade_volume: 0, bid_high: 0, bid_low: u64::MAX, ask_high: 0, ask_low: u64::MAX }
    }

    /// These totals after a trade of `volume`. The volume is a 64-bit
    /// running sum: it wraps.
    pub open spec fn with_trade(self, volume: u64) -> Totals {
        Totals {
            trade_volume: ((self.trade_volume + volume) % 0x1_0000_0000_0000_0000) as u64,
            ..self
        }
    }

    /// These totals after a quote at `price` on the buy side (`is_buy`) or
    /// the sell side.
    pub open spec fn with_quote(self, price: u64, is_buy: bool) -> Totals {
        if is_buy {
            Totals {
                bid_low: if price < self.bid_low {
                    price
                } else {
                    self.bid_low
                },
                bid_high: if price > self.bid_high {
                    price
                } else {
                    self.bid_high
                },
                ..self
            }
        } else {
            Totals {
                ask_low: if price < self.ask_low {
                    price
                } else {
                    self.ask_low
                },
                ask_high: if price > self.ask_high {
                    price
                } else {
                    self.ask_high
                },
                ..self
            }
        }
    }
}

/// The totals of one symbol, with the symbol's text.
#[derive(Debug, PartialEq, Eq)]
pub struct SummaryStats {
    pub symbol: Vec<u8>,
    pub trade_volume: u64,
    pub bid_high: u64,
    pub bid_low: u64,
    pub ask_high: u64,
    pub ask_low: u64,
}

impl SummaryStats {
    /// The totals of this entry.
    pub open spec fn totals(&self) -> Totals {
        Totals {
            trade_volume: self.trade_volume,
            bid_high: self.bid_high,
            bid_low: self.bid_low,
            ask_high: self.ask_high,
            ask_low: self.ask_low,
        }
    }
}

/// The totals that `m` holds for `sym`; those of an unseen symbol where it
/// holds none.
pub open spec fn totals_of(m: Map<Seq<u8>, Totals>, sym: Seq<u8>) -> Totals {
    if m.dom().contains(sym) {
        m[sym]
    } else {
        Totals::fresh()
    }
}

/// `m` after a trade of `volume` in `sym`.
pub open spec fn record_trade(m: Map<Seq<u8>, Totals>, sym: Seq<u8>, volume: u64) -> Map<
    Seq<u8>,
    Totals,
> {
    m.insert(sym, totals_of(m, sym).with_trade(volume))
}

/// `m` after a quote at `price` in `sym`.
pub open spec fn record_quote(
    m: Map<Seq<u8>, Totals>,
    sym: Seq<u8>,
    price: u64,
    is_buy: bool,
) -> Map<Seq<u8>, Totals> {
    m.insert(sym, totals_of(m, sym).with_quote(price, is_buy))
}

/// The map from symbol to totals that a list of entries stands for.
pub open spec fn table(entries: Seq<SummaryStats>) -> Map<Seq<u8>, Totals>
    decreases entries.len(),
{
    if entries.len() == 0 {
        Map::empty()
    } else {
        table(entries.drop_last()).insert(entries.last().symbol@, entries.last().totals())
    }
}

/// No two entries are for the same symbol.
pub open spec fn distinct(entries: Seq<SummaryStats>) -> bool {
    forall|i: int, j: int|
        0 <= i < j < entries.len() ==> entries[i].symbol@ != entries[j].symbol@
}

/// A symbol that no entry is for is not in the table.
pub proof fn lemma_table_absent(entries: Seq<SummaryStats>, sym: Seq<u8>)
    requires
        forall|i: int| 0 <= i < entries.len() ==> entries[i].symbol@ != sym,
    ensures
        !table(entries).dom().contains(sym),
    decreases entries.len(),
{
    if entries.len() > 0 {
        lemma_table_absent(entries.drop_last(), sym);
    }
}

/// Among distinct entries, the table holds for each entry's symbol that
/// entry's totals.
pub proof fn lemma_table_lookup(entries: Seq<SummaryStats>, i: int)
    requires
        distinct(entries),
        0 <= i < entries.len(),
    ensures
        table(entries).dom().contains(entries[i].symbol@),
        table(entries)[entries[i].symbol@] == entries[i].totals(),
    decreases entries.len(),
{
    if i < entries.len() - 1 {
        lemma_table_lookup(entries.drop_last(), i);
    }
}

/// Replacing the totals of one entry among distinct entries replaces them in
/// the table, and the entries stay distinct.
pub proof fn lemma_table_update(entries: Seq<SummaryStats>, i: int, e: SummaryStats)
    requires
        distinct(entries),
        0 <= i < entries.len(),
        e.symbol@ == entries[i].symbol@,
    ensures
        distinct(entries.update(i, e)),
        table(entries.update(i, e)) == table(entries).insert(e.symbol@, e.totals()),
    decreases entries.len(),
{
    let after = entries.update(i, e);
    if i < entries.len() - 1 {
        lemma_table_update(entries.drop_last(), i, e);
        assert(after.drop_last() =~= entries.drop_last().update(i, e));
        assert(after.last() == entries.last());
        assert(table(after) =~= table(entries).insert(e.symbol@, e.totals()));
    } else {
        assert(after.drop_last() =~= entries.drop_last());
        assert(table(after) =~= table(entries).insert(e.symbol@, e.totals()));
    }
}

/// Whether `m` holds for the symbol of `e` the totals of `e`.
pub open spec fn holds(m: Map<Seq<u8>, Totals>, e: SummaryStats) -> bool {
    m.dom().contains(e.symbol@) && m[e.symbol@] == e.totals()
}

/// Whether `m` holds each of the entries.
pub open spec fn covered(entries: Seq<SummaryStats>, m: Map<Seq<u8>, Totals>) -> bool {
    forall|i: int| 0 <= i < entries.len() ==> holds(m, #[trigger] entries[i])
}

/// Whether two byte strings are the same.
pub fn same_bytes(a: &[u8], b: &[u8]) -> (same: bool)
    ensures
        same == (a@ == b@),
{
    if a.len() != b.len() {
        return false;
    }
    let n: usize = a.len();
    let mut i: usize = 0;
    while i < n
        invariant
            i <= n,
            n == a@.len(),
            n == b@.len(),
            a@.take(i as int) == b@.take(i as int),
        decreases n - i,
    {
        if a[i] != b[i] {
            assert(a@[i as int] != b@[i as int]);
            return false;
        }
        i = i + 1;
        assert(a@.take(i as int) =~= a@.take(i - 1).push(a@[i - 1]));
        assert(b@.take(i as int) =~= b@.take(i - 1).push(b@[i - 1]));
    }
    assert(a@ =~= a@.take(n as int));
    assert(b@ =~= b@.take(n as int));
    true
}

/// Accumulates trade volume and bid and ask extremes per symbol. Its view is
/// the map from a symbol's text to its totals. `==` also compares the order
/// in which the symbols were first seen; [`Summarizer::same_as`] compares
/// the totals alone.
#[derive(Debug, PartialEq, Eq)]
pub struct Summarizer {
    data: Vec<SummaryStats>,
}

impl View for Summarizer {
    type V = Map<Seq<u8>, Totals>;

    closed spec fn view(&self) -> Map<Seq<u8>, Totals> {
        table(self.data@)
    }
}

impl Default for Summarizer {
    fn default() -> (s: Summarizer)
        ensures
            s@ == Map::<Seq<u8>, Totals>::empty(),
            s.wf(),
    {
        Summarizer { data: Vec::new() }
    }
}

impl Summarizer {
    /// There is one entry per symbol.
    pub closed spec fn wf(&self) -> bool {
        distinct(self.data@)
    }

    /// The place of the entry for `sym`, if there is one.
    fn find(&self, sym: &[u8]) -> (at: Option<usize>)
        ensures
            match at {
                Some(i) => i < self.data@.len() && self.data@[i as int].symbol@ == sym@,
                None => forall|i: int| 0 <= i < self.data@.len() ==> self.data@[i].symbol@ != sym@,
            },
    {
        let n: usize = self.data.len();
        let mut i: usize = 0;
        while i < n
            invariant
                i <= n,
                n == self.data@.len(),
                forall|k: int| 0 <= k < i ==> self.data@[k].symbol@ != sym@,
            decreases n - i,
        {
            if same_bytes(self.data[i].symbol.as_slice(), sym) {
                return Some(i);
            }
            i = i + 1;
        }
        None
    }

    /// The place of the entry for `sym`; the entry is made, with the totals
    /// of an unseen symbol, where there is none yet.
    fn entry(&mut self, sym: &[u8]) -> (at: usize)
        requires
            old(self).wf(),
        ensures
            final(self).wf(),
            at < final(self).data@.len(),
            final(self).data@[at as int].symbol@ == sym@,
            final(self).data@[at as int].totals() == totals_of(old(self)@, sym@),
            final(self)@ == old(self)@.insert(sym@, totals_of(old(self)@, sym@)),
    {
        match self.find(sym) {
            Some(i) => {
                proof {
                    lemma_table_lookup(self.data@, i as int);
                    assert(self@ =~= self@.insert(sym@, totals_of(self@, sym@)));
                }
                i
            },
            None => {
                proof {
                    lemma_table_absent(self.data@, sym@);
                }
                let n: usize = self.data.len();
                let fresh = SummaryStats {
                    symbol: vstd::slice::slice_to_vec(sym),
                    trade_volume: 0,
                    bid_high: 0,
                    bid_low: u64::MAX,
                    ask_high: 0,
                    ask_low: u64::MAX,
                };
                self.data.push(fresh);
                assert(self.data@.drop_last() =~= old(self).data@);
                n
            },
        }
    }

    /// Adds `volume` to the traded volume of `sym`.
    pub fn append_trade_volume(&mut self, sym: &[u8], volume: u64)
        requires
            old(self).wf(),
        ensures
            final(self).wf(),
            final(self)@ == record_trade(old(self)@, sym@, volume),
    {
        let at: usize = self.entry(sym);
        let ghost before = self.data@;
        let sum: u64 = self.data[at].trade_volume.wrapping_add(volume);
        self.data[at].trade_volume = sum;
        proof {
            assert(self.data@ =~= before.update(at as int, self.data@[at as int]));
            lemma_table_update(before, at as int, self.data@[at as int]);
            assert(self@ =~= record_trade(old(self)@, sym@, volume));
        }
    }

    /// Widens the bid range of `sym` (where `is_buy`) or its ask range to
    /// hold `price`.
    pub fn update_quote_prices(&mut self, sym: &[u8], price: u64, is_buy: bool)
        requires
            old(self).wf(),
        ensures
            final(self).wf(),
            final(self)@ == record_quote(old(self)@, sym@, price, is_buy),
    {
        let at: usize = self.entry(sym);
        let ghost before = self.data@;
        if is_buy {
            if price < self.data[at].bid_low {
                self.data[at].bid_low = price;
            }
            if price > self.data[at].bid_high {
                self.data[at].bid_high = price;
            }
        } else {
            if price < self.data[at].ask_low {
                self.data[at].ask_low = price;
            }
            if price > self.data[at].ask_high {
                self.data[at].ask_high = price;
            }
        }
        proof {
            assert(self.data@ =~= before.update(at as int, self.data@[at as int]));
            lemma_table_update(before, at as int, self.data@[at as int]);
            assert(self@ =~= record_quote(old(self)@, sym@, price, is_buy));
        }
    }

    /// Whether every entry of this summarizer is in `other` with the same
    /// totals.
    fn within(&self, other: &Summarizer) -> (all: bool)
        requires
            self.wf(),
            other.wf(),
        ensures
            all == covered(self.data@, other@),
    {
        let n: usize = self.data.len();
        let mut i: usize = 0;
        while i < n
            invariant
                i <= n,
                n == self.data@.len(),
                other.wf(),
                covered(self.data@.take(i as int), other@),
            decreases n - i,
        {
            let mine = &self.data[i];
            match other.get(mine.symbol.as_slice()) {
                Some(theirs) => {
                    if theirs.trade_volume != mine.trade_volume || theirs.bid_high != mine.bid_high
                        || theirs.bid_low != mine.bid_low || theirs.ask_high != mine.ask_high
                        || theirs.ask_low != mine.ask_low {
                        assert(!holds(other@, self.data@[i as int]));
                        return false;
                    }
                },
                None => {
                    assert(!holds(other@, self.data@[i as int]));
                    return false;
                },
            }
            i = i + 1;
            assert forall|k: int| 0 <= k < i implies holds(
                other@,
                #[trigger] self.data@.take(i as int)[k],
            ) by {
                if k < i - 1 {
                    assert(self.data@.take(i - 1)[k] == self.data@.take(i as int)[k]);
                }
            }
        }
        assert(self.data@.take(n as int) =~= self.data@);
        true
    }

    /// Whether two summarizers hold the same totals for the same symbols, in
    /// whatever order the symbols were first seen.
    #[verifier::rlimit(40)]
    pub fn same_as(&self, other: &Summarizer) -> (same: bool)
        requires
            self.wf(),
            other.wf(),
        ensures
            same == (self@ == other@),
    {
        let forth: bool = self.within(other);
        let back: bool = other.within(self);
        proof {
            if forth && back {
                assert forall|k: Seq<u8>|
                    #![trigger self@.dom().contains(k)]
                    #![trigger other@.dom().contains(k)]
                    self@.dom().contains(k) == other@.dom().contains(k) && (self@.dom().contains(k)
                        ==> self@[k] == other@[k]) by {
                    if exists|i: int| 0 <= i < self.data@.len() && self.data@[i].symbol@ == k {
                        let i = choose|i: int|
                            0 <= i < self.data@.len() && self.data@[i].symbol@ == k;
                        lemma_table_lookup(self.data@, i);
                        assert(holds(other@, self.data@[i]));
                    } else if exists|j: int|
                        0 <= j < other.data@.len() && other.data@[j].symbol@ == k {
                        let j = choose|j: int|
                            0 <= j < other.data@.len() && other.data@[j].symbol@ == k;
                        lemma_table_lookup(other.data@, j);
                        assert(holds(self@, other.data@[j]));
                    } else {
                        lemma_table_absent(self.data@, k);
                        lemma_table_absent(other.data@, k);
                    }
                }
                assert(self@.dom() =~= other@.dom());
                assert(self@ =~= other@);
            } else if !forth {
                let i = choose|i: int| 0 <= i < self.data@.len() && !holds(other@, self.data@[i]);
                lemma_table_lookup(self.data@, i);
            } else {
                let j = choose|j: int|
                    0 <= j < other.data@.len() && !holds(self@, other.data@[j]);
                lemma_table_lookup(other.data@, j);
            }
        }
        forth && back
    }

    /// The entry for `sym`, if the symbol has been seen.
    pub fn get(&self, sym: &[u8]) -> (found: Option<&SummaryStats>)
        requires
            self.wf(),
        ensures
            match found {
                Some(e) => {
                    &&& self@.dom().contains(sym@)
                    &&& e.symbol@ == sym@
                    &&& e.totals() == self@[sym@]
                },
                None => !self@.dom().contains(sym@),
            },
    {
        match self.find(sym) {
            Some(i) => {
                proof {
                    lemma_table_lookup(self.data@, i as int);
                }
                Some(&self.data[i])
            },
            None => {
                proof {
                    lemma_table_absent(self.data@, sym@);
                }
                None
            },
        }
    }
}

} // verus!
