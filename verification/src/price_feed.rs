//! Outside prices over time. A price is kept as the bits of a floating-point number,
//! which nothing here looks into.
use crate::arb::{sqrt_from_wad_price, sqrt_of_price};
use crate::order::{is_order, order_of, places_of, stable_order};
use crate::parse::{field, lines_of, nth_field, parse_i64, spelled, split_lines, texts};
use crate::text::text_of;
use crate::types::U256;
use vstd::prelude::*;

verus! {

/// A price at a moment.
#[derive(Debug, Clone, Copy, PartialEq, Eq)]
pub struct PriceEntry {
    pub timestamp_ms: i64,
    pub price_bits: u64,
}

/// A moment and the closing price at it, as it is written.
#[derive(Debug)]
pub struct Candle {
    pub timestamp_ms: i64,
    pub close: String,
}

/// A moment in milliseconds; one in microseconds is scaled down.
pub open spec fn in_millis(t: int) -> int {
    if t > 1_000_000_000_000_000 {
        t / 1000
    } else {
        t
    }
}

/// The moment and the closing price in a line: the first and the fifth of at least five
/// fields. Nothing where the first field is no number or the moment is not in a window.
pub open spec fn candle_of(line: Seq<char>, start: int, end: int) -> Option<(int, Seq<char>)> {
    match (field(line, 0), field(line, 4)) {
        (Some(first), Some(close)) => match spelled(first, i64::MIN as int, i64::MAX as int) {
            Some(t) => if start <= in_millis(t) <= end {
                Some((in_millis(t), close))
            } else {
                None
            },
            None => None,
        },
        _ => None,
    }
}

/// The moments and closing prices in lines.
pub open spec fn candles_of(lines: Seq<Seq<char>>, start: int, end: int) -> Seq<(int, Seq<char>)>
    decreases lines.len(),
{
    if lines.len() == 0 {
        seq![]
    } else {
        match candle_of(lines.last(), start, end) {
            Some(c) => candles_of(lines.drop_last(), start, end).push(c),
            None => candles_of(lines.drop_last(), start, end),
        }
    }
}

/// Candles by their views.
pub open spec fn candle_views(s: Seq<Candle>) -> Seq<(int, Seq<char>)> {
    Seq::new(s.len(), |i: int| (s[i].timestamp_ms as int, s[i].close@))
}

fn read_candle(line: &Vec<char>, start_ms: i64, end_ms: i64) -> (r: Option<Candle>)
    ensures
        candle_of(line@, start_ms as int, end_ms as int) == (match r {
            Some(c) => Some((c.timestamp_ms as int, c.close@)),
            None => None,
        }),
{
    let first: Vec<char> = match nth_field(line, 0) {
        Some(x) => x,
        None => return None,
    };
    let close: Vec<char> = match nth_field(line, 4) {
        Some(x) => x,
        None => return None,
    };
    let t: i64 = match parse_i64(&first) {
        Some(x) => x,
        None => return None,
    };
    let t: i64 = if t > 1_000_000_000_000_000 {
        t / 1000
    } else {
        t
    };
    if t < start_ms || t > end_ms {
        return None;
    }
    Some(Candle { timestamp_ms: t, close: text_of(&close) })
}

/// The candles of a file that lie in a window of time.
pub fn read_candles(content: &str, start_ms: i64, end_ms: i64) -> (r: Vec<Candle>)
    ensures
        candle_views(r@) == candles_of(lines_of(content@), start_ms as int, end_ms as int),
{
    let lines: Vec<Vec<char>> = split_lines(content);
    let ghost all = texts(lines@);
    let mut out: Vec<Candle> = Vec::new();
    let mut i: usize = 0;
    assert(all.take(0) =~= Seq::<Seq<char>>::empty());
    assert(candle_views(out@) =~= Seq::<(int, Seq<char>)>::empty());
    while i < lines.len()
        invariant
            i <= lines.len(),
            all == texts(lines@),
            candle_views(out@) == candles_of(all.take(i as int), start_ms as int, end_ms as int),
        decreases lines.len() - i,
    {
        assert(all.take(i + 1).drop_last() =~= all.take(i as int));
        assert(all.take(i + 1).last() == lines[i as int]@);
        match read_candle(&lines[i], start_ms, end_ms) {
            Some(c) => {
                proof {
                    assert(candle_views(out@.push(c)) =~= candle_views(out@).push(
                        (c.timestamp_ms as int, c.close@),
                    ));
                }
                out.push(c);
            },
            None => {},
        }
        i = i + 1;
    }
    assert(all.take(lines.len() as int) =~= all);
    out
}

/// Entries with one more, unless it follows the last one sooner than the interval
/// allows.
pub open spec fn sampled(s: Seq<PriceEntry>, e: PriceEntry, interval: int) -> Seq<PriceEntry> {
    if interval > 0 && s.len() > 0 && e.timestamp_ms - s.last().timestamp_ms < interval {
        s
    } else {
        s.push(e)
    }
}

/// Takes an entry in, unless it follows the last one too soon.
pub fn sample(
    entries: &mut Vec<PriceEntry>,
    timestamp_ms: i64,
    price_bits: u64,
    sampling_interval_ms: i64,
)
    ensures
        final(entries)@ == sampled(
            old(entries)@,
            (PriceEntry { timestamp_ms, price_bits }),
            sampling_interval_ms as int,
        ),
{
    let n: usize = entries.len();
    if sampling_interval_ms > 0 && n > 0 {
        let dt: i128 = timestamp_ms as i128 - entries[n - 1].timestamp_ms as i128;
        if dt < sampling_interval_ms as i128 {
            return;
        }
    }
    entries.push(PriceEntry { timestamp_ms, price_bits });
}

/// Entries in the order of time.
pub open spec fn timely(s: Seq<PriceEntry>) -> bool {
    forall|i: int, j: int| 0 <= i <= j < s.len() ==> s[i].timestamp_ms <= s[j].timestamp_ms
}

/// The moments of entries.
pub open spec fn times(s: Seq<PriceEntry>) -> Seq<i64> {
    Seq::new(s.len(), |i: int| s[i].timestamp_ms)
}

/// Entries put in the order of time; those of one moment keep their order.
pub open spec fn by_time(s: Seq<PriceEntry>) -> Seq<PriceEntry> {
    let order = order_of(times(s));
    Seq::new(order.len(), |i: int| s[order[i]])
}

/// The entry that holds at a moment: the last one that is not later, or the first one.
pub open spec fn is_entry_at(s: Seq<PriceEntry>, t: int, k: int) -> bool {
    &&& 0 <= k < s.len()
    &&& if t <= s[0].timestamp_ms {
        k == 0
    } else {
        &&& s[k].timestamp_ms <= t
        &&& k + 1 < s.len() ==> s[k + 1].timestamp_ms > t
    }
}

/// The number of that entry.
pub open spec fn entry_at(s: Seq<PriceEntry>, t: int) -> int {
    choose|k: int| is_entry_at(s, t, k)
}

proof fn entry_at_is(s: Seq<PriceEntry>, t: int, k: int)
    requires
        timely(s),
        is_entry_at(s, t, k),
    ensures
        entry_at(s, t) == k,
{
    let m = entry_at(s, t);
    assert(is_entry_at(s, t, m));
    if t > s[0].timestamp_ms {
        if m < k {
            assert(s[m + 1].timestamp_ms <= s[k].timestamp_ms);
        } else if k < m {
            assert(s[k + 1].timestamp_ms <= s[m].timestamp_ms);
        }
    }
}

/// Prices in the order of time, and a place among them from which the next search
/// starts.
pub struct PriceFeed {
    entries: Vec<PriceEntry>,
    cursor: usize,
}

impl View for PriceFeed {
    type V = Seq<PriceEntry>;

    closed spec fn view(&self) -> Seq<PriceEntry> {
        self.entries@
    }
}

impl PriceFeed {
    /// There is an entry, and the entries are in the order of time.
    pub open spec fn wf(&self) -> bool {
        self@.len() > 0 && timely(self@)
    }

    /// The place from which the next walk starts.
    pub closed spec fn place(&self) -> int {
        self.cursor as int
    }

    /// The feed of some entries; `None` without any.
    pub fn from_entries(entries: &Vec<PriceEntry>) -> (r: Option<PriceFeed>)
        ensures
            match r {
                Some(f) => f@ == by_time(entries@) && f.wf() && f.place() == 0,
                None => entries@.len() == 0,
            },
    {
        if entries.len() == 0 {
            return None;
        }
        let mut keys: Vec<i64> = Vec::new();
        let mut i: usize = 0;
        while i < entries.len()
            invariant
                i <= entries.len(),
                keys@ == times(entries@).take(i as int),
            decreases entries.len() - i,
        {
            keys.push(entries[i].timestamp_ms);
            i = i + 1;
            assert(keys@ =~= times(entries@).take(i as int));
        }
        assert(keys@ =~= times(entries@));
        let order: Vec<usize> = stable_order(&keys);
        let ghost places = places_of(order@);
        let mut out: Vec<PriceEntry> = Vec::new();
        let mut j: usize = 0;
        while j < order.len()
            invariant
                j <= order.len(),
                keys@ == times(entries@),
                places == places_of(order@),
                places == order_of(keys@),
                is_order(keys@, places),
                out@ == by_time(entries@).take(j as int),
            decreases order.len() - j,
        {
            assert(places[j as int] == order[j as int]);
            out.push(entries[order[j]]);
            j = j + 1;
            assert(out@ =~= by_time(entries@).take(j as int));
        }
        proof {
            let s = by_time(entries@);
            assert(out@ =~= s);
            assert forall|a: int, b: int| 0 <= a <= b < s.len() implies s[a].timestamp_ms
                <= s[b].timestamp_ms by {
                if a < b {
                    assert(crate::order::before(keys@, places[a], places[b]));
                }
            }
        }
        Some(PriceFeed { entries: out, cursor: 0 })
    }

    pub fn start_ms(&self) -> (r: i64)
        ensures
            self@.len() > 0 ==> r == self@[0].timestamp_ms,
            self@.len() == 0 ==> r == 0,
    {
        if self.entries.len() == 0 {
            0
        } else {
            self.entries[0].timestamp_ms
        }
    }

    pub fn end_ms(&self) -> (r: i64)
        ensures
            self@.len() > 0 ==> r == self@.last().timestamp_ms,
            self@.len() == 0 ==> r == 0,
    {
        let n: usize = self.entries.len();
        if n == 0 {
            0
        } else {
            self.entries[n - 1].timestamp_ms
        }
    }

    pub fn len(&self) -> (r: usize)
        ensures
            r == self@.len(),
    {
        self.entries.len()
    }

    /// The next walk starts at the first entry.
    pub fn reset_cursor(&mut self)
        ensures
            final(self)@ == old(self)@,
            final(self).place() == 0,
    {
        self.cursor = 0;
    }

    /// The last entry that is not later than a moment that the first one precedes and
    /// the last one follows.
    fn search(&self, target_ms: i64) -> (r: usize)
        requires
            self.wf(),
            self@[0].timestamp_ms < target_ms < self@.last().timestamp_ms,
        ensures
            is_entry_at(self@, target_ms as int, r as int),
    {
        let mut lo: usize = 0;
        let mut hi: usize = self.entries.len() - 1;
        while hi - lo > 1
            invariant
                self.wf(),
                self@[0].timestamp_ms < target_ms,
                lo < hi < self@.len(),
                self@[lo as int].timestamp_ms <= target_ms < self@[hi as int].timestamp_ms,
            decreases hi - lo,
        {
            let mid: usize = lo + (hi - lo) / 2;
            if self.entries[mid].timestamp_ms <= target_ms {
                lo = mid;
            } else {
                hi = mid;
            }
        }
        lo
    }

    /// The entry that holds at a moment.
    pub fn lookup(&self, target_ms: i64) -> (r: PriceEntry)
        requires
            self.wf(),
        ensures
            r == self@[entry_at(self@, target_ms as int)],
    {
        let last: usize = self.entries.len() - 1;
        let k: usize = if target_ms <= self.entries[0].timestamp_ms {
            0
        } else if target_ms >= self.entries[last].timestamp_ms {
            last
        } else {
            self.search(target_ms)
        };
        proof {
            entry_at_is(self@, target_ms as int, k as int);
        }
        self.entries[k]
    }

    /// As `lookup`. Moments that never go back are found by walking on from the last
    /// one.
    pub fn lookup_monotonic(&mut self, target_ms: i64) -> (r: PriceEntry)
        requires
            old(self).wf(),
        ensures
            final(self)@ == old(self)@,
            r == old(self)@[entry_at(old(self)@, target_ms as int)],
            final(self).place() == (if old(self)@[0].timestamp_ms < target_ms
                < old(self)@.last().timestamp_ms {
                entry_at(old(self)@, target_ms as int)
            } else {
                old(self).place()
            }),
    {
        let last: usize = self.entries.len() - 1;
        if target_ms <= self.entries[0].timestamp_ms {
            proof {
                entry_at_is(self@, target_ms as int, 0);
            }
            return self.entries[0];
        }
        if target_ms >= self.entries[last].timestamp_ms {
            proof {
                entry_at_is(self@, target_ms as int, last as int);
            }
            return self.entries[last];
        }
        if self.cursor > last || target_ms < self.entries[self.cursor].timestamp_ms {
            self.cursor = self.search(target_ms);
        } else {
            while self.cursor < last && self.entries[self.cursor + 1].timestamp_ms <= target_ms
                invariant
                    self@ == old(self)@,
                    self.wf(),
                    last == self@.len() - 1,
                    self.cursor <= last,
                    self@[self.cursor as int].timestamp_ms <= target_ms,
                decreases last - self.cursor,
            {
                self.cursor = self.cursor + 1;
            }
        }
        proof {
            entry_at_is(self@, target_ms as int, self.cursor as int);
        }
        self.entries[self.cursor]
    }
}

/// The square root price of a price of token 1 per token 0 that is scaled by 10^18.
pub fn price_to_sqrt_price_x96(price_scaled: u128) -> (r: U256)
    ensures
        r@ == sqrt_of_price(price_scaled as int),
{
    sqrt_from_wad_price(U256::from_u128(price_scaled))
}

} // verus!
