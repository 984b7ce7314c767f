//! What is taken into a price feed, and what it gives back.
use crate::parse::{field, spelled};
use crate::price_feed::{candle_of, candles_of, is_entry_at, sampled, timely, PriceEntry};
use vstd::prelude::*;

verus! {

/// A line gives its first field as the moment and its fifth as the price, where the moment
/// lies in the window, both ends of it included. A moment beyond 10^15 counts microseconds
/// and is told in milliseconds.
pub proof fn candle_tells_first_and_fifth_field(line: Seq<char>, start: int, end: int)
    ensures
        candle_of(line, start, end) matches Some((t, close)) ==> {
            &&& start <= t <= end
            &&& field(line, 4) == Some(close)
            &&& field(line, 0) matches Some(first) && (spelled(first, i64::MIN as int, i64::MAX as int)
                matches Some(n) && (if n > 1_000_000_000_000_000 {
                1000 * t <= n < 1000 * (t + 1)
            } else {
                t == n
            }))
        },
        candle_of(line, start, end) is None ==> {
            ||| field(line, 0) is None
            ||| field(line, 4) is None
            ||| spelled(field(line, 0)->0, i64::MIN as int, i64::MAX as int) is None
            ||| ({
                let n = spelled(field(line, 0)->0, i64::MIN as int, i64::MAX as int)->0;
                let t = if n > 1_000_000_000_000_000 {
                    n / 1000
                } else {
                    n
                };
                t < start || t > end
            })
        },
{
}

/// Of lines, all that hold a moment in the window are told, in their order: what one more
/// line adds is what it gives alone.
pub proof fn candles_are_told_line_by_line(
    lines: Seq<Seq<char>>,
    line: Seq<char>,
    start: int,
    end: int,
)
    ensures
        candles_of(lines.push(line), start, end) == candles_of(lines, start, end) + (match candle_of(
            line,
            start,
            end,
        ) {
            Some(c) => seq![c],
            None => seq![],
        }),
        candles_of(Seq::<Seq<char>>::empty(), start, end).len() == 0,
{
    assert(lines.push(line).drop_last() =~= lines);
    assert(candles_of(lines.push(line), start, end) =~= candles_of(lines, start, end) + (
    match candle_of(line, start, end) {
        Some(c) => seq![c],
        None => seq![],
    }));
}

/// All that is told of lines lies in the window.
pub proof fn candles_lie_in_window(lines: Seq<Seq<char>>, start: int, end: int, i: int)
    requires
        0 <= i < candles_of(lines, start, end).len(),
    ensures
        start <= candles_of(lines, start, end)[i].0 <= end,
    decreases lines.len(),
{
    if lines.len() > 0 {
        let rest = candles_of(lines.drop_last(), start, end);
        if i < rest.len() {
            candles_lie_in_window(lines.drop_last(), start, end, i);
        }
    }
}

/// Entries of which each follows the one before it no sooner than an interval allows.
pub open spec fn spaced(s: Seq<PriceEntry>, interval: int) -> bool {
    forall|i: int|
        0 < i < s.len() ==> (#[trigger] s[i]).timestamp_ms - s[i - 1].timestamp_ms >= interval
}

/// An entry is taken in unless it follows the last one sooner than the interval allows, so
/// that entries stay an interval apart. Without an interval all are taken in.
pub proof fn entries_stay_an_interval_apart(s: Seq<PriceEntry>, e: PriceEntry, interval: int)
    requires
        spaced(s, interval),
    ensures
        interval > 0 ==> spaced(sampled(s, e, interval), interval),
        sampled(s, e, interval) == s || sampled(s, e, interval) == s.push(e),
        s.len() == 0 || interval <= 0 || e.timestamp_ms - s.last().timestamp_ms >= interval
            ==> sampled(s, e, interval) == s.push(e),
        s.len() > 0 && interval > 0 && e.timestamp_ms - s.last().timestamp_ms < interval
            ==> sampled(s, e, interval) == s,
{
}

/// The entry that holds at a moment is the last one that is not later than it, or the first
/// one where all are later; there is just one such place among entries that differ in time.
pub proof fn entry_holds_until_next(s: Seq<PriceEntry>, t: int, k: int)
    requires
        timely(s),
        is_entry_at(s, t, k),
    ensures
        t >= s[0].timestamp_ms ==> s[k].timestamp_ms <= t,
        t < s[0].timestamp_ms ==> k == 0,
        forall|j: int| k < j < s.len() && t > s[0].timestamp_ms ==> (#[trigger] s[j]).timestamp_ms > t,
        forall|j: int| 0 <= j < k ==> (#[trigger] s[j]).timestamp_ms <= t,
{
    if t > s[0].timestamp_ms {
        assert forall|j: int| k < j < s.len() implies (#[trigger] s[j]).timestamp_ms > t by {
            assert(s[k + 1].timestamp_ms <= s[j].timestamp_ms);
        }
    }
}

} // verus!
