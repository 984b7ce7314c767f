//! The ticks of a pool, kept in order of their index.
use crate::arith::{div_facts, wrap};
use crate::full_math::mod256_sub;
use crate::tick::{empty_tick, Tick, TickView};
use crate::types::{MAX_TICK, MIN_TICK, U256};
use vstd::prelude::*;

verus! {

/// The ticks that hold liquidity, one entry each, in increasing order of index.
#[derive(Debug)]
pub struct TickManager {
    ticks: Vec<Tick>,
}

/// Indices strictly increase.
pub open spec fn ordered(s: Seq<Tick>) -> bool {
    forall|i: int, j: int| 0 <= i < j < s.len() ==> s[i].tick_index < s[j].tick_index
}

/// Whether `s` has an entry for `k`.
pub open spec fn has_tick(s: Seq<Tick>, k: int) -> bool {
    exists|i: int| 0 <= i < s.len() && #[trigger] s[i].tick_index == k
}

/// The position of the entry for `k`.
pub open spec fn place(s: Seq<Tick>, k: int) -> int {
    choose|i: int| 0 <= i < s.len() && #[trigger] s[i].tick_index == k
}

/// The ticks by index.
pub open spec fn tick_map(s: Seq<Tick>) -> Map<int, TickView> {
    Map::new(|k: int| has_tick(s, k), |k: int| s[place(s, k)]@)
}

/// The tick at `k`, empty where there is none.
pub open spec fn tick_at(m: Map<int, TickView>, k: int) -> TickView {
    if m.dom().contains(k) {
        m[k]
    } else {
        empty_tick()
    }
}

/// `k` is the greatest index not above `t`.
pub open spec fn is_at_or_below(m: Map<int, TickView>, t: int, k: int) -> bool {
    &&& m.dom().contains(k)
    &&& k <= t
    &&& forall|j: int| #[trigger] m.dom().contains(j) && j <= t ==> j <= k
}

/// `k` is the least index above `t`.
pub open spec fn is_above(m: Map<int, TickView>, t: int, k: int) -> bool {
    &&& m.dom().contains(k)
    &&& k > t
    &&& forall|j: int| #[trigger] m.dom().contains(j) && j > t ==> k <= j
}

/// The lowest tick of the 256-tick word that holds `tick`.
pub open spec fn word_low(tick: int, spacing: int) -> int {
    (tick / spacing) / 256 * 256 * spacing
}

/// The highest tick of the 256-tick word that holds the usable tick after `tick`.
pub open spec fn word_high(tick: int, spacing: int) -> int {
    (((tick / spacing + 1) / 256 + 1) * 256 - 1) * spacing
}

/// The next tick in the direction of a swap, but not past the end of its word, and
/// whether there is an entry for it.
pub open spec fn next_tick(m: Map<int, TickView>, tick: int, spacing: int, lte: bool) -> (int, bool) {
    if lte {
        let end = word_low(tick, spacing);
        if exists|k: int| is_at_or_below(m, tick, k) {
            let k = choose|k: int| is_at_or_below(m, tick, k);
            if k >= end {
                (k, true)
            } else {
                (end, false)
            }
        } else {
            (end, false)
        }
    } else {
        let end = word_high(tick, spacing);
        if exists|k: int| is_above(m, tick, k) {
            let k = choose|k: int| is_above(m, tick, k);
            if k <= end {
                (k, true)
            } else {
                (end, false)
            }
        } else {
            (end, false)
        }
    }
}

/// The fee growth below (or above) a tick.
pub open spec fn growth_beside(growth: int, outside: int, inside_first: bool) -> int {
    if inside_first {
        outside
    } else {
        wrap(growth - outside)
    }
}

/// The fee growth between two ticks, modulo 2^256.
pub open spec fn growth_inside(
    growth: int,
    outside_lower: int,
    outside_upper: int,
    lower: int,
    upper: int,
    current: int,
) -> int {
    wrap(
        wrap(growth - growth_beside(growth, outside_lower, current >= lower)) - growth_beside(
            growth,
            outside_upper,
            current < upper,
        ),
    )
}

/// An entry is found under its index.
proof fn map_entry(s: Seq<Tick>, i: int)
    requires
        ordered(s),
        0 <= i < s.len(),
    ensures
        tick_map(s).dom().contains(s[i].tick_index as int),
        tick_map(s)[s[i].tick_index as int] == s[i]@,
        place(s, s[i].tick_index as int) == i,
{
    let k = s[i].tick_index as int;
    assert(has_tick(s, k));
    let p = place(s, k);
    if p < i {
        assert(s[p].tick_index < s[i].tick_index);
    } else if i < p {
        assert(s[i].tick_index < s[p].tick_index);
    }
}

/// Replacing an entry by one with the same index.
proof fn map_replaced(s: Seq<Tick>, i: int, t: Tick)
    requires
        ordered(s),
        0 <= i < s.len(),
        t.tick_index == s[i].tick_index,
    ensures
        ordered(s.update(i, t)),
        tick_map(s.update(i, t)) == tick_map(s).insert(t.tick_index as int, t@),
{
    let u = s.update(i, t);
    assert forall|a: int, b: int| 0 <= a < b < u.len() implies u[a].tick_index < u[b].tick_index by {
        assert(s[a].tick_index < s[b].tick_index);
    }
    let m = tick_map(s).insert(t.tick_index as int, t@);
    assert forall|k: int| tick_map(u).dom().contains(k) <==> m.dom().contains(k) by {
        if has_tick(u, k) {
            let p = place(u, k);
            assert(s[p].tick_index == k);
        }
        if has_tick(s, k) {
            let p = place(s, k);
            assert(u[p].tick_index == k);
        }
        if k == t.tick_index {
            assert(u[i].tick_index == k);
        }
    }
    assert forall|k: int| tick_map(u).dom().contains(k) implies tick_map(u)[k] == m[k] by {
        let p = place(u, k);
        map_entry(u, p);
        map_entry(s, p);
        if p != i && k == t.tick_index {
            map_entry(u, i);
        }
    }
    assert(tick_map(u) =~= m);
}

/// Putting a new entry in its place.
proof fn map_inserted(s: Seq<Tick>, i: int, t: Tick)
    requires
        ordered(s),
        0 <= i <= s.len(),
        forall|j: int| 0 <= j < i ==> s[j].tick_index < t.tick_index,
        forall|j: int| i <= j < s.len() ==> s[j].tick_index > t.tick_index,
    ensures
        ordered(s.insert(i, t)),
        tick_map(s.insert(i, t)) == tick_map(s).insert(t.tick_index as int, t@),
{
    let u = s.insert(i, t);
    assert forall|a: int, b: int| 0 <= a < b < u.len() implies u[a].tick_index < u[b].tick_index by {
        let a0 = if a < i { a } else { a - 1 };
        let b0 = if b < i { b } else { b - 1 };
        if a != i && b != i {
            assert(s[a0].tick_index < s[b0].tick_index);
        }
    }
    let m = tick_map(s).insert(t.tick_index as int, t@);
    assert forall|k: int| tick_map(u).dom().contains(k) <==> m.dom().contains(k) by {
        if has_tick(u, k) {
            let p = place(u, k);
            if p < i {
                assert(s[p].tick_index == k);
            } else if p > i {
                assert(s[p - 1].tick_index == k);
            }
        }
        if has_tick(s, k) {
            let p = place(s, k);
            if p < i {
                assert(u[p].tick_index == k);
            } else {
                assert(u[p + 1].tick_index == k);
            }
        }
        if k == t.tick_index {
            assert(u[i].tick_index == k);
        }
    }
    assert forall|k: int| tick_map(u).dom().contains(k) implies tick_map(u)[k] == m[k] by {
        let p = place(u, k);
        map_entry(u, p);
        if p < i {
            map_entry(s, p);
        } else if p > i {
            map_entry(s, p - 1);
        }
    }
    assert(tick_map(u) =~= m);
}

/// Taking an entry out.
proof fn map_removed(s: Seq<Tick>, i: int)
    requires
        ordered(s),
        0 <= i < s.len(),
    ensures
        ordered(s.remove(i)),
        tick_map(s.remove(i)) == tick_map(s).remove(s[i].tick_index as int),
{
    let u = s.remove(i);
    let t = s[i].tick_index as int;
    assert forall|a: int, b: int| 0 <= a < b < u.len() implies u[a].tick_index < u[b].tick_index by {
        let a0 = if a < i { a } else { a + 1 };
        let b0 = if b < i { b } else { b + 1 };
        assert(s[a0].tick_index < s[b0].tick_index);
    }
    let m = tick_map(s).remove(t);
    assert forall|k: int| tick_map(u).dom().contains(k) <==> m.dom().contains(k) by {
        if has_tick(u, k) {
            let p = place(u, k);
            let p0 = if p < i { p } else { p + 1 };
            assert(s[p0].tick_index == k);
            map_entry(s, p0);
            map_entry(s, i);
        }
        if has_tick(s, k) && k != t {
            let p = place(s, k);
            let p1 = if p < i { p } else { p - 1 };
            assert(u[p1].tick_index == k);
        }
    }
    assert forall|k: int| tick_map(u).dom().contains(k) implies tick_map(u)[k] == m[k] by {
        let p = place(u, k);
        map_entry(u, p);
        if p < i {
            map_entry(s, p);
        } else {
            map_entry(s, p + 1);
        }
    }
    assert(tick_map(u) =~= m);
}

/// The ends of the word lie within 256 usable ticks.
proof fn word_bounds(tick: int, spacing: int)
    requires
        spacing > 0,
    ensures
        tick - 256 * spacing < word_low(tick, spacing) <= tick,
        tick < word_high(tick, spacing) <= tick + 256 * spacing,
{
    div_facts(tick, spacing);
    let c = tick / spacing;
    let w = c / 256 * 256;
    let h = ((c + 1) / 256 + 1) * 256 - 1;
    assert(c - 255 <= w <= c);
    assert(c + 1 <= h <= c + 256);
    assert(tick - 256 * spacing < w * spacing <= tick) by (nonlinear_arith)
        requires
            tick == c * spacing + tick % spacing,
            0 <= tick % spacing < spacing,
            c - 255 <= w <= c,
    ;
    assert(tick < h * spacing <= tick + 256 * spacing) by (nonlinear_arith)
        requires
            tick == c * spacing + tick % spacing,
            0 <= tick % spacing < spacing,
            c + 1 <= h <= c + 256,
    ;
}

/// Where there is an index at or below `t`, there is a greatest one.
proof fn greatest_exists(m: Map<int, TickView>, t: int, j: int)
    requires
        m.dom().contains(j),
        j <= t,
    ensures
        exists|k: int| is_at_or_below(m, t, k),
    decreases t - j,
{
    if exists|i: int| m.dom().contains(i) && j < i <= t {
        let i = choose|i: int| m.dom().contains(i) && j < i <= t;
        greatest_exists(m, t, i);
    } else {
        assert(is_at_or_below(m, t, j));
    }
}

/// Where there is an index above `t`, there is a least one.
proof fn least_exists(m: Map<int, TickView>, t: int, j: int)
    requires
        m.dom().contains(j),
        j > t,
    ensures
        exists|k: int| is_above(m, t, k),
    decreases j - t,
{
    if exists|i: int| m.dom().contains(i) && t < i < j {
        let i = choose|i: int| m.dom().contains(i) && t < i < j;
        least_exists(m, t, i);
    } else {
        assert(is_above(m, t, j));
    }
}

/// The next tick lies in the direction of the swap, an entry for it is there where that
/// is said, and no tick is passed over.
pub proof fn next_tick_facts(m: Map<int, TickView>, tick: int, spacing: int, lte: bool)
    requires
        spacing > 0,
    ensures
        ({
            let (next, init) = next_tick(m, tick, spacing, lte);
            &&& lte ==> next <= tick
            &&& !lte ==> next > tick
            &&& init ==> m.dom().contains(next)
            &&& !init ==> !m.dom().contains(next)
            &&& forall|k: int| #[trigger] m.dom().contains(k) && lte && k <= tick ==> k <= next
            &&& forall|k: int| #[trigger] m.dom().contains(k) && !lte && k > tick ==> k >= next
            &&& lte ==> tick - next < 256 * spacing
            &&& !lte ==> next - tick <= 256 * spacing
        }),
{
    word_bounds(tick, spacing);
    let (next, init) = next_tick(m, tick, spacing, lte);
    if lte {
        assert forall|k: int| #[trigger] m.dom().contains(k) && k <= tick implies k <= next && (
        !init ==> k != next) by {
            greatest_exists(m, tick, k);
        }
    } else {
        assert forall|k: int| #[trigger] m.dom().contains(k) && k > tick implies k >= next && (
        !init ==> k != next) by {
            least_exists(m, tick, k);
        }
    }
}

/// `a / d` rounded down.
pub fn floor_div(a: i64, d: i64) -> (r: i64)
    requires
        d > 0,
        -0x1_0000_0000 < a < 0x1_0000_0000,
        d < 0x1_0000_0000,
    ensures
        r == a as int / (d as int),
        -0x1_0000_0000 < r < 0x1_0000_0000,
{
    if a >= 0 {
        proof {
            div_facts(a as int, d as int);
            let q = a as int / (d as int);
            assert(0 <= q <= a) by (nonlinear_arith)
                requires
                    a == q * d + a as int % (d as int),
                    0 <= a as int % (d as int) < d,
                    d >= 1,
                    a >= 0,
            ;
        }
        a / d
    } else {
        let n: i64 = -(a + 1);
        proof {
            div_facts(n as int, d as int);
            let q = n as int / (d as int);
            assert(0 <= q <= n) by (nonlinear_arith)
                requires
                    n == q * d + n as int % (d as int),
                    0 <= n as int % (d as int) < d,
                    d >= 1,
                    n >= 0,
            ;
            let r = d - 1 - n as int % (d as int);
            assert(a == (-q - 1) * d + r) by (nonlinear_arith)
                requires
                    n == q * d + n as int % (d as int),
                    a == -n - 1,
                    r == d - 1 - n as int % (d as int),
            ;
            crate::arith::div_unique(a as int, d as int, -q - 1, r);
        }
        -(n / d) - 1
    }
}

impl View for TickManager {
    type V = Map<int, TickView>;

    closed spec fn view(&self) -> Map<int, TickView> {
        tick_map(self.ticks@)
    }
}

impl Clone for TickManager {
    fn clone(&self) -> (r: Self)
        ensures
            r@ == self@,
            r.entries() == self.entries(),
            self.wf() ==> r.wf(),
    {
        let mut ticks: Vec<Tick> = Vec::new();
        let mut i: usize = 0;
        while i < self.ticks.len()
            invariant
                i <= self.ticks@.len(),
                ticks@ == self.ticks@.take(i as int),
            decreases self.ticks@.len() - i,
        {
            ticks.push(self.ticks[i]);
            i = i + 1;
            assert(ticks@ =~= self.ticks@.take(i as int));
        }
        assert(self.ticks@.take(self.ticks@.len() as int) =~= self.ticks@);
        TickManager { ticks }
    }
}

impl TickManager {
    /// The entries are in order.
    pub closed spec fn wf(&self) -> bool {
        ordered(self.ticks@)
    }

    /// The entries in order.
    pub closed spec fn entries(&self) -> Seq<Tick> {
        self.ticks@
    }

    /// The ticks by index are those of the entries, which are in order.
    pub proof fn entries_tell(&self)
        ensures
            self@ == tick_map(self.entries()),
            self.wf() == ordered(self.entries()),
    {
    }

    pub fn new() -> (r: Self)
        ensures
            r.wf(),
            r@ == Map::<int, TickView>::empty(),
            r.entries() == Seq::<Tick>::empty(),
    {
        let r = TickManager { ticks: Vec::new() };
        assert(r@ =~= Map::<int, TickView>::empty());
        r
    }

    /// The manager of ticks that are already in order of their index.
    pub fn from_ticks(ticks: Vec<Tick>) -> (r: Self)
        requires
            ordered(ticks@),
        ensures
            r.wf(),
            r.entries() == ticks@,
            r@ == tick_map(ticks@),
    {
        TickManager { ticks }
    }

    /// The first entry at or above `tick_index`.
    fn find(&self, tick_index: i32) -> (r: (usize, bool))
        requires
            self.wf(),
        ensures
            r.0 <= self.ticks@.len(),
            forall|j: int| 0 <= j < r.0 ==> self.ticks@[j].tick_index < tick_index,
            forall|j: int| r.0 <= j < self.ticks@.len() ==> self.ticks@[j].tick_index >= tick_index,
            r.1 == (r.0 < self.ticks@.len() && self.ticks@[r.0 as int].tick_index == tick_index),
            r.1 == self@.dom().contains(tick_index as int),
            r.1 ==> self@[tick_index as int] == self.ticks@[r.0 as int]@,
    {
        let mut lo: usize = 0;
        let mut hi: usize = self.ticks.len();
        while lo < hi
            invariant
                self.wf(),
                lo <= hi <= self.ticks@.len(),
                forall|j: int| 0 <= j < lo ==> self.ticks@[j].tick_index < tick_index,
                forall|j: int| hi <= j < self.ticks@.len() ==> self.ticks@[j].tick_index
                    >= tick_index,
            decreases hi - lo,
        {
            let mid: usize = lo + (hi - lo) / 2;
            if self.ticks[mid].tick_index < tick_index {
                lo = mid + 1;
            } else {
                hi = mid;
            }
        }
        let found: bool = lo < self.ticks.len() && self.ticks[lo].tick_index == tick_index;
        proof {
            if found {
                map_entry(self.ticks@, lo as int);
            } else if has_tick(self.ticks@, tick_index as int) {
                let p = place(self.ticks@, tick_index as int);
                assert(self.ticks@[p].tick_index == tick_index);
                if p > lo {
                    assert(self.ticks@[lo as int].tick_index < self.ticks@[p].tick_index);
                }
            }
        }
        (lo, found)
    }

    /// The tick at `tick_index`, put in empty where there was none.
    pub fn get_tick_and_init_if_absent(&mut self, tick_index: i32) -> (r: &mut Tick)
        requires
            old(self).wf(),
            MIN_TICK <= tick_index <= MAX_TICK,
        ensures
            r.tick_index == tick_index,
            r@ == tick_at(old(self)@, tick_index as int),
            final(r).tick_index == tick_index ==> final(self).wf() && final(self)@ == old(
                self,
            )@.insert(tick_index as int, final(r)@),
    {
        let (pos, found) = self.find(tick_index);
        let ghost before = self.ticks@;
        if !found {
            let fresh: Tick = Tick::new(tick_index);
            proof {
                map_inserted(self.ticks@, pos as int, fresh);
            }
            self.ticks.insert(pos, fresh);
        }
        let ghost middle = self.ticks@;
        proof {
            assert(ordered(middle));
            assert(middle[pos as int].tick_index == tick_index);
            assert forall|t: Tick| t.tick_index == tick_index implies ordered(
                middle.update(pos as int, t),
            ) && #[trigger] tick_map(middle.update(pos as int, t)) == tick_map(before).insert(
                tick_index as int,
                t@,
            ) by {
                map_replaced(middle, pos as int, t);
                assert(tick_map(middle).insert(tick_index as int, t@) =~= tick_map(before).insert(
                    tick_index as int,
                    t@,
                ));
            }
        }
        &mut self.ticks[pos]
    }

    /// The tick at `tick_index`, empty where there is none.
    pub fn get_tick_readonly(&self, tick_index: i32) -> (r: Tick)
        requires
            self.wf(),
            self@.dom().contains(tick_index as int) || MIN_TICK <= tick_index <= MAX_TICK,
        ensures
            r.tick_index == tick_index,
            r@ == tick_at(self@, tick_index as int),
    {
        let (pos, found) = self.find(tick_index);
        if found {
            self.ticks[pos]
        } else {
            Tick::new(tick_index)
        }
    }

    /// Puts `tick` in under its index.
    pub fn set(&mut self, tick: Tick)
        requires
            old(self).wf(),
        ensures
            final(self).wf(),
            final(self)@ == old(self)@.insert(tick.tick_index as int, tick@),
    {
        let (pos, found) = self.find(tick.tick_index);
        if found {
            proof {
                map_replaced(self.ticks@, pos as int, tick);
            }
            self.ticks[pos] = tick;
        } else {
            proof {
                map_inserted(self.ticks@, pos as int, tick);
            }
            self.ticks.insert(pos, tick);
        }
    }

    /// Takes the tick at `tick_index` out.
    pub fn clear(&mut self, tick_index: i32)
        requires
            old(self).wf(),
        ensures
            final(self).wf(),
            final(self)@ == old(self)@.remove(tick_index as int),
    {
        let (pos, found) = self.find(tick_index);
        if found {
            proof {
                map_removed(self.ticks@, pos as int);
            }
            self.ticks.remove(pos);
        } else {
            assert(self@.remove(tick_index as int) =~= self@);
        }
    }

    /// The entries in order of their index.
    pub fn ticks(&self) -> (r: &Vec<Tick>)
        ensures
            r@ == self.entries(),
            self@ == tick_map(r@),
            self.wf() == ordered(r@),
    {
        &self.ticks
    }

    /// Whether there is no tick.
    pub fn is_empty(&self) -> (r: bool)
        ensures
            r == (forall|k: int| !self@.dom().contains(k)),
    {
        proof {
            if self.ticks@.len() > 0 {
                let k = self.ticks@[0].tick_index as int;
                assert(has_tick(self.ticks@, k));
                assert(self@.dom().contains(k));
            }
        }
        self.ticks.len() == 0
    }

    /// The indices in increasing order.
    pub fn tick_indices(&self) -> (r: Vec<i32>)
        ensures
            r@ == self.entries().map_values(|t: Tick| t.tick_index),
            forall|k: int|
                #[trigger] self@.dom().contains(k) <==> exists|i: int|
                    0 <= i < r@.len() && #[trigger] r@[i] == k,
            self.wf() ==> forall|i: int, j: int| 0 <= i < j < r@.len() ==> r@[i] < r@[j],
    {
        let mut out: Vec<i32> = Vec::new();
        let mut i: usize = 0;
        while i < self.ticks.len()
            invariant
                i <= self.ticks@.len(),
                out@ == self.ticks@.take(i as int).map_values(|t: Tick| t.tick_index),
            decreases self.ticks@.len() - i,
        {
            out.push(self.ticks[i].tick_index);
            i = i + 1;
            assert(out@ =~= self.ticks@.take(i as int).map_values(|t: Tick| t.tick_index));
        }
        assert(self.ticks@.take(self.ticks@.len() as int) =~= self.ticks@);
        proof {
            assert forall|k: int| #[trigger] self@.dom().contains(k) <==> exists|j: int|
                0 <= j < out@.len() && #[trigger] out@[j] == k by {
                if self@.dom().contains(k) {
                    assert(out@[place(self.ticks@, k)] == k);
                }
                if exists|j: int| 0 <= j < out@.len() && #[trigger] out@[j] == k {
                    let j = choose|j: int| 0 <= j < out@.len() && #[trigger] out@[j] == k;
                    assert(self.ticks@[j].tick_index == k);
                }
            }
        }
        out
    }

    /// The next tick in the direction of a swap, but not past the end of its word, and
    /// whether there is an entry for it.
    pub fn get_next_initialized_tick(&self, tick: i32, tick_spacing: i32, lte: bool) -> (r: (
        i32,
        bool,
    ))
        requires
            self.wf(),
            tick_spacing > 0,
            lte ==> tick - 256 * tick_spacing >= i32::MIN,
            !lte ==> tick + 256 * tick_spacing <= i32::MAX,
        ensures
            (r.0 as int, r.1) == next_tick(self@, tick as int, tick_spacing as int, lte),
            lte ==> r.0 <= tick && tick - r.0 < 256 * tick_spacing,
            !lte ==> r.0 > tick && r.0 - tick <= 256 * tick_spacing,
            r.1 == self@.dom().contains(r.0 as int),
            lte ==> forall|k: int| #[trigger] self@.dom().contains(k) && k <= tick ==> k <= r.0,
            !lte ==> forall|k: int| #[trigger] self@.dom().contains(k) && k > tick ==> k >= r.0,
    {
        let compressed: i64 = floor_div(tick as i64, tick_spacing as i64);
        proof {
            word_bounds(tick as int, tick_spacing as int);
            next_tick_facts(self@, tick as int, tick_spacing as int, lte);
        }
        // the first entry above `tick`
        let (mut pos, found) = self.find(tick);
        let count: usize = self.ticks.len();
        if found {
            pos = pos + 1;
        }
        assert forall|j: int| 0 <= j < pos implies self.ticks@[j].tick_index <= tick by {}
        assert forall|j: int| pos <= j < self.ticks@.len() implies self.ticks@[j].tick_index > tick by {
            if found {
                assert(self.ticks@[pos - 1].tick_index < self.ticks@[j].tick_index);
            }
        }
        assert forall|k: int| #[trigger] self@.dom().contains(k) implies has_tick(self.ticks@, k) by {}
        if lte {
            let end: i64 = floor_div(compressed, 256) * 256 * tick_spacing as i64;
            if pos > 0 {
                let index: i32 = self.ticks[pos - 1].tick_index;
                proof {
                    self.last_at_or_below(tick as int, pos as int);
                }
                if index as i64 >= end {
                    (index, true)
                } else {
                    (end as i32, false)
                }
            } else {
                proof {
                    assert forall|k: int| !is_at_or_below(self@, tick as int, k) by {
                        if is_at_or_below(self@, tick as int, k) {
                            let p = place(self.ticks@, k);
                            assert(self.ticks@[p].tick_index == k);
                        }
                    }
                }
                (end as i32, false)
            }
        } else {
            let end: i64 = ((floor_div(compressed + 1, 256) + 1) * 256 - 1) * tick_spacing as i64;
            if pos < count {
                let index: i32 = self.ticks[pos].tick_index;
                proof {
                    self.first_above(tick as int, pos as int);
                }
                if index as i64 <= end {
                    (index, true)
                } else {
                    (end as i32, false)
                }
            } else {
                proof {
                    assert forall|k: int| !is_above(self@, tick as int, k) by {
                        if is_above(self@, tick as int, k) {
                            let p = place(self.ticks@, k);
                            assert(self.ticks@[p].tick_index == k);
                        }
                    }
                }
                (end as i32, false)
            }
        }
    }

    proof fn last_at_or_below(&self, tick: int, pos: int)
        requires
            self.wf(),
            0 < pos <= self.ticks@.len(),
            forall|j: int| 0 <= j < pos ==> self.ticks@[j].tick_index <= tick,
            forall|j: int| pos <= j < self.ticks@.len() ==> self.ticks@[j].tick_index > tick,
        ensures
            is_at_or_below(self@, tick, self.ticks@[pos - 1].tick_index as int),
            forall|k: int|
                is_at_or_below(self@, tick, k) ==> k == self.ticks@[pos - 1].tick_index,
            self@.dom().contains(self.ticks@[pos - 1].tick_index as int),
    {
        let s = self.ticks@;
        map_entry(s, pos - 1);
        assert forall|j: int| #[trigger] self@.dom().contains(j) && j <= tick implies j
            <= s[pos - 1].tick_index by {
            let p = place(s, j);
            assert(has_tick(s, j));
            assert(s[p].tick_index == j);
            if p < pos - 1 {
                assert(s[p].tick_index < s[pos - 1].tick_index);
            }
        }
    }

    proof fn first_above(&self, tick: int, pos: int)
        requires
            self.wf(),
            0 <= pos < self.ticks@.len(),
            forall|j: int| 0 <= j < pos ==> self.ticks@[j].tick_index <= tick,
            forall|j: int| pos <= j < self.ticks@.len() ==> self.ticks@[j].tick_index > tick,
        ensures
            is_above(self@, tick, self.ticks@[pos].tick_index as int),
            forall|k: int| is_above(self@, tick, k) ==> k == self.ticks@[pos].tick_index,
            self@.dom().contains(self.ticks@[pos].tick_index as int),
    {
        let s = self.ticks@;
        map_entry(s, pos);
        assert forall|j: int| #[trigger] self@.dom().contains(j) && j > tick implies s[pos].tick_index
            <= j by {
            let p = place(s, j);
            assert(has_tick(s, j));
            assert(s[p].tick_index == j);
            if p > pos {
                assert(s[pos].tick_index < s[p].tick_index);
            }
        }
    }

    /// The fee growth of both tokens between two ticks.
    pub fn get_fee_growth_inside_readonly(
        &self,
        tick_lower: i32,
        tick_upper: i32,
        tick_current: i32,
        fee_growth_global_0_x128: U256,
        fee_growth_global_1_x128: U256,
    ) -> (r: (U256, U256))
        requires
            self.wf(),
            MIN_TICK <= tick_lower <= MAX_TICK,
            MIN_TICK <= tick_upper <= MAX_TICK,
        ensures
            (r.0@, r.1@) == growths_inside(
                self@,
                tick_lower as int,
                tick_upper as int,
                tick_current as int,
                fee_growth_global_0_x128@,
                fee_growth_global_1_x128@,
            ),
    {
        let lower: Tick = self.get_tick_readonly(tick_lower);
        let upper: Tick = self.get_tick_readonly(tick_upper);
        growth_between(
            &lower,
            &upper,
            tick_current,
            fee_growth_global_0_x128,
            fee_growth_global_1_x128,
        )
    }

    /// The fee growth of both tokens between two ticks.
    pub fn get_fee_growth_inside(
        &mut self,
        tick_lower: i32,
        tick_upper: i32,
        tick_current: i32,
        fee_growth_global_0_x128: U256,
        fee_growth_global_1_x128: U256,
    ) -> (r: (U256, U256))
        requires
            old(self).wf(),
            MIN_TICK <= tick_lower <= MAX_TICK,
            MIN_TICK <= tick_upper <= MAX_TICK,
        ensures
            *final(self) == *old(self),
            (r.0@, r.1@) == growths_inside(
                old(self)@,
                tick_lower as int,
                tick_upper as int,
                tick_current as int,
                fee_growth_global_0_x128@,
                fee_growth_global_1_x128@,
            ),
    {
        self.get_fee_growth_inside_readonly(
            tick_lower,
            tick_upper,
            tick_current,
            fee_growth_global_0_x128,
            fee_growth_global_1_x128,
        )
    }
}

/// The fee growth of both tokens between two ticks.
pub open spec fn growths_inside(
    m: Map<int, TickView>,
    lower: int,
    upper: int,
    current: int,
    growth0: int,
    growth1: int,
) -> (int, int) {
    let l = tick_at(m, lower);
    let u = tick_at(m, upper);
    (
        growth_inside(growth0, l.outside0, u.outside0, lower, upper, current),
        growth_inside(growth1, l.outside1, u.outside1, lower, upper, current),
    )
}

/// The fee growth of both tokens between two ticks that are at hand.
pub fn growth_between(
    lower: &Tick,
    upper: &Tick,
    tick_current: i32,
    fee_growth_global_0_x128: U256,
    fee_growth_global_1_x128: U256,
) -> (r: (U256, U256))
    ensures
        r.0@ == growth_inside(
            fee_growth_global_0_x128@,
            lower@.outside0,
            upper@.outside0,
            lower.tick_index as int,
            upper.tick_index as int,
            tick_current as int,
        ),
        r.1@ == growth_inside(
            fee_growth_global_1_x128@,
            lower@.outside1,
            upper@.outside1,
            lower.tick_index as int,
            upper.tick_index as int,
            tick_current as int,
        ),
{
    let below_0: U256 = if tick_current >= lower.tick_index {
        lower.fee_growth_outside_0_x128
    } else {
        mod256_sub(fee_growth_global_0_x128, lower.fee_growth_outside_0_x128)
    };
    let below_1: U256 = if tick_current >= lower.tick_index {
        lower.fee_growth_outside_1_x128
    } else {
        mod256_sub(fee_growth_global_1_x128, lower.fee_growth_outside_1_x128)
    };
    let above_0: U256 = if tick_current < upper.tick_index {
        upper.fee_growth_outside_0_x128
    } else {
        mod256_sub(fee_growth_global_0_x128, upper.fee_growth_outside_0_x128)
    };
    let above_1: U256 = if tick_current < upper.tick_index {
        upper.fee_growth_outside_1_x128
    } else {
        mod256_sub(fee_growth_global_1_x128, upper.fee_growth_outside_1_x128)
    };
    (
        mod256_sub(mod256_sub(fee_growth_global_0_x128, below_0), above_0),
        mod256_sub(mod256_sub(fee_growth_global_1_x128, below_1), above_1),
    )
}

} // verus!
