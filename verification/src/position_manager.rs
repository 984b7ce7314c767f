//! The positions of a pool, found by owner and range.
use crate::position::{empty_position, Position, PositionView};
use crate::text::{dec, dec_reads_back, dec_signed, push_dec_i64};
use crate::types::{min_u256, U256};
use vstd::prelude::*;
use vstd::string::*;

verus! {

/// One position under its key.
#[derive(Debug)]
pub struct PositionEntry {
    pub key: String,
    pub position: Position,
}

/// The positions, no key twice.
#[derive(Debug)]
pub struct PositionManager {
    entries: Vec<PositionEntry>,
}

/// The key of a position: owner, lower tick and upper tick, joined by `_`.
pub open spec fn position_key(owner: Seq<char>, lower: int, upper: int) -> Seq<char> {
    owner + seq!['_'] + dec_signed(lower) + seq!['_'] + dec_signed(upper)
}

/// No key occurs twice.
pub open spec fn distinct_keys(s: Seq<PositionEntry>) -> bool {
    forall|i: int, j: int| 0 <= i < j < s.len() ==> s[i].key@ != s[j].key@
}

/// Whether `s` has an entry under `k`.
pub open spec fn has_key(s: Seq<PositionEntry>, k: Seq<char>) -> bool {
    exists|i: int| 0 <= i < s.len() && (#[trigger] s[i]).key@ == k
}

/// The place of the entry under `k`.
pub open spec fn key_place(s: Seq<PositionEntry>, k: Seq<char>) -> int {
    choose|i: int| 0 <= i < s.len() && (#[trigger] s[i]).key@ == k
}

/// The positions by key.
pub open spec fn position_map(s: Seq<PositionEntry>) -> Map<Seq<char>, PositionView> {
    Map::new(|k: Seq<char>| has_key(s, k), |k: Seq<char>| s[key_place(s, k)].position@)
}

/// The position under `k`, empty where there is none.
pub open spec fn position_at(m: Map<Seq<char>, PositionView>, k: Seq<char>) -> PositionView {
    if m.dom().contains(k) {
        m[k]
    } else {
        empty_position()
    }
}

/// What collecting pays: what is owed, up to what is requested.
pub open spec fn collected(owed: int, requested: int) -> int {
    if requested > owed {
        owed
    } else {
        requested
    }
}

/// Collecting from the position under `k`: what is paid leaves what is owed, and a
/// position that is left with nothing is taken out.
pub open spec fn after_collect(
    m: Map<Seq<char>, PositionView>,
    k: Seq<char>,
    requested0: int,
    requested1: int,
) -> (Map<Seq<char>, PositionView>, int, int) {
    if !m.dom().contains(k) {
        (m, 0, 0)
    } else {
        let p = m[k];
        let a0 = collected(p.owed0, requested0);
        let a1 = collected(p.owed1, requested1);
        let left = PositionView { owed0: p.owed0 - a0, owed1: p.owed1 - a1, ..p };
        if a0 == 0 && a1 == 0 {
            (m, 0, 0)
        } else if left.liquidity == 0 && left.owed0 == 0 && left.owed1 == 0 {
            (m.remove(k), a0, a1)
        } else {
            (m.insert(k, left), a0, a1)
        }
    }
}

proof fn map_entry(s: Seq<PositionEntry>, i: int)
    requires
        distinct_keys(s),
        0 <= i < s.len(),
    ensures
        position_map(s).dom().contains(s[i].key@),
        position_map(s)[s[i].key@] == s[i].position@,
        key_place(s, s[i].key@) == i,
{
    let k = s[i].key@;
    assert(has_key(s, k));
    let p = key_place(s, k);
    if p < i {
        assert(s[p].key@ != s[i].key@);
    } else if i < p {
        assert(s[i].key@ != s[p].key@);
    }
}

proof fn map_replaced(s: Seq<PositionEntry>, i: int, e: PositionEntry)
    requires
        distinct_keys(s),
        0 <= i < s.len(),
        e.key@ == s[i].key@,
    ensures
        distinct_keys(s.update(i, e)),
        position_map(s.update(i, e)) == position_map(s).insert(e.key@, e.position@),
{
    let u = s.update(i, e);
    assert forall|a: int, b: int| 0 <= a < b < u.len() implies u[a].key@ != u[b].key@ by {
        assert(s[a].key@ != s[b].key@);
    }
    let m = position_map(s).insert(e.key@, e.position@);
    assert forall|k: Seq<char>| position_map(u).dom().contains(k) <==> m.dom().contains(k) by {
        if has_key(u, k) {
            let p = key_place(u, k);
            assert(s[p].key@ == k);
        }
        if has_key(s, k) {
            let p = key_place(s, k);
            assert(u[p].key@ == k);
        }
        if k == e.key@ {
            assert(u[i].key@ == k);
        }
    }
    assert forall|k: Seq<char>| position_map(u).dom().contains(k) implies position_map(u)[k] == m[k] by {
        let p = key_place(u, k);
        map_entry(u, p);
        map_entry(s, p);
        if p != i && k == e.key@ {
            map_entry(u, i);
        }
    }
    assert(position_map(u) =~= m);
}

proof fn map_pushed(s: Seq<PositionEntry>, e: PositionEntry)
    requires
        distinct_keys(s),
        !has_key(s, e.key@),
    ensures
        distinct_keys(s.push(e)),
        position_map(s.push(e)) == position_map(s).insert(e.key@, e.position@),
{
    let u = s.push(e);
    let n = s.len() as int;
    assert forall|a: int, b: int| 0 <= a < b < u.len() implies u[a].key@ != u[b].key@ by {
        if b < n {
            assert(s[a].key@ != s[b].key@);
        } else {
            assert(s[a].key@ != e.key@);
        }
    }
    let m = position_map(s).insert(e.key@, e.position@);
    assert forall|k: Seq<char>| position_map(u).dom().contains(k) <==> m.dom().contains(k) by {
        if has_key(u, k) {
            let p = key_place(u, k);
            if p < n {
                assert(s[p].key@ == k);
            }
        }
        if has_key(s, k) {
            let p = key_place(s, k);
            assert(u[p].key@ == k);
        }
        if k == e.key@ {
            assert(u[n].key@ == k);
        }
    }
    assert forall|k: Seq<char>| position_map(u).dom().contains(k) implies position_map(u)[k] == m[k] by {
        let p = key_place(u, k);
        map_entry(u, p);
        if p < n {
            map_entry(s, p);
        }
    }
    assert(position_map(u) =~= m);
}

proof fn map_removed(s: Seq<PositionEntry>, i: int)
    requires
        distinct_keys(s),
        0 <= i < s.len(),
    ensures
        distinct_keys(s.remove(i)),
        position_map(s.remove(i)) == position_map(s).remove(s[i].key@),
{
    let u = s.remove(i);
    let key = s[i].key@;
    assert forall|a: int, b: int| 0 <= a < b < u.len() implies u[a].key@ != u[b].key@ by {
        let a0 = if a < i { a } else { a + 1 };
        let b0 = if b < i { b } else { b + 1 };
        assert(s[a0].key@ != s[b0].key@);
    }
    let m = position_map(s).remove(key);
    assert forall|k: Seq<char>| position_map(u).dom().contains(k) <==> m.dom().contains(k) by {
        if has_key(u, k) {
            let p = key_place(u, k);
            let p0 = if p < i { p } else { p + 1 };
            assert(s[p0].key@ == k);
            map_entry(s, p0);
            map_entry(s, i);
        }
        if has_key(s, k) && k != key {
            let p = key_place(s, k);
            let p1 = if p < i { p } else { p - 1 };
            assert(u[p1].key@ == k);
        }
    }
    assert forall|k: Seq<char>| position_map(u).dom().contains(k) implies position_map(u)[k] == m[k] by {
        let p = key_place(u, k);
        map_entry(u, p);
        if p < i {
            map_entry(s, p);
        } else {
            map_entry(s, p + 1);
        }
    }
    assert(position_map(u) =~= m);
}

impl View for PositionManager {
    type V = Map<Seq<char>, PositionView>;

    closed spec fn view(&self) -> Map<Seq<char>, PositionView> {
        position_map(self.entries@)
    }
}

impl Clone for PositionEntry {
    fn clone(&self) -> (r: Self)
        ensures
            r.key@ == self.key@,
            r.position == self.position,
    {
        PositionEntry { key: self.key.clone(), position: self.position }
    }
}

/// Entries with equal keys and positions make equal maps.
proof fn map_same(s: Seq<PositionEntry>, t: Seq<PositionEntry>)
    requires
        distinct_keys(s),
        s.len() == t.len(),
        forall|i: int| 0 <= i < s.len() ==> s[i].key@ == t[i].key@ && s[i].position == t[i].position,
    ensures
        distinct_keys(t),
        position_map(t) == position_map(s),
{
    assert forall|a: int, b: int| 0 <= a < b < t.len() implies t[a].key@ != t[b].key@ by {
        assert(s[a].key@ != s[b].key@);
    }
    assert forall|k: Seq<char>| position_map(t).dom().contains(k) <==> position_map(s).dom().contains(k) by {
        if has_key(t, k) {
            let p = key_place(t, k);
            assert(s[p].key@ == k);
        }
        if has_key(s, k) {
            let p = key_place(s, k);
            assert(t[p].key@ == k);
        }
    }
    assert forall|k: Seq<char>| position_map(t).dom().contains(k) implies position_map(t)[k]
        == position_map(s)[k] by {
        let p = key_place(t, k);
        map_entry(t, p);
        map_entry(s, p);
    }
    assert(position_map(t) =~= position_map(s));
}

impl Clone for PositionManager {
    fn clone(&self) -> (r: Self)
        ensures
            self.wf() ==> r.wf() && r@ == self@,
    {
        let mut entries: Vec<PositionEntry> = Vec::new();
        let mut i: usize = 0;
        while i < self.entries.len()
            invariant
                i <= self.entries@.len(),
                entries@.len() == i,
                forall|j: int|
                    0 <= j < i ==> self.entries@[j].key@ == entries@[j].key@
                        && self.entries@[j].position == entries@[j].position,
            decreases self.entries@.len() - i,
        {
            entries.push(self.entries[i].clone());
            i = i + 1;
        }
        proof {
            if self.wf() {
                map_same(self.entries@, entries@);
            }
        }
        PositionManager { entries }
    }
}

impl PositionManager {
    /// No key occurs twice.
    pub closed spec fn wf(&self) -> bool {
        distinct_keys(self.entries@)
    }

    /// The entries, oldest first.
    pub closed spec fn entries(&self) -> Seq<PositionEntry> {
        self.entries@
    }

    /// The positions by key are those of the entries, no key twice.
    pub proof fn entries_tell(&self)
        ensures
            self@ == position_map(self.entries()),
            self.wf() == distinct_keys(self.entries()),
    {
    }

    pub fn new() -> (r: Self)
        ensures
            r.wf(),
            r@ == Map::<Seq<char>, PositionView>::empty(),
            r.entries() == Seq::<PositionEntry>::empty(),
    {
        let r = PositionManager { entries: Vec::new() };
        assert(r@ =~= Map::<Seq<char>, PositionView>::empty());
        r
    }

    /// The key of a position.
    pub fn get_key(owner: &str, tick_lower: i32, tick_upper: i32) -> (r: String)
        ensures
            r@ == position_key(owner@, tick_lower as int, tick_upper as int),
    {
        let mut key: String = owner.to_owned();
        proof {
            reveal_strlit("_");
            assert("_"@ =~= seq!['_']);
        }
        key.append("_");
        push_dec_i64(&mut key, tick_lower as i64);
        key.append("_");
        push_dec_i64(&mut key, tick_upper as i64);
        assert(key@ =~= position_key(owner@, tick_lower as int, tick_upper as int));
        key
    }

    /// The place of the entry under `key`, or the number of entries.
    fn find(&self, key: &String) -> (r: (usize, bool))
        requires
            self.wf(),
        ensures
            r.1 == self@.dom().contains(key@),
            r.1 ==> r.0 < self.entries@.len() && self.entries@[r.0 as int].key@ == key@,
            r.1 ==> self@[key@] == self.entries@[r.0 as int].position@,
            !r.1 ==> r.0 == self.entries@.len(),
            !r.1 ==> !has_key(self.entries@, key@),
    {
        let mut i: usize = 0;
        while i < self.entries.len()
            invariant
                self.wf(),
                i <= self.entries@.len(),
                forall|j: int| 0 <= j < i ==> self.entries@[j].key@ != key@,
            decreases self.entries@.len() - i,
        {
            if self.entries[i].key == *key {
                proof {
                    map_entry(self.entries@, i as int);
                }
                return (i, true);
            }
            i = i + 1;
        }
        (i, false)
    }

    /// Puts `position` in under `key`.
    pub fn set(&mut self, key: String, position: Position)
        requires
            old(self).wf(),
        ensures
            final(self).wf(),
            final(self)@ == old(self)@.insert(key@, position@),
    {
        let (pos, found) = self.find(&key);
        let entry = PositionEntry { key, position };
        if found {
            proof {
                map_replaced(self.entries@, pos as int, entry);
            }
            self.entries[pos] = entry;
        } else {
            proof {
                map_pushed(self.entries@, entry);
            }
            self.entries.push(entry);
        }
    }

    /// Takes the position under `key` out.
    pub fn clear(&mut self, key: &str)
        requires
            old(self).wf(),
        ensures
            final(self).wf(),
            final(self)@ == old(self)@.remove(key@),
    {
        let key: String = key.to_owned();
        let (pos, found) = self.find(&key);
        if found {
            proof {
                map_removed(self.entries@, pos as int);
            }
            self.entries.remove(pos);
        } else {
            assert(self@.remove(key@) =~= self@);
        }
    }

    /// The position of `owner` in a range, put in empty where there was none.
    pub fn get_position_and_init_if_absent(
        &mut self,
        owner: &str,
        tick_lower: i32,
        tick_upper: i32,
    ) -> (r: &mut Position)
        requires
            old(self).wf(),
        ensures
            r@ == position_at(
                old(self)@,
                position_key(owner@, tick_lower as int, tick_upper as int),
            ),
            final(self).wf(),
            final(self)@ == old(self)@.insert(
                position_key(owner@, tick_lower as int, tick_upper as int),
                final(r)@,
            ),
    {
        let key: String = PositionManager::get_key(owner, tick_lower, tick_upper);
        let ghost k = key@;
        let (pos, found) = self.find(&key);
        let ghost before = self.entries@;
        if !found {
            let fresh = PositionEntry { key, position: Position::new() };
            proof {
                map_pushed(self.entries@, fresh);
            }
            self.entries.push(fresh);
        }
        let ghost middle = self.entries@;
        proof {
            assert(distinct_keys(middle));
            assert(middle[pos as int].key@ == k);
            assert forall|e: PositionEntry|
                e.key == middle[pos as int].key implies distinct_keys(middle.update(pos as int, e))
                && #[trigger] position_map(middle.update(pos as int, e)) == position_map(
                before,
            ).insert(k, e.position@) by {
                map_replaced(middle, pos as int, e);
                assert(position_map(middle).insert(k, e.position@) =~= position_map(before).insert(
                    k,
                    e.position@,
                ));
            }
        }
        &mut self.entries[pos].position
    }

    /// The position of `owner` in a range, empty where there is none.
    pub fn get_position_readonly(&self, owner: &str, tick_lower: i32, tick_upper: i32) -> (r:
        Position)
        requires
            self.wf(),
        ensures
            r@ == position_at(self@, position_key(owner@, tick_lower as int, tick_upper as int)),
    {
        let key: String = PositionManager::get_key(owner, tick_lower, tick_upper);
        let (pos, found) = self.find(&key);
        if found {
            self.entries[pos].position
        } else {
            Position::new()
        }
    }

    /// Pays out what the position is owed, up to what is requested.
    pub fn collect_position(
        &mut self,
        owner: &str,
        tick_lower: i32,
        tick_upper: i32,
        amount0_requested: U256,
        amount1_requested: U256,
    ) -> (r: (U256, U256))
        requires
            old(self).wf(),
        ensures
            final(self).wf(),
            (final(self)@, r.0@, r.1@) == after_collect(
                old(self)@,
                position_key(owner@, tick_lower as int, tick_upper as int),
                amount0_requested@,
                amount1_requested@,
            ),
    {
        let key: String = PositionManager::get_key(owner, tick_lower, tick_upper);
        let (pos, found) = self.find(&key);
        if !found {
            return (U256::ZERO(), U256::ZERO());
        }
        let mut position: Position = self.entries[pos].position;
        let amount0: U256 = min_u256(amount0_requested, position.tokens_owed_0);
        let amount1: U256 = min_u256(amount1_requested, position.tokens_owed_1);
        if !amount0.is_zero() || !amount1.is_zero() {
            position.update_burn(position.tokens_owed_0 - amount0, position.tokens_owed_1 - amount1);
            if position.is_empty() {
                proof {
                    map_removed(self.entries@, pos as int);
                }
                self.entries.remove(pos);
            } else {
                let entry = PositionEntry { key, position };
                proof {
                    map_replaced(self.entries@, pos as int, entry);
                }
                self.entries[pos] = entry;
            }
        }
        (amount0, amount1)
    }

    /// The entries, oldest first.
    pub fn positions(&self) -> (r: &Vec<PositionEntry>)
        ensures
            r@ == self.entries(),
            self@ == position_map(r@),
            self.wf() == distinct_keys(r@),
    {
        &self.entries
    }

    /// The keys, oldest first.
    pub fn position_keys(&self) -> (r: Vec<String>)
        ensures
            r@.len() == self.entries().len(),
            forall|i: int| 0 <= i < r@.len() ==> (#[trigger] r@[i])@ == self.entries()[i].key@,
            forall|k: Seq<char>|
                #[trigger] self@.dom().contains(k) <==> exists|i: int|
                    0 <= i < r@.len() && (#[trigger] r@[i])@ == k,
            self.wf() ==> forall|i: int, j: int| 0 <= i < j < r@.len() ==> r@[i]@ != r@[j]@,
    {
        let mut out: Vec<String> = Vec::new();
        let mut i: usize = 0;
        while i < self.entries.len()
            invariant
                i <= self.entries@.len(),
                out@.len() == i,
                forall|j: int| 0 <= j < i ==> (#[trigger] out@[j])@ == self.entries@[j].key@,
            decreases self.entries@.len() - i,
        {
            out.push(self.entries[i].key.clone());
            i = i + 1;
        }
        proof {
            assert forall|k: Seq<char>| #[trigger] self@.dom().contains(k) <==> exists|j: int|
                0 <= j < out@.len() && (#[trigger] out@[j])@ == k by {
                if self@.dom().contains(k) {
                    assert(out@[key_place(self.entries@, k)]@ == k);
                }
                if exists|j: int| 0 <= j < out@.len() && (#[trigger] out@[j])@ == k {
                    let j = choose|j: int| 0 <= j < out@.len() && (#[trigger] out@[j])@ == k;
                    assert(self.entries@[j].key@ == k);
                }
            }
        }
        out
    }
}

/// Two texts that end in a field without `sep` after a `sep` agree in both parts.
proof fn last_field(a: Seq<char>, x: Seq<char>, b: Seq<char>, y: Seq<char>, sep: char)
    requires
        a + seq![sep] + x == b + seq![sep] + y,
        forall|i: int| 0 <= i < x.len() ==> x[i] != sep,
        forall|i: int| 0 <= i < y.len() ==> y[i] != sep,
    ensures
        a == b,
        x == y,
{
    let s = a + seq![sep] + x;
    let t = b + seq![sep] + y;
    assert(s.len() == a.len() + 1 + x.len());
    assert(t.len() == b.len() + 1 + y.len());
    assert(s[a.len() as int] == sep);
    assert(t[b.len() as int] == sep);
    if a.len() < b.len() {
        assert(s[b.len() as int] == x[b.len() - a.len() - 1]);
    } else if b.len() < a.len() {
        assert(t[a.len() as int] == y[a.len() - b.len() - 1]);
    }
    assert(a.len() == b.len());
    assert forall|i: int| 0 <= i < a.len() implies a[i] == b[i] by {
        assert(s[i] == a[i]);
        assert(t[i] == b[i]);
    }
    assert(a =~= b);
    assert forall|i: int| 0 <= i < x.len() implies x[i] == y[i] by {
        assert(s[a.len() + 1 + i] == x[i]);
        assert(t[b.len() + 1 + i] == y[i]);
    }
    assert(x =~= y);
}

/// A signed decimal text has no `_` and names one number.
proof fn signed_text(n: int)
    ensures
        forall|i: int| 0 <= i < dec_signed(n).len() ==> dec_signed(n)[i] != '_',
{
    let d = if n < 0 {
        -n
    } else {
        n
    };
    dec_reads_back(d);
    assert forall|i: int| 0 <= i < dec_signed(n).len() implies dec_signed(n)[i] != '_' by {
        if n < 0 {
            if i > 0 {
                assert(dec_signed(n)[i] == dec(d)[i - 1]);
            }
        } else {
            assert(dec_signed(n)[i] == dec(d)[i]);
        }
    }
}

proof fn signed_text_unique(m: int, n: int)
    requires
        dec_signed(m) == dec_signed(n),
    ensures
        m == n,
{
    let a = if m < 0 { -m } else { m };
    let b = if n < 0 { -n } else { n };
    dec_reads_back(a);
    dec_reads_back(b);
    if m < 0 {
        assert(dec_signed(m)[0] == '-');
        assert(dec_signed(m).skip(1) =~= dec(a));
    } else {
        assert('0' <= dec_signed(m)[0] <= '9') by {
            assert(dec_signed(m)[0] == dec(a)[0]);
        }
    }
    if n < 0 {
        assert(dec_signed(n)[0] == '-');
        assert(dec_signed(n).skip(1) =~= dec(b));
    } else {
        assert('0' <= dec_signed(n)[0] <= '9') by {
            assert(dec_signed(n)[0] == dec(b)[0]);
        }
    }
}

/// A key names one owner and one range.
pub proof fn position_key_unique(
    owner1: Seq<char>,
    lower1: int,
    upper1: int,
    owner2: Seq<char>,
    lower2: int,
    upper2: int,
)
    requires
        position_key(owner1, lower1, upper1) == position_key(owner2, lower2, upper2),
    ensures
        owner1 == owner2,
        lower1 == lower2,
        upper1 == upper2,
{
    signed_text(lower1);
    signed_text(upper1);
    signed_text(lower2);
    signed_text(upper2);
    last_field(
        owner1 + seq!['_'] + dec_signed(lower1),
        dec_signed(upper1),
        owner2 + seq!['_'] + dec_signed(lower2),
        dec_signed(upper2),
        '_',
    );
    last_field(owner1, dec_signed(lower1), owner2, dec_signed(lower2), '_');
    signed_text_unique(lower1, lower2);
    signed_text_unique(upper1, upper2);
}

} // verus!
