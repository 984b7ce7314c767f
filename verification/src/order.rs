//! A stable order of items by an integer key.
use vstd::prelude::*;

verus! {

/// Item `a` goes before item `b`: by its key, and by its place where the keys are
/// equal.
pub open spec fn before(keys: Seq<i64>, a: int, b: int) -> bool {
    keys[a] < keys[b] || (keys[a] == keys[b] && a < b)
}

/// Places in which each one goes before those that follow.
pub open spec fn in_order(keys: Seq<i64>, places: Seq<int>) -> bool {
    forall|i: int, j: int|
        #![trigger places[i], places[j]]
        0 <= i < j < places.len() ==> before(keys, places[i], places[j])
}

/// All places of the items, in order.
pub open spec fn is_order(keys: Seq<i64>, places: Seq<int>) -> bool {
    &&& places.len() == keys.len()
    &&& forall|i: int| 0 <= i < places.len() ==> 0 <= #[trigger] places[i] < keys.len()
    &&& in_order(keys, places)
}

/// The places of the items in the stable order of their keys.
pub open spec fn order_of(keys: Seq<i64>) -> Seq<int> {
    choose|places: Seq<int>| is_order(keys, places)
}

/// The places that a vector holds.
pub open spec fn places_of(v: Seq<usize>) -> Seq<int> {
    Seq::new(v.len(), |i: int| v[i] as int)
}

/// An order holds every place.
pub proof fn order_covers(keys: Seq<i64>, places: Seq<int>, k: int)
    requires
        is_order(keys, places),
        0 <= k < keys.len(),
    ensures
        places.contains(k),
{
    assert forall|i: int, j: int| 0 <= i < j < places.len() implies places[i] != places[j] by {
        assert(before(keys, places[i], places[j]));
    }
    let n = keys.len() as int;
    let all = vstd::set_lib::set_int_range(0, n);
    vstd::set_lib::lemma_int_range(0, n);
    places.unique_seq_to_set();
    assert(places.to_set().subset_of(all));
    vstd::set_lib::lemma_subset_equality(places.to_set(), all);
    assert(all.contains(k));
}

/// There is an order of any items.
pub proof fn order_exists(keys: Seq<i64>)
    ensures
        is_order(keys, order_of(keys)),
{
    let leq = |a: int, b: int| a == b || before(keys, a, b);
    let all = Seq::new(keys.len(), |i: int| i);
    let s = all.sort_by(leq);
    all.lemma_sort_by_ensures(leq);
    all.lemma_multiset_has_no_duplicates();
    s.lemma_multiset_has_no_duplicates_conv();
    all.to_multiset_ensures();
    s.to_multiset_ensures();
    assert forall|i: int| 0 <= i < s.len() implies 0 <= #[trigger] s[i] < keys.len() by {
        assert(s.contains(s[i]));
        assert(all.contains(s[i]));
    }
    assert forall|i: int, j: int|
        #![trigger s[i], s[j]]
        0 <= i < j < s.len() implies before(keys, s[i], s[j]) by {
        assert(leq(s[i], s[j]));
    }
    assert(is_order(keys, s));
}

/// There is one order only.
pub proof fn order_unique(keys: Seq<i64>, a: Seq<int>, b: Seq<int>)
    requires
        is_order(keys, a),
        is_order(keys, b),
    ensures
        a == b,
{
    assert forall|i: int| 0 <= i < a.len() implies a[i] == b[i] by {
        same_prefix(keys, a, b, i + 1);
    }
    assert(a =~= b);
}

proof fn same_prefix(keys: Seq<i64>, a: Seq<int>, b: Seq<int>, n: int)
    requires
        is_order(keys, a),
        is_order(keys, b),
        0 <= n <= a.len(),
    ensures
        forall|i: int| 0 <= i < n ==> a[i] == b[i],
    decreases n,
{
    if n > 0 {
        same_prefix(keys, a, b, n - 1);
        let i = n - 1;
        order_covers(keys, b, a[i]);
        order_covers(keys, a, b[i]);
        let j = choose|j: int| 0 <= j < b.len() && b[j] == a[i];
        let k = choose|k: int| 0 <= k < a.len() && a[k] == b[i];
        if j < i {
            assert(a[j] == a[i]);
            assert(before(keys, a[j], a[i]));
        }
        if k < i {
            assert(b[k] == b[i]);
            assert(before(keys, b[k], b[i]));
        }
        if j > i && k > i {
            assert(before(keys, b[i], b[j]));
            assert(before(keys, a[i], a[k]));
        }
    }
}

/// Merges the orders of two neighbouring runs.
fn merge(keys: &Vec<i64>, a: &Vec<usize>, b: &Vec<usize>, Ghost(lo): Ghost<int>, Ghost(mid): Ghost<
    int,
>, Ghost(hi): Ghost<int>) -> (r: Vec<usize>)
    requires
        0 <= lo <= mid <= hi <= keys.len(),
        a.len() == mid - lo,
        b.len() == hi - mid,
        forall|i: int| 0 <= i < a.len() ==> lo <= #[trigger] a[i] < mid,
        forall|i: int| 0 <= i < b.len() ==> mid <= #[trigger] b[i] < hi,
        in_order(keys@, places_of(a@)),
        in_order(keys@, places_of(b@)),
    ensures
        r.len() == hi - lo,
        forall|i: int| 0 <= i < r.len() ==> lo <= #[trigger] r[i] < hi,
        in_order(keys@, places_of(r@)),
{
    let mut out: Vec<usize> = Vec::new();
    let mut i: usize = 0;
    let mut j: usize = 0;
    while i < a.len() || j < b.len()
        invariant
            0 <= lo <= mid <= hi <= keys.len(),
            a.len() == mid - lo,
            b.len() == hi - mid,
            forall|i: int| 0 <= i < a.len() ==> lo <= #[trigger] a[i] < mid,
            forall|i: int| 0 <= i < b.len() ==> mid <= #[trigger] b[i] < hi,
            in_order(keys@, places_of(a@)),
            in_order(keys@, places_of(b@)),
            i <= a.len(),
            j <= b.len(),
            out.len() == i + j,
            forall|k: int| 0 <= k < out.len() ==> lo <= #[trigger] out[k] < hi,
            in_order(keys@, places_of(out@)),
            forall|k: int|
                #![trigger out[k]]
                0 <= k < out.len() && i < a.len() ==> before(
                    keys@,
                    out[k] as int,
                    a[i as int] as int,
                ),
            forall|k: int|
                #![trigger out[k]]
                0 <= k < out.len() && j < b.len() ==> before(
                    keys@,
                    out[k] as int,
                    b[j as int] as int,
                ),
        decreases a.len() + b.len() - i - j,
    {
        let first: bool = j >= b.len() || (i < a.len() && keys[a[i]] <= keys[b[j]]);
        let next: usize = if first {
            a[i]
        } else {
            b[j]
        };
        let ghost pa = places_of(a@);
        let ghost pb = places_of(b@);
        proof {
            if i < a.len() {
                assert(pa[i as int] == a[i as int]);
                if i + 1 < a.len() {
                    assert(pa[i + 1] == a[i + 1]);
                    assert(before(keys@, pa[i as int], pa[i + 1]));
                }
            }
            if j < b.len() {
                assert(pb[j as int] == b[j as int]);
                if j + 1 < b.len() {
                    assert(pb[j + 1] == b[j + 1]);
                    assert(before(keys@, pb[j as int], pb[j + 1]));
                }
            }
            assert forall|k: int| 0 <= k < out.len() implies before(
                keys@,
                #[trigger] out[k] as int,
                next as int,
            ) by {}
            let grown = places_of(out@.push(next));
            assert forall|x: int, y: int|
                #![trigger grown[x], grown[y]]
                0 <= x < y < grown.len() implies before(keys@, grown[x], grown[y]) by {
                let before_push = places_of(out@);
                assert(grown[x] == out[x]);
                if y < out.len() {
                    assert(before_push[x] == grown[x] && before_push[y] == grown[y]);
                }
            }
        }
        out.push(next);
        if first {
            i = i + 1;
        } else {
            j = j + 1;
        }
    }
    out
}

/// The order of the items `lo .. hi`.
fn sort_run(keys: &Vec<i64>, lo: usize, hi: usize) -> (r: Vec<usize>)
    requires
        lo <= hi <= keys.len(),
    ensures
        r.len() == hi - lo,
        forall|i: int| 0 <= i < r.len() ==> lo <= #[trigger] r[i] < hi,
        in_order(keys@, places_of(r@)),
    decreases hi - lo,
{
    if hi - lo <= 1 {
        let mut out: Vec<usize> = Vec::new();
        if lo < hi {
            out.push(lo);
        }
        return out;
    }
    let mid: usize = lo + (hi - lo) / 2;
    let a: Vec<usize> = sort_run(keys, lo, mid);
    let b: Vec<usize> = sort_run(keys, mid, hi);
    merge(keys, &a, &b, Ghost(lo as int), Ghost(mid as int), Ghost(hi as int))
}

/// The places of the items in the stable order of their keys.
pub fn stable_order(keys: &Vec<i64>) -> (r: Vec<usize>)
    ensures
        places_of(r@) == order_of(keys@),
        is_order(keys@, places_of(r@)),
{
    let r: Vec<usize> = sort_run(keys, 0, keys.len());
    proof {
        let p = places_of(r@);
        assert forall|i: int| 0 <= i < p.len() implies 0 <= #[trigger] p[i] < keys.len() by {
            assert(p[i] == r[i]);
        }
        assert(is_order(keys@, p));
        order_unique(keys@, p, order_of(keys@));
    }
    r
}

} // verus!
