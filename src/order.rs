use vstd::prelude::*;

verus! {

broadcast use vstd::seq_lib::group_seq_properties;

/// Index `i` comes before index `j` when its key is smaller, or when the keys
/// are equal and `i` is the earlier index.
pub open spec fn precedes(keys: Seq<int>, i: int, j: int) -> bool {
    keys[i] < keys[j] || (keys[i] == keys[j] && i < j)
}

/// `p` lists every index of `keys` once, in ascending key order, with equal
/// keys kept in their input order.
pub open spec fn is_stable_order(keys: Seq<int>, p: Seq<int>) -> bool {
    &&& p.len() == keys.len()
    &&& forall|k: int| 0 <= k < p.len() ==> 0 <= #[trigger] p[k] < keys.len()
    &&& forall|i: int| 0 <= i < keys.len() ==> #[trigger] p.contains(i)
    &&& forall|a: int, b: int| 0 <= a < b < p.len() ==> precedes(keys, #[trigger] p[a], #[trigger] p[b])
}

/// The stable sorting permutation of `keys`.
pub open spec fn stable_order(keys: Seq<int>) -> Seq<int> {
    choose|p: Seq<int>| is_stable_order(keys, p)
}

pub open spec fn int_keys(keys: Seq<i64>) -> Seq<int> {
    keys.map_values(|k: i64| k as int)
}

pub open spec fn int_indices(p: Seq<usize>) -> Seq<int> {
    p.map_values(|x: usize| x as int)
}

proof fn lemma_orders_agree_below(keys: Seq<int>, p: Seq<int>, q: Seq<int>, k: int)
    requires
        is_stable_order(keys, p),
        is_stable_order(keys, q),
        0 <= k <= p.len(),
    ensures
        forall|m: int| 0 <= m < k ==> p[m] == q[m],
    decreases k,
{
    if k > 0 {
        lemma_orders_agree_below(keys, p, q, k - 1);
        let m = k - 1;
        assert(p.contains(q[m]));
        assert(q.contains(p[m]));
        let m1 = choose|x: int| 0 <= x < p.len() && p[x] == q[m];
        let m2 = choose|x: int| 0 <= x < q.len() && q[x] == p[m];
        if m2 < m {
            assert(precedes(keys, p[m2], p[m]));
        }
        if m1 < m {
            assert(precedes(keys, q[m1], q[m]));
        }
        if m1 != m && m2 != m {
            assert(precedes(keys, q[m], q[m2]));
            assert(precedes(keys, p[m], p[m1]));
        }
    }
}

/// A stable order is unique: any permutation with its properties is `stable_order(keys)`.
pub proof fn lemma_stable_order_unique(keys: Seq<int>, p: Seq<int>)
    requires
        is_stable_order(keys, p),
    ensures
        stable_order(keys) == p,
{
    let q = stable_order(keys);
    assert(is_stable_order(keys, q));
    lemma_orders_agree_below(keys, p, q, p.len() as int);
    assert(q =~= p);
}

/// Every key sequence has a stable order, so `stable_order(keys)` is one.
pub proof fn lemma_stable_order_exists(keys: Seq<int>)
    ensures
        is_stable_order(keys, stable_order(keys)),
{
    broadcast use vstd::multiset::group_multiset_axioms;

    let n = keys.len();
    let s = Seq::new(n, |i: int| i);
    let leq = |i: int, j: int| i == j || precedes(keys, i, j);
    assert(vstd::relations::total_ordering(leq));
    s.lemma_sort_by_ensures(leq);
    let p = s.sort_by(leq);
    assert(s.no_duplicates());
    s.lemma_multiset_has_no_duplicates();
    assert(p.len() == n) by {
        assert(p.to_multiset().len() == s.to_multiset().len());
    }
    p.lemma_multiset_has_no_duplicates_conv();
    assert forall|k: int| 0 <= k < p.len() implies 0 <= #[trigger] p[k] < keys.len() by {
        assert(p.contains(p[k]));
        assert(s.contains(p[k]));
    }
    assert forall|i: int| 0 <= i < keys.len() implies #[trigger] p.contains(i) by {
        assert(s[i] == i);
        assert(s.contains(i));
        assert(s.to_multiset().count(i) > 0);
    }
    assert forall|a: int, b: int| 0 <= a < b < p.len() implies precedes(keys, #[trigger] p[a], #[trigger] p[b]) by {
        assert(leq(p[a], p[b]));
    }
    assert(is_stable_order(keys, p));
}

fn merge(keys: &Vec<i64>, left: Vec<usize>, right: Vec<usize>) -> (r: Vec<usize>)
    requires
        forall|k: int| 0 <= k < left.len() ==> left@[k] < keys.len(),
        forall|k: int| 0 <= k < right.len() ==> right@[k] < keys.len(),
        forall|a: int, b: int|
            0 <= a < b < left.len() ==> precedes(int_keys(keys@), #[trigger] left@[a] as int, #[trigger] left@[b] as int),
        forall|a: int, b: int|
            0 <= a < b < right.len() ==> precedes(int_keys(keys@), #[trigger] right@[a] as int, #[trigger] right@[b] as int),
        forall|a: int, b: int|
            0 <= a < left.len() && 0 <= b < right.len() ==> #[trigger] left@[a] < #[trigger] right@[b],
        left.len() + right.len() <= usize::MAX,
    ensures
        r.len() == left.len() + right.len(),
        r@.to_multiset() == left@.to_multiset().add(right@.to_multiset()),
        forall|a: int, b: int|
            0 <= a < b < r.len() ==> precedes(int_keys(keys@), #[trigger] r@[a] as int, #[trigger] r@[b] as int),
{
    let ghost ks = int_keys(keys@);
    let mut out: Vec<usize> = Vec::with_capacity(left.len() + right.len());
    let mut i: usize = 0;
    let mut j: usize = 0;
    while i < left.len() || j < right.len()
        invariant
            ks == int_keys(keys@),
            i <= left.len(),
            j <= right.len(),
            out.len() == i + j,
            left.len() + right.len() <= usize::MAX,
            forall|a: int, b: int|
                0 <= a < left.len() && 0 <= b < right.len() ==> #[trigger] left@[a] < #[trigger] right@[b],
            forall|k: int| 0 <= k < left.len() ==> left@[k] < keys.len(),
            forall|k: int| 0 <= k < right.len() ==> right@[k] < keys.len(),
            forall|a: int, b: int|
                0 <= a < b < left.len() ==> precedes(ks, #[trigger] left@[a] as int, #[trigger] left@[b] as int),
            forall|a: int, b: int|
                0 <= a < b < right.len() ==> precedes(ks, #[trigger] right@[a] as int, #[trigger] right@[b] as int),
            out@.to_multiset() == left@.subrange(0, i as int).to_multiset().add(
                right@.subrange(0, j as int).to_multiset(),
            ),
            forall|a: int, b: int|
                0 <= a < b < out.len() ==> precedes(ks, #[trigger] out@[a] as int, #[trigger] out@[b] as int),
            out.len() > 0 && i < left.len() ==> precedes(ks, out@.last() as int, left@[i as int] as int),
            out.len() > 0 && j < right.len() ==> precedes(ks, out@.last() as int, right@[j as int] as int),
        decreases left.len() + right.len() - i - j,
    {
        let take_left = if i == left.len() {
            false
        } else if j == right.len() {
            true
        } else {
            let x = left[i];
            let y = right[j];
            keys[x] < keys[y] || (keys[x] == keys[y] && x < y)
        };
        let ghost old_out = out@;
        if take_left {
            let x = left[i];
            out.push(x);
            assert(left@.subrange(0, i + 1) =~= left@.subrange(0, i as int).push(x));
            i = i + 1;
        } else {
            let y = right[j];
            out.push(y);
            assert(right@.subrange(0, j + 1) =~= right@.subrange(0, j as int).push(y));
            j = j + 1;
        }
        assert forall|a: int, b: int| 0 <= a < b < out.len() implies precedes(
            ks,
            #[trigger] out@[a] as int,
            #[trigger] out@[b] as int,
        ) by {
            if b == out.len() - 1 && a < b - 1 {
                assert(precedes(ks, old_out[a] as int, old_out.last() as int));
            }
        }
        if i < left.len() && out.len() > 1 && !take_left {
            assert(precedes(ks, old_out.last() as int, left@[i as int] as int));
        }
        if j < right.len() && out.len() > 1 && take_left {
            assert(precedes(ks, old_out.last() as int, right@[j as int] as int));
        }
        if i < left.len() && take_left {
            assert(precedes(ks, left@[i - 1] as int, left@[i as int] as int));
        }
        if j < right.len() && !take_left {
            assert(precedes(ks, right@[j - 1] as int, right@[j as int] as int));
        }
    }
    assert(left@.subrange(0, i as int) =~= left@);
    assert(right@.subrange(0, j as int) =~= right@);
    out
}

fn merge_sort(keys: &Vec<i64>, lo: usize, hi: usize) -> (r: Vec<usize>)
    requires
        lo <= hi <= keys.len(),
    ensures
        r.len() == hi - lo,
        forall|k: int| 0 <= k < r.len() ==> lo <= #[trigger] r@[k] < hi,
        forall|x: usize| lo <= x < hi ==> #[trigger] r@.contains(x),
        forall|a: int, b: int|
            0 <= a < b < r.len() ==> precedes(int_keys(keys@), #[trigger] r@[a] as int, #[trigger] r@[b] as int),
    decreases hi - lo,
{
    if hi - lo == 0 {
        return Vec::new();
    }
    if hi - lo == 1 {
        let mut v: Vec<usize> = Vec::new();
        v.push(lo);
        assert(v@[0] == lo);
        return v;
    }
    let mid = lo + (hi - lo) / 2;
    let left = merge_sort(keys, lo, mid);
    let right = merge_sort(keys, mid, hi);
    let r = merge(keys, left, right);
    proof {
        assert forall|x: usize| #[trigger] r@.contains(x) implies lo <= x < hi by {
            assert(r@.to_multiset().count(x) > 0);
            if left@.to_multiset().count(x) > 0 {
                assert(left@.contains(x));
            } else {
                assert(right@.contains(x));
            }
        }
        assert forall|x: usize| lo <= x < hi implies #[trigger] r@.contains(x) by {
            if x < mid {
                assert(left@.contains(x));
                assert(left@.to_multiset().count(x) > 0);
            } else {
                assert(right@.contains(x));
                assert(right@.to_multiset().count(x) > 0);
            }
            assert(r@.to_multiset().count(x) > 0);
        }
        assert forall|k: int| 0 <= k < r.len() implies lo <= #[trigger] r@[k] < hi by {
            assert(r@.contains(r@[k]));
        }
    }
    r
}

/// Sorts the indices of `keys` by key, stably.
pub fn stable_sort_indices(keys: &Vec<i64>) -> (r: Vec<usize>)
    ensures
        is_stable_order(int_keys(keys@), int_indices(r@)),
        int_indices(r@) == stable_order(int_keys(keys@)),
{
    let r = merge_sort(keys, 0, keys.len());
    proof {
        let ks = int_keys(keys@);
        let p = int_indices(r@);
        assert forall|i: int| 0 <= i < ks.len() implies #[trigger] p.contains(i) by {
            assert(r@.contains(i as usize));
            let k = choose|k: int| 0 <= k < r.len() && r@[k] == i as usize;
            assert(p[k] == i);
        }
        assert forall|a: int, b: int| 0 <= a < b < p.len() implies precedes(ks, #[trigger] p[a], #[trigger] p[b]) by {
            assert(precedes(ks, r@[a] as int, r@[b] as int));
        }
        assert forall|k: int| 0 <= k < p.len() implies 0 <= #[trigger] p[k] < ks.len() by {
            assert(r@[k] < keys.len());
        }
        lemma_stable_order_unique(ks, p);
    }
    r
}

} // verus!
