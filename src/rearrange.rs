use vstd::prelude::*;
use crate::config::SortRange;
use crate::layout::{
    group_count, group_len, group_of, lemma_grid_index, lemma_grid_split, locate, rank_of, read_pos,
    read_position,
};
use crate::order::{int_indices, int_keys, is_stable_order, stable_order, stable_sort_indices};

verus! {

/// Sort keys of the members of group `g`, in reading order.
pub open spec fn group_keys(keys: Seq<int>, range: SortRange, w: nat, h: nat, g: int) -> Seq<int> {
    Seq::new(group_len(range, w, h), |k: int| keys[read_pos(range, w, h, g, k)])
}

/// Row-major index of the input pixel that the sorted layout places at output position `pos`.
pub open spec fn source_pixel(keys: Seq<int>, range: SortRange, w: nat, h: nat, pos: int) -> int {
    let g = group_of(range, w, h, pos);
    read_pos(range, w, h, g, stable_order(group_keys(keys, range, w, h, g))[rank_of(range, w, h, pos)])
}

/// `base`, where each byte at offsets `lo..hi` of a pixel is replaced by the byte at
/// the same offset of the source pixel that the sorted layout puts there.
pub open spec fn rearranged(
    src: Seq<u8>,
    base: Seq<u8>,
    keys: Seq<int>,
    range: SortRange,
    w: nat,
    h: nat,
    bpp: nat,
    lo: nat,
    hi: nat,
) -> Seq<u8> {
    Seq::new(
        base.len(),
        |i: int|
            if lo <= i % (bpp as int) < hi {
                src[source_pixel(keys, range, w, h, i / (bpp as int)) * bpp + i % (bpp as int)]
            } else {
                base[i]
            },
    )
}

/// A copy of `buf`.
pub fn copy_of(buf: &[u8]) -> (r: Vec<u8>)
    ensures
        r@ == buf@,
{
    let n = buf.len();
    let mut r: Vec<u8> = Vec::with_capacity(n);
    let mut i: usize = 0;
    while i < n
        invariant
            n == buf@.len(),
            i <= n,
            r@ == buf@.subrange(0, i as int),
        decreases n - i,
    {
        r.push(buf[i]);
        i = i + 1;
        assert(r@ =~= buf@.subrange(0, i as int));
    }
    assert(buf@.subrange(0, n as int) =~= buf@);
    r
}

fn group_total(range: SortRange, w: usize, h: usize) -> (r: usize)
    ensures
        r == group_count(range, w as nat, h as nat),
{
    match range {
        SortRange::Row => h,
        SortRange::Column => w,
        SortRange::RowMajor | SortRange::ColumnMajor => 1,
    }
}

fn group_size(range: SortRange, w: usize, h: usize) -> (r: usize)
    requires
        w * h <= usize::MAX,
    ensures
        r == group_len(range, w as nat, h as nat),
{
    match range {
        SortRange::Row => w,
        SortRange::Column => h,
        SortRange::RowMajor | SortRange::ColumnMajor => w * h,
    }
}

/// The stable sorting order of every group.
fn group_orders(keys: &Vec<i64>, range: SortRange, w: usize, h: usize) -> (r: Vec<Vec<usize>>)
    requires
        keys@.len() == w * h,
        w * h <= usize::MAX,
    ensures
        r@.len() == group_count(range, w as nat, h as nat),
        forall|g: int|
            0 <= g < r@.len() ==> int_indices(#[trigger] r@[g]@) == stable_order(
                group_keys(int_keys(keys@), range, w as nat, h as nat, g),
            ),
        forall|g: int| 0 <= g < r@.len() ==> is_stable_order(
            group_keys(int_keys(keys@), range, w as nat, h as nat, g),
            int_indices(#[trigger] r@[g]@),
        ),
{
    let ghost ks = int_keys(keys@);
    let count = group_total(range, w, h);
    let len = group_size(range, w, h);
    let mut orders: Vec<Vec<usize>> = Vec::with_capacity(count);
    let mut g: usize = 0;
    while g < count
        invariant
            ks == int_keys(keys@),
            keys@.len() == w * h,
            w * h <= usize::MAX,
            count == group_count(range, w as nat, h as nat),
            len == group_len(range, w as nat, h as nat),
            g <= count,
            orders@.len() == g,
            forall|t: int|
                0 <= t < g ==> int_indices(#[trigger] orders@[t]@) == stable_order(
                    group_keys(ks, range, w as nat, h as nat, t),
                ),
            forall|t: int| 0 <= t < g ==> is_stable_order(
                group_keys(ks, range, w as nat, h as nat, t),
                int_indices(#[trigger] orders@[t]@),
            ),
        decreases count - g,
    {
        let mut gk: Vec<i64> = Vec::with_capacity(len);
        let mut k: usize = 0;
        while k < len
            invariant
                ks == int_keys(keys@),
                keys@.len() == w * h,
                w * h <= usize::MAX,
                count == group_count(range, w as nat, h as nat),
                len == group_len(range, w as nat, h as nat),
                g < count,
                k <= len,
                gk@.len() == k,
                forall|j: int|
                    0 <= j < k ==> #[trigger] gk@[j] as int == ks[read_pos(range, w as nat, h as nat, g as int, j)],
            decreases len - k,
        {
            let p = read_position(range, w, h, g, k);
            gk.push(keys[p]);
            k = k + 1;
        }
        let order = stable_sort_indices(&gk);
        assert(int_keys(gk@) =~= group_keys(ks, range, w as nat, h as nat, g as int));
        orders.push(order);
        g = g + 1;
    }
    orders
}

/// Moves the bytes at offsets `lo..hi` of each pixel into their sorted places: every
/// group is stably sorted by `keys` and written back by the layout of `range`.
pub fn rearrange(
    src: &[u8],
    out: &mut Vec<u8>,
    keys: &Vec<i64>,
    range: SortRange,
    w: usize,
    h: usize,
    bpp: usize,
    lo: usize,
    hi: usize,
)
    requires
        src@.len() == w * h * bpp,
        old(out)@.len() == src@.len(),
        keys@.len() == w * h,
        lo <= hi <= bpp,
    ensures
        final(out)@ == rearranged(
            src@,
            old(out)@,
            int_keys(keys@),
            range,
            w as nat,
            h as nat,
            bpp as nat,
            lo as nat,
            hi as nat,
        ),
{
    let ghost ks = int_keys(keys@);
    let ghost target = rearranged(src@, out@, ks, range, w as nat, h as nat, bpp as nat, lo as nat, hi as nat);
    let ghost n = (w * h) as int;
    let len = src.len();
    if len == 0 {
        assert(out@ =~= target);
        return;
    }
    proof {
        assert(w * h * bpp == bpp * (w * h)) by (nonlinear_arith);
        assert(w * h <= w * h * bpp) by (nonlinear_arith)
            requires
                w * h * bpp > 0,
        ;
    }
    let orders = group_orders(keys, range, w, h);
    let mut i: usize = 0;
    while i < len
        invariant
            ks == int_keys(keys@),
            n == w * h,
            len == src@.len(),
            len == w * h * bpp,
            len == bpp * n,
            n <= len,
            lo <= hi <= bpp,
            out@.len() == len,
            target.len() == len,
            target == rearranged(src@, old(out)@, ks, range, w as nat, h as nat, bpp as nat, lo as nat, hi as nat),
            orders@.len() == group_count(range, w as nat, h as nat),
            forall|g: int|
                0 <= g < orders@.len() ==> int_indices(#[trigger] orders@[g]@) == stable_order(
                    group_keys(ks, range, w as nat, h as nat, g),
                ),
            forall|g: int| 0 <= g < orders@.len() ==> is_stable_order(
                group_keys(ks, range, w as nat, h as nat, g),
                int_indices(#[trigger] orders@[g]@),
            ),
            i <= len,
            forall|t: int| 0 <= t < i ==> out@[t] == target[t],
            forall|t: int| i <= t < len ==> out@[t] == old(out)@[t],
        decreases len - i,
    {
        proof {
            lemma_grid_split(i as int, bpp as int, n);
        }
        let pos = i / bpp;
        let c = i % bpp;
        if lo <= c && c < hi {
            let (g, k) = locate(range, w, h, pos);
            let ghost gk = group_keys(ks, range, w as nat, h as nat, g as int);
            assert(is_stable_order(gk, int_indices(orders@[g as int]@)));
            assert(int_indices(orders@[g as int]@)[k as int] == orders@[g as int]@[k as int] as int);
            let j = orders[g][k];
            let sp = read_position(range, w, h, g, j);
            proof {
                lemma_grid_index(sp as int, c as int, n, bpp as int);
            }
            let byte = src[sp * bpp + c];
            out.set(i, byte);
        }
        i = i + 1;
    }
    assert(out@ =~= target);
}

} // verus!
