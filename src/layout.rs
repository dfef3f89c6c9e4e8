use vstd::prelude::*;
use vstd::arithmetic::div_mod::{lemma_fundamental_div_mod, lemma_fundamental_div_mod_converse};
use crate::config::SortRange;

verus! {

/// Number of independently sorted groups.
pub open spec fn group_count(range: SortRange, w: nat, h: nat) -> nat {
    match range {
        SortRange::Row => h,
        SortRange::Column => w,
        SortRange::RowMajor | SortRange::ColumnMajor => 1,
    }
}

/// Number of pixels in each group.
pub open spec fn group_len(range: SortRange, w: nat, h: nat) -> nat {
    match range {
        SortRange::Row => w,
        SortRange::Column => h,
        SortRange::RowMajor | SortRange::ColumnMajor => w * h,
    }
}

/// Row-major pixel index of the `k`-th member of group `g`, in reading order.
pub open spec fn read_pos(range: SortRange, w: nat, h: nat, g: int, k: int) -> int {
    match range {
        SortRange::Row => g * w + k,
        SortRange::Column => k * w + g,
        SortRange::RowMajor | SortRange::ColumnMajor => k,
    }
}

/// Row-major pixel index that receives rank `k` of the sorted group `g`.
/// Column-major layout fills the grid column by column from the ranks.
pub open spec fn write_pos(range: SortRange, w: nat, h: nat, g: int, k: int) -> int {
    match range {
        SortRange::ColumnMajor => (k % (h as int)) * w + k / (h as int),
        _ => read_pos(range, w, h, g, k),
    }
}

/// The group whose sorted pixels fill output position `pos`.
pub open spec fn group_of(range: SortRange, w: nat, h: nat, pos: int) -> int {
    match range {
        SortRange::Row => pos / (w as int),
        SortRange::Column => pos % (w as int),
        SortRange::RowMajor | SortRange::ColumnMajor => 0,
    }
}

/// The rank, inside its sorted group, of the pixel placed at output position `pos`.
pub open spec fn rank_of(range: SortRange, w: nat, h: nat, pos: int) -> int {
    match range {
        SortRange::Row => pos % (w as int),
        SortRange::Column => pos / (w as int),
        SortRange::RowMajor => pos,
        SortRange::ColumnMajor => (pos % (w as int)) * h + pos / (w as int),
    }
}

pub proof fn lemma_grid_index(a: int, b: int, na: int, nb: int)
    requires
        0 <= a < na,
        0 <= b < nb,
    ensures
        0 <= a * nb + b < na * nb,
        na * nb == nb * na,
{
    assert(na * nb == nb * na) by (nonlinear_arith);
    assert(0 <= a * nb + b < na * nb) by (nonlinear_arith)
        requires
            0 <= a < na,
            0 <= b < nb,
    ;
}

pub proof fn lemma_grid_split(pos: int, w: int, h: int)
    requires
        0 <= pos < w * h,
        w >= 0,
        h >= 0,
    ensures
        w > 0,
        h > 0,
        0 <= pos / w < h,
        0 <= pos % w < w,
        pos == (pos / w) * w + pos % w,
{
    if w == 0 {
        assert(w * h == 0);
    }
    if h == 0 {
        assert(w * h == 0);
    }
    lemma_fundamental_div_mod(pos, w);
    let q = pos / w;
    let r = pos % w;
    assert(0 <= r < w);
    assert(0 <= q < h && pos == q * w + r) by (nonlinear_arith)
        requires
            pos == w * q + r,
            0 <= r < w,
            0 <= pos < w * h,
    ;
}

/// Every member of every group is a pixel of the grid.
pub proof fn lemma_read_in_grid(range: SortRange, w: nat, h: nat, g: int, k: int)
    requires
        0 <= g < group_count(range, w, h),
        0 <= k < group_len(range, w, h),
    ensures
        0 <= read_pos(range, w, h, g, k) < w * h,
{
    match range {
        SortRange::Row => lemma_grid_index(g, k, h as int, w as int),
        SortRange::Column => lemma_grid_index(k, g, h as int, w as int),
        _ => {},
    }
}

/// Every output position belongs to one group and one rank, and is written there.
pub proof fn lemma_locate(range: SortRange, w: nat, h: nat, pos: int)
    requires
        0 <= pos < w * h,
    ensures
        0 <= group_of(range, w, h, pos) < group_count(range, w, h),
        0 <= rank_of(range, w, h, pos) < group_len(range, w, h),
        write_pos(range, w, h, group_of(range, w, h, pos), rank_of(range, w, h, pos)) == pos,
{
    lemma_grid_split(pos, w as int, h as int);
    let y = pos / (w as int);
    let x = pos % (w as int);
    match range {
        SortRange::Column => {
            assert(y * w + x == pos);
        },
        SortRange::ColumnMajor => {
            lemma_grid_index(x, y, w as int, h as int);
            lemma_fundamental_div_mod_converse(x * h + y, h as int, x, y);
        },
        _ => {},
    }
}

/// Rank `k` of group `g` is written to a grid position that maps back to `g` and `k`.
pub proof fn lemma_write_round_trip(range: SortRange, w: nat, h: nat, g: int, k: int)
    requires
        0 <= g < group_count(range, w, h),
        0 <= k < group_len(range, w, h),
    ensures
        0 <= write_pos(range, w, h, g, k) < w * h,
        group_of(range, w, h, write_pos(range, w, h, g, k)) == g,
        rank_of(range, w, h, write_pos(range, w, h, g, k)) == k,
{
    match range {
        SortRange::Row => {
            lemma_grid_index(g, k, h as int, w as int);
            lemma_fundamental_div_mod_converse(g * w + k, w as int, g, k);
        },
        SortRange::Column => {
            lemma_grid_index(k, g, h as int, w as int);
            lemma_fundamental_div_mod_converse(k * w + g, w as int, k, g);
        },
        SortRange::RowMajor => {},
        SortRange::ColumnMajor => {
            lemma_grid_split(k, h as int, w as int);
            let x = k / (h as int);
            let y = k % (h as int);
            assert(k == x * h + y);
            lemma_grid_index(y, x, h as int, w as int);
            lemma_fundamental_div_mod_converse(y * w + x, w as int, y, x);
        },
    }
}

/// Executable form of `read_pos`.
pub fn read_position(range: SortRange, w: usize, h: usize, g: usize, k: usize) -> (r: usize)
    requires
        g < group_count(range, w as nat, h as nat),
        k < group_len(range, w as nat, h as nat),
        w * h <= usize::MAX,
    ensures
        r == read_pos(range, w as nat, h as nat, g as int, k as int),
        r < w * h,
{
    proof {
        lemma_read_in_grid(range, w as nat, h as nat, g as int, k as int);
    }
    match range {
        SortRange::Row => g * w + k,
        SortRange::Column => k * w + g,
        SortRange::RowMajor | SortRange::ColumnMajor => k,
    }
}

/// Executable form of `group_of` and `rank_of`.
pub fn locate(range: SortRange, w: usize, h: usize, pos: usize) -> (r: (usize, usize))
    requires
        pos < w * h,
        w * h <= usize::MAX,
    ensures
        r.0 == group_of(range, w as nat, h as nat, pos as int),
        r.1 == rank_of(range, w as nat, h as nat, pos as int),
        r.0 < group_count(range, w as nat, h as nat),
        r.1 < group_len(range, w as nat, h as nat),
{
    proof {
        lemma_locate(range, w as nat, h as nat, pos as int);
        lemma_grid_split(pos as int, w as int, h as int);
    }
    match range {
        SortRange::Row => (pos / w, pos % w),
        SortRange::Column => (pos % w, pos / w),
        SortRange::RowMajor => (0, pos),
        SortRange::ColumnMajor => ((0, (pos % w) * h + pos / w)),
    }
}

} // verus!
