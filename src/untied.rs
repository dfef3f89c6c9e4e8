use vstd::prelude::*;
use crate::config::{ColorChannel, Config, SortRange};
use crate::order::int_keys;
use crate::rearrange::{copy_of, rearrange, rearranged};

verus! {

/// The byte at offset `off` of every pixel, negated for a descending sort.
pub open spec fn byte_keys(buf: Seq<u8>, bpp: nat, off: nat, descending: bool, n: nat) -> Seq<int> {
    Seq::new(
        n,
        |i: int|
            if descending {
                -(buf[i * bpp + off] as int)
            } else {
                buf[i * bpp + off] as int
            },
    )
}

/// The image after each listed channel, in turn, is sorted on its own, group by group.
pub open spec fn untied_sorted(
    src: Seq<u8>,
    chs: Seq<ColorChannel>,
    descending: bool,
    range: SortRange,
    w: nat,
    h: nat,
    bpp: nat,
) -> Seq<u8>
    decreases chs.len(),
{
    if chs.len() == 0 {
        src
    } else {
        let prev = untied_sorted(src, chs.drop_last(), descending, range, w, h, bpp);
        let off = chs.last().offset();
        rearranged(prev, prev, byte_keys(prev, bpp, off, descending, w * h), range, w, h, bpp, off, off + 1)
    }
}

fn byte_keys_of(buf: &[u8], n: usize, bpp: usize, off: usize, descending: bool) -> (r: Vec<i64>)
    requires
        buf@.len() == n * bpp,
        off < bpp,
    ensures
        r@.len() == n,
        int_keys(r@) == byte_keys(buf@, bpp as nat, off as nat, descending, n as nat),
{
    let ghost target = byte_keys(buf@, bpp as nat, off as nat, descending, n as nat);
    let len = buf.len();
    let mut r: Vec<i64> = Vec::with_capacity(n);
    let mut i: usize = 0;
    while i < n
        invariant
            len == buf@.len(),
            buf@.len() == n * bpp,
            off < bpp,
            target == byte_keys(buf@, bpp as nat, off as nat, descending, n as nat),
            i <= n,
            r@.len() == i,
            forall|j: int| 0 <= j < i ==> #[trigger] r@[j] as int == target[j],
        decreases n - i,
    {
        proof {
            assert(i * bpp + bpp <= n * bpp) by (nonlinear_arith)
                requires
                    i < n,
            ;
        }
        let b = buf[i * bpp + off] as i64;
        if descending {
            r.push(-b);
        } else {
            r.push(b);
        }
        i = i + 1;
    }
    assert(int_keys(r@) =~= target);
    r
}

fn sort_untied(
    channels: &Vec<ColorChannel>,
    descending: bool,
    out_buf: &mut Vec<u8>,
    width: usize,
    height: usize,
    bpp: usize,
    range: SortRange,
)
    requires
        old(out_buf)@.len() == width * height * bpp,
        bpp >= 3,
    ensures
        final(out_buf)@ == untied_sorted(
            old(out_buf)@,
            channels@,
            descending,
            range,
            width as nat,
            height as nat,
            bpp as nat,
        ),
{
    let ghost src = out_buf@;
    let len = out_buf.len();
    proof {
        assert(width * height * bpp == (width * height) * bpp) by (nonlinear_arith);
        if width * height > 0 {
            assert(width * height <= width * height * bpp) by (nonlinear_arith)
                requires
                    bpp >= 1,
            ;
        }
    }
    let n = width * height;
    let count = channels.len();
    let mut m: usize = 0;
    while m < count
        invariant
            count == channels@.len(),
            m <= count,
            n == width * height,
            len == width * height * bpp,
            len == n * bpp,
            bpp >= 3,
            out_buf@.len() == len,
            out_buf@ == untied_sorted(
                src,
                channels@.subrange(0, m as int),
                descending,
                range,
                width as nat,
                height as nat,
                bpp as nat,
            ),
        decreases count - m,
    {
        let off = channels[m].index();
        let snapshot = copy_of(out_buf.as_slice());
        let keys = byte_keys_of(snapshot.as_slice(), n, bpp, off, descending);
        rearrange(snapshot.as_slice(), out_buf, &keys, range, width, height, bpp, off, off + 1);
        assert(channels@.subrange(0, m + 1).drop_last() =~= channels@.subrange(0, m as int));
        m = m + 1;
    }
    assert(channels@.subrange(0, count as int) =~= channels@);
}

/// Sorts each selected channel of each row on its own.
pub fn sort_channels_by_rows(config: &Config, out_buf: &mut Vec<u8>, width: usize, height: usize, bpp: usize)
    requires
        old(out_buf)@.len() == width * height * bpp,
        bpp >= 3,
    ensures
        final(out_buf)@ == untied_sorted(
            old(out_buf)@,
            config.sort_channel@,
            config.descending,
            SortRange::Row,
            width as nat,
            height as nat,
            bpp as nat,
        ),
{
    sort_untied(&config.sort_channel, config.descending, out_buf, width, height, bpp, SortRange::Row)
}

/// Sorts each selected channel of each column on its own.
pub fn sort_channels_by_columns(config: &Config, out_buf: &mut Vec<u8>, width: usize, height: usize, bpp: usize)
    requires
        old(out_buf)@.len() == width * height * bpp,
        bpp >= 3,
    ensures
        final(out_buf)@ == untied_sorted(
            old(out_buf)@,
            config.sort_channel@,
            config.descending,
            SortRange::Column,
            width as nat,
            height as nat,
            bpp as nat,
        ),
{
    sort_untied(&config.sort_channel, config.descending, out_buf, width, height, bpp, SortRange::Column)
}

/// Sorts each selected channel over the whole image and writes it back row by row.
pub fn sort_channels_row_major(config: &Config, out_buf: &mut Vec<u8>, width: usize, height: usize, bpp: usize)
    requires
        old(out_buf)@.len() == width * height * bpp,
        bpp >= 3,
    ensures
        final(out_buf)@ == untied_sorted(
            old(out_buf)@,
            config.sort_channel@,
            config.descending,
            SortRange::RowMajor,
            width as nat,
            height as nat,
            bpp as nat,
        ),
{
    sort_untied(&config.sort_channel, config.descending, out_buf, width, height, bpp, SortRange::RowMajor)
}

/// Sorts each selected channel over the whole image and writes it back column by column.
pub fn sort_channels_column_major(config: &Config, out_buf: &mut Vec<u8>, width: usize, height: usize, bpp: usize)
    requires
        old(out_buf)@.len() == width * height * bpp,
        bpp >= 3,
    ensures
        final(out_buf)@ == untied_sorted(
            old(out_buf)@,
            config.sort_channel@,
            config.descending,
            SortRange::ColumnMajor,
            width as nat,
            height as nat,
            bpp as nat,
        ),
{
    sort_untied(&config.sort_channel, config.descending, out_buf, width, height, bpp, SortRange::ColumnMajor)
}

/// Copies `src_buf` into `out_buf`, then sorts each selected channel on its own.
pub fn sort_channels_untied(
    config: &Config,
    src_buf: &[u8],
    out_buf: &mut Vec<u8>,
    width: usize,
    height: usize,
    bpp: usize,
)
    requires
        src_buf@.len() == width * height * bpp,
        old(out_buf)@.len() == src_buf@.len(),
        bpp >= 3,
    ensures
        final(out_buf)@ == untied_sorted(
            src_buf@,
            config.sort_channel@,
            config.descending,
            config.sort_range,
            width as nat,
            height as nat,
            bpp as nat,
        ),
{
    *out_buf = copy_of(src_buf);
    match config.sort_range {
        SortRange::Row => sort_channels_by_rows(config, out_buf, width, height, bpp),
        SortRange::Column => sort_channels_by_columns(config, out_buf, width, height, bpp),
        SortRange::RowMajor => sort_channels_row_major(config, out_buf, width, height, bpp),
        SortRange::ColumnMajor => sort_channels_column_major(config, out_buf, width, height, bpp),
    }
}

} // verus!
