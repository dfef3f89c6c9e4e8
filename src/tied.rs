use vstd::prelude::*;
use crate::config::{ColorChannel, ColorType, Config, SortMode, SortRange, lemma_distinct_channels_len};
use crate::key::{KeyStrategy, SortKey, key_value};
use crate::order::int_keys;
use crate::rearrange::{rearrange, rearranged};

verus! {

/// The key of every pixel of `src`, in row-major order.
pub open spec fn pixel_keys(
    strategy: KeyStrategy,
    chs: Seq<ColorChannel>,
    descending: bool,
    src: Seq<u8>,
    bpp: nat,
    n: nat,
) -> Seq<int> {
    Seq::new(n, |i: int| key_value(strategy, chs, descending, src.subrange(i * bpp, i * bpp + bpp)))
}

/// The image after whole pixels are stably sorted, group by group, by the given key.
pub open spec fn tied_sorted(
    src: Seq<u8>,
    w: nat,
    h: nat,
    bpp: nat,
    strategy: KeyStrategy,
    chs: Seq<ColorChannel>,
    descending: bool,
    range: SortRange,
) -> Seq<u8> {
    rearranged(src, src, pixel_keys(strategy, chs, descending, src, bpp, w * h), range, w, h, bpp, 0, bpp)
}

/// The key strategy that a valid configuration selects for a colour type.
pub open spec fn strategy_for(config: &Config, color_type: ColorType) -> KeyStrategy {
    if color_type.is_rgb() {
        if config.spec_mode() == SortMode::TiedByOrder {
            KeyStrategy::RgbOrder
        } else {
            KeyStrategy::RgbSum
        }
    } else {
        KeyStrategy::GrayscaleIntensity
    }
}

fn pixel_keys_of(key: &SortKey, src: &[u8], n: usize, bpp: usize) -> (r: Vec<i64>)
    requires
        key.wf(bpp as nat),
        src@.len() == n * bpp,
    ensures
        r@.len() == n,
        int_keys(r@) == pixel_keys(key.strategy, key.channels@, key.descending, src@, bpp as nat, n as nat),
{
    let ghost target = pixel_keys(key.strategy, key.channels@, key.descending, src@, bpp as nat, n as nat);
    let len = src.len();
    let mut r: Vec<i64> = Vec::with_capacity(n);
    let mut i: usize = 0;
    while i < n
        invariant
            len == src@.len(),
            key.wf(bpp as nat),
            src@.len() == n * bpp,
            target == pixel_keys(key.strategy, key.channels@, key.descending, src@, bpp as nat, n as nat),
            i <= n,
            r@.len() == i,
            forall|j: int| 0 <= j < i ==> #[trigger] r@[j] as int == target[j],
        decreases n - i,
    {
        proof {
            assert(i * bpp + bpp <= n * bpp) by (nonlinear_arith)
                requires
                    i < n,
            ;
        }
        let k = key.key_of(src, i * bpp, bpp);
        r.push(k);
        i = i + 1;
    }
    assert(int_keys(r@) =~= target);
    r
}

fn sort_tied(src_buf: &[u8], out_buf: &mut Vec<u8>, width: usize, height: usize, bpp: usize, key: &SortKey, range: SortRange)
    requires
        src_buf@.len() == width * height * bpp,
        old(out_buf)@.len() == src_buf@.len(),
        key.wf(bpp as nat),
    ensures
        final(out_buf)@ == tied_sorted(
            src_buf@,
            width as nat,
            height as nat,
            bpp as nat,
            key.strategy,
            key.channels@,
            key.descending,
            range,
        ),
{
    let len = src_buf.len();
    proof {
        assert(width * height * bpp == (width * height) * bpp) by (nonlinear_arith);
        if width * height > 0 {
            assert(width * height <= width * height * bpp) by (nonlinear_arith)
                requires
                    bpp >= 1,
            ;
        }
    }
    let n = width * height;
    let keys = pixel_keys_of(key, src_buf, n, bpp);
    let ghost old_out = out_buf@;
    rearrange(src_buf, out_buf, &keys, range, width, height, bpp, 0, bpp);
    proof {
        let t = tied_sorted(
            src_buf@,
            width as nat,
            height as nat,
            bpp as nat,
            key.strategy,
            key.channels@,
            key.descending,
            range,
        );
        assert forall|i: int| 0 <= i < out_buf@.len() implies out_buf@[i] == t[i] by {
            assert(0 <= i % (bpp as int) < bpp);
        }
        assert(out_buf@ =~= t);
    }
}

/// Sorts the pixels of each row by key, stably.
pub fn sort_by_rows(src_buf: &[u8], out_buf: &mut Vec<u8>, width: usize, height: usize, bpp: usize, key: &SortKey)
    requires
        src_buf@.len() == width * height * bpp,
        old(out_buf)@.len() == src_buf@.len(),
        key.wf(bpp as nat),
    ensures
        final(out_buf)@ == tied_sorted(
            src_buf@,
            width as nat,
            height as nat,
            bpp as nat,
            key.strategy,
            key.channels@,
            key.descending,
            SortRange::Row,
        ),
{
    sort_tied(src_buf, out_buf, width, height, bpp, key, SortRange::Row)
}

/// Sorts the pixels of each column by key, stably.
pub fn sort_by_columns(src_buf: &[u8], out_buf: &mut Vec<u8>, width: usize, height: usize, bpp: usize, key: &SortKey)
    requires
        src_buf@.len() == width * height * bpp,
        old(out_buf)@.len() == src_buf@.len(),
        key.wf(bpp as nat),
    ensures
        final(out_buf)@ == tied_sorted(
            src_buf@,
            width as nat,
            height as nat,
            bpp as nat,
            key.strategy,
            key.channels@,
            key.descending,
            SortRange::Column,
        ),
{
    sort_tied(src_buf, out_buf, width, height, bpp, key, SortRange::Column)
}

/// Sorts all pixels of the image by key, stably, and writes them back row by row.
pub fn sort_row_major(src_buf: &[u8], out_buf: &mut Vec<u8>, width: usize, height: usize, bpp: usize, key: &SortKey)
    requires
        src_buf@.len() == width * height * bpp,
        old(out_buf)@.len() == src_buf@.len(),
        key.wf(bpp as nat),
    ensures
        final(out_buf)@ == tied_sorted(
            src_buf@,
            width as nat,
            height as nat,
            bpp as nat,
            key.strategy,
            key.channels@,
            key.descending,
            SortRange::RowMajor,
        ),
{
    sort_tied(src_buf, out_buf, width, height, bpp, key, SortRange::RowMajor)
}

/// Sorts all pixels of the image by key, stably, and writes them back column by column.
pub fn sort_column_major(src_buf: &[u8], out_buf: &mut Vec<u8>, width: usize, height: usize, bpp: usize, key: &SortKey)
    requires
        src_buf@.len() == width * height * bpp,
        old(out_buf)@.len() == src_buf@.len(),
        key.wf(bpp as nat),
    ensures
        final(out_buf)@ == tied_sorted(
            src_buf@,
            width as nat,
            height as nat,
            bpp as nat,
            key.strategy,
            key.channels@,
            key.descending,
            SortRange::ColumnMajor,
        ),
{
    sort_tied(src_buf, out_buf, width, height, bpp, key, SortRange::ColumnMajor)
}

/// The key function that a valid, tied configuration selects for a colour type.
pub fn create_sort_function(config: &Config, color_type: ColorType) -> (r: SortKey)
    requires
        config.is_valid_for(color_type),
        config.spec_mode() != SortMode::Untied,
    ensures
        r.strategy == strategy_for(config, color_type),
        r.channels@ == config.sort_channel@,
        r.descending == config.descending,
        r.wf(color_type.spec_bytes_per_pixel()),
{
    proof {
        lemma_distinct_channels_len(config.sort_channel@);
    }
    let strategy = match color_type {
        ColorType::Rgb | ColorType::Rgba => {
            if config.mode() == SortMode::TiedByOrder {
                KeyStrategy::RgbOrder
            } else {
                KeyStrategy::RgbSum
            }
        },
        _ => KeyStrategy::GrayscaleIntensity,
    };
    let n = config.sort_channel.len();
    let mut channels: Vec<ColorChannel> = Vec::with_capacity(n);
    let mut i: usize = 0;
    while i < n
        invariant
            n == config.sort_channel@.len(),
            i <= n,
            channels@ == config.sort_channel@.subrange(0, i as int),
        decreases n - i,
    {
        channels.push(config.sort_channel[i]);
        i = i + 1;
        assert(channels@ =~= config.sort_channel@.subrange(0, i as int));
    }
    assert(config.sort_channel@.subrange(0, n as int) =~= config.sort_channel@);
    SortKey { strategy, channels, descending: config.descending }
}

/// Sorts whole pixels as the configuration asks.
pub fn sort_pixels_tied(
    config: &Config,
    src_buf: &[u8],
    out_buf: &mut Vec<u8>,
    width: usize,
    height: usize,
    bpp: usize,
    color_type: ColorType,
)
    requires
        config.is_valid_for(color_type),
        config.spec_mode() != SortMode::Untied,
        bpp == color_type.spec_bytes_per_pixel(),
        src_buf@.len() == width * height * bpp,
        old(out_buf)@.len() == src_buf@.len(),
    ensures
        final(out_buf)@ == tied_sorted(
            src_buf@,
            width as nat,
            height as nat,
            bpp as nat,
            strategy_for(config, color_type),
            config.sort_channel@,
            config.descending,
            config.sort_range,
        ),
{
    let key = create_sort_function(config, color_type);
    match config.sort_range {
        SortRange::Row => sort_by_rows(src_buf, out_buf, width, height, bpp, &key),
        SortRange::Column => sort_by_columns(src_buf, out_buf, width, height, bpp, &key),
        SortRange::RowMajor => sort_row_major(src_buf, out_buf, width, height, bpp, &key),
        SortRange::ColumnMajor => sort_column_major(src_buf, out_buf, width, height, bpp, &key),
    }
}

} // verus!
