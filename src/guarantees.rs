use vstd::prelude::*;
use vstd::arithmetic::div_mod::lemma_fundamental_div_mod_converse;
use crate::config::{ColorChannel, ColorType, Config, SortMode, SortRange, ValidationError, has_duplicates};
use crate::key::{KeyStrategy, ascending_key_of};
use crate::layout::{
    group_count, group_len, group_of, lemma_grid_index, lemma_locate, lemma_read_in_grid,
    lemma_write_round_trip, rank_of, read_pos, write_pos,
};
use crate::order::{lemma_stable_order_exists, precedes, stable_order};
use crate::rearrange::group_keys;
use crate::tied::{pixel_keys, tied_sorted};
use crate::untied::untied_sorted;
use crate::processed;

verus! {

/// The stable order of group `g` under a tied sort.
pub open spec fn tied_order(
    src: Seq<u8>,
    w: nat,
    h: nat,
    bpp: nat,
    strategy: KeyStrategy,
    chs: Seq<ColorChannel>,
    descending: bool,
    range: SortRange,
    g: int,
) -> Seq<int> {
    stable_order(group_keys(pixel_keys(strategy, chs, descending, src, bpp, w * h), range, w, h, g))
}

/// The rank, in reading order of its group, of the input pixel that a tied sort
/// places at output position `pos`.
pub open spec fn tied_rank(
    src: Seq<u8>,
    w: nat,
    h: nat,
    bpp: nat,
    strategy: KeyStrategy,
    chs: Seq<ColorChannel>,
    descending: bool,
    range: SortRange,
    pos: int,
) -> int {
    tied_order(src, w, h, bpp, strategy, chs, descending, range, group_of(range, w, h, pos))[rank_of(range, w, h, pos)]
}

proof fn lemma_byte_of_pixel(pos: int, c: int, n: int, bpp: int)
    requires
        0 <= pos < n,
        0 <= c < bpp,
    ensures
        (pos * bpp + c) / bpp == pos,
        (pos * bpp + c) % bpp == c,
        0 <= pos * bpp + c < n * bpp,
{
    lemma_fundamental_div_mod_converse(pos * bpp + c, bpp, pos, c);
    lemma_grid_index(pos, c, n, bpp);
}

/// A tied sort only moves whole pixels, and only inside their group: every output
/// pixel is an unaltered input pixel of its own group, and no two output positions
/// of a group take the same input pixel.
pub proof fn lemma_tied_permutes_groups(
    src: Seq<u8>,
    w: nat,
    h: nat,
    bpp: nat,
    strategy: KeyStrategy,
    chs: Seq<ColorChannel>,
    descending: bool,
    range: SortRange,
)
    requires
        src.len() == w * h * bpp,
        bpp > 0,
    ensures
        forall|pos: int|
            0 <= pos < w * h ==> 0 <= #[trigger] tied_rank(src, w, h, bpp, strategy, chs, descending, range, pos)
                < group_len(range, w, h),
        forall|pos: int|
            0 <= pos < w * h ==> #[trigger] tied_sorted(src, w, h, bpp, strategy, chs, descending, range).subrange(
                pos * bpp,
                pos * bpp + bpp,
            ) == src.subrange(
                read_pos(range, w, h, group_of(range, w, h, pos), tied_rank(src, w, h, bpp, strategy, chs, descending, range, pos)) * bpp,
                read_pos(range, w, h, group_of(range, w, h, pos), tied_rank(src, w, h, bpp, strategy, chs, descending, range, pos)) * bpp + bpp,
            ),
        forall|p1: int, p2: int|
            0 <= p1 < w * h && 0 <= p2 < w * h && p1 != p2 && group_of(range, w, h, p1) == group_of(range, w, h, p2)
                ==> #[trigger] tied_rank(src, w, h, bpp, strategy, chs, descending, range, p1)
                != #[trigger] tied_rank(src, w, h, bpp, strategy, chs, descending, range, p2),
{
    let keys = pixel_keys(strategy, chs, descending, src, bpp, w * h);
    let out = tied_sorted(src, w, h, bpp, strategy, chs, descending, range);
    let n = (w * h) as int;
    assert forall|pos: int| 0 <= pos < n implies 0 <= #[trigger] tied_rank(src, w, h, bpp, strategy, chs, descending, range, pos)
        < group_len(range, w, h) && out.subrange(pos * bpp, pos * bpp + bpp) == src.subrange(
        read_pos(range, w, h, group_of(range, w, h, pos), tied_rank(src, w, h, bpp, strategy, chs, descending, range, pos)) * bpp,
        read_pos(range, w, h, group_of(range, w, h, pos), tied_rank(src, w, h, bpp, strategy, chs, descending, range, pos)) * bpp + bpp,
    ) by {
        let g = group_of(range, w, h, pos);
        let k = rank_of(range, w, h, pos);
        lemma_locate(range, w, h, pos);
        let gk = group_keys(keys, range, w, h, g);
        lemma_stable_order_exists(gk);
        let j = tied_rank(src, w, h, bpp, strategy, chs, descending, range, pos);
        assert(0 <= j < group_len(range, w, h));
        let sp = read_pos(range, w, h, g, j);
        lemma_read_in_grid(range, w, h, g, j);
        assert forall|c: int| 0 <= c < bpp implies #[trigger] out[pos * bpp + c] == src[sp * bpp + c] by {
            lemma_byte_of_pixel(pos, c, n, bpp as int);
            lemma_byte_of_pixel(sp, c, n, bpp as int);
        }
        lemma_byte_of_pixel(pos, bpp - 1, n, bpp as int);
        lemma_byte_of_pixel(sp, bpp - 1, n, bpp as int);
        let a = out.subrange(pos * bpp, pos * bpp + bpp);
        let b = src.subrange(sp * bpp, sp * bpp + bpp);
        assert(a.len() == b.len());
        assert forall|c: int| 0 <= c < a.len() implies a[c] == b[c] by {
            assert(a[c] == out[pos * bpp + c]);
            assert(b[c] == src[sp * bpp + c]);
        }
        assert(a =~= b);
    }
    assert forall|p1: int, p2: int|
        0 <= p1 < n && 0 <= p2 < n && p1 != p2 && group_of(range, w, h, p1) == group_of(range, w, h, p2)
            implies #[trigger] tied_rank(src, w, h, bpp, strategy, chs, descending, range, p1) != #[trigger] tied_rank(src, w, h, bpp, strategy, chs, descending, range, p2) by {
        let g = group_of(range, w, h, p1);
        lemma_locate(range, w, h, p1);
        lemma_locate(range, w, h, p2);
        let k1 = rank_of(range, w, h, p1);
        let k2 = rank_of(range, w, h, p2);
        let gk = group_keys(keys, range, w, h, g);
        lemma_stable_order_exists(gk);
        let ord = stable_order(gk);
        if k1 < k2 {
            assert(precedes(gk, ord[k1], ord[k2]));
        } else {
            assert(precedes(gk, ord[k2], ord[k1]));
        }
    }
}

/// Under a tied sort every input pixel of a group lands on some output position of
/// that group.
pub proof fn lemma_tied_group_covered(
    src: Seq<u8>,
    w: nat,
    h: nat,
    bpp: nat,
    strategy: KeyStrategy,
    chs: Seq<ColorChannel>,
    descending: bool,
    range: SortRange,
    g: int,
    j: int,
)
    requires
        src.len() == w * h * bpp,
        0 <= g < group_count(range, w, h),
        0 <= j < group_len(range, w, h),
    ensures
        exists|pos: int|
            0 <= pos < w * h && group_of(range, w, h, pos) == g
                && #[trigger] tied_rank(src, w, h, bpp, strategy, chs, descending, range, pos) == j,
{
    let keys = pixel_keys(strategy, chs, descending, src, bpp, w * h);
    let gk = group_keys(keys, range, w, h, g);
    lemma_stable_order_exists(gk);
    let ord = stable_order(gk);
    assert(ord.contains(j));
    let k = choose|k: int| 0 <= k < ord.len() && ord[k] == j;
    lemma_write_round_trip(range, w, h, g, k);
    let pos = write_pos(range, w, h, g, k);
    assert(tied_rank(src, w, h, bpp, strategy, chs, descending, range, pos) == j);
}

/// Two pixels of a group with equal keys keep their reading order, whether the sort
/// ascends or descends.
pub proof fn lemma_ties_keep_order(
    src: Seq<u8>,
    w: nat,
    h: nat,
    bpp: nat,
    strategy: KeyStrategy,
    chs: Seq<ColorChannel>,
    range: SortRange,
    g: int,
    i: int,
    j: int,
)
    requires
        src.len() == w * h * bpp,
        0 <= g < group_count(range, w, h),
        0 <= i < j < group_len(range, w, h),
        ({
            let pi = read_pos(range, w, h, g, i);
            let pj = read_pos(range, w, h, g, j);
            ascending_key_of(strategy, chs, src.subrange(pi * bpp, pi * bpp + bpp)) == ascending_key_of(
                strategy,
                chs,
                src.subrange(pj * bpp, pj * bpp + bpp),
            )
        }),
    ensures
        forall|descending: bool|
            {
                let ord = #[trigger] tied_order(src, w, h, bpp, strategy, chs, descending, range, g);
                &&& ord.contains(i)
                &&& ord.contains(j)
                &&& forall|a: int, b: int| 0 <= a < ord.len() && 0 <= b < ord.len() && ord[a] == i && ord[b] == j ==> a < b
            },
{
    assert forall|descending: bool|
        {
            let ord = #[trigger] tied_order(src, w, h, bpp, strategy, chs, descending, range, g);
            &&& ord.contains(i)
            &&& ord.contains(j)
            &&& forall|a: int, b: int| 0 <= a < ord.len() && 0 <= b < ord.len() && ord[a] == i && ord[b] == j ==> a < b
        } by {
        let keys = pixel_keys(strategy, chs, descending, src, bpp, w * h);
        let gk = group_keys(keys, range, w, h, g);
        lemma_stable_order_exists(gk);
        let ord = stable_order(gk);
        lemma_read_in_grid(range, w, h, g, i);
        lemma_read_in_grid(range, w, h, g, j);
        assert(gk[i] == gk[j]);
        assert forall|a: int, b: int| 0 <= a < ord.len() && 0 <= b < ord.len() && ord[a] == i && ord[b] == j implies a < b by {
            if b < a {
                assert(precedes(gk, ord[b], ord[a]));
            }
        }
    }
}

/// Read column by column, top to bottom and left to right, the column-major result is
/// the row-major result read row by row.
pub proof fn lemma_column_major_reads_as_row_major(
    src: Seq<u8>,
    w: nat,
    h: nat,
    bpp: nat,
    strategy: KeyStrategy,
    chs: Seq<ColorChannel>,
    descending: bool,
    k: int,
    c: int,
)
    requires
        src.len() == w * h * bpp,
        0 <= k < w * h,
        0 <= c < bpp,
    ensures
        tied_sorted(src, w, h, bpp, strategy, chs, descending, SortRange::ColumnMajor)[((k % (h as int)) * w + k / (h as int))
            * bpp + c] == tied_sorted(src, w, h, bpp, strategy, chs, descending, SortRange::RowMajor)[k * bpp + c],
{
    let n = (w * h) as int;
    let keys = pixel_keys(strategy, chs, descending, src, bpp, w * h);
    lemma_write_round_trip(SortRange::ColumnMajor, w, h, 0, k);
    let pos = write_pos(SortRange::ColumnMajor, w, h, 0, k);
    lemma_byte_of_pixel(pos, c, n, bpp as int);
    lemma_byte_of_pixel(k, c, n, bpp as int);
    assert(group_keys(keys, SortRange::ColumnMajor, w, h, 0) =~= group_keys(keys, SortRange::RowMajor, w, h, 0));
}

/// Sorting channels on their own never changes a byte at an offset that no selected
/// channel has: alpha bytes and unselected channels stay as they were.
pub proof fn lemma_untied_keeps_other_bytes(
    src: Seq<u8>,
    chs: Seq<ColorChannel>,
    descending: bool,
    range: SortRange,
    w: nat,
    h: nat,
    bpp: nat,
    i: int,
)
    requires
        0 <= i < src.len(),
        bpp > 0,
        forall|m: int| 0 <= m < chs.len() ==> (#[trigger] chs[m]).offset() != i % (bpp as int),
    ensures
        untied_sorted(src, chs, descending, range, w, h, bpp)[i] == src[i],
    decreases chs.len(),
{
    if chs.len() > 0 {
        let prefix = chs.drop_last();
        assert forall|m: int| 0 <= m < prefix.len() implies (#[trigger] prefix[m]).offset() != i % (bpp as int) by {
            assert(prefix[m] == chs[m]);
        }
        lemma_untied_keeps_other_bytes(src, prefix, descending, range, w, h, bpp, i);
        lemma_untied_len(src, prefix, descending, range, w, h, bpp);
        assert(chs.last() == chs[chs.len() - 1]);
    }
}

/// The validation rules: a repeated channel is refused before anything else; with
/// distinct channels, a sort mode on a grayscale image, an indexed image, and an
/// untied sort with no channel on a colour image are each refused with their own error.
pub proof fn lemma_validation_rules(config: &Config, color_type: ColorType)
    ensures
        has_duplicates(config.sort_channel@) ==> config.validation(color_type) == Err::<(), ValidationError>(
            ValidationError::DuplicateChannel,
        ),
        !has_duplicates(config.sort_channel@) && (color_type == ColorType::Grayscale || color_type
            == ColorType::GrayscaleAlpha) && config.sort_mode is Some ==> config.validation(color_type) == Err::<
            (),
            ValidationError,
        >(ValidationError::ModeNotApplicable),
        !has_duplicates(config.sort_channel@) && color_type == ColorType::Indexed ==> config.validation(color_type)
            == Err::<(), ValidationError>(ValidationError::UnsupportedColorType),
        !has_duplicates(config.sort_channel@) && color_type.is_rgb() && config.sort_mode == Some(SortMode::Untied)
            && config.sort_channel@.len() == 0 ==> config.validation(color_type) == Err::<(), ValidationError>(
            ValidationError::ChannelRequiredForUntied,
        ),
{
}

/// Sorting leaves the length of the buffer as it was.
pub proof fn lemma_output_len(config: &Config, src: Seq<u8>, w: nat, h: nat, color_type: ColorType)
    requires
        config.is_valid_for(color_type),
        src.len() == w * h * color_type.spec_bytes_per_pixel(),
    ensures
        processed(config, src, w, h, color_type).len() == src.len(),
{
    if config.spec_mode() == SortMode::Untied {
        lemma_untied_len(src, config.sort_channel@, config.descending, config.sort_range, w, h, color_type.spec_bytes_per_pixel());
    }
}

proof fn lemma_untied_len(
    src: Seq<u8>,
    chs: Seq<crate::config::ColorChannel>,
    descending: bool,
    range: crate::config::SortRange,
    w: nat,
    h: nat,
    bpp: nat,
)
    ensures
        untied_sorted(src, chs, descending, range, w, h, bpp).len() == src.len(),
    decreases chs.len(),
{
    if chs.len() > 0 {
        lemma_untied_len(src, chs.drop_last(), descending, range, w, h, bpp);
    }
}

} // verus!
