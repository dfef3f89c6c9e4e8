use pngsort::config::{ColorChannel, ColorType, Config, SortMode, SortRange, ValidationError};
use pngsort::key::{KeyStrategy, SortKey};
use pngsort::tied::{sort_by_columns, sort_column_major, sort_row_major};
use pngsort::untied::sort_channels_untied;
use pngsort::{process_image, transform};

fn config(descending: bool, sort_range: SortRange, sort_mode: Option<SortMode>, sort_channel: Vec<ColorChannel>) -> Config {
    Config { descending, sort_range, sort_mode, sort_channel }
}

fn rgb() -> Vec<ColorChannel> {
    vec![ColorChannel::R, ColorChannel::G, ColorChannel::B]
}

#[test]
fn row_sum_ascending() {
    let c = config(false, SortRange::Row, None, rgb());
    let out = transform(&c, &[10, 0, 0, 5, 0, 0], 2, 1, ColorType::Rgb).unwrap();
    assert_eq!(out, vec![5, 0, 0, 10, 0, 0]);
}

#[test]
fn row_sum_descending() {
    let c = config(true, SortRange::Row, None, rgb());
    let out = transform(&c, &[10, 0, 0, 5, 0, 0], 2, 1, ColorType::Rgb).unwrap();
    assert_eq!(out, vec![10, 0, 0, 5, 0, 0]);
}

#[test]
fn column_untied_red() {
    let c = config(false, SortRange::Column, Some(SortMode::Untied), vec![ColorChannel::R]);
    let out = transform(&c, &[10, 1, 2, 5, 3, 4], 1, 2, ColorType::Rgb).unwrap();
    assert_eq!(out, vec![5, 1, 2, 10, 3, 4]);
}

#[test]
fn duplicate_channel_refused() {
    let c = config(false, SortRange::Row, None, vec![ColorChannel::R, ColorChannel::R]);
    assert_eq!(c.validate(ColorType::Rgb), Err(ValidationError::DuplicateChannel));
    assert_eq!(transform(&c, &[1, 2, 3], 1, 1, ColorType::Rgb), Err(ValidationError::DuplicateChannel));
}

#[test]
fn untied_needs_a_channel() {
    let c = config(false, SortRange::Row, Some(SortMode::Untied), vec![]);
    assert_eq!(c.validate(ColorType::Rgb), Err(ValidationError::ChannelRequiredForUntied));
    assert_eq!(c.validate(ColorType::Rgba), Err(ValidationError::ChannelRequiredForUntied));
}

#[test]
fn mode_on_grayscale_refused() {
    for mode in [SortMode::TiedBySum, SortMode::TiedByOrder, SortMode::Untied] {
        let c = config(false, SortRange::Row, Some(mode), vec![]);
        assert_eq!(c.validate(ColorType::Grayscale), Err(ValidationError::ModeNotApplicable));
        assert_eq!(c.validate(ColorType::GrayscaleAlpha), Err(ValidationError::ModeNotApplicable));
    }
}

#[test]
fn channel_on_grayscale_refused() {
    let c = config(false, SortRange::Row, None, vec![ColorChannel::G]);
    assert_eq!(c.validate(ColorType::Grayscale), Err(ValidationError::ChannelNotApplicable));
}

#[test]
fn indexed_refused() {
    let c = config(false, SortRange::Row, None, vec![]);
    assert_eq!(c.validate(ColorType::Indexed), Err(ValidationError::UnsupportedColorType));
    assert_eq!(transform(&c, &[1, 2], 2, 1, ColorType::Indexed), Err(ValidationError::UnsupportedColorType));
    let c = config(false, SortRange::Row, None, rgb());
    assert_eq!(c.validate(ColorType::Indexed), Err(ValidationError::UnsupportedColorType));
}

#[test]
fn valid_configs_accepted() {
    assert_eq!(config(false, SortRange::Row, None, vec![]).validate(ColorType::Grayscale), Ok(()));
    assert_eq!(config(true, SortRange::Column, Some(SortMode::Untied), vec![ColorChannel::B]).validate(ColorType::Rgba), Ok(()));
    assert_eq!(config(false, SortRange::RowMajor, Some(SortMode::TiedByOrder), vec![]).validate(ColorType::Rgb), Ok(()));
    assert!(!ValidationError::DuplicateChannel.message().is_empty());
}

#[test]
fn output_length_matches_input() {
    let pixels: Vec<u8> = (0..24u8).map(|v| v.wrapping_mul(37)).collect();
    for range in [SortRange::Row, SortRange::Column, SortRange::RowMajor, SortRange::ColumnMajor] {
        for mode in [None, Some(SortMode::TiedByOrder), Some(SortMode::Untied)] {
            let c = config(false, range, mode, vec![ColorChannel::B, ColorChannel::R]);
            let out = transform(&c, &pixels, 3, 2, ColorType::Rgba).unwrap();
            assert_eq!(out.len(), pixels.len());
        }
    }
}

fn pixels_of(buf: &[u8], bpp: usize) -> Vec<Vec<u8>> {
    buf.chunks(bpp).map(|p| p.to_vec()).collect()
}

#[test]
fn tied_rows_are_permutations() {
    let pixels: Vec<u8> = vec![9, 1, 1, 3, 2, 2, 6, 3, 3, 1, 4, 4, 8, 5, 5, 2, 6, 6];
    let c = config(false, SortRange::Row, Some(SortMode::TiedBySum), rgb());
    let out = process_image(&c, &pixels, 3, 2, ColorType::Rgb);
    for row in 0..2 {
        let mut a = pixels_of(&pixels[row * 9..row * 9 + 9], 3);
        let mut b = pixels_of(&out[row * 9..row * 9 + 9], 3);
        a.sort();
        b.sort();
        assert_eq!(a, b);
    }
    assert_eq!(out, vec![3, 2, 2, 9, 1, 1, 6, 3, 3, 1, 4, 4, 2, 6, 6, 8, 5, 5]);
}

#[test]
fn ties_keep_order_in_both_directions() {
    // A and B have the same sum of R and G; C is smaller.
    let pixels: Vec<u8> = vec![1, 2, 7, 2, 1, 8, 0, 0, 9];
    let asc = config(false, SortRange::Row, Some(SortMode::TiedBySum), vec![ColorChannel::R, ColorChannel::G]);
    let desc = config(true, SortRange::Row, Some(SortMode::TiedBySum), vec![ColorChannel::R, ColorChannel::G]);
    let a = transform(&asc, &pixels, 3, 1, ColorType::Rgb).unwrap();
    let d = transform(&desc, &pixels, 3, 1, ColorType::Rgb).unwrap();
    assert_eq!(a, vec![0, 0, 9, 1, 2, 7, 2, 1, 8]);
    assert_eq!(d, vec![1, 2, 7, 2, 1, 8, 0, 0, 9]);
}

#[test]
fn column_major_reads_as_row_major() {
    let pixels: Vec<u8> = vec![50, 10, 40, 20, 60, 30];
    let rm = config(false, SortRange::RowMajor, None, vec![]);
    let cm = config(false, SortRange::ColumnMajor, None, vec![]);
    let (w, h) = (2usize, 3usize);
    let a = transform(&rm, &pixels, w as u32, h as u32, ColorType::Grayscale).unwrap();
    let b = transform(&cm, &pixels, w as u32, h as u32, ColorType::Grayscale).unwrap();
    assert_eq!(a, vec![10, 20, 30, 40, 50, 60]);
    let mut by_columns = Vec::new();
    for x in 0..w {
        for y in 0..h {
            by_columns.push(b[y * w + x]);
        }
    }
    assert_eq!(by_columns, a);
    assert_eq!(b, vec![10, 40, 20, 50, 30, 60]);
}

#[test]
fn column_major_square_exact() {
    let key = SortKey { strategy: KeyStrategy::GrayscaleIntensity, channels: vec![], descending: false };
    let mut out = vec![0u8; 4];
    sort_column_major(&[4, 3, 2, 1], &mut out, 2, 2, 1, &key);
    assert_eq!(out, vec![1, 3, 2, 4]);
}

#[test]
fn untied_keeps_alpha_and_other_channels() {
    let pixels: Vec<u8> = vec![9, 1, 2, 100, 3, 4, 5, 101, 6, 7, 8, 102];
    let c = config(false, SortRange::RowMajor, Some(SortMode::Untied), vec![ColorChannel::R]);
    let out = transform(&c, &pixels, 3, 1, ColorType::Rgba).unwrap();
    assert_eq!(out, vec![3, 1, 2, 100, 6, 4, 5, 101, 9, 7, 8, 102]);
    for i in 0..pixels.len() {
        if i % 4 != 0 {
            assert_eq!(out[i], pixels[i]);
        }
    }
}

#[test]
fn untied_descending_two_channels() {
    let pixels: Vec<u8> = vec![1, 9, 0, 3, 7, 0, 2, 8, 0];
    let c = config(true, SortRange::Row, Some(SortMode::Untied), vec![ColorChannel::G, ColorChannel::R]);
    let mut out = vec![0u8; 9];
    sort_channels_untied(&c, &pixels, &mut out, 3, 1, 3);
    assert_eq!(out, vec![3, 9, 0, 2, 8, 0, 1, 7, 0]);
}

#[test]
fn untied_column_major_reshapes() {
    // 2x2 RGB, R values 4,3,2,1 in row-major order.
    let pixels: Vec<u8> = vec![4, 0, 0, 3, 0, 0, 2, 0, 0, 1, 0, 0];
    let c = config(false, SortRange::ColumnMajor, Some(SortMode::Untied), vec![ColorChannel::R]);
    let out = transform(&c, &pixels, 2, 2, ColorType::Rgb).unwrap();
    assert_eq!(out, vec![1, 0, 0, 3, 0, 0, 2, 0, 0, 4, 0, 0]);
}

#[test]
fn tied_by_order_uses_first_channel_first() {
    // Keys with channels [G, R]: G decides, R breaks ties.
    let pixels: Vec<u8> = vec![9, 2, 0, 1, 2, 0, 0, 5, 0, 7, 1, 0];
    let c = config(false, SortRange::Row, Some(SortMode::TiedByOrder), vec![ColorChannel::G, ColorChannel::R]);
    let out = transform(&c, &pixels, 4, 1, ColorType::Rgb).unwrap();
    assert_eq!(out, vec![7, 1, 0, 1, 2, 0, 9, 2, 0, 0, 5, 0]);
}

#[test]
fn tied_by_sum_ignores_channel_order() {
    let pixels: Vec<u8> = vec![9, 2, 0, 1, 2, 0, 0, 5, 0, 7, 1, 0];
    let c = config(false, SortRange::Row, Some(SortMode::TiedBySum), vec![ColorChannel::G, ColorChannel::R]);
    let out = transform(&c, &pixels, 4, 1, ColorType::Rgb).unwrap();
    assert_eq!(out, vec![1, 2, 0, 0, 5, 0, 7, 1, 0, 9, 2, 0]);
}

#[test]
fn grayscale_alpha_moves_alpha_with_pixel() {
    let pixels: Vec<u8> = vec![30, 1, 10, 2, 20, 3];
    let c = config(false, SortRange::Row, None, vec![]);
    let out = transform(&c, &pixels, 3, 1, ColorType::GrayscaleAlpha).unwrap();
    assert_eq!(out, vec![10, 2, 20, 3, 30, 1]);
}

#[test]
fn tied_columns_sorted() {
    let key = SortKey { strategy: KeyStrategy::GrayscaleIntensity, channels: vec![], descending: true };
    let mut out = vec![0u8; 6];
    sort_by_columns(&[1, 6, 5, 2, 3, 4], &mut out, 2, 3, 1, &key);
    assert_eq!(out, vec![5, 6, 3, 4, 1, 2]);
}

#[test]
fn row_major_descending() {
    let key = SortKey { strategy: KeyStrategy::RgbSum, channels: vec![ColorChannel::B], descending: true };
    let mut out = vec![0u8; 9];
    sort_row_major(&[0, 0, 1, 0, 0, 3, 0, 0, 2], &mut out, 3, 1, 3, &key);
    assert_eq!(out, vec![0, 0, 3, 0, 0, 2, 0, 0, 1]);
}

#[test]
fn empty_image() {
    let c = config(false, SortRange::ColumnMajor, None, rgb());
    assert_eq!(transform(&c, &[], 0, 0, ColorType::Rgb), Ok(vec![]));
    let c = config(false, SortRange::Row, Some(SortMode::Untied), rgb());
    assert_eq!(transform(&c, &[], 0, 5, ColorType::Rgba), Ok(vec![]));
}

#[test]
fn key_values() {
    let key = SortKey { strategy: KeyStrategy::RgbOrder, channels: vec![ColorChannel::R, ColorChannel::G], descending: false };
    assert_eq!(key.key_of(&[1, 2, 3], 0, 3), 258);
    let key = SortKey { strategy: KeyStrategy::RgbOrder, channels: vec![ColorChannel::R, ColorChannel::G], descending: true };
    assert_eq!(key.key_of(&[1, 2, 3], 0, 3), -258);
    let key = SortKey { strategy: KeyStrategy::RgbSum, channels: rgb(), descending: false };
    assert_eq!(key.key_of(&[0, 0, 0, 255, 255, 255], 3, 3), 765);
    assert_eq!(ColorChannel::R.index(), 0);
    assert_eq!(ColorChannel::G.index(), 1);
    assert_eq!(ColorChannel::B.index(), 2);
}
