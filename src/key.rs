use vstd::prelude::*;
use crate::config::ColorChannel;

verus! {

/// Which bytes of a pixel make its sort key.
#[derive(Clone, Copy, Debug, PartialEq, Eq, Structural)]
pub enum KeyStrategy {
    /// The intensity byte of a grayscale pixel.
    GrayscaleIntensity,
    /// The sum of the selected channels.
    RgbSum,
    /// The selected channels read as digits of a base-256 number, first channel highest.
    RgbOrder,
}

/// Sum of the selected channel bytes of `px`.
pub open spec fn channel_sum(chs: Seq<ColorChannel>, px: Seq<u8>) -> int
    decreases chs.len(),
{
    if chs.len() == 0 {
        0
    } else {
        channel_sum(chs.drop_last(), px) + px[chs.last().offset() as int]
    }
}

/// The selected channel bytes of `px` as a base-256 number, first channel highest.
pub open spec fn channel_composite(chs: Seq<ColorChannel>, px: Seq<u8>) -> int
    decreases chs.len(),
{
    if chs.len() == 0 {
        0
    } else {
        channel_composite(chs.drop_last(), px) * 256 + px[chs.last().offset() as int]
    }
}

pub open spec fn composite_bound(m: nat) -> int {
    if m == 0 {
        1
    } else if m == 1 {
        256
    } else if m == 2 {
        65536
    } else {
        16777216
    }
}

pub open spec fn ascending_key_of(strategy: KeyStrategy, chs: Seq<ColorChannel>, px: Seq<u8>) -> int {
    match strategy {
        KeyStrategy::GrayscaleIntensity => px[0] as int,
        KeyStrategy::RgbSum => channel_sum(chs, px),
        KeyStrategy::RgbOrder => channel_composite(chs, px),
    }
}

/// The key of a pixel; a descending sort negates the ascending key, so that
/// pixels with equal keys keep their order in both directions.
pub open spec fn key_value(strategy: KeyStrategy, chs: Seq<ColorChannel>, descending: bool, px: Seq<u8>) -> int {
    if descending {
        -ascending_key_of(strategy, chs, px)
    } else {
        ascending_key_of(strategy, chs, px)
    }
}

/// A key function: a strategy, the channels it reads, and the direction.
pub struct SortKey {
    pub strategy: KeyStrategy,
    pub channels: Vec<ColorChannel>,
    pub descending: bool,
}

impl SortKey {
    /// The key can be computed on pixels of `bpp` bytes.
    pub open spec fn wf(&self, bpp: nat) -> bool {
        &&& bpp >= 1
        &&& self.strategy != KeyStrategy::GrayscaleIntensity ==> bpp >= 3 && self.channels@.len() <= 3
    }

    pub open spec fn ascending_key(&self, px: Seq<u8>) -> int {
        ascending_key_of(self.strategy, self.channels@, px)
    }

    pub open spec fn spec_key(&self, px: Seq<u8>) -> int {
        key_value(self.strategy, self.channels@, self.descending, px)
    }

    fn channel_fold(&self, buf: &[u8], start: usize, bpp: usize) -> (r: i64)
        requires
            self.wf(bpp as nat),
            self.strategy != KeyStrategy::GrayscaleIntensity,
            start + bpp <= buf@.len(),
        ensures
            r == self.ascending_key(buf@.subrange(start as int, start + bpp)),
            0 <= r < 16777216,
    {
        let ghost px = buf@.subrange(start as int, start + bpp);
        let ghost chs = self.channels@;
        let sum = self.strategy == KeyStrategy::RgbSum;
        let n = self.channels.len();
        let len = buf.len();
        let mut acc: i64 = 0;
        let mut m: usize = 0;
        while m < n
            invariant
                n == chs.len(),
                chs == self.channels@,
                n <= 3,
                bpp >= 3,
                start + bpp <= buf@.len(),
                len == buf@.len(),
                px == buf@.subrange(start as int, start + bpp),
                m <= n,
                sum == (self.strategy == KeyStrategy::RgbSum),
                sum ==> acc == channel_sum(chs.subrange(0, m as int), px) && 0 <= acc <= 255 * m,
                !sum ==> acc == channel_composite(chs.subrange(0, m as int), px) && 0 <= acc
                    < composite_bound(m as nat),
            decreases n - m,
        {
            let off = self.channels[m].index();
            let byte = buf[start + off];
            assert(px[off as int] == byte);
            assert(chs.subrange(0, m + 1).drop_last() =~= chs.subrange(0, m as int));
            if sum {
                acc = acc + byte as i64;
            } else {
                acc = acc * 256 + byte as i64;
            }
            m = m + 1;
        }
        assert(chs.subrange(0, n as int) =~= chs);
        acc
    }

    /// The key of the pixel of `bpp` bytes that starts at `start`.
    pub fn key_of(&self, buf: &[u8], start: usize, bpp: usize) -> (r: i64)
        requires
            self.wf(bpp as nat),
            start + bpp <= buf@.len(),
        ensures
            r == self.spec_key(buf@.subrange(start as int, start + bpp)),
    {
        let asc: i64 = match self.strategy {
            KeyStrategy::GrayscaleIntensity => buf[start] as i64,
            _ => self.channel_fold(buf, start, bpp),
        };
        if self.descending {
            -asc
        } else {
            asc
        }
    }
}

} // verus!
