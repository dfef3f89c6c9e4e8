use vstd::prelude::*;

verus! {

/// How the pixel grid is cut into independently sorted groups.
#[derive(Clone, Copy, Debug, PartialEq, Eq, Structural)]
pub enum SortRange {
    Row,
    Column,
    RowMajor,
    ColumnMajor,
}

/// How pixels are compared; `Untied` sorts each selected channel on its own.
#[derive(Clone, Copy, Debug, PartialEq, Eq, Structural)]
pub enum SortMode {
    TiedBySum,
    TiedByOrder,
    Untied,
}

/// A colour channel of an RGB or RGBA pixel.
#[derive(Clone, Copy, Debug, PartialEq, Eq, Structural, PartialOrd, Ord)]
pub enum ColorChannel {
    R,
    G,
    B,
}

impl ColorChannel {
    /// Byte offset of the channel inside a pixel.
    pub open spec fn offset(self) -> nat {
        match self {
            ColorChannel::R => 0,
            ColorChannel::G => 1,
            ColorChannel::B => 2,
        }
    }

    pub fn index(&self) -> (r: usize)
        ensures
            r == self.offset(),
            r < 3,
    {
        match self {
            ColorChannel::R => 0,
            ColorChannel::G => 1,
            ColorChannel::B => 2,
        }
    }
}

/// Colour classification of a decoded image with eight bits per channel.
#[derive(Clone, Copy, Debug, PartialEq, Eq, Structural)]
pub enum ColorType {
    Grayscale,
    GrayscaleAlpha,
    Rgb,
    Rgba,
    Indexed,
}

impl ColorType {
    pub open spec fn spec_bytes_per_pixel(self) -> nat {
        match self {
            ColorType::Grayscale => 1,
            ColorType::GrayscaleAlpha => 2,
            ColorType::Rgb => 3,
            ColorType::Rgba => 4,
            ColorType::Indexed => 0,
        }
    }

    pub open spec fn is_rgb(self) -> bool {
        self == ColorType::Rgb || self == ColorType::Rgba
    }

    pub fn bytes_per_pixel(&self) -> (r: usize)
        requires
            *self != ColorType::Indexed,
        ensures
            r == self.spec_bytes_per_pixel(),
            1 <= r <= 4,
    {
        match self {
            ColorType::Grayscale => 1,
            ColorType::GrayscaleAlpha => 2,
            ColorType::Rgb => 3,
            ColorType::Rgba => 4,
            ColorType::Indexed => 0,
        }
    }
}

/// Why a configuration was refused for an image.
#[derive(Clone, Copy, Debug, PartialEq, Eq, Structural)]
pub enum ValidationError {
    DuplicateChannel,
    ModeNotApplicable,
    ChannelNotApplicable,
    ChannelRequiredForUntied,
    UnsupportedColorType,
}

impl ValidationError {
    pub fn message(&self) -> &'static str {
        match self {
            ValidationError::DuplicateChannel => "Duplicate channels are not allowed in sort_channel",
            ValidationError::ModeNotApplicable => "Sort mode option is not applicable for Grayscale images",
            ValidationError::ChannelNotApplicable => "Channel option is not applicable for Grayscale images",
            ValidationError::ChannelRequiredForUntied => "Sort channel should be specified when using Untied sort mode",
            ValidationError::UnsupportedColorType => "Indexed color type is not supported",
        }
    }
}

pub open spec fn has_duplicates(chs: Seq<ColorChannel>) -> bool {
    exists|i: int, j: int| 0 <= i < j < chs.len() && chs[i] == chs[j]
}

/// A list of distinct channels has at most three entries.
pub proof fn lemma_distinct_channels_len(chs: Seq<ColorChannel>)
    requires
        !has_duplicates(chs),
    ensures
        chs.len() <= 3,
{
    if chs.len() > 3 {
        assert(chs[0] == chs[1] || chs[0] == chs[2] || chs[0] == chs[3] || chs[1] == chs[2]
            || chs[1] == chs[3] || chs[2] == chs[3]);
    }
}

pub struct Config {
    pub descending: bool,
    pub sort_range: SortRange,
    pub sort_mode: Option<SortMode>,
    pub sort_channel: Vec<ColorChannel>,
}

impl Config {
    /// The outcome of validation: the first broken rule decides the error.
    pub open spec fn validation(&self, color_type: ColorType) -> Result<(), ValidationError> {
        if has_duplicates(self.sort_channel@) {
            Err(ValidationError::DuplicateChannel)
        } else {
            match color_type {
                ColorType::Rgb | ColorType::Rgba => {
                    if self.sort_mode == Some(SortMode::Untied) && self.sort_channel@.len() == 0 {
                        Err(ValidationError::ChannelRequiredForUntied)
                    } else {
                        Ok(())
                    }
                },
                ColorType::Grayscale | ColorType::GrayscaleAlpha => {
                    if self.sort_mode.is_some() {
                        Err(ValidationError::ModeNotApplicable)
                    } else if self.sort_channel@.len() != 0 {
                        Err(ValidationError::ChannelNotApplicable)
                    } else {
                        Ok(())
                    }
                },
                ColorType::Indexed => Err(ValidationError::UnsupportedColorType),
            }
        }
    }

    pub open spec fn is_valid_for(&self, color_type: ColorType) -> bool {
        self.validation(color_type) is Ok
    }

    /// The sort mode in force: an absent mode means sorting by channel sum.
    pub open spec fn spec_mode(&self) -> SortMode {
        match self.sort_mode {
            Some(m) => m,
            None => SortMode::TiedBySum,
        }
    }

    pub fn mode(&self) -> (r: SortMode)
        ensures
            r == self.spec_mode(),
    {
        match self.sort_mode {
            Some(m) => m,
            None => SortMode::TiedBySum,
        }
    }

    fn channels_repeat(&self) -> (r: bool)
        ensures
            r == has_duplicates(self.sort_channel@),
    {
        let chs = &self.sort_channel;
        let n = chs.len();
        let mut i: usize = 0;
        while i < n
            invariant
                chs == &self.sort_channel,
                n == chs@.len(),
                i <= n,
                forall|a: int, b: int| 0 <= a < b < n && a < i ==> chs@[a] != chs@[b],
            decreases n - i,
        {
            let mut j: usize = i + 1;
            while j < n
                invariant
                    chs == &self.sort_channel,
                    n == chs@.len(),
                    i < n,
                    i < j <= n,
                    forall|a: int, b: int| 0 <= a < b < n && a < i ==> chs@[a] != chs@[b],
                    forall|b: int| i < b < j ==> chs@[i as int] != chs@[b],
                decreases n - j,
            {
                if chs[i] == chs[j] {
                    assert(chs@[i as int] == chs@[j as int]);
                    return true;
                }
                j = j + 1;
            }
            i = i + 1;
        }
        false
    }

    pub fn validate(&self, color_type: ColorType) -> (r: Result<(), ValidationError>)
        ensures
            r == self.validation(color_type),
    {
        if self.channels_repeat() {
            return Err(ValidationError::DuplicateChannel);
        }
        match color_type {
            ColorType::Rgb | ColorType::Rgba => {
                if self.sort_mode == Some(SortMode::Untied) && self.sort_channel.len() == 0 {
                    return Err(ValidationError::ChannelRequiredForUntied);
                }
            },
            ColorType::Grayscale | ColorType::GrayscaleAlpha => {
                if self.sort_mode.is_some() {
                    return Err(ValidationError::ModeNotApplicable);
                }
                if self.sort_channel.len() != 0 {
                    return Err(ValidationError::ChannelNotApplicable);
                }
            },
            ColorType::Indexed => {
                return Err(ValidationError::UnsupportedColorType);
            },
        }
        Ok(())
    }
}

} // verus!
