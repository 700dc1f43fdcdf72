//! Pixel format descriptors.
//!
//! A [`Format`] records the bits per pixel, the channel order (the
//! [`ColorType`]) and the bit width of each of the alpha, red, green and
//! blue channels. The four widths are packed four bits per channel into one
//! `u16` word through a small bidirectional codec table, which keeps the
//! descriptor small enough to sit beside an absent-value marker.

use vstd::prelude::*;

verus! {

/// The type of a color channel.
#[derive(Debug, Copy, Clone, PartialEq, Eq, PartialOrd, Ord, Hash, Structural)]
pub enum Channel {
    /// Red channel.
    Red,
    /// Green channel.
    Green,
    /// Blue channel.
    Blue,
    /// Alpha channel.
    Alpha,
}

impl Default for Channel {
    fn default() -> (r: Self)
        ensures
            r == Channel::Alpha,
    {
        Channel::Alpha
    }
}

/// The channel order for a format.
///
/// This defines the channels that appear in a pixel, as well as the order
/// that they appear in.
#[derive(Debug, Copy, Clone, PartialEq, Eq, PartialOrd, Ord, Hash, Structural)]
pub enum ColorType {
    /// Packed ARGB tuple.
    Argb,
    /// Packed RGBA tuple.
    Rgba,
    /// Packed ABGR tuple.
    Abgr,
    /// Packed BGRA tuple.
    Bgra,
    /// Single alpha channel.
    Alpha,
    /// Tuple of 32-bit floats, in ARGB order.
    ///
    /// This implies that the bit count for each present channel is 32.
    ArgbFloat,
}

/// Whether `w` is a representable channel bit width: 0 through 8, 10, 16 or 32.
pub open spec fn valid_width(w: u8) -> bool {
    w <= 8 || w == 10 || w == 16 || w == 32
}

/// The 4-bit storage code for a valid channel width.
pub open spec fn width_code(w: u8) -> u16 {
    if w <= 8 {
        w as u16
    } else if w == 10 {
        9
    } else if w == 16 {
        10
    } else {
        11
    }
}

/// The channel width stored under a 4-bit code; codes that the codec table
/// never produces decode to width 0.
pub open spec fn code_width(c: u16) -> u8 {
    if c <= 8 {
        c as u8
    } else if c == 9 {
        10
    } else if c == 10 {
        16
    } else if c == 11 {
        32
    } else {
        0
    }
}

/// Convert a real channel width to its 4-bit representation in `Channels`.
///
/// A width outside the codec table is a caller error, kept out by the
/// precondition.
fn convert_to_channels_repr(num_bits: u8) -> (r: u16)
    requires
        valid_width(num_bits),
    ensures
        r == width_code(num_bits),
        r <= 11,
{
    if num_bits <= 8 {
        num_bits as u16
    } else if num_bits == 10 {
        9
    } else if num_bits == 16 {
        10
    } else {
        11
    }
}

/// Convert the 4-bit representation in `Channels` back to the real width.
fn convert_from_channels_repr(num_bits: u16) -> (r: u8)
    ensures
        r == code_width(num_bits),
        valid_width(r),
{
    if num_bits <= 8 {
        num_bits as u8
    } else if num_bits == 9 {
        10
    } else if num_bits == 10 {
        16
    } else if num_bits == 11 {
        32
    } else {
        0
    }
}

/// The number of bits each channel has, packed 4 bits per channel.
#[derive(Debug, Copy, Clone, PartialEq, Eq, PartialOrd, Ord, Hash, Structural)]
struct Channels(u16);

impl Channels {
    /// The alpha width stored in the top nibble.
    pub closed spec fn spec_alpha(self) -> u8 {
        code_width(((self.0 as nat / 4096) % 16) as u16)
    }

    /// The red width stored in the second nibble.
    pub closed spec fn spec_red(self) -> u8 {
        code_width(((self.0 as nat / 256) % 16) as u16)
    }

    /// The green width stored in the third nibble.
    pub closed spec fn spec_green(self) -> u8 {
        code_width(((self.0 as nat / 16) % 16) as u16)
    }

    /// The blue width stored in the low nibble.
    pub closed spec fn spec_blue(self) -> u8 {
        code_width((self.0 as nat % 16) as u16)
    }

    fn new(alpha: u8, red: u8, green: u8, blue: u8) -> (r: Channels)
        requires
            valid_width(alpha),
            valid_width(red),
            valid_width(green),
            valid_width(blue),
        ensures
            r.spec_alpha() == alpha,
            r.spec_red() == red,
            r.spec_green() == green,
            r.spec_blue() == blue,
    {
        let ca = convert_to_channels_repr(alpha);
        let cr = convert_to_channels_repr(red);
        let cg = convert_to_channels_repr(green);
        let cb = convert_to_channels_repr(blue);
        let packed: u16 = ca * 4096 + cr * 256 + cg * 16 + cb;
        proof {
            lemma_nibbles_roundtrip(ca, cr, cg, cb);
            assert(code_width(width_code(alpha)) == alpha);
            assert(code_width(width_code(red)) == red);
            assert(code_width(width_code(green)) == green);
            assert(code_width(width_code(blue)) == blue);
        }
        Channels(packed)
    }

    fn alpha(&self) -> (r: u8)
        ensures
            r == self.spec_alpha(),
    {
        convert_from_channels_repr((self.0 / 4096) % 16)
    }

    fn red(&self) -> (r: u8)
        ensures
            r == self.spec_red(),
    {
        convert_from_channels_repr((self.0 / 256) % 16)
    }

    fn green(&self) -> (r: u8)
        ensures
            r == self.spec_green(),
    {
        convert_from_channels_repr((self.0 / 16) % 16)
    }

    fn blue(&self) -> (r: u8)
        ensures
            r == self.spec_blue(),
    {
        convert_from_channels_repr(self.0 % 16)
    }
}

/// Four nibbles packed by arithmetic come back out unchanged.
proof fn lemma_nibbles_roundtrip(a: u16, r: u16, g: u16, b: u16)
    requires
        a < 16,
        r < 16,
        g < 16,
        b < 16,
    ensures
        a * 4096 + r * 256 + g * 16 + b <= 0xffff,
        ((a * 4096 + r * 256 + g * 16 + b) as nat / 4096) % 16 == a,
        ((a * 4096 + r * 256 + g * 16 + b) as nat / 256) % 16 == r,
        ((a * 4096 + r * 256 + g * 16 + b) as nat / 16) % 16 == g,
        ((a * 4096 + r * 256 + g * 16 + b) as nat % 16) == b,
{
    let p = (a * 4096 + r * 256 + g * 16 + b) as nat;
    assert(p / 4096 == a && (p / 256) % 16 == r && (p / 16) % 16 == g && p % 16 == b)
        by (nonlinear_arith)
        requires
            a < 16 && r < 16 && g < 16 && b < 16 && p == a * 4096 + r * 256 + g * 16 + b,
    ;
}

/// Every stored channel width decodes through the codec table, so it is a
/// valid width and in particular at most 32.
pub broadcast proof fn lemma_spec_width_valid(f: Format, c: Channel)
    ensures
        valid_width(#[trigger] f.spec_width(c)),
        f.spec_width(c) <= 32,
{
}

/// The rounded bits-per-pixel that `Format::new` stores for a requested value.
pub open spec fn round_bpp(bpp: u8) -> u8 {
    if bpp <= 1 {
        1
    } else if bpp <= 4 {
        4
    } else if bpp <= 8 {
        8
    } else if bpp <= 16 {
        16
    } else if bpp <= 24 {
        24
    } else if bpp <= 32 {
        32
    } else if bpp <= 96 {
        96
    } else {
        128
    }
}

/// Whether `b` is one of the supported bits-per-pixel values.
pub open spec fn valid_bpp(b: u8) -> bool {
    b == 1 || b == 4 || b == 8 || b == 16 || b == 24 || b == 32 || b == 96 || b == 128
}

/// The format for an image.
///
/// This records how the bytes of an image encode pixels:
///
/// - the number of bits used to encode a single pixel (one of 1, 4, 8, 16,
///   24, 32, 96 and 128);
/// - the ordering of channels within a pixel (for instance `ARGB`: first
///   alpha, then red, then green, finally blue);
/// - the number of bits used to encode each channel.
///
/// New formats are created with [`Format::new`]; the standard formats have
/// constructors of their own, such as [`Format::argb32`].
#[derive(Debug, Copy, Clone, PartialEq, Eq, PartialOrd, Ord, Hash, Structural)]
pub struct Format {
    /// The bits per pixel for this image.
    bpp: u8,
    /// The color type for this image.
    color_type: ColorType,
    /// The bits for each channel of the image.
    channels: Channels,
}

impl Format {
    /// The stored bits per pixel.
    pub closed spec fn spec_bpp(self) -> u8 {
        self.bpp
    }

    /// The stored color type.
    pub closed spec fn spec_color_type(self) -> ColorType {
        self.color_type
    }

    /// The stored bit width of one channel.
    pub closed spec fn spec_width(self, channel: Channel) -> u8 {
        match channel {
            Channel::Alpha => self.channels.spec_alpha(),
            Channel::Red => self.channels.spec_red(),
            Channel::Green => self.channels.spec_green(),
            Channel::Blue => self.channels.spec_blue(),
        }
    }

    /// A well-formed format stores one of the supported bits-per-pixel
    /// values; every value that `Format::new` returns is well formed.
    pub open spec fn spec_wf(self) -> bool {
        valid_bpp(self.spec_bpp())
    }

    /// The number of bytes needed to encode a pixel of this format.
    pub open spec fn spec_bytes(self) -> u8 {
        if self.spec_bpp() == 1 || self.spec_bpp() == 4 {
            1
        } else {
            self.spec_bpp() / 8
        }
    }

    /// Whether this format's color type stores floats.
    pub open spec fn spec_involves_float(self) -> bool {
        self.spec_color_type() == ColorType::ArgbFloat
    }

    /// Create a new format with the given specifications.
    ///
    /// `bpp` is the bits per pixel for the format; the valid values are 1,
    /// 4, 8, 16, 24, 32, 96 and 128, and any other value is rounded up to
    /// the next entry. Each `*_bits` value encodes the number of bits used
    /// for the channel; the valid values are 0 through 8, 10, 16 and 32,
    /// and any other value is a caller error, kept out by the precondition.
    pub fn new(
        bpp: u8,
        color_type: ColorType,
        alpha_bits: u8,
        red_bits: u8,
        green_bits: u8,
        blue_bits: u8,
    ) -> (r: Self)
        requires
            valid_width(alpha_bits),
            valid_width(red_bits),
            valid_width(green_bits),
            valid_width(blue_bits),
        ensures
            r.spec_bpp() == round_bpp(bpp),
            r.spec_color_type() == color_type,
            r.spec_width(Channel::Alpha) == alpha_bits,
            r.spec_width(Channel::Red) == red_bits,
            r.spec_width(Channel::Green) == green_bits,
            r.spec_width(Channel::Blue) == blue_bits,
            r.spec_wf(),
    {
        // round the bpp appropriately
        let bpp: u8 = if bpp <= 1 {
            1
        } else if bpp <= 4 {
            4
        } else if bpp <= 8 {
            8
        } else if bpp <= 16 {
            16
        } else if bpp <= 24 {
            24
        } else if bpp <= 32 {
            32
        } else if bpp <= 96 {
            96
        } else {
            128
        };

        Self { bpp, color_type, channels: Channels::new(alpha_bits, red_bits, green_bits, blue_bits) }
    }

    /// The bits per pixel for this image.
    pub fn bpp(&self) -> (r: u8)
        ensures
            r == self.spec_bpp(),
    {
        self.bpp
    }

    /// Number of bytes per pixel.
    ///
    /// This is the number of bytes required to encode a pixel.
    pub fn bytes(&self) -> (r: u8)
        ensures
            r == self.spec_bytes(),
    {
        if self.bpp == 1 || self.bpp == 4 {
            1
        } else {
            self.bpp / 8
        }
    }

    /// If the size of a pixel is less than a byte.
    pub fn subbyte(&self) -> (r: bool)
        ensures
            r == (self.spec_bpp() < 8),
    {
        self.bpp < 8
    }

    /// The color type for this image.
    pub fn color_type(&self) -> (r: ColorType)
        ensures
            r == self.spec_color_type(),
    {
        self.color_type
    }

    /// The number of bits used in the alpha channel.
    pub fn alpha_bits(&self) -> (r: u8)
        ensures
            r == self.spec_width(Channel::Alpha),
    {
        self.channels.alpha()
    }

    /// Whether this format's channels store floats.
    pub fn involves_float(&self) -> (r: bool)
        ensures
            r == self.spec_involves_float(),
    {
        self.color_type.involves_float()
    }

    /// The number of bits used in the red channel.
    pub fn red_bits(&self) -> (r: u8)
        ensures
            r == self.spec_width(Channel::Red),
    {
        self.channels.red()
    }

    /// The number of bits used in the green channel.
    pub fn green_bits(&self) -> (r: u8)
        ensures
            r == self.spec_width(Channel::Green),
    {
        self.channels.green()
    }

    /// The number of bits used in the blue channel.
    pub fn blue_bits(&self) -> (r: u8)
        ensures
            r == self.spec_width(Channel::Blue),
    {
        self.channels.blue()
    }

    /// The number of bits used in the given channel.
    pub(crate) fn bits_for_channel(&self, channel: Channel) -> (r: u8)
        ensures
            r == self.spec_width(channel),
    {
        match channel {
            Channel::Alpha => self.alpha_bits(),
            Channel::Red => self.red_bits(),
            Channel::Green => self.green_bits(),
            Channel::Blue => self.blue_bits(),
        }
    }
}

impl ColorType {
    /// Whether or not this color type involves floats.
    pub fn involves_float(self) -> (r: bool)
        ensures
            r == (self == ColorType::ArgbFloat),
    {
        matches!(self, ColorType::ArgbFloat)
    }
}

impl Format {
    /// The ARGB32 format: 32 bits per pixel, ARGB order, 8 bits per channel.
    pub fn argb32() -> (r: Format)
        ensures
            r.spec_bpp() == 32,
            r.spec_color_type() == ColorType::Argb,
            r.spec_width(Channel::Alpha) == 8,
            r.spec_width(Channel::Red) == 8,
            r.spec_width(Channel::Green) == 8,
            r.spec_width(Channel::Blue) == 8,
            r.spec_wf(),
    {
        Format::new(32, ColorType::Argb, 8, 8, 8, 8)
    }

    /// The XRGB32 format: like ARGB32 with no alpha channel.
    pub fn xrgb32() -> (r: Format)
        ensures
            r.spec_bpp() == 32,
            r.spec_color_type() == ColorType::Argb,
            r.spec_width(Channel::Alpha) == 0,
            r.spec_width(Channel::Red) == 8,
            r.spec_width(Channel::Green) == 8,
            r.spec_width(Channel::Blue) == 8,
            r.spec_wf(),
    {
        Format::new(32, ColorType::Argb, 0, 8, 8, 8)
    }

    /// The ABGR32 format: 32 bits per pixel, ABGR order, 8 bits per channel.
    pub fn abgr32() -> (r: Format)
        ensures
            r.spec_bpp() == 32,
            r.spec_color_type() == ColorType::Abgr,
            r.spec_width(Channel::Alpha) == 8,
            r.spec_width(Channel::Red) == 8,
            r.spec_width(Channel::Green) == 8,
            r.spec_width(Channel::Blue) == 8,
            r.spec_wf(),
    {
        Format::new(32, ColorType::Abgr, 8, 8, 8, 8)
    }

    /// The XBGR32 format: like ABGR32 with no alpha channel.
    pub fn xbgr32() -> (r: Format)
        ensures
            r.spec_bpp() == 32,
            r.spec_color_type() == ColorType::Abgr,
            r.spec_width(Channel::Alpha) == 0,
            r.spec_width(Channel::Red) == 8,
            r.spec_width(Channel::Green) == 8,
            r.spec_width(Channel::Blue) == 8,
            r.spec_wf(),
    {
        Format::new(32, ColorType::Abgr, 0, 8, 8, 8)
    }

    /// The RGBA32 format: 32 bits per pixel, RGBA order, 8 bits per channel.
    pub fn rgba32() -> (r: Format)
        ensures
            r.spec_bpp() == 32,
            r.spec_color_type() == ColorType::Rgba,
            r.spec_width(Channel::Alpha) == 8,
            r.spec_width(Channel::Red) == 8,
            r.spec_width(Channel::Green) == 8,
            r.spec_width(Channel::Blue) == 8,
            r.spec_wf(),
    {
        Format::new(32, ColorType::Rgba, 8, 8, 8, 8)
    }

    /// The RGBX32 format: like RGBA32 with no alpha channel.
    pub fn rgbx32() -> (r: Format)
        ensures
            r.spec_bpp() == 32,
            r.spec_color_type() == ColorType::Rgba,
            r.spec_width(Channel::Alpha) == 0,
            r.spec_width(Channel::Red) == 8,
            r.spec_width(Channel::Green) == 8,
            r.spec_width(Channel::Blue) == 8,
            r.spec_wf(),
    {
        Format::new(32, ColorType::Rgba, 0, 8, 8, 8)
    }

    /// The BGRA32 format: 32 bits per pixel, BGRA order, 8 bits per channel.
    pub fn bgra32() -> (r: Format)
        ensures
            r.spec_bpp() == 32,
            r.spec_color_type() == ColorType::Bgra,
            r.spec_width(Channel::Alpha) == 8,
            r.spec_width(Channel::Red) == 8,
            r.spec_width(Channel::Green) == 8,
            r.spec_width(Channel::Blue) == 8,
            r.spec_wf(),
    {
        Format::new(32, ColorType::Bgra, 8, 8, 8, 8)
    }

    /// The BGRX32 format: like BGRA32 with no alpha channel.
    pub fn bgrx32() -> (r: Format)
        ensures
            r.spec_bpp() == 32,
            r.spec_color_type() == ColorType::Bgra,
            r.spec_width(Channel::Alpha) == 0,
            r.spec_width(Channel::Red) == 8,
            r.spec_width(Channel::Green) == 8,
            r.spec_width(Channel::Blue) == 8,
            r.spec_wf(),
    {
        Format::new(32, ColorType::Bgra, 0, 8, 8, 8)
    }

    /// The RGB24 format: 24 bits per pixel, 8 bits per color channel.
    pub fn rgb24() -> (r: Format)
        ensures
            r.spec_bpp() == 24,
            r.spec_color_type() == ColorType::Argb,
            r.spec_width(Channel::Alpha) == 0,
            r.spec_width(Channel::Red) == 8,
            r.spec_width(Channel::Green) == 8,
            r.spec_width(Channel::Blue) == 8,
            r.spec_wf(),
    {
        Format::new(24, ColorType::Argb, 0, 8, 8, 8)
    }

    /// The BGR24 format: 24 bits per pixel, 8 bits per color channel.
    pub fn bgr24() -> (r: Format)
        ensures
            r.spec_bpp() == 24,
            r.spec_color_type() == ColorType::Abgr,
            r.spec_width(Channel::Alpha) == 0,
            r.spec_width(Channel::Red) == 8,
            r.spec_width(Channel::Green) == 8,
            r.spec_width(Channel::Blue) == 8,
            r.spec_wf(),
    {
        Format::new(24, ColorType::Abgr, 0, 8, 8, 8)
    }

    /// The ARGB16 format: 16 bits per pixel, 4 bits per channel.
    pub fn argb16() -> (r: Format)
        ensures
            r.spec_bpp() == 16,
            r.spec_color_type() == ColorType::Argb,
            r.spec_width(Channel::Alpha) == 4,
            r.spec_width(Channel::Red) == 4,
            r.spec_width(Channel::Green) == 4,
            r.spec_width(Channel::Blue) == 4,
            r.spec_wf(),
    {
        Format::new(16, ColorType::Argb, 4, 4, 4, 4)
    }

    /// The XRGB16 format: like ARGB16 with no alpha channel.
    pub fn xrgb16() -> (r: Format)
        ensures
            r.spec_bpp() == 16,
            r.spec_color_type() == ColorType::Argb,
            r.spec_width(Channel::Alpha) == 0,
            r.spec_width(Channel::Red) == 4,
            r.spec_width(Channel::Green) == 4,
            r.spec_width(Channel::Blue) == 4,
            r.spec_wf(),
    {
        Format::new(16, ColorType::Argb, 0, 4, 4, 4)
    }

    /// The ABGR16 format: 16 bits per pixel, 4 bits per channel.
    pub fn abgr16() -> (r: Format)
        ensures
            r.spec_bpp() == 16,
            r.spec_color_type() == ColorType::Abgr,
            r.spec_width(Channel::Alpha) == 4,
            r.spec_width(Channel::Red) == 4,
            r.spec_width(Channel::Green) == 4,
            r.spec_width(Channel::Blue) == 4,
            r.spec_wf(),
    {
        Format::new(16, ColorType::Abgr, 4, 4, 4, 4)
    }

    /// The XBGR16 format: like ABGR16 with no alpha channel.
    pub fn xbgr16() -> (r: Format)
        ensures
            r.spec_bpp() == 16,
            r.spec_color_type() == ColorType::Abgr,
            r.spec_width(Channel::Alpha) == 0,
            r.spec_width(Channel::Red) == 4,
            r.spec_width(Channel::Green) == 4,
            r.spec_width(Channel::Blue) == 4,
            r.spec_wf(),
    {
        Format::new(16, ColorType::Abgr, 0, 4, 4, 4)
    }

    /// The A8 format: a single 8-bit alpha channel.
    pub fn a8() -> (r: Format)
        ensures
            r.spec_bpp() == 8,
            r.spec_color_type() == ColorType::Alpha,
            r.spec_width(Channel::Alpha) == 8,
            r.spec_width(Channel::Red) == 0,
            r.spec_width(Channel::Green) == 0,
            r.spec_width(Channel::Blue) == 0,
            r.spec_wf(),
    {
        Format::new(8, ColorType::Alpha, 8, 0, 0, 0)
    }

    /// The A4 format: a single 4-bit alpha channel.
    pub fn a4() -> (r: Format)
        ensures
            r.spec_bpp() == 4,
            r.spec_color_type() == ColorType::Alpha,
            r.spec_width(Channel::Alpha) == 4,
            r.spec_width(Channel::Red) == 0,
            r.spec_width(Channel::Green) == 0,
            r.spec_width(Channel::Blue) == 0,
            r.spec_wf(),
    {
        Format::new(4, ColorType::Alpha, 4, 0, 0, 0)
    }

    /// The A1 format: a single 1-bit alpha channel.
    pub fn a1() -> (r: Format)
        ensures
            r.spec_bpp() == 1,
            r.spec_color_type() == ColorType::Alpha,
            r.spec_width(Channel::Alpha) == 1,
            r.spec_width(Channel::Red) == 0,
            r.spec_width(Channel::Green) == 0,
            r.spec_width(Channel::Blue) == 0,
            r.spec_wf(),
    {
        Format::new(1, ColorType::Alpha, 1, 0, 0, 0)
    }

    /// ARGB with 32-bit floats.
    pub fn argb_f32() -> (r: Format)
        ensures
            r.spec_bpp() == 128,
            r.spec_color_type() == ColorType::ArgbFloat,
            r.spec_width(Channel::Alpha) == 32,
            r.spec_width(Channel::Red) == 32,
            r.spec_width(Channel::Green) == 32,
            r.spec_width(Channel::Blue) == 32,
            r.spec_wf(),
    {
        Format::new(128, ColorType::ArgbFloat, 32, 32, 32, 32)
    }

    /// RGB with 32-bit floats.
    pub fn rgb_f32() -> (r: Format)
        ensures
            r.spec_bpp() == 96,
            r.spec_color_type() == ColorType::ArgbFloat,
            r.spec_width(Channel::Alpha) == 0,
            r.spec_width(Channel::Red) == 32,
            r.spec_width(Channel::Green) == 32,
            r.spec_width(Channel::Blue) == 32,
            r.spec_wf(),
    {
        Format::new(96, ColorType::ArgbFloat, 0, 32, 32, 32)
    }
}

/// Information about a format's channel.
///
/// This is produced by [`Format::channels`], and describes where one
/// channel lives within a packed pixel.
///
/// [`Format::channels`]: crate::Format::channels
#[derive(Debug, Copy, Clone, PartialEq, Eq, PartialOrd, Ord, Hash, Default, Structural)]
pub struct ChannelInfo {
    /// The number of bits used in this channel.
    pub bits: u8,
    /// The number of bits to shift to get this channel.
    pub shift: u8,
    /// The type of the channel.
    pub channel: Channel,
}

} // verus!
