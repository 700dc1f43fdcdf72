//! Pixels and channel values: the codec core.
//!
//! A [`Pixel`] carries one pixel's data together with its [`Format`] and
//! [`Endianness`]. A non-float pixel holds the packed channel bits in a
//! `u32` in logical form (the value whose bits the format's shifts index),
//! plus a bit offset locating a sub-byte pixel within its byte; a float
//! pixel holds one 32-bit pattern per present channel. Byte order is
//! applied exactly twice: when raw bytes are assembled into the logical
//! value on decode, and when the logical value is written back out on
//! insert.

use vstd::arithmetic::div_mod::{lemma_basic_div, lemma_small_mod};
use vstd::arithmetic::power2::{lemma2_to64, lemma2_to64_rest, lemma_pow2_adds, pow2};
use vstd::bits::{
    lemma_u32_low_bits_mask_is_mod, lemma_u32_shl_is_mul, lemma_u32_shr_is_div, low_bits_mask,
};
use vstd::prelude::*;

use crate::channel_iter::{
    format_items, lemma_fwd_items_bounds, lemma_rem_width_bound, order_len, rem_width,
};
use crate::color::{spec_rgba_values, Rgba};
use crate::float_bits::{bits_to_byte, byte_of_bits, f32_is_nan, unit_bits, unit_to_bits};
use crate::format::{Channel, ChannelInfo, Format};
use crate::{spec_make_u16, spec_make_u32, Endianness};

verus! {

/// The mask for getting the `n` lowest bits of a `u32`.
pub fn low_bit_mask(n: u8) -> (r: u32)
    requires
        n <= 32,
    ensures
        r == low_bits_mask(n as nat),
{
    proof {
        vstd::bits::lemma_low_bits_mask_values();
        lemma2_to64();
        vstd::arithmetic::power2::lemma_pow2_pos(n as nat);
    }
    if n == 32 {
        u32::MAX
    } else {
        proof {
            lemma_u32_shl_is_mul(1u32, n as u32);
            vstd::bits::lemma_u32_pow2_no_overflow(n as nat);
        }
        (1u32 << (n as u32)) - 1
    }
}

/// Whether a format's present channel widths sum to at most 32, so that a
/// packed pixel of it fits a `u32` and every shift stays in range.
pub open spec fn spec_fits_u32(f: Format) -> bool {
    rem_width(f, 0, order_len(f.spec_color_type()) as int) <= 32
}

/// The value of one channel of a packed pixel: the data shifted down by
/// the pixel's bit offset and the channel's shift, masked to the channel's
/// width, truncated to a byte.
pub open spec fn spec_extract(data: u32, index: u8, info: ChannelInfo) -> u8 {
    ((((data as nat / pow2(index as nat)) / pow2(info.shift as nat)) % pow2(info.bits as nat))
        % 0x100) as u8
}

/// The value of one channel of a packed pixel.
pub(crate) fn extract_channel(data: u32, index: u8, info: ChannelInfo) -> (r: u8)
    ensures
        r == spec_extract(data, index, info),
{
    proof {
        lemma2_to64();
        lemma2_to64_rest();
    }
    let d1 = if index < 32 {
        proof {
            lemma_u32_shr_is_div(data, index as u32);
        }
        data >> (index as u32)
    } else {
        proof {
            lemma_pow2_le(32, index as nat);
            lemma_basic_div(data as int, pow2(index as nat) as int);
        }
        0
    };
    let d2 = if info.shift < 32 {
        proof {
            lemma_u32_shr_is_div(d1, info.shift as u32);
        }
        d1 >> (info.shift as u32)
    } else {
        proof {
            lemma_pow2_le(32, info.shift as nat);
            lemma_basic_div(d1 as int, pow2(info.shift as nat) as int);
        }
        0
    };
    let bits = if info.bits > 32 {
        proof {
            lemma_pow2_le(32, info.bits as nat);
            lemma_small_mod(d2 as nat, pow2(info.bits as nat));
            lemma_small_mod(d2 as nat, pow2(32));
        }
        32
    } else {
        info.bits
    };
    let m = d2 & low_bit_mask(bits);
    proof {
        if bits < 32 {
            lemma_u32_low_bits_mask_is_mod(d2, bits as nat);
        } else {
            vstd::bits::lemma_low_bits_mask_values();
            lemma_u32_and_all_ones(d2);
            lemma_small_mod(d2 as nat, pow2(32));
        }
        lemma_u32_as_u8(m);
    }
    m as u8
}

/// A power of two is no smaller than one with a smaller exponent.
proof fn lemma_pow2_le(a: nat, b: nat)
    requires
        a <= b,
    ensures
        pow2(a) <= pow2(b),
{
    if a < b {
        vstd::arithmetic::power2::lemma_pow2_strictly_increases(a, b);
    }
}

/// Masking with all 32 bits set leaves a word unchanged.
proof fn lemma_u32_and_all_ones(x: u32)
    by (bit_vector)
    ensures
        x & 0xffff_ffffu32 == x,
{
}

/// Truncating a word to a byte takes it modulo 256.
proof fn lemma_u32_as_u8(x: u32)
    by (bit_vector)
    ensures
        x as u8 == x % 0x100,
{
}

/// The logical `u32` assembled from a pixel's raw bytes: one byte is taken
/// as is, two are assembled as a 16-bit word in the pixel's byte order, and
/// three or four as a 32-bit word.
pub open spec fn spec_decode_raw(e: Endianness, f: Format, b0: u8, b1: u8, b2: u8, b3: u8) -> u32 {
    if f.spec_bytes() == 1 {
        b0 as u32
    } else if f.spec_bytes() == 2 {
        spec_make_u16(e, b0, b1) as u32
    } else {
        spec_make_u32(e, b0, b1, b2, b3)
    }
}

/// Byte `i` of a slice zero-padded beyond its first `cnt` bytes.
pub open spec fn spec_byte_padded(bs: Seq<u8>, cnt: int, i: int) -> u8 {
    if i < cnt {
        bs[i]
    } else {
        0
    }
}

/// Byte `i` of a slice zero-padded beyond its first `cnt` bytes.
fn byte_at(bytes: &[u8], i: usize, cnt: usize) -> (r: u8)
    requires
        cnt <= bytes.len(),
    ensures
        r == spec_byte_padded(bytes@, cnt as int, i as int),
{
    if i < cnt {
        bytes[i]
    } else {
        0
    }
}

/// A pixel in an image.
///
/// This contains the data of the pixel, as well as information regarding
/// how that pixel should be interpreted: its format and its endianness.
///
/// The stored data is the logical packed value: the format's channel
/// shifts index its bits directly. The endianness records the byte order
/// that decoding consumed and that [`Pixel::insert`] produces.
#[derive(Debug, Copy, Clone)]
pub struct Pixel {
    /// The pixel's data.
    value: Value,
    /// The format of the pixel.
    format: Format,
    /// The endianness of this pixel.
    endianness: Endianness,
}

#[derive(Debug, Copy, Clone)]
enum Value {
    NonFloat {
        /// The packed channel bits, in logical form.
        data: u32,
        /// For sub-byte formats, the bit offset of the pixel within its
        /// containing byte.
        index: u8,
    },
    Float {
        /// One 32-bit pattern per channel slot; the format defines how
        /// many are valid.
        slots: [u32; 4],
    },
}

impl Pixel {
    /// The format of the pixel.
    pub closed spec fn spec_format(self) -> Format {
        self.format
    }

    /// The endianness of the pixel.
    pub closed spec fn spec_endianness(self) -> Endianness {
        self.endianness
    }

    /// Whether the pixel holds float patterns rather than packed bits.
    pub closed spec fn spec_is_float(self) -> bool {
        self.value is Float
    }

    /// The packed channel bits of a non-float pixel.
    pub closed spec fn spec_data(self) -> u32 {
        match self.value {
            Value::NonFloat { data, .. } => data,
            Value::Float { .. } => 0,
        }
    }

    /// The sub-byte bit offset of a non-float pixel.
    pub closed spec fn spec_index(self) -> u8 {
        match self.value {
            Value::NonFloat { index, .. } => index,
            Value::Float { .. } => 0,
        }
    }

    /// The four float slots of a float pixel.
    pub closed spec fn spec_float_slots(self) -> Seq<u32> {
        match self.value {
            Value::NonFloat { .. } => Seq::empty(),
            Value::Float { slots } => slots@,
        }
    }

    /// A well-formed pixel: the variant agrees with the format's float
    /// flag; a non-float pixel packs into a `u32` with a sub-byte offset,
    /// and a float pixel's format is a whole number of 32-bit slots.
    pub open spec fn spec_wf(self) -> bool {
        &&& self.spec_format().spec_wf()
        &&& if self.spec_is_float() {
            &&& self.spec_format().spec_involves_float()
            &&& self.spec_format().spec_bpp() % 32 == 0
        } else {
            &&& !self.spec_format().spec_involves_float()
            &&& self.spec_format().spec_bytes() <= 4
            &&& self.spec_index() < 8
            &&& spec_fits_u32(self.spec_format())
        }
    }
}

/// The float components of a pixel, as 32-bit patterns: a float pixel's
/// valid slots, or each packed channel of a non-float pixel mapped to the
/// pattern of its value divided by 255.
pub open spec fn spec_components(p: Pixel) -> Seq<u32> {
    if p.spec_is_float() {
        let n = p.spec_format().spec_bpp() as int / 32;
        p.spec_float_slots().take(
            if n <= 4 {
                n
            } else {
                4
            },
        )
    } else {
        format_items(p.spec_format()).map_values(
            |it: ChannelInfo| unit_bits(spec_extract(p.spec_data(), p.spec_index(), it)),
        )
    }
}

/// The channel enumeration of a format has at most four entries, each with
/// nonzero width; when the widths fit a `u32`, each entry's bit range
/// stays inside the low 32 bits.
pub proof fn lemma_format_items_bounds(f: Format)
    ensures
        format_items(f).len() <= 4,
        forall|i: int|
            0 <= i < format_items(f).len() ==> 0 < (#[trigger] format_items(f)[i]).bits,
        spec_fits_u32(f) ==> forall|i: int|
            0 <= i < format_items(f).len() ==> (#[trigger] format_items(f)[i]).shift + format_items(
                f,
            )[i].bits <= 32,
{
    let n = order_len(f.spec_color_type()) as int;
    lemma_rem_width_bound(f, 0, n);
    lemma_fwd_items_bounds(f, 0, n, 0, f.spec_bpp());
}

impl Pixel {
    /// Create a new pixel from raw bytes, endianness and format.
    ///
    /// `index` is used for sub-byte formats to determine where in the
    /// first byte the pixel is; it can normally be zero for other formats.
    pub fn from_bytes(bytes: [u8; 4], index: u8, endian: Endianness, format: Format) -> (r: Self)
        requires
            format.spec_wf(),
            !format.spec_involves_float(),
            format.spec_bytes() <= 4,
            index < 8,
            spec_fits_u32(format),
        ensures
            r.spec_wf(),
            !r.spec_is_float(),
            r.spec_format() == format,
            r.spec_endianness() == endian,
            r.spec_index() == index,
            r.spec_data() == spec_decode_raw(endian, format, bytes@[0], bytes@[1], bytes@[2], bytes@[3]),
    {
        let quantum = format.bytes();
        let data: u32 = if quantum == 1 {
            bytes[0] as u32
        } else if quantum == 2 {
            endian.make_u16([bytes[0], bytes[1]]) as u32
        } else {
            endian.make_u32(bytes)
        };

        Self { format, value: Value::NonFloat { data, index }, endianness: endian }
    }

    /// Create a new pixel from the raw bytes for a float format: sixteen
    /// bytes taken as four 32-bit patterns in the given byte order.
    pub fn from_float_bytes(bytes: [u8; 16], endian: Endianness, format: Format) -> (r: Self)
        requires
            format.spec_wf(),
            format.spec_involves_float(),
            format.spec_bpp() % 32 == 0,
        ensures
            r.spec_wf(),
            r.spec_is_float(),
            r.spec_format() == format,
            r.spec_endianness() == endian,
            r.spec_float_slots().len() == 4,
            forall|i: int|
                0 <= i < 4 ==> r.spec_float_slots()[i] == spec_make_u32(
                    endian,
                    bytes@[4 * i],
                    bytes@[4 * i + 1],
                    bytes@[4 * i + 2],
                    bytes@[4 * i + 3],
                ),
    {
        let w0 = endian.make_u32([bytes[0], bytes[1], bytes[2], bytes[3]]);
        let w1 = endian.make_u32([bytes[4], bytes[5], bytes[6], bytes[7]]);
        let w2 = endian.make_u32([bytes[8], bytes[9], bytes[10], bytes[11]]);
        let w3 = endian.make_u32([bytes[12], bytes[13], bytes[14], bytes[15]]);

        Self { format, value: Value::Float { slots: [w0, w1, w2, w3] }, endianness: endian }
    }

    /// Create a new pixel from raw bytes, endianness, format and, if
    /// applicable, the bit offset into the first byte that the pixel
    /// sits at.
    ///
    /// Only the first `format.bytes()` bytes are read; a float format's
    /// missing tail slots are zero.
    pub fn with_index(bytes: &[u8], index: u8, endian: Endianness, format: Format) -> (r: Self)
        requires
            format.spec_wf(),
            bytes@.len() >= format.spec_bytes(),
            !format.spec_involves_float() ==> index < 8 && spec_fits_u32(format)
                && format.spec_bytes() <= 4,
            format.spec_involves_float() ==> format.spec_bpp() % 32 == 0,
        ensures
            r.spec_wf(),
            r.spec_format() == format,
            r.spec_endianness() == endian,
            r.spec_is_float() == format.spec_involves_float(),
            !format.spec_involves_float() ==> {
                &&& r.spec_index() == index
                &&& r.spec_data() == spec_decode_raw(
                    endian,
                    format,
                    spec_byte_padded(bytes@, format.spec_bytes() as int, 0),
                    spec_byte_padded(bytes@, format.spec_bytes() as int, 1),
                    spec_byte_padded(bytes@, format.spec_bytes() as int, 2),
                    spec_byte_padded(bytes@, format.spec_bytes() as int, 3),
                )
            },
            format.spec_involves_float() ==> {
                &&& r.spec_float_slots().len() == 4
                &&& forall|i: int|
                    0 <= i < 4 ==> r.spec_float_slots()[i] == spec_make_u32(
                        endian,
                        spec_byte_padded(bytes@, format.spec_bytes() as int, 4 * i),
                        spec_byte_padded(bytes@, format.spec_bytes() as int, 4 * i + 1),
                        spec_byte_padded(bytes@, format.spec_bytes() as int, 4 * i + 2),
                        spec_byte_padded(bytes@, format.spec_bytes() as int, 4 * i + 3),
                    )
            },
    {
        let cnt = format.bytes() as usize;
        if format.involves_float() {
            let buffer: [u8; 16] = [
                byte_at(bytes, 0, cnt),
                byte_at(bytes, 1, cnt),
                byte_at(bytes, 2, cnt),
                byte_at(bytes, 3, cnt),
                byte_at(bytes, 4, cnt),
                byte_at(bytes, 5, cnt),
                byte_at(bytes, 6, cnt),
                byte_at(bytes, 7, cnt),
                byte_at(bytes, 8, cnt),
                byte_at(bytes, 9, cnt),
                byte_at(bytes, 10, cnt),
                byte_at(bytes, 11, cnt),
                byte_at(bytes, 12, cnt),
                byte_at(bytes, 13, cnt),
                byte_at(bytes, 14, cnt),
                byte_at(bytes, 15, cnt),
            ];
            Self::from_float_bytes(buffer, endian, format)
        } else {
            let buffer: [u8; 4] = [
                byte_at(bytes, 0, cnt),
                byte_at(bytes, 1, cnt),
                byte_at(bytes, 2, cnt),
                byte_at(bytes, 3, cnt),
            ];
            Self::from_bytes(buffer, index, endian, format)
        }
    }

    /// Create a new pixel from raw bytes, endianness and format, reading
    /// the pixel from the start of the slice.
    pub fn new(bytes: &[u8], endianness: Endianness, format: Format) -> (r: Self)
        requires
            format.spec_wf(),
            bytes@.len() >= format.spec_bytes(),
            !format.spec_involves_float() ==> spec_fits_u32(format) && format.spec_bytes() <= 4,
            format.spec_involves_float() ==> format.spec_bpp() % 32 == 0,
        ensures
            r.spec_wf(),
            r.spec_format() == format,
            r.spec_endianness() == endianness,
            r.spec_is_float() == format.spec_involves_float(),
            !format.spec_involves_float() ==> {
                &&& r.spec_index() == 0
                &&& r.spec_data() == spec_decode_raw(
                    endianness,
                    format,
                    spec_byte_padded(bytes@, format.spec_bytes() as int, 0),
                    spec_byte_padded(bytes@, format.spec_bytes() as int, 1),
                    spec_byte_padded(bytes@, format.spec_bytes() as int, 2),
                    spec_byte_padded(bytes@, format.spec_bytes() as int, 3),
                )
            },
            format.spec_involves_float() ==> {
                &&& r.spec_float_slots().len() == 4
                &&& forall|i: int|
                    0 <= i < 4 ==> r.spec_float_slots()[i] == spec_make_u32(
                        endianness,
                        spec_byte_padded(bytes@, format.spec_bytes() as int, 4 * i),
                        spec_byte_padded(bytes@, format.spec_bytes() as int, 4 * i + 1),
                        spec_byte_padded(bytes@, format.spec_bytes() as int, 4 * i + 2),
                        spec_byte_padded(bytes@, format.spec_bytes() as int, 4 * i + 3),
                    )
            },
    {
        Self::with_index(bytes, 0, endianness, format)
    }

    /// The format for this pixel.
    pub fn format(&self) -> (r: Format)
        ensures
            r == self.spec_format(),
    {
        self.format
    }

    /// The endianness for the pixel.
    pub fn endianness(&self) -> (r: Endianness)
        ensures
            r == self.spec_endianness(),
    {
        self.endianness
    }

    /// The pixel's float components, as 32-bit patterns.
    ///
    /// A float pixel hands out its valid slots; a non-float pixel maps
    /// each packed channel value to the pattern of that value divided
    /// by 255. Equality, ordering and hashing of pixels all go through
    /// this sequence.
    pub fn components_float_bits(&self) -> (r: Vec<u32>)
        ensures
            r@ == spec_components(*self),
    {
        match self.value {
            Value::Float { slots } => {
                let valid = self.format.bpp() / 32;
                let n: usize = if valid > 4 {
                    4
                } else {
                    valid as usize
                };
                let mut r: Vec<u32> = Vec::new();
                let mut i: usize = 0;
                while i < n
                    invariant
                        i <= n <= 4,
                        self.value == (Value::Float { slots }),
                        n == spec_components(*self).len(),
                        slots@.take(n as int) == spec_components(*self),
                        r@ == slots@.take(i as int),
                    decreases n - i,
                {
                    r.push(slots[i]);
                    proof {
                        assert(slots@.take(i + 1) =~= slots@.take(i as int).push(slots@[i as int]));
                    }
                    i = i + 1;
                }
                proof {
                    assert(r@ =~= spec_components(*self));
                }
                r
            },
            Value::NonFloat { data, index } => {
                let ghost comps = spec_components(*self);
                let mut it = self.format.channels();
                let mut r: Vec<u32> = Vec::new();
                proof {
                    assert(comps =~= format_items(self.format).map_values(
                        |info: ChannelInfo| unit_bits(spec_extract(data, index, info)),
                    ));
                }
                loop
                    invariant
                        it.spec_wf(),
                        it.spec_format() == self.spec_format(),
                        !self.spec_is_float(),
                        data == self.spec_data(),
                        index == self.spec_index(),
                        comps == spec_components(*self),
                        r@.len() + it.spec_remaining().len() == comps.len(),
                        it.spec_remaining() == format_items(self.spec_format()).skip(
                            r@.len() as int,
                        ),
                        r@ == comps.take(r@.len() as int),
                    decreases it.spec_remaining().len(),
                {
                    let ghost done = r@.len() as int;
                    match it.next() {
                        Some(info) => {
                            proof {
                                assert(info == format_items(self.spec_format())[done]);
                                assert(format_items(self.spec_format()).skip(done).skip(1)
                                    =~= format_items(self.spec_format()).skip(done + 1));
                            }
                            r.push(unit_to_bits(extract_channel(data, index, info)));
                            proof {
                                assert(r@ =~= comps.take(done + 1));
                            }
                        },
                        None => {
                            proof {
                                assert(r@ =~= comps);
                            }
                            return r;
                        },
                    }
                }
            },
        }
    }
}

/// The value of a channel combined with the type of the channel.
///
/// The value is carried twice: as a normalized byte in `0..=255`, and,
/// when the channel came from a float pixel, as the exact 32-bit float
/// pattern, which is the authority for comparisons and float round trips.
#[derive(Debug, Copy, Clone, PartialEq, Eq, PartialOrd, Ord, Hash, Default)]
pub struct ChannelValue {
    /// The type of the channel.
    channel_type: Channel,
    /// The normalized value of the channel.
    value: u8,
    /// The exact float pattern of this channel, if one is known; never a
    /// NaN pattern.
    float_bits: Option<u32>,
}

impl ChannelValue {
    /// The channel value holding the given parts.
    pub closed spec fn spec_cv(channel_type: Channel, value: u8, float_bits: Option<u32>) -> ChannelValue {
        ChannelValue { channel_type, value, float_bits }
    }

    /// The type of the channel.
    pub closed spec fn spec_channel_type(self) -> Channel {
        self.channel_type
    }

    /// The normalized byte value of the channel.
    pub closed spec fn spec_value(self) -> u8 {
        self.value
    }

    /// The exact float pattern, if one is known.
    pub closed spec fn spec_float_bits(self) -> Option<u32> {
        self.float_bits
    }

    /// The float pattern this channel stands for: the exact one when it is
    /// known, else the pattern of the byte value divided by 255.
    pub open spec fn spec_float_value(self) -> u32 {
        match self.spec_float_bits() {
            Some(b) => b,
            None => unit_bits(self.spec_value()),
        }
    }

    /// Create a new `ChannelValue` from a channel and a byte value.
    pub fn new(channel_type: Channel, value: u8) -> (r: Self)
        ensures
            r == ChannelValue::spec_cv(channel_type, value, None),
            r.spec_channel_type() == channel_type,
            r.spec_value() == value,
            r.spec_float_bits() is None,
    {
        Self { channel_type, value, float_bits: None }
    }

    /// Create a new `ChannelValue` from a channel and the bit pattern of a
    /// 32-bit float, expected to denote a value between 0 and 1.
    ///
    /// The byte projection is the denoted value times 255, rounded and
    /// clamped; the pattern itself is kept exactly unless it is a NaN.
    pub fn new_with_float(channel_type: Channel, bits: u32) -> (r: Self)
        ensures
            r == ChannelValue::spec_cv(
                channel_type,
                byte_of_bits(bits),
                if f32_is_nan(bits) {
                    None
                } else {
                    Some(bits)
                },
            ),
            r.spec_channel_type() == channel_type,
            r.spec_value() == byte_of_bits(bits),
            f32_is_nan(bits) ==> r.spec_float_bits() is None,
            !f32_is_nan(bits) ==> r.spec_float_bits() == Some(bits),
    {
        let value = bits_to_byte(bits);
        let expf = (bits / 0x80_0000) % 0x100;
        let frac = bits % 0x80_0000;
        let float_bits = if expf == 255 && frac != 0 {
            None
        } else {
            Some(bits)
        };
        Self { channel_type, value, float_bits }
    }

    /// The type of the channel.
    pub fn channel_type(self) -> (r: Channel)
        ensures
            r == self.spec_channel_type(),
    {
        self.channel_type
    }

    /// The normalized byte value of the channel.
    pub fn value(self) -> (r: u8)
        ensures
            r == self.spec_value(),
    {
        self.value
    }

    /// The float pattern of the channel: the exact one when it is known,
    /// else the pattern of the byte value divided by 255.
    pub fn float_value(self) -> (r: u32)
        ensures
            r == self.spec_float_value(),
    {
        match self.float_bits {
            Some(b) => b,
            None => unit_to_bits(self.value),
        }
    }
}

/// The slot of the first entry with the given channel, or -1 when no
/// entry has it.
pub open spec fn find_pos(items: Seq<ChannelInfo>, ch: Channel) -> int
    decreases items.len(),
{
    if items.len() == 0 {
        -1
    } else if items[0].channel == ch {
        0
    } else {
        let p = find_pos(items.skip(1), ch);
        if p < 0 {
            -1
        } else {
            p + 1
        }
    }
}

/// `find_pos` returns the first matching slot, or -1 when no slot
/// matches.
pub proof fn lemma_find_pos(items: Seq<ChannelInfo>, ch: Channel)
    ensures
        -1 <= find_pos(items, ch) < items.len(),
        find_pos(items, ch) >= 0 ==> items[find_pos(items, ch)].channel == ch,
        forall|k: int| 0 <= k < items.len() && #[trigger] items[k].channel == ch
            ==> 0 <= find_pos(items, ch) <= k,
    decreases items.len(),
{
    if items.len() > 0 && items[0].channel != ch {
        lemma_find_pos(items.skip(1), ch);
        assert(forall|k: int|
            1 <= k < items.len() ==> #[trigger] items[k] == items.skip(1)[k - 1]);
    }
}

/// Find the slot of the first entry carrying the given channel.
fn find_channel(items: &Vec<ChannelInfo>, ch: Channel) -> (r: Option<usize>)
    ensures
        match r {
            Some(j) => j == find_pos(items@, ch) && j < items@.len() && items@[j as int].channel
                == ch,
            None => find_pos(items@, ch) == -1,
        },
{
    proof {
        lemma_find_pos(items@, ch);
    }
    let mut j: usize = 0;
    while j < items.len()
        invariant
            j <= items@.len(),
            forall|k: int| 0 <= k < j ==> (#[trigger] items@[k]).channel != ch,
            -1 <= find_pos(items@, ch) < items@.len(),
            find_pos(items@, ch) >= 0 ==> items@[find_pos(items@, ch)].channel == ch,
            forall|k: int|
                0 <= k < items@.len() && #[trigger] items@[k].channel == ch ==> 0 <= find_pos(
                    items@,
                    ch,
                ) <= k,
        decreases items@.len() - j,
    {
        if items[j].channel == ch {
            return Some(j);
        }
        j = j + 1;
    }
    None
}

/// The channel entries of a format, collected in order.
fn items_vec(format: Format) -> (r: Vec<ChannelInfo>)
    ensures
        r@ == format_items(format),
{
    let mut it = format.channels();
    let mut r: Vec<ChannelInfo> = Vec::new();
    loop
        invariant
            it.spec_wf(),
            it.spec_format() == format,
            r@.len() <= format_items(format).len(),
            it.spec_remaining() == format_items(format).skip(r@.len() as int),
            r@ == format_items(format).take(r@.len() as int),
        decreases it.spec_remaining().len(),
    {
        let ghost done = r@.len() as int;
        match it.next() {
            Some(info) => {
                proof {
                    assert(info == format_items(format)[done]);
                    assert(format_items(format).skip(done).skip(1) =~= format_items(format).skip(
                        done + 1,
                    ));
                }
                r.push(info);
                proof {
                    assert(r@ =~= format_items(format).take(done + 1));
                }
            },
            None => {
                proof {
                    assert(r@ =~= format_items(format));
                }
                return r;
            },
        }
    }
}

/// The `u32` that packing a sequence of channel values into a format
/// yields: each value whose channel has an entry is masked to the entry's
/// width, shifted to its place, and merged in; the rest are dropped.
pub open spec fn spec_collect_raw(items: Seq<ChannelInfo>, inputs: Seq<ChannelValue>) -> u32
    decreases inputs.len(),
{
    if inputs.len() == 0 {
        0u32
    } else {
        let prev = spec_collect_raw(items, inputs.drop_last());
        let cv = inputs.last();
        let p = find_pos(items, cv.spec_channel_type());
        if p >= 0 {
            prev | (((cv.spec_value() as u32) & spec_mask32(items[p].bits)) << (
            items[p].shift as u32))
        } else {
            prev
        }
    }
}

/// The mask of the low `bits` bits of a word.
pub open spec fn spec_mask32(bits: u8) -> u32 {
    if bits <= 32 {
        low_bits_mask(bits as nat) as u32
    } else {
        0xffff_ffffu32
    }
}

/// The four float slots that packing a sequence of channel values into a
/// float format yields: each value whose channel has an entry lands in
/// that entry's slot, later values overwriting earlier ones; untouched
/// slots stay zero.
pub open spec fn spec_collect_float(items: Seq<ChannelInfo>, inputs: Seq<ChannelValue>) -> Seq<
    u32,
>
    decreases inputs.len(),
{
    if inputs.len() == 0 {
        seq![0u32, 0u32, 0u32, 0u32]
    } else {
        let prev = spec_collect_float(items, inputs.drop_last());
        let cv = inputs.last();
        let p = find_pos(items, cv.spec_channel_type());
        if 0 <= p < 4 {
            prev.update(p, cv.spec_float_value())
        } else {
            prev
        }
    }
}

/// The collected float slots always number four.
pub proof fn lemma_collect_float_len(items: Seq<ChannelInfo>, inputs: Seq<ChannelValue>)
    ensures
        spec_collect_float(items, inputs).len() == 4,
    decreases inputs.len(),
{
    if inputs.len() > 0 {
        lemma_collect_float_len(items, inputs.drop_last());
    }
}

impl Pixel {
    /// Create a new pixel from a format, endianness and a collection of
    /// channel values.
    ///
    /// Values for channels that the format does not carry are dropped;
    /// when several values carry the same channel, a non-float target
    /// merges all of them and a float target keeps the last.
    pub fn collect_channels(
        endianness: Endianness,
        format: Format,
        channels: &Vec<ChannelValue>,
    ) -> (r: Self)
        requires
            format.spec_wf(),
            !format.spec_involves_float() ==> spec_fits_u32(format) && format.spec_bytes() <= 4,
            format.spec_involves_float() ==> format.spec_bpp() % 32 == 0,
        ensures
            r.spec_wf(),
            r.spec_format() == format,
            r.spec_endianness() == endianness,
            r.spec_is_float() == format.spec_involves_float(),
            !format.spec_involves_float() ==> r.spec_index() == 0 && r.spec_data()
                == spec_collect_raw(format_items(format), channels@),
            format.spec_involves_float() ==> r.spec_float_slots() == spec_collect_float(
                format_items(format),
                channels@,
            ),
    {
        // there will be at most 4 channels
        let our_channels = items_vec(format);
        proof {
            lemma_format_items_bounds(format);
        }

        if format.involves_float() {
            // fill the slots of the float tuple
            let mut s0: u32 = 0;
            let mut s1: u32 = 0;
            let mut s2: u32 = 0;
            let mut s3: u32 = 0;
            let mut i: usize = 0;
            proof {
                lemma_collect_float_len(format_items(format), channels@.take(0));
                assert(channels@.take(0) =~= Seq::<ChannelValue>::empty());
            }
            while i < channels.len()
                invariant
                    i <= channels@.len(),
                    our_channels@ == format_items(format),
                    format_items(format).len() <= 4,
                    seq![s0, s1, s2, s3] == spec_collect_float(
                        format_items(format),
                        channels@.take(i as int),
                    ),
                decreases channels@.len() - i,
            {
                let ghost pre = seq![s0, s1, s2, s3];
                let cv = channels[i];
                match find_channel(&our_channels, cv.channel_type()) {
                    Some(posn) => {
                        let val = cv.float_value();
                        if posn == 0 {
                            s0 = val;
                        } else if posn == 1 {
                            s1 = val;
                        } else if posn == 2 {
                            s2 = val;
                        } else {
                            s3 = val;
                        }
                        proof {
                            assert(seq![s0, s1, s2, s3] =~= pre.update(posn as int, val));
                        }
                    },
                    None => {},
                }
                proof {
                    assert(channels@.take(i + 1).drop_last() =~= channels@.take(i as int));
                    assert(channels@.take(i + 1).last() == channels@[i as int]);
                }
                i = i + 1;
            }
            proof {
                assert(channels@.take(channels@.len() as int) =~= channels@);
                assert(seq![s0, s1, s2, s3] =~= [s0, s1, s2, s3]@);
            }
            Self { format, endianness, value: Value::Float { slots: [s0, s1, s2, s3] } }
        } else {
            // merge the raw values into one packed word
            let mut data: u32 = 0;
            let mut i: usize = 0;
            proof {
                assert(channels@.take(0) =~= Seq::<ChannelValue>::empty());
            }
            while i < channels.len()
                invariant
                    i <= channels@.len(),
                    our_channels@ == format_items(format),
                    spec_fits_u32(format),
                    forall|k: int|
                        0 <= k < format_items(format).len() ==> (#[trigger] format_items(format)[k]).shift
                            + format_items(format)[k].bits <= 32 && 0 < format_items(
                            format,
                        )[k].bits,
                    data == spec_collect_raw(format_items(format), channels@.take(i as int)),
                decreases channels@.len() - i,
            {
                let cv = channels[i];
                match find_channel(&our_channels, cv.channel_type()) {
                    Some(posn) => {
                        let info = our_channels[posn];
                        let val = (cv.value() as u32) & low_bit_mask(info.bits);
                        data = data | (val << (info.shift as u32));
                    },
                    None => {},
                }
                proof {
                    assert(channels@.take(i + 1).drop_last() =~= channels@.take(i as int));
                    assert(channels@.take(i + 1).last() == channels@[i as int]);
                }
                i = i + 1;
            }
            proof {
                assert(channels@.take(channels@.len() as int) =~= channels@);
            }
            Self { format, endianness, value: Value::NonFloat { data, index: 0 } }
        }
    }
}

impl Pixel {
    /// Create a new pixel from an RGBA color.
    pub fn from_rgba(rgba: Rgba, format: Format, endian: Endianness) -> (r: Self)
        requires
            format.spec_wf(),
            !format.spec_involves_float() ==> spec_fits_u32(format) && format.spec_bytes() <= 4,
            format.spec_involves_float() ==> format.spec_bpp() % 32 == 0,
        ensures
            r.spec_wf(),
            r.spec_format() == format,
            r.spec_endianness() == endian,
            r.spec_is_float() == format.spec_involves_float(),
            !format.spec_involves_float() ==> r.spec_index() == 0 && r.spec_data()
                == spec_collect_raw(format_items(format), spec_rgba_values(rgba)),
            format.spec_involves_float() ==> r.spec_float_slots() == spec_collect_float(
                format_items(format),
                spec_rgba_values(rgba),
            ),
    {
        Self::collect_channels(endian, format, &rgba.channel_values())
    }
}

/// The channel values a pixel hands out, one per channel entry of its
/// format: a non-float pixel extracts each packed value, a float pixel
/// pairs each entry with its slot's pattern and byte projection.
pub closed spec fn spec_channel_values(p: Pixel) -> Seq<ChannelValue> {
    let items = format_items(p.spec_format());
    if p.spec_is_float() {
        let comps = spec_components(p);
        let n: int = if items.len() <= comps.len() {
            items.len() as int
        } else {
            comps.len() as int
        };
        Seq::new(
            n as nat,
            |i: int|
                ChannelValue::spec_cv(
                    items[i].channel,
                    byte_of_bits(comps[i]),
                    if f32_is_nan(comps[i]) {
                        None
                    } else {
                        Some(comps[i])
                    },
                ),
        )
    } else {
        Seq::new(
            items.len(),
            |i: int|
                ChannelValue::spec_cv(
                    items[i].channel,
                    spec_extract(p.spec_data(), p.spec_index(), items[i]),
                    None,
                ),
        )
    }
}

/// What each handed-out channel value holds, stated over the accessors.
pub proof fn lemma_channel_values(p: Pixel)
    ensures
        !p.spec_is_float() ==> spec_channel_values(p).len() == format_items(p.spec_format()).len(),
        p.spec_is_float() ==> spec_channel_values(p).len() == (if format_items(
            p.spec_format(),
        ).len() <= spec_components(p).len() {
            format_items(p.spec_format()).len() as int
        } else {
            spec_components(p).len() as int
        }),
        forall|i: int|
            0 <= i < spec_channel_values(p).len() ==> (#[trigger] spec_channel_values(p)[i]).spec_channel_type()
                == format_items(p.spec_format())[i].channel,
        forall|i: int|
            0 <= i < spec_channel_values(p).len() && !p.spec_is_float() ==> (
            #[trigger] spec_channel_values(p)[i]).spec_value() == spec_extract(
                p.spec_data(),
                p.spec_index(),
                format_items(p.spec_format())[i],
            ) && spec_channel_values(p)[i].spec_float_bits() is None,
        forall|i: int|
            0 <= i < spec_channel_values(p).len() && p.spec_is_float() ==> (
            #[trigger] spec_channel_values(p)[i]).spec_value() == byte_of_bits(
                spec_components(p)[i],
            ) && spec_channel_values(p)[i].spec_float_bits() == (if f32_is_nan(
                spec_components(p)[i],
            ) {
                Option::<u32>::None
            } else {
                Option::Some(spec_components(p)[i])
            }),
{
}

impl Pixel {
    /// Get channel information for this pixel: one channel value per
    /// channel entry of its format, in channel order.
    pub fn channel_info(&self) -> (r: Vec<ChannelValue>)
        ensures
            r@ == spec_channel_values(*self),
    {
        let ghost vals = spec_channel_values(*self);
        let items = items_vec(self.format);
        match self.value {
            Value::Float { .. } => {
                let comps = self.components_float_bits();
                let n = if items.len() <= comps.len() {
                    items.len()
                } else {
                    comps.len()
                };
                let mut r: Vec<ChannelValue> = Vec::new();
                let mut i: usize = 0;
                while i < n
                    invariant
                        i <= n,
                        n == vals.len(),
                        self.spec_is_float(),
                        vals == spec_channel_values(*self),
                        items@ == format_items(self.spec_format()),
                        comps@ == spec_components(*self),
                        n <= items@.len() && n <= comps@.len(),
                        r@ == vals.take(i as int),
                    decreases n - i,
                {
                    r.push(ChannelValue::new_with_float(items[i].channel, comps[i]));
                    proof {
                        assert(r@ =~= vals.take(i + 1));
                    }
                    i = i + 1;
                }
                proof {
                    assert(r@ =~= vals);
                }
                r
            },
            Value::NonFloat { data, index } => {
                let mut r: Vec<ChannelValue> = Vec::new();
                let mut i: usize = 0;
                while i < items.len()
                    invariant
                        i <= items@.len(),
                        vals == spec_channel_values(*self),
                        items@ == format_items(self.spec_format()),
                        !self.spec_is_float(),
                        data == self.spec_data(),
                        index == self.spec_index(),
                        vals.len() == items@.len(),
                        r@ == vals.take(i as int),
                    decreases items@.len() - i,
                {
                    r.push(ChannelValue::new(items[i].channel, extract_channel(data, index, items[i])));
                    proof {
                        assert(r@ =~= vals.take(i + 1));
                    }
                    i = i + 1;
                }
                proof {
                    assert(r@ =~= vals);
                }
                r
            },
        }
    }

    /// Convert this `Pixel` to the same value but in a new format.
    ///
    /// When the requested format and endianness are the ones the pixel
    /// already has, the pixel is returned unchanged. Otherwise its channel
    /// values are extracted and packed anew; converting to a format with
    /// fewer bits loses information.
    pub fn into_new_format(self, endian: Endianness, format: Format) -> (r: Self)
        requires
            self.spec_wf(),
            format.spec_wf(),
            !format.spec_involves_float() ==> spec_fits_u32(format) && format.spec_bytes() <= 4,
            format.spec_involves_float() ==> format.spec_bpp() % 32 == 0,
        ensures
            r.spec_wf(),
            format == self.spec_format() && endian == self.spec_endianness() ==> r == self,
            !(format == self.spec_format() && endian == self.spec_endianness()) ==> {
                &&& r.spec_format() == format
                &&& r.spec_endianness() == endian
                &&& r.spec_is_float() == format.spec_involves_float()
                &&& !format.spec_involves_float() ==> r.spec_index() == 0 && r.spec_data()
                    == spec_collect_raw(format_items(format), spec_channel_values(self))
                &&& format.spec_involves_float() ==> r.spec_float_slots() == spec_collect_float(
                    format_items(format),
                    spec_channel_values(self),
                )
            },
    {
        // if the formats are equal, no need to convert
        if self.format == format && self.endianness == endian {
            return self;
        }

        let values = self.channel_info();
        Self::collect_channels(endian, format, &values)
    }

    /// Create the raw `u32` that could be used to represent this pixel.
    ///
    /// For a raw pixel this shifts the packed bits up by the sub-byte
    /// offset; for a float pixel it packs the byte projection of each
    /// component, first component highest.
    pub fn raw_u32(&self) -> (r: u32)
        ensures
            r == spec_raw_u32(*self),
    {
        match self.value {
            Value::NonFloat { data, index } => {
                if index < 32 {
                    data << (index as u32)
                } else {
                    0
                }
            },
            Value::Float { .. } => {
                let comps = self.components_float_bits();
                proof {
                    lemma_components_len(*self);
                    lemma2_to64();
                    assert(comps@.take(0) =~= Seq::<u32>::empty());
                }
                let mut acc: u32 = 0;
                let mut i: usize = 0;
                while i < comps.len()
                    invariant
                        i <= comps@.len() <= 4,
                        comps@ == spec_components(*self),
                        acc == spec_raw_float(comps@.take(i as int)),
                        acc < pow2((8 * i) as nat),
                    decreases comps@.len() - i,
                {
                    proof {
                        lemma2_to64();
                        lemma_pow2_adds((8 * i) as nat, 8);
                        assert(comps@.take(i + 1).drop_last() =~= comps@.take(i as int));
                        lemma_pow2_le((8 * i + 8) as nat, 32);
                    }
                    acc = acc * 0x100 + (bits_to_byte(comps[i]) as u32);
                    i = i + 1;
                }
                proof {
                    assert(comps@.take(comps@.len() as int) =~= comps@);
                }
                acc
            },
        }
    }
}

/// The float components number at most four.
pub proof fn lemma_components_len(p: Pixel)
    ensures
        spec_components(p).len() <= 4,
{
    if !p.spec_is_float() {
        lemma_format_items_bounds(p.spec_format());
    }
}

/// The packed bytes of a sequence of float components, first component
/// highest; always below 2^(8 n) for n components.
pub open spec fn spec_raw_float(comps: Seq<u32>) -> nat
    decreases comps.len(),
{
    if comps.len() == 0 {
        0
    } else {
        (spec_raw_float(comps.drop_last()) * 0x100 + byte_of_bits(comps.last())) as nat
    }
}

/// The raw `u32` representation of a pixel.
pub open spec fn spec_raw_u32(p: Pixel) -> u32 {
    if p.spec_is_float() {
        spec_raw_float(spec_components(p)) as u32
    } else if p.spec_index() < 32 {
        p.spec_data() << (p.spec_index() as u32)
    } else {
        0
    }
}

/// Byte `i` of a 32-bit word laid out in the given byte order.
pub open spec fn spec_u32_byte(e: Endianness, d: u32, i: int) -> u8 {
    let j = if e == Endianness::Little {
        i
    } else {
        3 - i
    };
    if j == 0 {
        (d % 0x100) as u8
    } else if j == 1 {
        ((d / 0x100) % 0x100) as u8
    } else if j == 2 {
        ((d / 0x1_0000) % 0x100) as u8
    } else {
        ((d / 0x100_0000) % 0x100) as u8
    }
}

/// Byte `i` of a 16-bit word laid out in the given byte order.
pub open spec fn spec_u16_byte(e: Endianness, d: u16, i: int) -> u8 {
    let j = if e == Endianness::Little {
        i
    } else {
        1 - i
    };
    if j == 0 {
        (d % 0x100) as u8
    } else {
        ((d / 0x100) % 0x100) as u8
    }
}

/// The bytes of a 32-bit word in the given byte order.
fn u32_bytes(e: Endianness, d: u32) -> (r: [u8; 4])
    ensures
        forall|i: int| 0 <= i < 4 ==> r@[i] == spec_u32_byte(e, d, i),
{
    match e {
        Endianness::Little => [
            (d % 0x100) as u8,
            ((d / 0x100) % 0x100) as u8,
            ((d / 0x1_0000) % 0x100) as u8,
            ((d / 0x100_0000) % 0x100) as u8,
        ],
        Endianness::Big => [
            ((d / 0x100_0000) % 0x100) as u8,
            ((d / 0x1_0000) % 0x100) as u8,
            ((d / 0x100) % 0x100) as u8,
            (d % 0x100) as u8,
        ],
    }
}

/// The bytes of a 16-bit word in the given byte order.
fn u16_bytes(e: Endianness, d: u16) -> (r: [u8; 2])
    ensures
        forall|i: int| 0 <= i < 2 ==> r@[i] == spec_u16_byte(e, d, i),
{
    match e {
        Endianness::Little => [(d % 0x100) as u8, ((d / 0x100) % 0x100) as u8],
        Endianness::Big => [((d / 0x100) % 0x100) as u8, (d % 0x100) as u8],
    }
}

/// The bytes a non-float pixel's quantum occupies, in the given byte
/// order: one byte as is, two as a 16-bit word, three or four as the
/// leading bytes of a 32-bit word.
pub open spec fn spec_raw_bytes(e: Endianness, f: Format, data: u32) -> Seq<u8> {
    if f.spec_bytes() == 1 {
        seq![data as u8]
    } else if f.spec_bytes() == 2 {
        seq![spec_u16_byte(e, data as u16, 0), spec_u16_byte(e, data as u16, 1)]
    } else {
        Seq::new(f.spec_bytes() as nat, |i: int| spec_u32_byte(e, data, i))
    }
}

/// The bytes a pixel writes when inserted into byte-aligned storage: a
/// non-float pixel's quantum, or each float slot in turn, each in the
/// pixel's byte order.
pub open spec fn spec_pixel_bytes(p: Pixel) -> Seq<u8> {
    if p.spec_is_float() {
        Seq::new(
            p.spec_format().spec_bytes() as nat,
            |i: int| spec_u32_byte(p.spec_endianness(), p.spec_float_slots()[i / 4], i % 4),
        )
    } else {
        spec_raw_bytes(p.spec_endianness(), p.spec_format(), p.spec_data())
    }
}

/// The mask of the bits a sub-byte pixel occupies within its byte.
pub open spec fn spec_submask(p: Pixel) -> u8 {
    (spec_mask32(p.spec_format().spec_bpp()) as u8) << p.spec_index()
}

/// A value merged into a carrier byte under a mask: the value's bits
/// replace the masked range and every other bit of the carrier stays.
pub open spec fn spec_merge_subbyte(carrier: u8, data: u8, mask: u8) -> u8 {
    (carrier & !mask) | (data & mask)
}

/// A sub-byte pixel merged into a carrier byte: the pixel's bits replace
/// the masked range and every other bit of the carrier is preserved.
pub open spec fn spec_insert_subbyte(b0: u8, p: Pixel) -> u8 {
    spec_merge_subbyte(b0, p.spec_data() as u8, spec_submask(p))
}

impl Pixel {
    /// The bytes this pixel writes into byte-aligned storage.
    pub fn pixel_bytes(&self) -> (r: Vec<u8>)
        requires
            self.spec_wf(),
        ensures
            r@ == spec_pixel_bytes(*self),
            r@.len() == self.spec_format().spec_bytes(),
    {
        let cnt = self.format.bytes() as usize;
        let mut r: Vec<u8> = Vec::new();
        match self.value {
            Value::NonFloat { data, .. } => {
                if cnt == 1 {
                    r.push(data as u8);
                } else if cnt == 2 {
                    let w = u16_bytes(self.endianness, data as u16);
                    r.push(w[0]);
                    r.push(w[1]);
                } else {
                    let w = u32_bytes(self.endianness, data);
                    let mut i: usize = 0;
                    while i < cnt
                        invariant
                            i <= cnt <= 4,
                            r@.len() == i,
                            forall|k: int|
                                0 <= k < 4 ==> w@[k] == spec_u32_byte(self.spec_endianness(), data, k),
                            forall|k: int|
                                0 <= k < i ==> r@[k] == spec_u32_byte(self.spec_endianness(), data, k),
                        decreases cnt - i,
                    {
                        r.push(w[i]);
                        i = i + 1;
                    }
                }
                proof {
                    assert(r@ =~= spec_pixel_bytes(*self));
                }
            },
            Value::Float { slots } => {
                let mut i: usize = 0;
                proof {
                    lemma2_to64();
                }
                while i < cnt
                    invariant
                        i <= cnt <= 16,
                        cnt == self.spec_format().spec_bytes(),
                        cnt % 4 == 0,
                        self.value == (Value::Float { slots }),
                        r@.len() == i,
                        forall|k: int|
                            0 <= k < i ==> r@[k] == spec_u32_byte(
                                self.spec_endianness(),
                                slots@[k / 4],
                                k % 4,
                            ),
                    decreases cnt - i,
                {
                    let w = u32_bytes(self.endianness, slots[i / 4]);
                    r.push(w[i % 4]);
                    i = i + 1;
                }
                proof {
                    assert(r@ =~= spec_pixel_bytes(*self));
                }
            },
        }
        r
    }

    /// Insert this `Pixel` into the corresponding bytes.
    ///
    /// Assumes that the bytes and this pixel are of the same format. For a
    /// sub-byte pixel this is a read-modify-write of the first byte that
    /// preserves the bits belonging to other pixels packed into it; for a
    /// byte-aligned pixel it writes the pixel's quantum in the pixel's
    /// byte order and leaves the rest of the slice unchanged.
    pub fn insert(&self, bytes: &mut [u8])
        requires
            self.spec_wf(),
            old(bytes)@.len() >= self.spec_format().spec_bytes(),
        ensures
            final(bytes)@.len() == old(bytes)@.len(),
            !self.spec_is_float() && self.spec_format().spec_bpp() < 8 ==> {
                &&& final(bytes)@[0] == spec_insert_subbyte(old(bytes)@[0], *self)
                &&& forall|i: int| 1 <= i < old(bytes)@.len() ==> final(bytes)@[i] == old(
                    bytes,
                )@[i]
            },
            self.spec_is_float() || self.spec_format().spec_bpp() >= 8 ==> {
                &&& forall|i: int|
                    0 <= i < self.spec_format().spec_bytes() ==> final(bytes)@[i]
                        == spec_pixel_bytes(*self)[i]
                &&& forall|i: int|
                    self.spec_format().spec_bytes() <= i < old(bytes)@.len() ==> final(bytes)@[i]
                        == old(bytes)@[i]
            },
    {
        let is_sub = match self.value {
            Value::NonFloat { .. } => self.format.subbyte(),
            Value::Float { .. } => false,
        };
        if is_sub {
            // read-modify-write, keeping the neighbors' bits
            let data = match self.value {
                Value::NonFloat { data, .. } => data,
                Value::Float { .. } => 0,
            };
            let index = match self.value {
                Value::NonFloat { index, .. } => index,
                Value::Float { .. } => 0,
            };
            proof {
                lemma2_to64();
                lemma_pow2_le(self.spec_format().spec_bpp() as nat, 7);
            }
            let mask = (low_bit_mask(self.format.bpp()) as u8) << index;
            let masked = (data as u8) & mask;
            let carrier = bytes[0];
            bytes[0] = (carrier & !mask) | masked;
        } else {
            let pb = self.pixel_bytes();
            let cnt = self.format.bytes() as usize;
            let mut i: usize = 0;
            while i < cnt
                invariant
                    i <= cnt,
                    cnt == pb@.len(),
                    cnt <= bytes@.len(),
                    bytes@.len() == old(bytes)@.len(),
                    pb@ == spec_pixel_bytes(*self),
                    forall|k: int| 0 <= k < i ==> bytes@[k] == pb@[k],
                    forall|k: int| i <= k < bytes@.len() ==> bytes@[k] == old(bytes)@[k],
                decreases cnt - i,
            {
                bytes[i] = pb[i];
                i = i + 1;
            }
        }
    }
}

/// What filling a row leaves behind, by the pixel's width: whole-byte
/// patterns (1, 4 and 8 bits per pixel) fill every byte of the row; 16-bit
/// and 32-bit pixels replicate the raw word in the pixel's byte order; any
/// other width replicates the pixel's bytes a whole quantum at a time. A
/// trailing partial quantum is untouched, and the count of written bytes
/// is returned.
pub open spec fn spec_fill_row_post(p: Pixel, prev: Seq<u8>, cur: Seq<u8>, r: int) -> bool {
    let bpp = p.spec_format().spec_bpp();
    let e = p.spec_endianness();
    let len = prev.len() as int;
    &&& bpp == 1 ==> r == len && (forall|i: int|
        0 <= i < len ==> cur[i] == (if spec_raw_u32(p) == 0 {
            0u8
        } else {
            0xffu8
        }))
    &&& bpp == 4 ==> r == len && (forall|i: int| 0 <= i < len ==> cur[i] == spec_nibble_pattern(p))
    &&& bpp == 8 ==> r == len && (forall|i: int| 0 <= i < len ==> cur[i] == spec_raw_u32(p) as u8)
    &&& bpp == 16 ==> r == 2 * (len / 2) && (forall|i: int|
        0 <= i < r ==> cur[i] == spec_u16_byte(e, spec_raw_u32(p) as u16, i % 2)) && (forall|i: int|
        r <= i < len ==> cur[i] == prev[i])
    &&& bpp == 32 ==> r == 4 * (len / 4) && (forall|i: int|
        0 <= i < r ==> cur[i] == spec_u32_byte(e, spec_raw_u32(p), i % 4)) && (forall|i: int|
        r <= i < len ==> cur[i] == prev[i])
    &&& (bpp == 24 || bpp == 96 || bpp == 128) ==> r == (bpp as int / 8) * (len / (bpp as int / 8))
        && (forall|i: int| 0 <= i < r ==> cur[i] == spec_pixel_bytes(p)[i % (bpp as int / 8)]) && (
    forall|i: int| r <= i < len ==> cur[i] == prev[i])
}

/// The byte that a 4-bit pixel replicates into both nibbles of a fill.
pub open spec fn spec_nibble_pattern(p: Pixel) -> u8 {
    let r8 = spec_raw_u32(p) as u8;
    (r8 << 4u8) | r8
}

/// Fill a whole byte slice with one byte.
fn fill_all(bytes: &mut [u8], b: u8)
    ensures
        final(bytes)@.len() == old(bytes)@.len(),
        forall|i: int| 0 <= i < final(bytes)@.len() ==> final(bytes)@[i] == b,
{
    let mut i: usize = 0;
    while i < bytes.len()
        invariant
            i <= bytes@.len(),
            bytes@.len() == old(bytes)@.len(),
            forall|k: int| 0 <= k < i ==> bytes@[k] == b,
        decreases bytes@.len() - i,
    {
        bytes[i] = b;
        i = i + 1;
    }
}

impl Pixel {
    /// Fill a row of bytes with this pixel, returning the number of bytes
    /// written.
    ///
    /// Whole-byte patterns (1, 4 and 8 bits per pixel) fill every byte;
    /// wider formats are replicated a whole quantum at a time, leaving a
    /// trailing partial quantum untouched.
    pub fn fill_row(&self, bytes: &mut [u8]) -> (r: usize)
        requires
            self.spec_wf(),
        ensures
            final(bytes)@.len() == old(bytes)@.len(),
            spec_fill_row_post(*self, old(bytes)@, final(bytes)@, r as int),
    {
        let bpp = self.format.bpp();
        if bpp == 1 {
            // only one bit per pixel
            let raw = self.raw_u32();
            let b: u8 = if raw == 0 {
                0
            } else {
                0xff
            };
            fill_all(bytes, b);
            bytes.len()
        } else if bpp == 4 {
            // it's a nibble, replicated into both halves of each byte
            let raw_u8 = self.raw_u32() as u8;
            let b: u8 = (raw_u8 << 4u8) | raw_u8;
            fill_all(bytes, b);
            bytes.len()
        } else if bpp == 8 {
            // it's a byte
            let b = self.raw_u32() as u8;
            fill_all(bytes, b);
            bytes.len()
        } else if bpp == 16 {
            // it's a word
            let wb = u16_bytes(self.endianness, self.raw_u32() as u16);
            let pairs = bytes.len() / 2;
            proof {
                vstd::arithmetic::div_mod::lemma_fundamental_div_mod(bytes@.len() as int, 2);
                vstd::arithmetic::div_mod::lemma_mod_bound(bytes@.len() as int, 2);
            }
            let mut j: usize = 0;
            let mut base: usize = 0;
            while j < pairs
                invariant
                    j <= pairs,
                    base == 2 * j,
                    pairs == bytes@.len() as int / 2,
                    2 * pairs <= bytes@.len(),
                    bytes@.len() == old(bytes)@.len(),
                    forall|k: int|
                        0 <= k < 2 ==> wb@[k] == spec_u16_byte(
                            self.spec_endianness(),
                            spec_raw_u32(*self) as u16,
                            k,
                        ),
                    forall|i: int|
                        0 <= i < base ==> bytes@[i] == spec_u16_byte(
                            self.spec_endianness(),
                            spec_raw_u32(*self) as u16,
                            i % 2,
                        ),
                    forall|i: int| base <= i < bytes@.len() ==> bytes@[i] == old(bytes)@[i],
                decreases pairs - j,
            {
                bytes[base] = wb[0];
                bytes[base + 1] = wb[1];
                base = base + 2;
                j = j + 1;
            }
            pairs * 2
        } else if bpp == 32 {
            // it's a double word
            let wb = u32_bytes(self.endianness, self.raw_u32());
            let quads = bytes.len() / 4;
            proof {
                vstd::arithmetic::div_mod::lemma_fundamental_div_mod(bytes@.len() as int, 4);
                vstd::arithmetic::div_mod::lemma_mod_bound(bytes@.len() as int, 4);
            }
            let mut j: usize = 0;
            let mut base: usize = 0;
            while j < quads
                invariant
                    j <= quads,
                    base == 4 * j,
                    quads == bytes@.len() as int / 4,
                    4 * quads <= bytes@.len(),
                    bytes@.len() == old(bytes)@.len(),
                    forall|k: int|
                        0 <= k < 4 ==> wb@[k] == spec_u32_byte(
                            self.spec_endianness(),
                            spec_raw_u32(*self),
                            k,
                        ),
                    forall|i: int|
                        0 <= i < base ==> bytes@[i] == spec_u32_byte(
                            self.spec_endianness(),
                            spec_raw_u32(*self),
                            i % 4,
                        ),
                    forall|i: int| base <= i < bytes@.len() ==> bytes@[i] == old(bytes)@[i],
                decreases quads - j,
            {
                bytes[base] = wb[0];
                bytes[base + 1] = wb[1];
                bytes[base + 2] = wb[2];
                bytes[base + 3] = wb[3];
                base = base + 4;
                j = j + 1;
            }
            quads * 4
        } else {
            // just write the pixel's bytes a whole quantum at a time
            let pb = self.pixel_bytes();
            let bc = (bpp / 8) as usize;
            let chunks = bytes.len() / bc;
            proof {
                vstd::arithmetic::div_mod::lemma_fundamental_div_mod(
                    bytes@.len() as int,
                    bc as int,
                );
                vstd::arithmetic::div_mod::lemma_mod_bound(bytes@.len() as int, bc as int);
                vstd::arithmetic::mul::lemma_mul_is_commutative(chunks as int, bc as int);
            }
            let row_end = chunks * bc;
            let mut j: usize = 0;
            let mut base: usize = 0;
            while j < chunks
                invariant
                    j <= chunks,
                    3 <= bc <= 16,
                    bc == pb@.len(),
                    pb@ == spec_pixel_bytes(*self),
                    base == bc * j,
                    row_end == bc * chunks,
                    row_end <= bytes@.len(),
                    bytes@.len() == old(bytes)@.len(),
                    forall|i: int| 0 <= i < base ==> bytes@[i] == pb@[i % bc as int],
                    forall|i: int| base <= i < bytes@.len() ==> bytes@[i] == old(bytes)@[i],
                decreases chunks - j,
            {
                proof {
                    vstd::arithmetic::mul::lemma_mul_inequality(
                        j as int + 1,
                        chunks as int,
                        bc as int,
                    );
                    vstd::arithmetic::mul::lemma_mul_is_distributive_add(bc as int, j as int, 1);
                    vstd::arithmetic::mul::lemma_mul_is_commutative(j as int + 1, bc as int);
                    assert(base + bc <= row_end);
                }
                let mut k: usize = 0;
                while k < bc
                    invariant
                        k <= bc,
                        bc == pb@.len(),
                        base + bc <= row_end,
                        row_end <= bytes@.len(),
                        bytes@.len() == old(bytes)@.len(),
                        forall|i: int| 0 <= i < base ==> bytes@[i] == pb@[i % bc as int],
                        forall|t: int| 0 <= t < k ==> bytes@[base + t] == pb@[t],
                        forall|i: int| base + k <= i < bytes@.len() ==> bytes@[i] == old(bytes)@[i],
                    decreases bc - k,
                {
                    bytes[base + k] = pb[k];
                    k = k + 1;
                }
                proof {
                    assert forall|i: int| base <= i < base + bc implies bytes@[i] == pb@[i % (
                    bc as int)] by {
                        vstd::arithmetic::div_mod::lemma_fundamental_div_mod_converse_mod(
                            i,
                            bc as int,
                            j as int,
                            i - base,
                        );
                        assert(i == j as int * bc as int + (i - base));
                    }
                }
                base = base + bc;
                j = j + 1;
            }
            proof {
                vstd::arithmetic::mul::lemma_mul_is_commutative(
                    self.spec_format().spec_bpp() as int / 8,
                    old(bytes)@.len() as int / (self.spec_format().spec_bpp() as int / 8),
                );
            }
            row_end
        }
    }
}

/// The comparison keys of a pixel's float components.
pub open spec fn spec_keys(p: Pixel) -> Seq<int> {
    spec_components(p).map_values(|b: u32| crate::float_bits::f32_key(b))
}

/// Two pixels are equal exactly when their float components are equal as
/// the floats they denote: NaN components equal each other, the two zeros
/// are equal, and everything else compares by value.
pub open spec fn pixel_eq(p1: Pixel, p2: Pixel) -> bool {
    spec_keys(p1) == spec_keys(p2)
}

/// The lexicographic order on two key sequences: an exhausted sequence
/// orders before a longer one.
pub open spec fn lex_cmp(s1: Seq<int>, s2: Seq<int>) -> core::cmp::Ordering
    decreases s1.len(),
{
    if s1.len() == 0 && s2.len() == 0 {
        core::cmp::Ordering::Equal
    } else if s1.len() == 0 {
        core::cmp::Ordering::Less
    } else if s2.len() == 0 {
        core::cmp::Ordering::Greater
    } else if s1[0] < s2[0] {
        core::cmp::Ordering::Less
    } else if s1[0] > s2[0] {
        core::cmp::Ordering::Greater
    } else {
        lex_cmp(s1.skip(1), s2.skip(1))
    }
}

impl vstd::std_specs::cmp::PartialEqSpecImpl for Pixel {
    open spec fn obeys_eq_spec() -> bool {
        true
    }

    open spec fn eq_spec(&self, other: &Pixel) -> bool {
        pixel_eq(*self, *other)
    }
}

impl PartialEq for Pixel {
    /// Two pixels are equal when their float components are, with a fast
    /// path: two raw pixels of one format with the same packed bits and
    /// offset have the same channels, so they are equal outright.
    fn eq(&self, other: &Self) -> (r: bool) {
        match (self.value, other.value) {
            (
                Value::NonFloat { data: data1, index: index1 },
                Value::NonFloat { data: data2, index: index2 },
            ) => {
                if self.format == other.format && data1 == data2 && index1 == index2 {
                    proof {
                        assert(spec_components(*self) =~= spec_components(*other));
                    }
                    return true;
                }
            },
            _ => {},
        }

        let c1 = self.components_float_bits();
        let c2 = other.components_float_bits();
        if c1.len() != c2.len() {
            proof {
                assert(spec_keys(*self).len() == spec_components(*self).len());
                assert(spec_keys(*other).len() == spec_components(*other).len());
            }
            return false;
        }
        let mut i: usize = 0;
        while i < c1.len()
            invariant
                i <= c1@.len() == c2@.len(),
                c1@ == spec_components(*self),
                c2@ == spec_components(*other),
                forall|k: int|
                    0 <= k < i ==> crate::float_bits::f32_key(c1@[k]) == crate::float_bits::f32_key(
                        c2@[k],
                    ),
            decreases c1@.len() - i,
        {
            match crate::float_bits::cmp_bits(c1[i], c2[i]) {
                core::cmp::Ordering::Equal => {},
                _ => {
                    proof {
                        assert(spec_keys(*self)[i as int] != spec_keys(*other)[i as int]);
                    }
                    return false;
                },
            }
            i = i + 1;
        }
        proof {
            assert(spec_keys(*self) =~= spec_keys(*other));
        }
        true
    }
}

impl Eq for Pixel {

}

impl vstd::std_specs::cmp::PartialOrdSpecImpl for Pixel {
    open spec fn obeys_partial_cmp_spec() -> bool {
        true
    }

    open spec fn partial_cmp_spec(&self, other: &Pixel) -> Option<core::cmp::Ordering> {
        Some(lex_cmp(spec_keys(*self), spec_keys(*other)))
    }
}

impl PartialOrd for Pixel {
    /// Pixels order lexicographically by their float components, in the
    /// NaN-safe total order of the components.
    fn partial_cmp(&self, other: &Self) -> (r: Option<core::cmp::Ordering>) {
        let c1 = self.components_float_bits();
        let c2 = other.components_float_bits();
        let n = if c1.len() <= c2.len() {
            c1.len()
        } else {
            c2.len()
        };
        let ghost k1 = spec_keys(*self);
        let ghost k2 = spec_keys(*other);
        proof {
            assert(k1.skip(0) =~= k1);
            assert(k2.skip(0) =~= k2);
        }
        let mut i: usize = 0;
        while i < n
            invariant
                i <= n,
                n == (if c1@.len() <= c2@.len() {
                    c1@.len() as int
                } else {
                    c2@.len() as int
                }),
                c1@ == spec_components(*self),
                c2@ == spec_components(*other),
                k1 == spec_keys(*self),
                k2 == spec_keys(*other),
                lex_cmp(k1, k2) == lex_cmp(k1.skip(i as int), k2.skip(i as int)),
            decreases n - i,
        {
            let ghost s1 = k1.skip(i as int);
            let ghost s2 = k2.skip(i as int);
            match crate::float_bits::cmp_bits(c1[i], c2[i]) {
                core::cmp::Ordering::Equal => {
                    proof {
                        assert(s1.skip(1) =~= k1.skip(i + 1));
                        assert(s2.skip(1) =~= k2.skip(i + 1));
                    }
                },
                core::cmp::Ordering::Less => {
                    return Some(core::cmp::Ordering::Less);
                },
                core::cmp::Ordering::Greater => {
                    return Some(core::cmp::Ordering::Greater);
                },
            }
            i = i + 1;
        }
        proof {
            if c1@.len() == c2@.len() {
                assert(k1.skip(n as int) =~= Seq::<int>::empty());
                assert(k2.skip(n as int) =~= Seq::<int>::empty());
            } else if c1@.len() < c2@.len() {
                assert(k1.skip(n as int) =~= Seq::<int>::empty());
            } else {
                assert(k2.skip(n as int) =~= Seq::<int>::empty());
            }
        }
        if c1.len() == c2.len() {
            Some(core::cmp::Ordering::Equal)
        } else if c1.len() < c2.len() {
            Some(core::cmp::Ordering::Less)
        } else {
            Some(core::cmp::Ordering::Greater)
        }
    }
}

/// The values of the channels of a packed pixel, one byte per present
/// channel, in channel order.
pub fn iter_channels(data: u32, index: u8, format: Format) -> (r: Vec<u8>)
    ensures
        r@.len() == format_items(format).len(),
        forall|i: int|
            0 <= i < r@.len() ==> r@[i] == spec_extract(data, index, #[trigger] format_items(
                format,
            )[i]),
{
    let mut it = format.channels();
    let mut r: Vec<u8> = Vec::new();
    loop
        invariant
            it.spec_wf(),
            it.spec_format() == format,
            r@.len() <= format_items(format).len(),
            it.spec_remaining() == format_items(format).skip(r@.len() as int),
            forall|i: int|
                0 <= i < r@.len() ==> r@[i] == spec_extract(data, index, #[trigger] format_items(
                    format,
                )[i]),
        decreases it.spec_remaining().len(),
    {
        let ghost done = r@.len() as int;
        match it.next() {
            Some(info) => {
                proof {
                    assert(info == format_items(format)[done]);
                    assert(format_items(format).skip(done).skip(1) =~= format_items(format).skip(
                        done + 1,
                    ));
                }
                r.push(extract_channel(data, index, info));
            },
            None => {
                proof {
                    assert(format_items(format).skip(done).len() == 0);
                    assert(r@.len() == format_items(format).len());
                }
                return r;
            },
        }
    }
}

} // verus!
