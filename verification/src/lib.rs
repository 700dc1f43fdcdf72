//! A verified pixel-format codec.
//!
//! A [`Format`] describes how a pixel is bit-packed: the total bits per
//! pixel, the order of the color channels, and the bit width of each
//! channel. A [`Pixel`] carries the packed bits of one pixel together with
//! its format and byte order, and can decode raw bytes into logical channel
//! values, re-encode channel values into a pixel of any other format, and
//! write itself back into a byte buffer.

use vstd::prelude::*;

mod channel_iter;
mod color;
mod float_bits;
mod format;
mod laws;
mod pixel;

pub use channel_iter::ChannelIter;
pub use color::Rgba;
pub use format::{Channel, ChannelInfo, ColorType, Format};
pub use pixel::{iter_channels, ChannelValue, Pixel};

verus! {

/// The byte order used when a pixel's packed bits are wider than one byte.
#[derive(Debug, Copy, Clone, PartialEq, Eq, Hash, Structural)]
pub enum Endianness {
    /// Little endian: the least significant byte comes first.
    Little,
    /// Big endian: the most significant byte comes first.
    Big,
}

/// The `u16` assembled from two bytes in the given byte order.
pub open spec fn spec_make_u16(e: Endianness, b0: u8, b1: u8) -> u16 {
    match e {
        Endianness::Little => (b0 + b1 * 0x100) as u16,
        Endianness::Big => (b1 + b0 * 0x100) as u16,
    }
}

/// The `u32` assembled from four bytes in the given byte order.
pub open spec fn spec_make_u32(e: Endianness, b0: u8, b1: u8, b2: u8, b3: u8) -> u32 {
    match e {
        Endianness::Little => (b0 + b1 * 0x100 + b2 * 0x1_0000 + b3 * 0x100_0000) as u32,
        Endianness::Big => (b3 + b2 * 0x100 + b1 * 0x1_0000 + b0 * 0x100_0000) as u32,
    }
}

/// Relies on `u32::from_ne_bytes`: it reads the four bytes in the
/// machine's own byte order, so the probe returns 1 on a little-endian
/// target and `1 << 24` on a big-endian one.
#[verifier::external_body]
fn native_order_probe() -> (r: u32)
    ensures
        r == 1 || r == 0x0100_0000,
{
    u32::from_ne_bytes([1, 0, 0, 0])
}

impl Endianness {
    /// Does this endianness match the native endianness?
    ///
    /// The answer depends on the machine alone. Nothing else in the codec
    /// consults it: decoding and inserting apply the pixel's own byte
    /// order explicitly.
    pub fn is_native(self) -> bool {
        let little = native_order_probe() == 1;
        match self {
            Endianness::Little => little,
            Endianness::Big => !little,
        }
    }

    /// Create a `u16` from bytes of this endianness.
    pub fn make_u16(self, bytes: [u8; 2]) -> (r: u16)
        ensures
            r == spec_make_u16(self, bytes[0], bytes[1]),
    {
        match self {
            Endianness::Little => (bytes[0] as u16) + (bytes[1] as u16) * 0x100,
            Endianness::Big => (bytes[1] as u16) + (bytes[0] as u16) * 0x100,
        }
    }

    /// Create a `u32` from bytes of this endianness.
    pub fn make_u32(self, bytes: [u8; 4]) -> (r: u32)
        ensures
            r == spec_make_u32(self, bytes[0], bytes[1], bytes[2], bytes[3]),
    {
        match self {
            Endianness::Little => {
                (bytes[0] as u32) + (bytes[1] as u32) * 0x100 + (bytes[2] as u32) * 0x1_0000
                    + (bytes[3] as u32) * 0x100_0000
            },
            Endianness::Big => {
                (bytes[3] as u32) + (bytes[2] as u32) * 0x100 + (bytes[1] as u32) * 0x1_0000
                    + (bytes[0] as u32) * 0x100_0000
            },
        }
    }
}

} // verus!

