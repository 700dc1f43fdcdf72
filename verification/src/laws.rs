//! Crate-wide laws of the codec.
//!
//! These proof functions state, once and for all inputs, what the
//! per-function contracts add up to: decoding raw bytes and inserting the
//! pixel back reproduces the bytes, and pixel equality coincides with
//! equality of the hashed component patterns.

use vstd::prelude::*;

use crate::float_bits::{f32_is_nan, f32_key, f32_mag, f32_sign, lemma_unit_bits_plain};
use crate::format::Format;
use crate::pixel::{
    pixel_eq, spec_components, spec_decode_raw, spec_keys, spec_mask32, spec_merge_subbyte,
    spec_raw_bytes, Pixel,
};
use crate::Endianness;

verus! {

/// Merging under a mask keeps the carrier's bits outside the mask and
/// takes the value's bits inside it.
proof fn lemma_merge_mask(carrier: u8, data: u8, mask: u8)
    by (bit_vector)
    ensures
        ((carrier & !mask) | (data & mask)) & mask == data & mask,
        ((carrier & !mask) | (data & mask)) & !mask == carrier & !mask,
{
}

/// A 16-bit word built from two bytes hands the bytes back.
proof fn lemma_u16_byte_decomp(b0: u8, b1: u8)
    ensures
        (b0 + b1 * 0x100) % 0x100 == b0,
        (b0 + b1 * 0x100) / 0x100 == b1,
{
    vstd::arithmetic::div_mod::lemma_fundamental_div_mod_converse(
        b0 + b1 * 0x100,
        0x100,
        b1 as int,
        b0 as int,
    );
}

/// A 32-bit word built from four bytes hands the bytes back.
proof fn lemma_u32_byte_decomp(b0: u8, b1: u8, b2: u8, b3: u8)
    ensures
        ({
            let d = b0 + b1 * 0x100 + b2 * 0x1_0000 + b3 * 0x100_0000;
            &&& d % 0x100 == b0
            &&& (d / 0x100) % 0x100 == b1
            &&& (d / 0x1_0000) % 0x100 == b2
            &&& (d / 0x100_0000) % 0x100 == b3
        }),
{
    let d = b0 + b1 * 0x100 + b2 * 0x1_0000 + b3 * 0x100_0000;
    vstd::arithmetic::div_mod::lemma_fundamental_div_mod_converse(
        d,
        0x100,
        b1 + b2 * 0x100 + b3 * 0x1_0000,
        b0 as int,
    );
    vstd::arithmetic::div_mod::lemma_fundamental_div_mod_converse(
        d / 0x100,
        0x100,
        b2 + b3 * 0x100,
        b1 as int,
    );
    vstd::arithmetic::div_mod::lemma_fundamental_div_mod_converse(
        (d / 0x100) / 0x100,
        0x100,
        b3 as int,
        b2 as int,
    );
    vstd::arithmetic::div_mod::lemma_fundamental_div_mod_converse(
        ((d / 0x100) / 0x100) / 0x100,
        0x100,
        0,
        b3 as int,
    );
    vstd::arithmetic::div_mod::lemma_div_denominator(d, 0x100, 0x100);
    vstd::arithmetic::div_mod::lemma_div_denominator(d, 0x1_0000, 0x100);
}

/// Whether merging the pixel decoded from `b0` into a carrier byte at the
/// given bit offset reproduces the pixel's bits there and preserves the
/// rest of the carrier.
pub open spec fn spec_subbyte_round_trip(
    e: Endianness,
    f: Format,
    b0: u8,
    carrier: u8,
    index: u8,
) -> bool {
    let mask = (spec_mask32(f.spec_bpp()) as u8) << index;
    let merged = spec_merge_subbyte(carrier, spec_decode_raw(e, f, b0, 0, 0, 0) as u8, mask);
    merged & mask == b0 & mask && merged & !mask == carrier & !mask
}

/// Round-trip identity: decoding raw bytes into a pixel and writing the
/// pixel back reproduces the bytes within the format's quantum, for every
/// non-float format and either byte order. For a byte-aligned format the
/// written quantum equals the input bytes; for a sub-byte format, merging
/// the decoded bits into any carrier byte reproduces the pixel's bits at
/// its offset and preserves every other bit of the carrier.
pub proof fn lemma_decode_insert_round_trip(
    e: Endianness,
    f: Format,
    b0: u8,
    b1: u8,
    b2: u8,
    b3: u8,
)
    requires
        f.spec_wf(),
        !f.spec_involves_float(),
        f.spec_bytes() <= 4,
    ensures
        f.spec_bpp() >= 8 ==> ({
            let out = spec_raw_bytes(e, f, spec_decode_raw(e, f, b0, b1, b2, b3));
            &&& out.len() == f.spec_bytes()
            &&& out[0] == b0
            &&& f.spec_bytes() >= 2 ==> out[1] == b1
            &&& f.spec_bytes() >= 3 ==> out[2] == b2
            &&& f.spec_bytes() >= 4 ==> out[3] == b3
        }),
        f.spec_bpp() < 8 ==> (forall|carrier: u8, index: u8|
            index < 8 ==> #[trigger] spec_subbyte_round_trip(e, f, b0, carrier, index)),
{
    let d = spec_decode_raw(e, f, b0, b1, b2, b3);
    if f.spec_bpp() < 8 {
        // sub-byte: the decoded data is the raw byte itself
        assert forall|carrier: u8, index: u8| index < 8 implies #[trigger] spec_subbyte_round_trip(
            e,
            f,
            b0,
            carrier,
            index,
        ) by {
            let mask = (spec_mask32(f.spec_bpp()) as u8) << index;
            lemma_merge_mask(carrier, b0, mask);
            assert(spec_decode_raw(e, f, b0, 0, 0, 0) as u8 == b0);
        }
    } else if f.spec_bytes() == 1 {
        assert(d == b0 as u32);
        assert(spec_raw_bytes(e, f, d) =~= seq![b0]);
    } else if f.spec_bytes() == 2 {
        match e {
            Endianness::Little => lemma_u16_byte_decomp(b0, b1),
            Endianness::Big => lemma_u16_byte_decomp(b1, b0),
        }
    } else {
        match e {
            Endianness::Little => lemma_u32_byte_decomp(b0, b1, b2, b3),
            Endianness::Big => lemma_u32_byte_decomp(b3, b2, b1, b0),
        }
    }
}

/// Equal keys come only from equal patterns, for patterns that are
/// neither NaN nor the negative zero.
proof fn lemma_key_injective(a: u32, b: u32)
    requires
        !f32_is_nan(a),
        !f32_is_nan(b),
        a != 0x8000_0000u32,
        b != 0x8000_0000u32,
    ensures
        (f32_key(a) == f32_key(b)) <==> (a == b),
{
    if f32_sign(a) {
        assert(f32_mag(a) == a - 0x8000_0000);
    }
    if f32_sign(b) {
        assert(f32_mag(b) == b - 0x8000_0000);
    }
    if f32_key(a) == f32_key(b) {
        if f32_sign(a) != f32_sign(b) {
            assert(f32_mag(a) == 0 && f32_mag(b) == 0);
        }
    }
}

/// The components of a non-float pixel are always plain patterns: never a
/// NaN and never the negative zero. So [`lemma_eq_matches_hash`] applies
/// to every pair of raw pixels outright.
pub proof fn lemma_raw_components_plain(p: Pixel)
    requires
        !p.spec_is_float(),
    ensures
        forall|i: int|
            0 <= i < spec_components(p).len() ==> !f32_is_nan(#[trigger] spec_components(p)[i])
                && spec_components(p)[i] != 0x8000_0000u32,
{
    assert forall|i: int| 0 <= i < spec_components(p).len() implies !f32_is_nan(
        #[trigger] spec_components(p)[i],
    ) && spec_components(p)[i] != 0x8000_0000u32 by {
        let items = crate::channel_iter::format_items(p.spec_format());
        let v = crate::pixel::spec_extract(p.spec_data(), p.spec_index(), items[i]);
        assert(spec_components(p)[i] == crate::float_bits::unit_bits(v));
        lemma_unit_bits_plain(v);
        assert(f32_sign(0x8000_0000u32));
    }
}

/// Equality and hashing agree: two pixels compare equal exactly when the
/// component patterns they hash are equal, provided no component is a NaN
/// pattern or the negative zero. (A NaN compares equal to a NaN of another
/// payload, and the two zeros compare equal, while their patterns differ:
/// on such components equality is coarser than hashing.)
pub proof fn lemma_eq_matches_hash(p1: Pixel, p2: Pixel)
    requires
        forall|i: int|
            0 <= i < spec_components(p1).len() ==> !f32_is_nan(#[trigger] spec_components(p1)[i])
                && spec_components(p1)[i] != 0x8000_0000u32,
        forall|i: int|
            0 <= i < spec_components(p2).len() ==> !f32_is_nan(#[trigger] spec_components(p2)[i])
                && spec_components(p2)[i] != 0x8000_0000u32,
    ensures
        pixel_eq(p1, p2) <==> spec_components(p1) == spec_components(p2),
{
    let c1 = spec_components(p1);
    let c2 = spec_components(p2);
    assert(spec_keys(p1).len() == c1.len());
    assert(spec_keys(p2).len() == c2.len());
    if pixel_eq(p1, p2) {
        assert forall|i: int| 0 <= i < c1.len() implies c1[i] == c2[i] by {
            assert(spec_keys(p1)[i] == spec_keys(p2)[i]);
            lemma_key_injective(c1[i], c2[i]);
        }
        assert(c1 =~= c2);
    }
    if c1 == c2 {
        assert(spec_keys(p1) =~= spec_keys(p2));
    }
}

} // verus!
