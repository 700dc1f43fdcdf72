use core::hash::Hasher;

use genimage::{Channel, ChannelValue, Endianness, Format, Pixel, Rgba};

/// Ready-bake pixels for use in testing.
fn test_pixels() -> Vec<Pixel> {
    vec![
        Pixel::from_bytes([255, 255, 255, 255], 0, Endianness::Little, Format::argb32()),
        Pixel::from_float_bytes(
            bytemuck::cast([1.0f32, 1.0, 1.0, 1.0]),
            Endianness::Little,
            Format::argb_f32(),
        ),
        Pixel::from_bytes([255, 255, 255, 0], 0, Endianness::Little, Format::argb32()),
        Pixel::from_bytes([255, 255, 255, 0], 0, Endianness::Little, Format::rgb24()),
    ]
}

fn hash_pixel(pixel: Pixel) -> u64 {
    let mut hasher = ahash::AHasher::new_with_keys(69, 420);
    for bits in pixel.components_float_bits() {
        hasher.write_u32(bits);
    }
    hasher.finish()
}

#[test]
fn partial_eq_implies_hash_eq() {
    let make_comparison = |px1: Pixel, px2: Pixel| {
        if hash_pixel(px1) == hash_pixel(px2) {
            assert_eq!(px1, px2);
        } else {
            assert_ne!(px1, px2);
        }
    };

    for left in test_pixels() {
        for right in test_pixels() {
            make_comparison(left, right);
        }
    }
}

#[test]
fn equality_across_representations() {
    // a packed all-white pixel equals a float all-ones pixel, and they
    // hash alike; dropping the alpha makes them unequal
    let white = Pixel::from_bytes([255, 255, 255, 255], 0, Endianness::Little, Format::argb32());
    let ones = Pixel::from_float_bytes(
        bytemuck::cast([1.0f32, 1.0, 1.0, 1.0]),
        Endianness::Little,
        Format::argb_f32(),
    );
    let transparent =
        Pixel::from_bytes([255, 255, 255, 0], 0, Endianness::Little, Format::argb32());
    assert_eq!(white, ones);
    assert_eq!(white.components_float_bits(), ones.components_float_bits());
    assert_ne!(white, transparent);
    assert_ne!(
        white.components_float_bits(),
        transparent.components_float_bits()
    );
}

#[test]
fn decode_extracts_channels() {
    // little endian: data is 0x11223344; ARGB assigns alpha the low bits
    let px = Pixel::from_bytes([0x44, 0x33, 0x22, 0x11], 0, Endianness::Little, Format::argb32());
    let info = px.channel_info();
    assert_eq!(info.len(), 4);
    assert_eq!(info[0].channel_type(), Channel::Alpha);
    assert_eq!(info[0].value(), 0x44);
    assert_eq!(info[1].channel_type(), Channel::Red);
    assert_eq!(info[1].value(), 0x33);
    assert_eq!(info[2].channel_type(), Channel::Green);
    assert_eq!(info[2].value(), 0x22);
    assert_eq!(info[3].channel_type(), Channel::Blue);
    assert_eq!(info[3].value(), 0x11);
    assert_eq!(px.raw_u32(), 0x11223344);
}

#[test]
fn decode_extracts_nibbles() {
    // ARGB16: four 4-bit channels
    let px = Pixel::from_bytes([0xCD, 0xAB, 0, 0], 0, Endianness::Little, Format::argb16());
    let values: Vec<u8> = px.channel_info().iter().map(|cv| cv.value()).collect();
    assert_eq!(values, vec![0xD, 0xC, 0xB, 0xA]);
}

#[test]
fn round_trip_byte_aligned() {
    let bytes = [0x12u8, 0x34, 0x56, 0x78];
    let cases = [
        (Format::argb32(), Endianness::Little),
        (Format::argb32(), Endianness::Big),
        (Format::rgb24(), Endianness::Little),
        (Format::rgb24(), Endianness::Big),
        (Format::argb16(), Endianness::Little),
        (Format::argb16(), Endianness::Big),
        (Format::a8(), Endianness::Little),
        (Format::a8(), Endianness::Big),
    ];
    for (format, endian) in cases {
        let px = Pixel::with_index(&bytes, 0, endian, format);
        let mut out = vec![0u8; format.bytes() as usize];
        px.insert(&mut out);
        assert_eq!(out[..], bytes[..format.bytes() as usize]);
    }
}

#[test]
fn round_trip_float() {
    let values = [0.25f32, 0.5, 0.75, 1.0];
    let bytes: [u8; 16] = bytemuck::cast(values);
    let px = Pixel::from_float_bytes(bytes, Endianness::Little, Format::argb_f32());
    let mut out = vec![0u8; 16];
    px.insert(&mut out);
    assert_eq!(out[..], bytes[..]);
}

#[test]
fn sub_byte_packing() {
    // a 1-bit pixel with value 1 at bit offset 3
    let px = Pixel::from_bytes([0b0000_1000, 0, 0, 0], 3, Endianness::Little, Format::a1());
    let mut empty = vec![0b0000_0000u8];
    px.insert(&mut empty);
    assert_eq!(empty[0], 0b0000_1000);

    // a neighboring bit must be preserved by the read-modify-write
    let mut neighbor = vec![0b0010_0000u8];
    px.insert(&mut neighbor);
    assert_eq!(neighbor[0], 0b0010_1000);
}

#[test]
fn sub_byte_nibble_packing() {
    // the high nibble of an A4 byte, written over a set low nibble
    let px = Pixel::from_bytes([0xA0, 0, 0, 0], 4, Endianness::Little, Format::a4());
    let mut byte = vec![0x07u8];
    px.insert(&mut byte);
    assert_eq!(byte[0], 0xA7);
}

#[test]
fn transcode_identity() {
    for px in test_pixels() {
        let same = px.into_new_format(px.endianness(), px.format());
        assert_eq!(same, px);
        // byte for byte: both write the same quantum
        let mut out1 = vec![0u8; px.format().bytes() as usize];
        let mut out2 = vec![0u8; px.format().bytes() as usize];
        px.insert(&mut out1);
        same.insert(&mut out2);
        assert_eq!(out1, out2);
    }
}

#[test]
fn transcode_drops_missing_channels() {
    let white = Pixel::from_bytes([255, 255, 255, 255], 0, Endianness::Little, Format::argb32());
    let rgb = white.into_new_format(Endianness::Little, Format::rgb24());
    let mut out = vec![0u8; 3];
    rgb.insert(&mut out);
    assert_eq!(out, vec![255, 255, 255]);
}

#[test]
fn transcode_through_float_and_back() {
    let original =
        Pixel::from_bytes([0x44, 0x33, 0x22, 0x11], 0, Endianness::Little, Format::argb32());
    let as_float = original.into_new_format(Endianness::Little, Format::argb_f32());
    let back = as_float.into_new_format(Endianness::Little, Format::argb32());
    assert_eq!(back.raw_u32(), 0x11223344);
    assert_eq!(original, back);
    assert_eq!(original, as_float);
}

#[test]
fn collect_channels_merges_and_drops() {
    let values = vec![
        ChannelValue::new(Channel::Red, 0x12),
        ChannelValue::new(Channel::Blue, 0x34),
    ];
    // ARGB32: red sits at shift 8, blue at shift 24; alpha and green unset
    let px = Pixel::collect_channels(Endianness::Little, Format::argb32(), &values);
    assert_eq!(px.raw_u32(), 0x3400_1200);

    // a channel the target lacks is dropped
    let a8 = Pixel::collect_channels(Endianness::Little, Format::a8(), &values);
    assert_eq!(a8.raw_u32(), 0);

    // values beyond the channel width are masked
    let narrow = vec![ChannelValue::new(Channel::Alpha, 0xFF)];
    let a4 = Pixel::collect_channels(Endianness::Little, Format::a4(), &narrow);
    assert_eq!(a4.raw_u32(), 0x0F);
}

#[test]
fn from_rgba_packs_high_bytes() {
    let color = Rgba { red: 0x1200, green: 0x3400, blue: 0x5600, alpha: 0x7800 };
    let px = Pixel::from_rgba(color, Format::argb32(), Endianness::Little);
    // ARGB32 shifts: alpha 0, red 8, green 16, blue 24
    assert_eq!(px.raw_u32(), 0x5634_1278);

    let values = color.channel_values();
    assert_eq!(values.len(), 4);
    assert_eq!(values[0].channel_type(), Channel::Alpha);
    assert_eq!(values[0].value(), 0x78);
    assert_eq!(values[3].channel_type(), Channel::Blue);
    assert_eq!(values[3].value(), 0x56);
}

#[test]
fn float_vs_integer_agreement() {
    assert_eq!(
        ChannelValue::new_with_float(Channel::Red, 1.0f32.to_bits()).value(),
        255
    );
    assert_eq!(
        ChannelValue::new_with_float(Channel::Red, 0.0f32.to_bits()).value(),
        0
    );
}

#[test]
fn float_projection_rounds() {
    let half = ChannelValue::new_with_float(Channel::Green, 0.5f32.to_bits());
    assert_eq!(half.value(), 128);
    assert_eq!(half.float_value(), 0.5f32.to_bits());

    let quarter = ChannelValue::new_with_float(Channel::Green, 0.25f32.to_bits());
    assert_eq!(quarter.value(), 64);

    // out-of-range and invalid inputs saturate
    assert_eq!(ChannelValue::new_with_float(Channel::Red, 2.0f32.to_bits()).value(), 255);
    assert_eq!(ChannelValue::new_with_float(Channel::Red, (-0.5f32).to_bits()).value(), 0);
    let nan = ChannelValue::new_with_float(Channel::Red, f32::NAN.to_bits());
    assert_eq!(nan.value(), 0);
    // a NaN keeps no float anchor, so the value falls back to 0/255
    assert_eq!(nan.float_value(), 0.0f32.to_bits());
}

#[test]
fn unit_conversion_matches_machine_floats() {
    // a packed channel value x becomes the float nearest to x / 255,
    // bit for bit, for every byte
    for x in 0u16..=255 {
        let px = Pixel::from_bytes([x as u8, 0, 0, 0], 0, Endianness::Little, Format::a8());
        let comps = px.components_float_bits();
        assert_eq!(comps.len(), 1);
        assert_eq!(comps[0], (x as f32 / 255.0).to_bits());
    }
}

#[test]
fn byte_projection_matches_machine_floats() {
    // scaling back to a byte inverts the unit conversion on every value
    for x in 0u16..=255 {
        let bits = (x as f32 / 255.0).to_bits();
        assert_eq!(ChannelValue::new_with_float(Channel::Red, bits).value(), x as u8);
    }
}

#[test]
fn fill_row_whole_bytes() {
    let a1_set = Pixel::from_bytes([1, 0, 0, 0], 0, Endianness::Little, Format::a1());
    let mut row = vec![0u8; 5];
    assert_eq!(a1_set.fill_row(&mut row), 5);
    assert_eq!(row, vec![0xFF; 5]);

    let a1_clear = Pixel::from_bytes([0, 0, 0, 0], 0, Endianness::Little, Format::a1());
    assert_eq!(a1_clear.fill_row(&mut row), 5);
    assert_eq!(row, vec![0x00; 5]);

    let a4 = Pixel::from_bytes([0x0A, 0, 0, 0], 0, Endianness::Little, Format::a4());
    assert_eq!(a4.fill_row(&mut row), 5);
    assert_eq!(row, vec![0xAA; 5]);

    let a8 = Pixel::from_bytes([0x5C, 0, 0, 0], 0, Endianness::Little, Format::a8());
    assert_eq!(a8.fill_row(&mut row), 5);
    assert_eq!(row, vec![0x5C; 5]);
}

#[test]
fn fill_row_words() {
    let word = Pixel::from_bytes([0x34, 0x12, 0, 0], 0, Endianness::Little, Format::argb16());
    let mut row = vec![0u8; 5];
    assert_eq!(word.fill_row(&mut row), 4);
    assert_eq!(row, vec![0x34, 0x12, 0x34, 0x12, 0x00]);

    let dword = Pixel::from_bytes([1, 2, 3, 4], 0, Endianness::Little, Format::argb32());
    let mut row = vec![0u8; 9];
    assert_eq!(dword.fill_row(&mut row), 8);
    assert_eq!(row, vec![1, 2, 3, 4, 1, 2, 3, 4, 0]);
}

#[test]
fn fill_row_chunks() {
    let rgb = Pixel::from_bytes([1, 2, 3, 0], 0, Endianness::Little, Format::rgb24());
    let mut row = vec![9u8; 7];
    assert_eq!(rgb.fill_row(&mut row), 6);
    assert_eq!(row, vec![1, 2, 3, 1, 2, 3, 9]);
}

#[test]
fn big_endian_insert_order() {
    let px = Pixel::from_bytes([0x12, 0x34, 0x56, 0x78], 0, Endianness::Big, Format::argb32());
    assert_eq!(px.raw_u32(), 0x12345678);
    let mut out = vec![0u8; 4];
    px.insert(&mut out);
    assert_eq!(out, vec![0x12, 0x34, 0x56, 0x78]);
}

#[test]
fn iter_channels_values() {
    let values = genimage::iter_channels(0x11223344, 0, Format::argb32());
    assert_eq!(values, vec![0x44, 0x33, 0x22, 0x11]);

    // the index shifts the data down before extraction
    let shifted = genimage::iter_channels(0b1000, 3, Format::a1());
    assert_eq!(shifted, vec![1]);
}

#[test]
fn pixels_order_by_components() {
    let dark = Pixel::from_bytes([0, 0, 0, 255], 0, Endianness::Little, Format::argb32());
    let light = Pixel::from_bytes([255, 255, 255, 255], 0, Endianness::Little, Format::argb32());
    assert!(dark < light);
    assert!(light > dark);
    assert_eq!(
        dark.partial_cmp(&dark.clone()),
        Some(core::cmp::Ordering::Equal)
    );
}

#[test]
fn bgr_channel_order() {
    let px = Pixel::from_bytes([1, 2, 3, 0], 0, Endianness::Little, Format::bgr24());
    let info = px.channel_info();
    assert_eq!(info.len(), 3);
    assert_eq!(info[0].channel_type(), Channel::Blue);
    assert_eq!(info[0].value(), 1);
    assert_eq!(info[1].channel_type(), Channel::Green);
    assert_eq!(info[1].value(), 2);
    assert_eq!(info[2].channel_type(), Channel::Red);
    assert_eq!(info[2].value(), 3);
}

#[test]
fn transcode_changes_byte_order() {
    let le = Pixel::from_bytes([1, 2, 3, 4], 0, Endianness::Little, Format::argb32());
    let be = le.into_new_format(Endianness::Big, le.format());
    // the channels survive the conversion, so the pixels are equal
    assert_eq!(le, be);
    // but the bytes they write follow their own byte orders
    let mut out_le = vec![0u8; 4];
    let mut out_be = vec![0u8; 4];
    le.insert(&mut out_le);
    be.insert(&mut out_be);
    assert_eq!(out_le, vec![1, 2, 3, 4]);
    assert_eq!(out_be, vec![4, 3, 2, 1]);
}
