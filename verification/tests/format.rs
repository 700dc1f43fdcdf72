use genimage::{Channel, ChannelInfo, ColorType, Endianness, Format};

#[test]
fn format_smol() {
    // Format should be smaller than 32 bits and should be able
    // to be niched
    assert!(core::mem::size_of::<Format>() <= core::mem::size_of::<i32>());
    assert_eq!(
        core::mem::size_of::<Format>(),
        core::mem::size_of::<Option<Format>>()
    );
}

#[test]
fn bpp_rounding_table() {
    assert_eq!(Format::new(5, ColorType::Argb, 0, 8, 8, 8).bpp(), 8);
    assert_eq!(Format::new(0, ColorType::Alpha, 1, 0, 0, 0).bpp(), 1);
    assert_eq!(Format::new(200, ColorType::ArgbFloat, 32, 32, 32, 32).bpp(), 128);
    assert_eq!(Format::new(2, ColorType::Alpha, 4, 0, 0, 0).bpp(), 4);
    assert_eq!(Format::new(9, ColorType::Argb, 4, 4, 4, 4).bpp(), 16);
    assert_eq!(Format::new(17, ColorType::Argb, 0, 8, 8, 8).bpp(), 24);
    assert_eq!(Format::new(25, ColorType::Argb, 8, 8, 8, 8).bpp(), 32);
    assert_eq!(Format::new(33, ColorType::ArgbFloat, 0, 32, 32, 32).bpp(), 96);
}

#[test]
fn format_accessors() {
    let f = Format::new(32, ColorType::Rgba, 8, 8, 8, 8);
    assert_eq!(f.bpp(), 32);
    assert_eq!(f.bytes(), 4);
    assert!(!f.subbyte());
    assert_eq!(f.color_type(), ColorType::Rgba);
    assert_eq!(f.alpha_bits(), 8);
    assert_eq!(f.red_bits(), 8);
    assert_eq!(f.green_bits(), 8);
    assert_eq!(f.blue_bits(), 8);
    assert!(!f.involves_float());

    let g = Format::new(16, ColorType::Abgr, 4, 4, 4, 4);
    assert_eq!(g.bytes(), 2);

    let a1 = Format::a1();
    assert_eq!(a1.bytes(), 1);
    assert!(a1.subbyte());
    assert_eq!(a1.alpha_bits(), 1);
    assert_eq!(a1.red_bits(), 0);

    let wide = Format::new(128, ColorType::ArgbFloat, 32, 32, 32, 32);
    assert_eq!(wide.bytes(), 16);
    assert!(wide.involves_float());
    assert!(ColorType::ArgbFloat.involves_float());
    assert!(!ColorType::Argb.involves_float());

    // the codec table carries the wide widths 10, 16 and 32 exactly
    let odd = Format::new(32, ColorType::Argb, 2, 10, 16, 32);
    assert_eq!(odd.alpha_bits(), 2);
    assert_eq!(odd.red_bits(), 10);
    assert_eq!(odd.green_bits(), 16);
    assert_eq!(odd.blue_bits(), 32);
}

#[test]
fn channel_enumeration_length() {
    assert_eq!(Format::rgba32().channels().count(), 4);
    assert_eq!(Format::a8().channels().count(), 1);
    assert_eq!(Format::xrgb32().channels().count(), 3);
}

#[test]
fn channel_enumeration_entries() {
    let mut it = Format::rgba32().channels();
    assert_eq!(it.len(), 4);
    assert_eq!(
        it.next(),
        Some(ChannelInfo { bits: 8, shift: 0, channel: Channel::Red })
    );
    assert_eq!(it.len(), 3);
    assert_eq!(
        it.next(),
        Some(ChannelInfo { bits: 8, shift: 8, channel: Channel::Green })
    );
    assert_eq!(
        it.next(),
        Some(ChannelInfo { bits: 8, shift: 16, channel: Channel::Blue })
    );
    assert_eq!(
        it.next(),
        Some(ChannelInfo { bits: 8, shift: 24, channel: Channel::Alpha })
    );
    assert_eq!(it.next(), None);
    assert_eq!(it.len(), 0);
}

#[test]
fn channel_enumeration_backward_agrees() {
    // the widths of RGBA32 fill the pixel, so both directions assign the
    // same shifts
    let mut it = Format::rgba32().channels();
    assert_eq!(
        it.next_back(),
        Some(ChannelInfo { bits: 8, shift: 24, channel: Channel::Alpha })
    );
    assert_eq!(
        it.next(),
        Some(ChannelInfo { bits: 8, shift: 0, channel: Channel::Red })
    );
    assert_eq!(it.len(), 2);
    assert_eq!(
        it.next_back(),
        Some(ChannelInfo { bits: 8, shift: 16, channel: Channel::Blue })
    );
    assert_eq!(
        it.next_back(),
        Some(ChannelInfo { bits: 8, shift: 8, channel: Channel::Green })
    );
    assert_eq!(it.next_back(), None);
    assert_eq!(it.next(), None);
}

#[test]
fn channel_enumeration_skips_zero_widths() {
    let mut it = Format::xrgb32().channels();
    assert_eq!(
        it.next(),
        Some(ChannelInfo { bits: 8, shift: 0, channel: Channel::Red })
    );
    assert_eq!(
        it.next(),
        Some(ChannelInfo { bits: 8, shift: 8, channel: Channel::Green })
    );
    assert_eq!(
        it.next(),
        Some(ChannelInfo { bits: 8, shift: 16, channel: Channel::Blue })
    );
    assert_eq!(it.next(), None);
}

#[test]
fn color_type_channel_order() {
    assert_eq!(
        ColorType::Argb.channels(),
        vec![Channel::Alpha, Channel::Red, Channel::Green, Channel::Blue]
    );
    assert_eq!(
        ColorType::Bgra.channels(),
        vec![Channel::Blue, Channel::Green, Channel::Red, Channel::Alpha]
    );
    assert_eq!(ColorType::Alpha.channels(), vec![Channel::Alpha]);
}

#[test]
fn endianness_words() {
    assert_eq!(Endianness::Little.make_u16([0x34, 0x12]), 0x1234);
    assert_eq!(Endianness::Big.make_u16([0x12, 0x34]), 0x1234);
    assert_eq!(Endianness::Little.make_u32([0x78, 0x56, 0x34, 0x12]), 0x12345678);
    assert_eq!(Endianness::Big.make_u32([0x12, 0x34, 0x56, 0x78]), 0x12345678);
}

#[test]
fn exactly_one_endianness_is_native() {
    assert_ne!(Endianness::Little.is_native(), Endianness::Big.is_native());
}
