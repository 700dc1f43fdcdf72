//! Plain RGBA color tuples.

use vstd::prelude::*;

use crate::format::Channel;
use crate::pixel::ChannelValue;

verus! {

/// An RGBA color tuple with 16-bit components.
///
/// This is never encoded into an image directly, but is used in certain
/// logical use cases, such as solid colors.
#[derive(Debug, Copy, Clone, PartialEq, Eq, PartialOrd, Ord, Hash, Default, Structural)]
pub struct Rgba {
    /// The red component of the color.
    pub red: u16,
    /// The green component of the color.
    pub green: u16,
    /// The blue component of the color.
    pub blue: u16,
    /// The alpha component of the color.
    pub alpha: u16,
}

/// The high byte of a 16-bit component.
fn shift(value: u16) -> (r: u8)
    ensures
        r == value / 0x100,
{
    (value / 0x100) as u8
}

/// The channel values of a color: the high byte of each component, in
/// alpha, red, green, blue order, with no float anchor.
pub open spec fn spec_rgba_values(c: Rgba) -> Seq<ChannelValue> {
    seq![
        ChannelValue::spec_cv(Channel::Alpha, (c.alpha / 0x100) as u8, None),
        ChannelValue::spec_cv(Channel::Red, (c.red / 0x100) as u8, None),
        ChannelValue::spec_cv(Channel::Green, (c.green / 0x100) as u8, None),
        ChannelValue::spec_cv(Channel::Blue, (c.blue / 0x100) as u8, None),
    ]
}

impl Rgba {
    /// Get the channel values for this color.
    pub fn channel_values(self) -> (r: Vec<ChannelValue>)
        ensures
            r@ == spec_rgba_values(self),
    {
        let mut r: Vec<ChannelValue> = Vec::new();
        r.push(ChannelValue::new(Channel::Alpha, shift(self.alpha)));
        r.push(ChannelValue::new(Channel::Red, shift(self.red)));
        r.push(ChannelValue::new(Channel::Green, shift(self.green)));
        r.push(ChannelValue::new(Channel::Blue, shift(self.blue)));
        proof {
            assert(r@ =~= spec_rgba_values(self));
        }
        r
    }
}

} // verus!
