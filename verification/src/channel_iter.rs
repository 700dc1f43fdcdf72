//! Enumeration of the channels of a format.
//!
//! [`Format::channels`] yields one [`ChannelInfo`] per channel whose bit
//! width is nonzero, in the order dictated by the color type. Forward
//! traversal assigns each entry the running sum of the widths before it as
//! its `shift`; backward traversal mirrors this from the back cursor, which
//! starts at the bits per pixel. The enumerator is restartable, finite
//! (at most four entries) and reports an exact remaining count.

use vstd::prelude::*;

use crate::format::{Channel, ChannelInfo, ColorType, Format};

verus! {

broadcast use crate::format::lemma_spec_width_valid;

/// How many slots the channel order of a color type has.
pub open spec fn order_len(ct: ColorType) -> nat {
    if ct == ColorType::Alpha {
        1
    } else {
        4
    }
}

/// The channel in slot `i` of the canonical order of a color type.
pub open spec fn order_at(ct: ColorType, i: int) -> Channel {
    match ct {
        ColorType::Argb => spec_argb_order(i),
        ColorType::ArgbFloat => spec_argb_order(i),
        ColorType::Rgba => if i == 0 {
            Channel::Red
        } else if i == 1 {
            Channel::Green
        } else if i == 2 {
            Channel::Blue
        } else {
            Channel::Alpha
        },
        ColorType::Abgr => if i == 0 {
            Channel::Alpha
        } else if i == 1 {
            Channel::Blue
        } else if i == 2 {
            Channel::Green
        } else {
            Channel::Red
        },
        ColorType::Bgra => if i == 0 {
            Channel::Blue
        } else if i == 1 {
            Channel::Green
        } else if i == 2 {
            Channel::Red
        } else {
            Channel::Alpha
        },
        ColorType::Alpha => Channel::Alpha,
    }
}

/// The ARGB slot order shared by the packed and the float ARGB color types.
pub open spec fn spec_argb_order(i: int) -> Channel {
    if i == 0 {
        Channel::Alpha
    } else if i == 1 {
        Channel::Red
    } else if i == 2 {
        Channel::Green
    } else {
        Channel::Blue
    }
}

/// How many slots the channel order of a color type has.
fn order_len_exec(ct: ColorType) -> (r: usize)
    ensures
        r == order_len(ct),
{
    if matches!(ct, ColorType::Alpha) {
        1
    } else {
        4
    }
}

/// The channel in slot `i` of the canonical order of a color type.
fn channel_at(ct: ColorType, i: usize) -> (r: Channel)
    requires
        i < order_len(ct),
    ensures
        r == order_at(ct, i as int),
{
    match ct {
        ColorType::Argb | ColorType::ArgbFloat => {
            if i == 0 {
                Channel::Alpha
            } else if i == 1 {
                Channel::Red
            } else if i == 2 {
                Channel::Green
            } else {
                Channel::Blue
            }
        },
        ColorType::Rgba => {
            if i == 0 {
                Channel::Red
            } else if i == 1 {
                Channel::Green
            } else if i == 2 {
                Channel::Blue
            } else {
                Channel::Alpha
            }
        },
        ColorType::Abgr => {
            if i == 0 {
                Channel::Alpha
            } else if i == 1 {
                Channel::Blue
            } else if i == 2 {
                Channel::Green
            } else {
                Channel::Red
            }
        },
        ColorType::Bgra => {
            if i == 0 {
                Channel::Blue
            } else if i == 1 {
                Channel::Green
            } else if i == 2 {
                Channel::Red
            } else {
                Channel::Alpha
            }
        },
        ColorType::Alpha => Channel::Alpha,
    }
}

impl ColorType {
    /// The channels used for this color type, in the order that they
    /// appear in a pixel of this color type.
    pub fn channels(self) -> (r: Vec<Channel>)
        ensures
            r@.len() == order_len(self),
            forall|i: int| 0 <= i < r@.len() ==> r@[i] == order_at(self, i),
    {
        let n = order_len_exec(self);
        let mut r: Vec<Channel> = Vec::new();
        let mut i: usize = 0;
        while i < n
            invariant
                i <= n,
                n == order_len(self),
                r@.len() == i,
                forall|j: int| 0 <= j < i ==> r@[j] == order_at(self, j),
            decreases n - i,
        {
            r.push(channel_at(self, i));
            i = i + 1;
        }
        r
    }
}

/// The sum of the channel widths in slots `lo..hi` of a format's order.
pub open spec fn rem_width(f: Format, lo: int, hi: int) -> nat
    decreases hi - lo,
{
    if lo >= hi {
        0
    } else {
        (f.spec_width(order_at(f.spec_color_type(), lo)) + rem_width(f, lo + 1, hi)) as nat
    }
}

/// Each channel width is at most 32, so the widths of at most four slots
/// sum to at most 128.
pub proof fn lemma_rem_width_bound(f: Format, lo: int, hi: int)
    ensures
        rem_width(f, lo, hi) <= 32 * (if hi >= lo { hi - lo } else { 0 }),
    decreases hi - lo,
{
    if lo < hi {
        lemma_rem_width_bound(f, lo + 1, hi);
    }
}

/// The width sum over `lo..hi` splits off the last slot.
pub proof fn lemma_rem_width_last(f: Format, lo: int, hi: int)
    requires
        lo < hi,
    ensures
        rem_width(f, lo, hi) == rem_width(f, lo, hi - 1) + f.spec_width(
            order_at(f.spec_color_type(), hi - 1),
        ),
    decreases hi - lo,
{
    let ct = f.spec_color_type();
    if lo + 1 < hi {
        lemma_rem_width_last(f, lo + 1, hi);
        assert(rem_width(f, lo, hi) == f.spec_width(order_at(ct, lo)) + rem_width(f, lo + 1, hi));
        assert(rem_width(f, lo, hi - 1) == f.spec_width(order_at(ct, lo)) + rem_width(
            f,
            lo + 1,
            hi - 1,
        ));
    } else {
        assert(rem_width(f, lo, hi) == f.spec_width(order_at(ct, lo)) + rem_width(f, lo + 1, hi));
        assert(rem_width(f, lo + 1, hi) == 0);
        assert(rem_width(f, lo, hi - 1) == 0);
    }
}

/// The entries that forward traversal yields from a cursor state: slots
/// `lo..hi` of the order, skipping zero widths, each present entry carrying
/// the front cursor as its shift, until the two cursors meet.
pub open spec fn fwd_items(f: Format, lo: int, hi: int, shift: u8, shift_back: u8) -> Seq<
    ChannelInfo,
>
    decreases hi - lo,
{
    if lo >= hi || shift == shift_back {
        Seq::empty()
    } else {
        let ch = order_at(f.spec_color_type(), lo);
        let w = f.spec_width(ch);
        if w == 0 {
            fwd_items(f, lo + 1, hi, shift, shift_back)
        } else {
            seq![ChannelInfo { bits: w, shift, channel: ch }] + fwd_items(
                f,
                lo + 1,
                hi,
                (shift + w) as u8,
                shift_back,
            )
        }
    }
}

/// The entries that backward traversal yields from a cursor state: slots
/// `lo..hi` of the order taken from the back, skipping zero widths, each
/// present entry carrying the decremented back cursor as its shift, until
/// the two cursors meet.
pub open spec fn bwd_items(f: Format, lo: int, hi: int, shift: u8, shift_back: u8) -> Seq<
    ChannelInfo,
>
    decreases hi - lo,
{
    if lo >= hi || shift == shift_back {
        Seq::empty()
    } else {
        let ch = order_at(f.spec_color_type(), hi - 1);
        let w = f.spec_width(ch);
        if w == 0 {
            bwd_items(f, lo, hi - 1, shift, shift_back)
        } else {
            let nsb: u8 = if shift_back >= w {
                (shift_back - w) as u8
            } else {
                0
            };
            seq![ChannelInfo { bits: w, shift: nsb, channel: ch }] + bwd_items(f, lo, hi - 1, shift, nsb)
        }
    }
}

/// Forward traversal yields at most one entry per order slot, every entry
/// has a nonzero width, and each entry's bit range `shift..shift + bits`
/// stays within the widths that remain to be assigned.
pub proof fn lemma_fwd_items_bounds(f: Format, lo: int, hi: int, shift: u8, shift_back: u8)
    requires
        shift as int + rem_width(f, lo, hi) <= 255,
    ensures
        fwd_items(f, lo, hi, shift, shift_back).len() <= (if hi >= lo {
            hi - lo
        } else {
            0
        }),
        forall|i: int|
            0 <= i < fwd_items(f, lo, hi, shift, shift_back).len() ==> 0 < (#[trigger] fwd_items(
                f,
                lo,
                hi,
                shift,
                shift_back,
            )[i]).bits,
        forall|i: int|
            0 <= i < fwd_items(f, lo, hi, shift, shift_back).len() ==> shift <= (#[trigger] fwd_items(
                f,
                lo,
                hi,
                shift,
                shift_back,
            )[i]).shift,
        forall|i: int|
            0 <= i < fwd_items(f, lo, hi, shift, shift_back).len() ==> (#[trigger] fwd_items(
                f,
                lo,
                hi,
                shift,
                shift_back,
            )[i]).shift + fwd_items(f, lo, hi, shift, shift_back)[i].bits <= shift as int
                + rem_width(f, lo, hi),
    decreases hi - lo,
{
    if lo >= hi || shift == shift_back {
    } else {
        let ch = order_at(f.spec_color_type(), lo);
        let w = f.spec_width(ch);
        if w == 0 {
            lemma_fwd_items_bounds(f, lo + 1, hi, shift, shift_back);
        } else {
            lemma_fwd_items_bounds(f, lo + 1, hi, (shift + w) as u8, shift_back);
            assert(shift as int + rem_width(f, lo, hi) == (shift + w) as int + rem_width(
                f,
                lo + 1,
                hi,
            ));
        }
    }
}

/// The full forward channel enumeration of a format: front cursor at 0,
/// back cursor at the bits per pixel.
pub open spec fn format_items(f: Format) -> Seq<ChannelInfo> {
    fwd_items(f, 0, order_len(f.spec_color_type()) as int, 0, f.spec_bpp())
}

/// A trailing zero-width slot changes nothing about forward traversal.
proof fn lemma_fwd_drop_last_zero(f: Format, lo: int, hi: int, shift: u8, shift_back: u8)
    requires
        lo < hi,
        f.spec_width(order_at(f.spec_color_type(), hi - 1)) == 0,
    ensures
        fwd_items(f, lo, hi, shift, shift_back) == fwd_items(f, lo, hi - 1, shift, shift_back),
    decreases hi - lo,
{
    let ct = f.spec_color_type();
    if shift == shift_back {
    } else if lo == hi - 1 {
        assert(fwd_items(f, lo + 1, hi, shift, shift_back) =~= Seq::<ChannelInfo>::empty());
        assert(fwd_items(f, lo, hi, shift, shift_back) =~= Seq::<ChannelInfo>::empty());
        assert(fwd_items(f, lo, hi - 1, shift, shift_back) =~= Seq::<ChannelInfo>::empty());
    } else {
        let w0 = f.spec_width(order_at(ct, lo));
        if w0 == 0 {
            lemma_fwd_drop_last_zero(f, lo + 1, hi, shift, shift_back);
        } else {
            lemma_fwd_drop_last_zero(f, lo + 1, hi, (shift + w0) as u8, shift_back);
        }
    }
}

/// When the remaining widths fill the span between the cursors exactly,
/// the last present slot's entry sits at the retreated back cursor, and
/// forward traversal yields it last.
proof fn lemma_fwd_split_last(f: Format, lo: int, hi: int, shift: u8, shift_back: u8)
    requires
        lo < hi,
        shift_back as int == shift as int + rem_width(f, lo, hi),
        f.spec_width(order_at(f.spec_color_type(), hi - 1)) > 0,
    ensures
        ({
            let ch = order_at(f.spec_color_type(), hi - 1);
            let w = f.spec_width(ch);
            let nsb: u8 = (shift_back - w) as u8;
            fwd_items(f, lo, hi, shift, shift_back) == fwd_items(f, lo, hi - 1, shift, nsb).push(
                ChannelInfo { bits: w, shift: nsb, channel: ch },
            )
        }),
    decreases hi - lo,
{
    let ct = f.spec_color_type();
    let ch = order_at(ct, hi - 1);
    let w = f.spec_width(ch);
    lemma_rem_width_last(f, lo, hi);
    let nsb: u8 = (shift_back - w) as u8;
    let item = ChannelInfo { bits: w, shift: nsb, channel: ch };
    if lo == hi - 1 {
        assert(rem_width(f, lo, hi - 1) == 0);
        assert(nsb == shift);
        assert(fwd_items(f, lo, hi - 1, shift, nsb) =~= Seq::<ChannelInfo>::empty());
        assert(fwd_items(f, lo + 1, hi, (shift + w) as u8, shift_back) =~= Seq::<
            ChannelInfo,
        >::empty());
        assert(fwd_items(f, lo, hi, shift, shift_back) =~= Seq::<ChannelInfo>::empty().push(item));
    } else {
        let w0 = f.spec_width(order_at(ct, lo));
        if w0 == 0 {
            lemma_fwd_split_last(f, lo + 1, hi, shift, shift_back);
            if shift == nsb {
                // everything before the last slot has width zero
                assert(fwd_items(f, lo, hi - 1, shift, nsb) =~= Seq::<ChannelInfo>::empty());
            }
        } else {
            assert(shift as int + rem_width(f, lo, hi) <= 255);
            lemma_fwd_split_last(f, lo + 1, hi, (shift + w0) as u8, shift_back);
            // the head entry stands before the split tail on both sides
            let head = ChannelInfo { bits: w0, shift, channel: order_at(ct, lo) };
            let tail = fwd_items(f, lo + 1, hi - 1, (shift + w0) as u8, nsb);
            assert(shift != nsb);
            assert((seq![head] + tail).push(item) =~= seq![head] + tail.push(item));
        }
    }
}

/// Backward traversal from matching cursors yields exactly the forward
/// entries in reverse: the same channels with the same widths and the
/// same shifts.
proof fn lemma_backward_matches_forward(f: Format, lo: int, hi: int, shift: u8, shift_back: u8)
    requires
        shift_back as int == shift as int + rem_width(f, lo, hi),
    ensures
        bwd_items(f, lo, hi, shift, shift_back) == fwd_items(f, lo, hi, shift, shift_back).reverse(),
    decreases hi - lo,
{
    let ct = f.spec_color_type();
    if lo >= hi || shift == shift_back {
        assert(fwd_items(f, lo, hi, shift, shift_back).reverse() =~= Seq::<ChannelInfo>::empty());
    } else {
        let ch = order_at(ct, hi - 1);
        let w = f.spec_width(ch);
        lemma_rem_width_last(f, lo, hi);
        if w == 0 {
            lemma_backward_matches_forward(f, lo, hi - 1, shift, shift_back);
            lemma_fwd_drop_last_zero(f, lo, hi, shift, shift_back);
        } else {
            let nsb: u8 = (shift_back - w) as u8;
            let item = ChannelInfo { bits: w, shift: nsb, channel: ch };
            lemma_backward_matches_forward(f, lo, hi - 1, shift, nsb);
            lemma_fwd_split_last(f, lo, hi, shift, shift_back);
            let fore = fwd_items(f, lo, hi - 1, shift, nsb);
            assert(fore.push(item).reverse() =~= seq![item] + fore.reverse());
            assert(bwd_items(f, lo, hi, shift, shift_back) =~= seq![item] + fore.reverse());
        }
    }
}

/// Forward and backward traversal of a format agree on every channel's
/// entry — the same widths and the same shifts, in opposite orders —
/// whenever the format's present channel widths sum exactly to its bits
/// per pixel. (A padded format, such as a 32-bit layout whose alpha width
/// is zero, leaves slack between the cursors, and the two directions then
/// place the entries differently.)
pub proof fn lemma_forward_backward_agree(f: Format)
    requires
        rem_width(f, 0, order_len(f.spec_color_type()) as int) == f.spec_bpp(),
    ensures
        bwd_items(f, 0, order_len(f.spec_color_type()) as int, 0, f.spec_bpp()) == format_items(
            f,
        ).reverse(),
{
    lemma_backward_matches_forward(
        f,
        0,
        order_len(f.spec_color_type()) as int,
        0,
        f.spec_bpp(),
    );
}

/// Iterator over the channels of a format.
///
/// Produced by [`Format::channels`]. [`ChannelIter::next`] and
/// [`ChannelIter::next_back`] traverse the present channels from either
/// end; [`ChannelIter::len`] reports the exact number of entries that
/// forward traversal still yields.
#[derive(Debug, Copy, Clone)]
pub struct ChannelIter {
    /// The format whose channels are enumerated.
    format: Format,
    /// Current shift from the front.
    shift: u8,
    /// Current shift from the back.
    shift_back: u8,
    /// First order slot not yet consumed from the front.
    lo: usize,
    /// One past the last order slot not yet consumed from the back.
    hi: usize,
}

impl ChannelIter {
    /// The format whose channels are enumerated.
    pub closed spec fn spec_format(self) -> Format {
        self.format
    }

    /// The cursors stay within the order and the front cursor cannot
    /// overflow while it advances by the remaining widths.
    pub closed spec fn spec_wf(self) -> bool {
        &&& self.lo <= self.hi
        &&& self.hi <= order_len(self.format.spec_color_type())
        &&& self.shift as int + rem_width(self.format, self.lo as int, self.hi as int) <= 255
    }

    /// The entries that forward traversal still yields.
    pub closed spec fn spec_remaining(self) -> Seq<ChannelInfo> {
        fwd_items(self.format, self.lo as int, self.hi as int, self.shift, self.shift_back)
    }

    /// The entries that backward traversal still yields.
    pub closed spec fn spec_remaining_back(self) -> Seq<ChannelInfo> {
        bwd_items(self.format, self.lo as int, self.hi as int, self.shift, self.shift_back)
    }

    /// Start the enumeration of a format's channels.
    pub(crate) fn new(format: Format) -> (r: ChannelIter)
        ensures
            r.spec_wf(),
            r.spec_format() == format,
            r.spec_remaining() == format_items(format),
            r.spec_remaining_back() == bwd_items(
                format,
                0,
                order_len(format.spec_color_type()) as int,
                0,
                format.spec_bpp(),
            ),
    {
        let hi = order_len_exec(format.color_type());
        proof {
            lemma_rem_width_bound(format, 0, hi as int);
        }
        ChannelIter { format, shift: 0, shift_back: format.bpp(), lo: 0, hi }
    }

    /// The next channel entry from the front, if the cursors have not met.
    pub fn next(&mut self) -> (r: Option<ChannelInfo>)
        requires
            old(self).spec_wf(),
        ensures
            final(self).spec_wf(),
            final(self).spec_format() == old(self).spec_format(),
            match r {
                None => {
                    &&& old(self).spec_remaining().len() == 0
                    &&& final(self).spec_remaining().len() == 0
                },
                Some(info) => {
                    &&& old(self).spec_remaining().len() > 0
                    &&& info == old(self).spec_remaining()[0]
                    &&& final(self).spec_remaining() == old(self).spec_remaining().skip(1)
                },
            },
    {
        loop
            invariant
                self.spec_wf(),
                self.format == old(self).format,
                self.hi == old(self).hi,
                self.shift_back == old(self).shift_back,
                self.spec_remaining() == old(self).spec_remaining(),
            decreases self.hi - self.lo,
        {
            // if we've met the other end of the iterator, return
            if self.shift == self.shift_back {
                return None;
            }
            // if the channel order is exhausted, return
            if self.lo == self.hi {
                return None;
            }

            // get the next channel and the number of bits for it
            let channel = channel_at(self.format.color_type(), self.lo);
            self.lo = self.lo + 1;
            let bits = self.format.bits_for_channel(channel);

            // if the number of bits is zero, skip it
            if bits == 0 {
                continue;
            }

            // create the channel info and advance the front cursor
            let info = ChannelInfo { bits, shift: self.shift, channel };
            self.shift = self.shift + bits;

            proof {
                assert(old(self).spec_remaining() == seq![info] + self.spec_remaining());
                assert((seq![info] + self.spec_remaining()).skip(1) =~= self.spec_remaining());
            }
            return Some(info);
        }
    }

    /// The next channel entry from the back, if the cursors have not met.
    pub fn next_back(&mut self) -> (r: Option<ChannelInfo>)
        requires
            old(self).spec_wf(),
        ensures
            final(self).spec_wf(),
            final(self).spec_format() == old(self).spec_format(),
            match r {
                None => {
                    &&& old(self).spec_remaining_back().len() == 0
                    &&& final(self).spec_remaining_back().len() == 0
                },
                Some(info) => {
                    &&& old(self).spec_remaining_back().len() > 0
                    &&& info == old(self).spec_remaining_back()[0]
                    &&& final(self).spec_remaining_back() == old(self).spec_remaining_back().skip(
                        1,
                    )
                },
            },
    {
        loop
            invariant
                self.spec_wf(),
                self.format == old(self).format,
                self.lo == old(self).lo,
                self.shift == old(self).shift,
                self.spec_remaining_back() == old(self).spec_remaining_back(),
            decreases self.hi - self.lo,
        {
            // if we've met the other end of the iterator, return
            if self.shift == self.shift_back {
                return None;
            }
            // if the channel order is exhausted, return
            if self.lo == self.hi {
                return None;
            }

            // get the next channel from the back and the number of bits for it
            let channel = channel_at(self.format.color_type(), self.hi - 1);
            self.hi = self.hi - 1;
            proof {
                lemma_rem_width_last(self.format, self.lo as int, self.hi as int + 1);
            }
            let bits = self.format.bits_for_channel(channel);

            // if the number of bits is zero, skip it
            if bits == 0 {
                continue;
            }

            // retreat the back cursor and create the channel info
            self.shift_back = if self.shift_back >= bits {
                self.shift_back - bits
            } else {
                0
            };
            let info = ChannelInfo { bits, shift: self.shift_back, channel };

            proof {
                assert(old(self).spec_remaining_back() == seq![info]
                    + self.spec_remaining_back());
                assert((seq![info] + self.spec_remaining_back()).skip(1)
                    =~= self.spec_remaining_back());
            }
            return Some(info);
        }
    }

    /// The exact number of entries that forward traversal still yields.
    pub fn len(&self) -> (r: usize)
        requires
            self.spec_wf(),
        ensures
            r == self.spec_remaining().len(),
    {
        let ghost total = self.spec_remaining().len();
        let mut lo = self.lo;
        let mut shift = self.shift;
        let mut count: usize = 0;
        loop
            invariant
                self.spec_wf(),
                total == self.spec_remaining().len(),
                self.lo <= lo <= self.hi,
                shift as int + rem_width(self.format, lo as int, self.hi as int) <= 255,
                count + fwd_items(self.format, lo as int, self.hi as int, shift, self.shift_back).len()
                    == total,
                count <= lo - self.lo,
            decreases self.hi - lo,
        {
            if shift == self.shift_back {
                return count;
            }
            if lo == self.hi {
                return count;
            }
            let channel = channel_at(self.format.color_type(), lo);
            lo = lo + 1;
            let bits = self.format.bits_for_channel(channel);
            if bits > 0 {
                shift = shift + bits;
                count = count + 1;
            }
        }
    }

    /// The exact number of entries left, consuming the enumerator.
    pub fn count(self) -> (r: usize)
        requires
            self.spec_wf(),
        ensures
            r == self.spec_remaining().len(),
    {
        self.len()
    }
}

impl Format {
    /// Iterate over the channels for this format.
    ///
    /// Each [`ChannelInfo`] entry encodes the channel involved, the number
    /// of bits used for that channel, and the shift that reaches that
    /// channel when the pixel is packed in a primitive value. The channels
    /// are presented in order, and channels of width zero are skipped.
    pub fn channels(self) -> (r: ChannelIter)
        ensures
            r.spec_wf(),
            r.spec_format() == self,
            r.spec_remaining() == format_items(self),
    {
        ChannelIter::new(self)
    }
}

} // verus!
