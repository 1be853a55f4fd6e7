//! What a scan stream holds

use crate::bytes::copied;
use crate::protocol::caps::set_window::ColorInterleaving;
use crate::protocol::window::Channel;
use vstd::prelude::*;

verus! {

/// The shape of a pass's stream, which carries no header of its own
#[derive(Debug, PartialEq, Eq)]
pub struct Layout {
    /// Pixels along the sensor bar
    pub pixels: u32,
    /// Lines along the feed
    pub lines: u32,
    /// Optical pixels to one of the stream's, along the bar
    pub pitch: u32,
    /// Optical lines to one of the stream's, along the feed
    pub line_pitch: u32,
    pub dpi: u32,
    pub bytes_per_sample: u8,
    /// Valid bits in a sample, which can be fewer than its bytes carry
    pub bits_per_sample: u8,
    /// The channels of the pass, by window identifier, in SCAN order
    pub channels: Vec<u8>,
    pub interleaving: ColorInterleaving,
    /// How many times each color is read at one position
    pub readings_per_line: u8,
    /// CCD rows read at once
    pub ccd_lines: u8,
    /// Output lines between two CCD rows
    pub registration_gap: u32,
    /// Bytes a READ has to be a whole number of
    pub granule: u32,
    /// Padding at each end of a line, in bytes
    pub truncated_bytes_line: (u32, u32),
    /// Padding at each end of a frame, in lines
    pub truncated_lines_frame: (u32, u32),
    /// Whether the unit registers the CCD rows itself
    pub multiline_registered: bool,
}

/// Whether a window identifier is that of a color channel
pub open spec fn is_color_id(id: u8) -> bool {
    Channel::of(id).carries_color()
}

/// How many of the first `n` channels carry color
pub open spec fn colors_in(channels: Seq<u8>, n: int) -> int
    decreases n,
{
    if n <= 0 {
        0
    } else {
        colors_in(channels, n - 1) + if is_color_id(channels[n - 1]) {
            1int
        } else {
            0int
        }
    }
}

/// How many times each color is read at one position, at least once
pub open spec fn readings_of(readings_per_line: u8) -> int {
    if readings_per_line == 0 {
        1
    } else {
        readings_per_line as int
    }
}

/// How many readouts one stage position hands back: the colors once for each
/// reading, and the other channels once
pub open spec fn readouts_of(channels: Seq<u8>, readings: int) -> int {
    let colors = colors_in(channels, channels.len() as int);
    colors * readings + (channels.len() - colors)
}

/// The count of colors lies between nothing and everything
pub proof fn lemma_colors_bounds(channels: Seq<u8>, n: int)
    requires
        0 <= n <= channels.len(),
    ensures
        0 <= colors_in(channels, n) <= n,
        colors_in(channels, n) <= colors_in(channels, channels.len() as int),
    decreases channels.len() - n,
{
    lemma_colors_at_most(channels, n);
    if n < channels.len() {
        lemma_colors_bounds(channels, n + 1);
    }
}

proof fn lemma_colors_at_most(channels: Seq<u8>, n: int)
    requires
        0 <= n,
    ensures
        0 <= colors_in(channels, n) <= n,
    decreases n,
{
    if n > 0 {
        lemma_colors_at_most(channels, n - 1);
    }
}

/// Count the color channels
pub(crate) fn count_colors(channels: &[u8]) -> (r: usize)
    ensures
        r == colors_in(channels@, channels@.len() as int),
        r <= channels@.len(),
{
    let mut r: usize = 0;
    let mut n: usize = 0;
    while n < channels.len()
        invariant
            r <= n <= channels@.len(),
            r == colors_in(channels@, n as int),
        decreases channels@.len() - n,
    {
        if Channel::from(channels[n]).is_color() {
            r += 1;
        }
        n += 1;
    }
    r
}

impl Clone for Layout {
    fn clone(&self) -> (r: Layout)
        ensures
            r.channels@ == self.channels@,
            (Layout { channels: self.channels, ..r }) == *self,
    {
        Layout {
            pixels: self.pixels,
            lines: self.lines,
            pitch: self.pitch,
            line_pitch: self.line_pitch,
            dpi: self.dpi,
            bytes_per_sample: self.bytes_per_sample,
            bits_per_sample: self.bits_per_sample,
            channels: copied(self.channels.as_slice()),
            interleaving: self.interleaving,
            readings_per_line: self.readings_per_line,
            ccd_lines: self.ccd_lines,
            registration_gap: self.registration_gap,
            granule: self.granule,
            truncated_bytes_line: self.truncated_bytes_line,
            truncated_lines_frame: self.truncated_lines_frame,
            multiline_registered: self.multiline_registered,
        }
    }
}

impl Layout {
    /// A single-line 16-bit pass that reads each channel once, at full
    /// resolution
    pub fn single_line(pixels: u32, lines: u32, channels: Vec<u8>) -> (r: Layout)
        ensures
            r == (Layout {
                pixels,
                lines,
                pitch: 1,
                line_pitch: 1,
                dpi: 4000,
                bytes_per_sample: 2,
                bits_per_sample: 16,
                channels,
                interleaving: (ColorInterleaving {
                    bits: ColorInterleaving::LINE_WITHOUT_DISTANCE,
                }),
                readings_per_line: 1,
                ccd_lines: 1,
                registration_gap: 1,
                granule: 1,
                truncated_bytes_line: (0, 0),
                truncated_lines_frame: (0, 0),
                multiline_registered: false,
            }),
    {
        Layout {
            pixels,
            lines,
            pitch: 1,
            line_pitch: 1,
            dpi: 4000,
            bytes_per_sample: 2,
            bits_per_sample: 16,
            channels,
            interleaving: ColorInterleaving { bits: ColorInterleaving::LINE_WITHOUT_DISTANCE },
            readings_per_line: 1,
            ccd_lines: 1,
            registration_gap: 1,
            granule: 1,
            truncated_bytes_line: (0, 0),
            truncated_lines_frame: (0, 0),
            multiline_registered: false,
        }
    }

    /// Exposures one stage position hands back: the colors once for each
    /// reading, and the channels that are never repeated
    pub fn readouts(&self) -> (r: usize)
        requires
            readouts_of(self.channels@, readings_of(self.readings_per_line)) <= usize::MAX,
        ensures
            r == readouts_of(self.channels@, readings_of(self.readings_per_line)),
    {
        let colors: usize = count_colors(self.channels.as_slice());
        let readings: usize = if self.readings_per_line == 0 {
            1
        } else {
            self.readings_per_line as usize
        };
        assert(self.channels@.len() == self.channels.len());
        assert(0 <= colors * readings) by (nonlinear_arith)
            requires
                colors >= 0,
                readings >= 0,
        ;
        colors * readings + (self.channels.len() - colors)
    }

    /// The color channels, in SCAN order
    pub fn colors(&self) -> (r: Vec<u8>)
        ensures
            r@ == self.channels@.filter(|id: u8| is_color_id(id)),
    {
        let mut r: Vec<u8> = Vec::new();
        let mut n: usize = 0;
        let ghost pick = |id: u8| is_color_id(id);
        proof {
            reveal(Seq::filter);
            assert(self.channels@.take(0).filter(pick) =~= Seq::<u8>::empty());
        }
        while n < self.channels.len()
            invariant
                n <= self.channels@.len(),
                pick == (|id: u8| is_color_id(id)),
                r@ == self.channels@.take(n as int).filter(pick),
            decreases self.channels@.len() - n,
        {
            let id: u8 = self.channels[n];
            proof {
                reveal(Seq::filter);
                assert(self.channels@.take(n + 1).drop_last() =~= self.channels@.take(n as int));
                assert(self.channels@.take(n + 1).last() == id);
            }
            if Channel::from(id).is_color() {
                r.push(id);
            }
            n += 1;
        }
        proof {
            assert(self.channels@.take(n as int) =~= self.channels@);
        }
        r
    }
}

/// Every channel carries color but the one with identifier 9
pub proof fn law_all_but_infrared_is_color(id: u8)
    ensures
        is_color_id(id) <==> id != 9,
{
}

/// A color more or an infrared more: one channel further on, the count goes up by
/// one but for identifier 9
pub proof fn law_colors_are_counted_one_by_one(channels: Seq<u8>, n: int)
    requires
        0 <= n < channels.len(),
    ensures
        colors_in(channels, 0) == 0,
        channels[n] != 9 ==> colors_in(channels, n + 1) == colors_in(channels, n) + 1,
        channels[n] == 9 ==> colors_in(channels, n + 1) == colors_in(channels, n),
{
}

/// A stage position hands the colors back once for each reading, at least once,
/// and every other channel once
pub proof fn law_readouts_of_a_position(channels: Seq<u8>, readings_per_line: u8)
    ensures
        ({
            let colors = colors_in(channels, channels.len() as int);
            let others = channels.len() - colors;
            let all = readouts_of(channels, readings_of(readings_per_line));
            &&& readings_per_line <= 1 ==> all == channels.len()
            &&& readings_per_line >= 1 ==> all == readings_per_line * colors + others
        }),
{
    let colors = colors_in(channels, channels.len() as int);
    assert(colors * readings_per_line == readings_per_line * colors) by (nonlinear_arith);
    assert(colors * 1 == colors);
}

/// A single-line pass reads each of its channels once, in sixteen bits
pub proof fn law_what_a_single_line_is(pixels: u32, lines: u32, channels: Vec<u8>, r: Layout)
    requires
        call_ensures(Layout::single_line, (pixels, lines, channels), r),
    ensures
        r.pixels == pixels && r.lines == lines && r.channels@ == channels@,
        r.bytes_per_sample == 2 && r.bits_per_sample == 16,
        r.interleaving.bits == 0x02,
        r.ccd_lines == 1 && r.registration_gap == 1 && r.readings_per_line == 1,
        r.pitch == 1 && r.line_pitch == 1 && r.dpi == 4000 && r.granule == 1,
{
}

} // verus!
