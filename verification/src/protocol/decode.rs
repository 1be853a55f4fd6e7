//! Turning the scan stream into an image
//!
//! The stream carries no header, so [`Layout`] is the only description of it.
//! Bytes arrive in whatever lengths the transport allows, so a decoder holds
//! whatever part of a line the last chunk left and writes complete lines only.
//!
//! [`Samples`] is one buffer per color channel plus infrared apart, each
//! contiguous: no channel is ever interleaved with another, so a caller reads
//! exactly the plane it wants and nothing else. Whatever the interleaving on
//! the wire, the output geometry is the same: the sensor bar is a plane's rows
//! and the stage's feed positions are its columns, with the bar read out
//! backwards.

use crate::bytes::{be16_at, join16};
use crate::error::Error;
use crate::protocol::caps::set_window::ColorInterleaving;
use crate::protocol::curves::Curves;
use crate::protocol::image::{
    colors_in, count_colors, is_color_id, lemma_colors_bounds, readings_of, readouts_of, Layout,
};
use crate::protocol::window::Channel;
use crate::search::{first_index, lemma_first_index_none};
use crate::text::{decimal, decimal_text, push_decimal};
use vstd::prelude::*;

verus! {

/// A stream we cannot make an image of
fn bad(reason: String) -> (e: Error)
    ensures
        e.is_unsupported("decode"@, reason@),
{
    Error::Unsupported { op: "decode", reason }
}

/// What the buffers of one pass hold
pub struct Planes {
    /// One plane per color channel
    pub colors: Seq<Seq<u16>>,
    /// The infrared one, empty where there is none
    pub ir: Seq<u16>,
}

/// What buffers hold
pub open spec fn planes(colors: Seq<Vec<u16>>, ir: Seq<u16>) -> Planes {
    Planes { colors: Seq::new(colors.len(), |c: int| colors[c]@), ir }
}

/// The buffers one pass fills: one plane per color channel, infrared apart
/// again and only where the pass asked for it
#[derive(Debug, PartialEq, Eq)]
pub struct Samples {
    pub colors: Vec<Vec<u16>>,
    pub ir: Option<Vec<u16>>,
}

impl Default for Samples {
    fn default() -> (r: Samples)
        ensures
            r.colors@.len() == 0,
            r.ir is None,
    {
        Samples { colors: Vec::new(), ir: None }
    }
}

impl Clone for Samples {
    fn clone(&self) -> (r: Samples)
        ensures
            r.colors@.len() == self.colors@.len(),
            forall|c: int|
                0 <= c < self.colors@.len() ==> (#[trigger] r.colors@[c])@ == self.colors@[c]@,
            match (self.ir, r.ir) {
                (Some(a), Some(b)) => b@ == a@,
                (None, None) => true,
                _ => false,
            },
    {
        let mut colors: Vec<Vec<u16>> = Vec::new();
        let mut c: usize = 0;
        while c < self.colors.len()
            invariant
                c <= self.colors@.len(),
                colors@.len() == c,
                forall|k: int| 0 <= k < c ==> (#[trigger] colors@[k])@ == self.colors@[k]@,
            decreases self.colors@.len() - c,
        {
            let plane = self.colors[c].clone();
            assert(plane@ =~= self.colors@[c as int]@);
            colors.push(plane);
            c += 1;
        }
        let ir: Option<Vec<u16>> = match &self.ir {
            Some(mask) => {
                let copy = mask.clone();
                assert(copy@ =~= mask@);
                Some(copy)
            },
            None => None,
        };
        Samples { colors, ir }
    }
}

/// As many zeros
pub open spec fn zeros(n: int) -> Seq<u16> {
    Seq::new(n as nat, |i: int| 0u16)
}

/// As many zeros
fn blank(n: usize) -> (r: Vec<u16>)
    ensures
        r@ == zeros(n as int),
{
    let mut r: Vec<u16> = Vec::new();
    r.resize(n, 0u16);
    assert(r@ =~= zeros(n as int));
    r
}

impl Samples {
    /// What the buffers hold
    pub open spec fn view(&self) -> Planes {
        planes(
            self.colors@,
            match self.ir {
                Some(ir) => ir@,
                None => Seq::empty(),
            },
        )
    }

    /// Clear and size every buffer for what `decoder` is about to produce
    pub fn resize_for(&mut self, decoder: &Decoder)
        requires
            decoder.wf(),
            decoder.weave().planes_fit(),
        ensures
            ({
                let w = decoder.weave();
                &&& final(self).colors@.len() == w.colors()
                &&& forall|c: int|
                    0 <= c < w.colors() ==> (#[trigger] final(self).colors@[c])@ == zeros(
                        w.rows * w.cols,
                    )
                &&& match final(self).ir {
                    Some(ir) => w.ir_samples() != 0 && ir@ == zeros(w.ir_samples()),
                    None => w.ir_samples() == 0,
                }
            }),
            decoder.weave().push_fault(final(self)@) is None,
    {
        let (rows, cols) = decoder.shape();
        let ghost w = decoder.weave();
        let len: usize = rows * cols;
        let count: usize = decoder.colors();
        let mut colors: Vec<Vec<u16>> = Vec::new();
        while colors.len() < count
            invariant
                colors@.len() <= count,
                len == w.rows * w.cols,
                forall|c: int|
                    0 <= c < colors@.len() ==> (#[trigger] colors@[c])@ == zeros(w.rows * w.cols),
            decreases count - colors@.len(),
        {
            colors.push(blank(len));
        }
        self.colors = colors;
        let n: usize = decoder.ir_samples();
        self.ir = if n == 0 {
            None
        } else {
            Some(blank(n))
        };
        proof {
            let s = self@;
            lemma_first_index_none(
                s.colors.len() as int,
                |c: int| s.colors[c].len() < w.rows * w.cols,
                0,
            );
            assert forall|c: int| 0 <= c < s.colors.len() implies #[trigger] s.colors[c].len()
                >= w.rows * w.cols by {
                assert(s.colors[c] == self.colors@[c]@);
            }
        }
    }
}

/// A view of an unscrambled pass
///
/// The samples are the [`Samples`] a [`Decoder`] filled, which the caller
/// owns, so nothing here copies an image.
#[derive(Debug)]
pub struct Image<'a> {
    /// One plane per color channel, in the pass's channel order restricted to
    /// the color ones
    pub colors: Vec<&'a [u16]>,
    /// One sample per pixel of infrared, empty where the pass carried none
    pub ir: &'a [u16],
    pub rows: usize,
    pub cols: usize,
    /// Valid bits in a sample, which can be fewer than 16
    pub bits: u8,
}

impl<'a> Clone for Image<'a> {
    fn clone(&self) -> (r: Image<'a>)
        ensures
            r == (Image { colors: r.colors, ..*self }),
            r.colors@ == self.colors@,
    {
        let mut colors: Vec<&'a [u16]> = Vec::new();
        let mut c: usize = 0;
        while c < self.colors.len()
            invariant
                c <= self.colors@.len(),
                colors@ == self.colors@.take(c as int),
            decreases self.colors@.len() - c,
        {
            colors.push(self.colors[c]);
            c += 1;
        }
        assert(self.colors@.take(c as int) =~= self.colors@);
        Image { colors, ir: self.ir, rows: self.rows, cols: self.cols, bits: self.bits }
    }
}

/// Why buffers are not the image a layout describes
pub open spec fn view_fault(w: Weave, s: Planes) -> Option<Seq<char>> {
    if s.colors.len() != w.colors() {
        Some(
            decimal(s.colors.len()) + " color planes is not the "@ + decimal(w.colors() as nat)
                + " this layout describes"@,
        )
    } else if let Some(c) = w.first_short(s) {
        Some(
            "color plane "@ + decimal(c as nat) + " is "@ + decimal(s.colors[c].len())
                + " samples, short of the "@ + decimal((w.rows * w.cols) as nat)
                + " this layout describes"@,
        )
    } else if s.ir.len() < w.ir_samples() {
        Some(
            decimal(s.ir.len()) + " infrared samples is short of the "@ + decimal(
                w.ir_samples() as nat,
            ) + " this layout describes"@,
        )
    } else {
        None
    }
}

impl<'a> Image<'a> {
    /// Read `samples` as the image `layout` describes
    pub fn new(layout: &Layout, samples: &'a Samples) -> (r: Result<Image<'a>, Error>)
        requires
            layout_fits(layout),
            layout_fault(layout) is None && samples.colors@.len() == weave_of(layout).colors()
                ==> weave_of(layout).planes_fit(),
        ensures
            match layout_fault(layout) {
                Some(reason) => r matches Err(e) && e.is_unsupported("decode"@, reason),
                None => match view_fault(weave_of(layout), samples@) {
                    Some(reason) => r matches Err(e) && e.is_unsupported("decode"@, reason),
                    None => r matches Ok(image) && {
                        &&& image.colors@.len() == samples.colors@.len()
                        &&& forall|c: int|
                            0 <= c < image.colors@.len() ==> (#[trigger] image.colors@[c])@
                                == samples@.colors[c]
                        &&& image.ir@ == samples@.ir
                        &&& image.rows == layout.pixels
                        &&& image.cols == layout.lines
                        &&& image.bits == layout.bits_per_sample
                    },
                },
            },
    {
        let decoder = Decoder::new(layout)?;
        let ghost w = decoder.weave();
        let count: usize = decoder.colors();
        if samples.colors.len() != count {
            let mut reason = decimal_text(samples.colors.len() as u64);
            reason.append(" color planes is not the ");
            push_decimal(&mut reason, count as u64);
            reason.append(" this layout describes");
            return Err(bad(reason));
        }
        let (rows, cols) = decoder.shape();
        let plane_len: usize = rows * cols;
        if let Some(i) = find_short(&samples.colors, plane_len, Ghost(w), Ghost(samples@)) {
            let mut reason = String::from_str("color plane ");
            push_decimal(&mut reason, i as u64);
            reason.append(" is ");
            push_decimal(&mut reason, samples.colors[i].len() as u64);
            reason.append(" samples, short of the ");
            push_decimal(&mut reason, plane_len as u64);
            reason.append(" this layout describes");
            return Err(bad(reason));
        }
        let ir: &'a [u16] = match &samples.ir {
            Some(ir) => ir.as_slice(),
            None => &[],
        };
        assert(ir@ =~= samples@.ir);
        let needed: usize = decoder.ir_samples();
        if ir.len() < needed {
            let mut reason = decimal_text(ir.len() as u64);
            reason.append(" infrared samples is short of the ");
            push_decimal(&mut reason, needed as u64);
            reason.append(" this layout describes");
            return Err(bad(reason));
        }
        let mut colors: Vec<&'a [u16]> = Vec::new();
        let mut c: usize = 0;
        while c < samples.colors.len()
            invariant
                c <= samples.colors@.len(),
                colors@.len() == c,
                forall|k: int| 0 <= k < c ==> (#[trigger] colors@[k])@ == samples@.colors[k],
            decreases samples.colors@.len() - c,
        {
            colors.push(samples.colors[c].as_slice());
            c += 1;
        }
        Ok(Image { colors, ir, rows, cols, bits: layout.bits_per_sample })
    }
}

/// The first plane that does not hold `len` samples
fn find_short(
    colors: &Vec<Vec<u16>>,
    len: usize,
    w: Ghost<Weave>,
    s: Ghost<Planes>,
) -> (r: Option<usize>)
    requires
        len == w@.rows * w@.cols,
        s@.colors == planes(colors@, s@.ir).colors,
    ensures
        match r {
            Some(c) => c < colors@.len() && w@.first_short(s@) == Some(c as int),
            None => w@.first_short(s@) is None,
        },
{
    let ghost pick = |c: int| s@.colors[c].len() < w@.rows * w@.cols;
    let mut c: usize = 0;
    while c < colors.len()
        invariant
            c <= colors@.len(),
            len == w@.rows * w@.cols,
            s@.colors == planes(colors@, s@.ir).colors,
            pick == (|c: int| s@.colors[c].len() < w@.rows * w@.cols),
            w@.first_short(s@) == first_index(s@.colors.len() as int, pick, c as int),
        decreases colors@.len() - c,
    {
        if colors[c].len() < len {
            return Some(c);
        }
        c += 1;
    }
    None
}

/// How a stream is scrambled, and where one block of it belongs
///
/// The sensor bar is the image's vertical axis and reads out backwards. The
/// stage advances one column per position and the CCD's rows sit `gap` columns
/// apart, so `gap` stage positions fill a contiguous run of `gap * ccd_lines`
/// columns: `[row 0 x gap][row 1 x gap][row 2 x gap]`. A single-line pass is
/// the same readout with one CCD row, where `gap` is 1 and a block is one line
/// of the feed.
///
/// A stage position emits the color channels, then the channels read once, then
/// the color channels again for each further reading.
pub struct Weave {
    /// Output rows, which is the sensor bar
    pub rows: int,
    /// Output columns, which is stage positions times CCD rows
    pub cols: int,
    /// CCD rows read at once
    pub ccd_lines: int,
    /// Stage positions in one interleave block
    pub gap: int,
    /// The channels, in SCAN order
    pub channels: Seq<u8>,
    /// Times each color is read
    pub readings: int,
    /// Bytes in one sample
    pub width: int,
    /// The rows' remap onto each other, where the unit gave us one
    pub curves: Option<Curves>,
}

impl Weave {
    /// Color planes
    pub open spec fn colors(self) -> int {
        colors_in(self.channels, self.channels.len() as int)
    }

    /// Channels that are never repeated
    pub open spec fn once(self) -> int {
        self.channels.len() - self.colors()
    }

    /// Readouts in one stage position
    pub open spec fn readouts(self) -> int {
        readouts_of(self.channels, self.readings)
    }

    /// Samples in one readout
    pub open spec fn readout(self) -> int {
        self.rows * self.ccd_lines
    }

    /// Samples in one stage position
    pub open spec fn stage(self) -> int {
        self.readouts() * self.readout()
    }

    /// Columns one block fills
    pub open spec fn strip(self) -> int {
        self.gap * self.ccd_lines
    }

    /// Bytes in one block
    pub open spec fn block_bytes(self) -> int {
        self.gap * self.stage() * self.width
    }

    /// Blocks the layout promises
    pub open spec fn blocks(self) -> int {
        self.cols / self.strip()
    }

    /// Samples the infrared buffer holds
    pub open spec fn ir_samples(self) -> int {
        self.rows * self.cols * self.once()
    }

    /// Whether a stream can be shaped like this
    pub open spec fn valid(self) -> bool {
        &&& 0 <= self.rows
        &&& 0 <= self.cols
        &&& 1 <= self.ccd_lines <= 255
        &&& 1 <= self.gap <= u32::MAX
        &&& 1 <= self.readings <= 255
        &&& self.width == 1 || self.width == 2
        &&& self.cols % self.strip() == 0
    }

    /// Whether a block is one the machine can hold
    pub open spec fn block_fits(self) -> bool {
        &&& self.readouts() <= usize::MAX
        &&& self.readout() <= usize::MAX
        &&& self.block_bytes() <= usize::MAX
    }

    /// Whether the buffers are ones the machine can hold
    pub open spec fn planes_fit(self) -> bool {
        &&& self.rows * self.cols <= usize::MAX
        &&& self.ir_samples() <= usize::MAX
    }

    /// The same stream, read with its rows corrected against each other where
    /// there is more than one
    pub open spec fn correcting(self, curves: Curves) -> Weave {
        if self.ccd_lines > 1 {
            Weave { curves: Some(curves), ..self }
        } else {
            self
        }
    }

    /// The channel of color plane `c`
    pub open spec fn color_at(self, c: int) -> int {
        choose|k: int|
            0 <= k < self.channels.len() && is_color_id(self.channels[k]) && #[trigger] colors_in(
                self.channels,
                k,
            ) == c
    }

    /// The last of the first `n` channels that is read once, which is what the
    /// infrared buffer is left with
    pub open spec fn last_once(self, n: int) -> int
        decreases n,
    {
        if n <= 0 {
            -1
        } else if !is_color_id(self.channels[n - 1]) {
            n - 1
        } else {
            self.last_once(n - 1)
        }
    }

    /// How many times channel `k` is read
    pub open spec fn repeats(self, k: int) -> int {
        if is_color_id(self.channels[k]) {
            self.readings
        } else {
            1
        }
    }

    /// The readout that carries reading `r` of channel `k`
    pub open spec fn slot(self, k: int, r: int) -> int {
        let before = colors_in(self.channels, k);
        if !is_color_id(self.channels[k]) {
            self.colors() + (k - before)
        } else if r == 0 {
            before
        } else {
            self.channels.len() + before + (r - 1) * self.colors()
        }
    }

    /// Where in a block a sample sits
    pub open spec fn index(self, col: int, p: int, slot: int) -> int {
        (col % self.gap) * self.stage() + col / self.gap + p * self.ccd_lines + slot
            * self.readout()
    }

    /// Sample `i` of a block, whichever width it has
    pub open spec fn sample(self, block: Seq<u8>, i: int) -> u16 {
        if self.width == 1 {
            block[i] as u16
        } else {
            be16_at(block, 2 * i)
        }
    }

    /// A sample off a CCD row, brought onto the reference row
    pub open spec fn corrected(self, line: int, raw: u16) -> u16 {
        match self.curves {
            Some(curves) => curves.corrected(line, raw),
            None => raw,
        }
    }

    /// Reading `r` of channel `k`, at column `col` of a block and sensor pixel `p`
    pub open spec fn reading(self, block: Seq<u8>, col: int, p: int, k: int, r: int) -> u16 {
        self.corrected(
            col / self.gap,
            self.sample(block, self.index(col, p, self.slot(k, r))),
        )
    }

    /// The first `n` readings together
    pub open spec fn total(self, block: Seq<u8>, col: int, p: int, k: int, n: int) -> int
        decreases n,
    {
        if n <= 0 {
            0
        } else {
            self.total(block, col, p, k, n - 1) + self.reading(block, col, p, k, n - 1)
        }
    }

    /// The readings of a channel averaged, to the nearest
    pub open spec fn value(self, block: Seq<u8>, col: int, p: int, k: int) -> u16 {
        let n = self.repeats(k);
        ((self.total(block, col, p, k, n) + n / 2) / n) as u16
    }

    /// The column of a block that a pixel of the image is in
    pub open spec fn col_of(self, n: int, i: int) -> int {
        i % self.cols - n * self.strip()
    }

    /// The sensor pixel that a pixel of the image comes from: the bar reads out
    /// opposite to increasing y
    pub open spec fn bar_of(self, i: int) -> int {
        self.rows - 1 - i / self.cols
    }

    /// Whether block `n` carries pixel `i` of the image
    pub open spec fn covers(self, n: int, i: int) -> bool {
        &&& 0 <= i < self.rows * self.cols
        &&& 0 <= self.col_of(n, i) < self.strip()
    }

    /// Pixel `i` of channel `k` as block `n` carries it
    pub open spec fn pixel(self, n: int, block: Seq<u8>, k: int, i: int) -> u16 {
        self.value(block, self.col_of(n, i), self.bar_of(i), k)
    }

    /// What of block `n` has been written by the time the columns before `col`
    /// and, of that one, the sensor pixels before `p` have been
    pub open spec fn written(self, n: int, i: int, col: int, p: int) -> bool {
        self.covers(n, i) && (self.col_of(n, i) < col || self.col_of(n, i) == col && self.bar_of(i)
            < p)
    }

    /// The buffers with that much of a block in them
    pub open spec fn partly(
        self,
        n: int,
        block: Seq<u8>,
        s: Planes,
        col: int,
        p: int,
    ) -> Planes {
        Planes {
            colors: Seq::new(
                s.colors.len(),
                |c: int|
                    Seq::new(
                        s.colors[c].len(),
                        |i: int|
                            if self.written(n, i, col, p) {
                                self.pixel(n, block, self.color_at(c), i)
                            } else {
                                s.colors[c][i]
                            },
                    ),
            ),
            ir: if self.once() == 0 {
                s.ir
            } else {
                Seq::new(
                    s.ir.len(),
                    |i: int|
                        if self.written(n, i, col, p) {
                            self.pixel(n, block, self.last_once(self.channels.len() as int), i)
                        } else {
                            s.ir[i]
                        },
                )
            },
        }
    }

    /// The buffers after block `n`: its columns are what it carries, and nothing
    /// else has moved
    pub open spec fn after_block(self, n: int, block: Seq<u8>, s: Planes) -> Planes {
        Planes {
            colors: Seq::new(
                s.colors.len(),
                |c: int|
                    Seq::new(
                        s.colors[c].len(),
                        |i: int|
                            if self.covers(n, i) {
                                self.pixel(n, block, self.color_at(c), i)
                            } else {
                                s.colors[c][i]
                            },
                    ),
            ),
            ir: if self.once() == 0 {
                s.ir
            } else {
                Seq::new(
                    s.ir.len(),
                    |i: int|
                        if self.covers(n, i) {
                            self.pixel(n, block, self.last_once(self.channels.len() as int), i)
                        } else {
                            s.ir[i]
                        },
                )
            },
        }
    }

    /// The first color plane too short for the image
    pub open spec fn first_short(self, s: Planes) -> Option<int> {
        first_index(
            s.colors.len() as int,
            |c: int| s.colors[c].len() < self.rows * self.cols,
            0,
        )
    }

    /// Why a stream cannot be written into buffers
    pub open spec fn push_fault(self, s: Planes) -> Option<Seq<char>> {
        if s.colors.len() != self.colors() {
            Some(
                "the output holds "@ + decimal(s.colors.len())
                    + " color planes and this stream needs "@ + decimal(self.colors() as nat),
            )
        } else if let Some(c) = self.first_short(s) {
            Some(
                "color plane "@ + decimal(c as nat) + " holds "@ + decimal(s.colors[c].len())
                    + " samples and this stream needs "@ + decimal(
                    (self.rows * self.cols) as nat,
                ),
            )
        } else if s.ir.len() < self.ir_samples() {
            Some(
                "the infrared output holds "@ + decimal(s.ir.len())
                    + " samples and this stream needs "@ + decimal(self.ir_samples() as nat),
            )
        } else {
            None
        }
    }

    /// Whether the buffers hold the whole image
    pub open spec fn room(self, s: Planes) -> bool {
        &&& s.colors.len() == self.colors()
        &&& forall|c: int|
            0 <= c < s.colors.len() ==> (#[trigger] s.colors[c]).len() >= self.rows * self.cols
        &&& s.ir.len() >= self.ir_samples()
    }
}

/// How far a stream has been read
pub struct Progress {
    /// Blocks emitted
    pub done: int,
    /// What the buffers hold
    pub planes: Planes,
    /// The start of a block the bytes ended part-way through
    pub carry: Seq<u8>,
}

/// What comes of reading `bytes` on: every whole block is emitted in turn until
/// the layout has had every block it wanted, and the rest is kept
pub open spec fn feed(w: Weave, done: int, s: Planes, bytes: Seq<u8>) -> Progress
    decreases bytes.len(),
{
    let width = w.block_bytes();
    if width <= 0 || bytes.len() < width {
        Progress { done, planes: s, carry: bytes }
    } else if done >= w.blocks() {
        feed(w, done, s, bytes.skip(width))
    } else {
        feed(w, done + 1, w.after_block(done, bytes.take(width), s), bytes.skip(width))
    }
}

/// What comes of pushing one chunk: nothing where the buffers are faulty
pub open spec fn pushed(w: Weave, from: Progress, chunk: Seq<u8>) -> Progress {
    if w.push_fault(from.planes) is Some {
        from
    } else {
        feed(w, from.done, from.planes, from.carry + chunk)
    }
}

/// What comes of pushing one chunk after another
pub open spec fn pushed_each(w: Weave, from: Progress, chunks: Seq<Seq<u8>>) -> Progress
    decreases chunks.len(),
{
    if chunks.len() == 0 {
        from
    } else {
        pushed(w, pushed_each(w, from, chunks.drop_last()), chunks.last())
    }
}

/// What a layout's stream is shaped like
///
/// The three-line mode reads every CCD row at once; a single line is the same
/// with one row, whatever the unit advertises for the three-line mode.
pub open spec fn weave_of(layout: &Layout) -> Weave {
    let ccd_lines = if layout.interleaving.has(ColorInterleaving::MULTILINE_SIMULTANEOUS)
        && layout.ccd_lines > 1 {
        layout.ccd_lines as int
    } else {
        1
    };
    Weave {
        rows: layout.pixels as int,
        cols: layout.lines as int,
        ccd_lines,
        gap: if ccd_lines == 1 {
            1
        } else {
            layout.registration_gap as int
        },
        channels: layout.channels@,
        readings: readings_of(layout.readings_per_line),
        width: layout.bytes_per_sample as int,
        curves: None,
    }
}

/// Why a stream shaped like this cannot be decoded
pub open spec fn layout_fault(layout: &Layout) -> Option<Seq<char>> {
    let w = weave_of(layout);
    if layout.bytes_per_sample != 1 && layout.bytes_per_sample != 2 {
        Some(
            decimal(layout.bytes_per_sample as nat)
                + " bytes a sample is neither of the widths 2-11-3 defines"@,
        )
    } else if !layout.interleaving.meets(
        ColorInterleaving::MULTILINE_SIMULTANEOUS | ColorInterleaving::LINE_WITHOUT_DISTANCE,
    ) {
        Some(layout.interleaving.wording() + " is not an ordering this decodes yet"@)
    } else if w.gap == 0 || w.cols % w.strip() != 0 {
        Some(
            decimal(layout.lines as nat) + " columns is not a whole number of "@ + decimal(
                w.strip() as nat,
            ) + "-column blocks"@,
        )
    } else {
        None
    }
}

/// Whether the sizes a decodable layout comes to are ones the machine can hold
pub open spec fn layout_fits(layout: &Layout) -> bool {
    layout_fault(layout) is None ==> weave_of(layout).block_fits()
}

/// Where one output channel sits in a stage position
///
/// The first reading is not where the rest continue from, and the slots are not
/// the SCAN order.
#[derive(Clone, Copy)]
struct Slot {
    /// The first reading, on the wire
    first: usize,
    /// The second, after which each further reading steps by `stride`
    next: usize,
    stride: usize,
    /// Readings to average. 1 for a channel multi-sampling does not repeat
    readings: usize,
    /// This channel's plane, for a color slot; unused for infrared, which has
    /// only the one buffer
    out: usize,
    /// Whether this lands in a color plane or the infrared one
    color: bool,
}

impl Slot {
    /// Whether this is where channel `k` of a weave sits
    spec fn is_slot(self, w: Weave, k: int) -> bool {
        &&& self.color == is_color_id(w.channels[k])
        &&& self.readings == w.repeats(k)
        &&& self.first == w.slot(k, 0)
        &&& self.color ==> self.out == colors_in(w.channels, k)
        &&& self.color ==> self.stride == w.colors()
        &&& self.color && self.readings > 1 ==> self.next == w.channels.len() + colors_in(
            w.channels,
            k,
        )
    }

    /// The readout that carries a reading
    fn nth(&self, reading: usize, w: Ghost<Weave>, k: Ghost<int>) -> (r: usize)
        requires
            w@.valid(),
            w@.readouts() <= usize::MAX,
            0 <= k@ < w@.channels.len(),
            self.is_slot(w@, k@),
            reading < self.readings,
        ensures
            r == w@.slot(k@, reading as int),
            r < w@.readouts(),
    {
        proof {
            lemma_slot_inside(w@, k@, reading as int);
        }
        if reading == 0 {
            return self.first;
        }
        proof {
            assert(0 <= (reading - 1) * self.stride) by (nonlinear_arith)
                requires
                    reading >= 1,
                    self.stride >= 0,
            ;
        }
        self.next + (reading - 1) * self.stride
    }

    /// One per output channel, in the order the channel list carries them
    fn every(channels: &[u8], readings: usize, w: Ghost<Weave>) -> (r: Vec<Slot>)
        requires
            w@.channels == channels@,
            w@.readings == readings,
            w@.valid(),
            w@.readouts() <= usize::MAX,
        ensures
            r@.len() == channels@.len(),
            forall|k: int| 0 <= k < r@.len() ==> (#[trigger] r@[k]).is_slot(w@, k),
    {
        let colors: usize = count_colors(channels);
        let once: usize = channels.len() - colors;
        let mut slots: Vec<Slot> = Vec::new();
        let mut color: usize = 0;
        let mut ir: usize = 0;
        let mut n: usize = 0;
        while n < channels.len()
            invariant
                n <= channels@.len(),
                w@.channels == channels@,
                w@.readings == readings,
                w@.valid(),
                w@.readouts() <= usize::MAX,
                colors == w@.colors(),
                once == channels@.len() - colors,
                colors <= channels@.len(),
                color == colors_in(channels@, n as int),
                ir == n - color,
                color <= n,
                slots@.len() == n,
                forall|k: int| 0 <= k < n ==> (#[trigger] slots@[k]).is_slot(w@, k),
            decreases channels@.len() - n,
        {
            proof {
                lemma_colors_bounds(channels@, n as int);
                lemma_colors_bounds(channels@, n + 1);
                lemma_colors_step(channels@, n as int, channels@.len() as int);
                assert(channels@.len() == channels.len());
                if readings > 1 {
                    assert(2 * colors <= colors * readings) by (nonlinear_arith)
                        requires
                            0 <= colors,
                            2 <= readings,
                    ;
                }
            }
            if Channel::from(channels[n]).is_color() {
                slots.push(
                    Slot {
                        first: color,
                        // There is no second reading to place where there is one
                        next: if readings > 1 {
                            colors + once + color
                        } else {
                            0
                        },
                        stride: colors,
                        readings,
                        out: color,
                        color: true,
                    },
                );
                color += 1;
            } else {
                slots.push(
                    Slot { first: colors + ir, next: 0, stride: 0, readings: 1, out: ir, color: false },
                );
                ir += 1;
            }
            n += 1;
        }
        slots
    }
}

/// Every reading is in one of the readouts
proof fn lemma_slot_inside(w: Weave, k: int, r: int)
    requires
        w.valid(),
        0 <= k < w.channels.len(),
        0 <= r < w.repeats(k),
    ensures
        0 <= w.slot(k, r) < w.readouts(),
{
    lemma_colors_bounds(w.channels, k);
    lemma_colors_bounds(w.channels, k + 1);
    lemma_colors_step(w.channels, k + 1, w.channels.len() as int);
    let colors = w.colors();
    let before = colors_in(w.channels, k);
    assert(colors <= colors * w.readings) by (nonlinear_arith)
        requires
            0 <= colors,
            1 <= w.readings,
    ;
    if is_color_id(w.channels[k]) && r > 0 {
        assert((r - 1) * colors + 2 * colors <= colors * w.readings) by (nonlinear_arith)
            requires
                0 <= colors,
                r + 1 <= w.readings,
        ;
        assert(0 <= (r - 1) * colors) by (nonlinear_arith)
            requires
                0 <= colors,
                1 <= r,
        ;
    }
}

/// Every sample that is read is in the block
proof fn lemma_index_inside(w: Weave, col: int, p: int, slot: int)
    requires
        w.valid(),
        0 <= col < w.strip(),
        0 <= p < w.rows,
        0 <= slot < w.readouts(),
    ensures
        0 <= col % w.gap < w.gap,
        0 <= col / w.gap < w.ccd_lines,
        0 <= (col % w.gap) * w.stage(),
        0 <= p * w.ccd_lines,
        0 <= slot * w.readout(),
        0 <= w.index(col, p, slot) < w.gap * w.stage(),
        w.index(col, p, slot) * w.width + w.width <= w.block_bytes(),
{
    let position = col % w.gap;
    let line = col / w.gap;
    let lines = w.ccd_lines;
    let gap = w.gap;
    assert(0 <= position < gap && 0 <= line < lines) by (nonlinear_arith)
        requires
            0 <= col < gap * lines,
            1 <= gap,
            position == col % gap,
            line == col / gap,
    ;
    let readout = w.readout();
    let stage = w.stage();
    let readouts = w.readouts();
    assert(0 <= p * lines && p * lines + lines <= readout) by (nonlinear_arith)
        requires
            0 <= p,
            p + 1 <= w.rows,
            1 <= lines,
            readout == w.rows * lines,
    ;
    assert(0 <= slot * readout && slot * readout + readout <= stage) by (nonlinear_arith)
        requires
            0 <= slot,
            slot + 1 <= readouts,
            0 <= readout,
            stage == readouts * readout,
    ;
    assert(0 <= position * stage && position * stage + stage <= gap * stage) by (nonlinear_arith)
        requires
            0 <= position,
            position + 1 <= gap,
            0 <= stage,
    ;
    let index = w.index(col, p, slot);
    let width = w.width;
    let all = gap * stage;
    assert(index * width + width <= all * width) by (nonlinear_arith)
        requires
            index + 1 <= all,
            1 <= width,
    ;
}

/// Which channel a color plane holds
proof fn lemma_color_at(w: Weave, k: int)
    requires
        0 <= k < w.channels.len(),
        is_color_id(w.channels[k]),
    ensures
        w.color_at(colors_in(w.channels, k)) == k,
{
    let c = colors_in(w.channels, k);
    let other = w.color_at(c);
    assert(0 <= other < w.channels.len() && is_color_id(w.channels[other]) && colors_in(
        w.channels,
        other,
    ) == c);
    if other < k {
        lemma_colors_grow(w.channels, other + 1, k);
    } else if k < other {
        lemma_colors_grow(w.channels, k + 1, other);
    }
}

/// No more colors are counted than channels are passed
proof fn lemma_colors_step(channels: Seq<u8>, a: int, b: int)
    requires
        0 <= a <= b,
    ensures
        colors_in(channels, b) <= colors_in(channels, a) + (b - a),
    decreases b - a,
{
    if a < b {
        lemma_colors_step(channels, a, b - 1);
    }
}

/// A count of colors never falls
proof fn lemma_colors_grow(channels: Seq<u8>, a: int, b: int)
    requires
        0 <= a <= b,
    ensures
        colors_in(channels, a) <= colors_in(channels, b),
    decreases b - a,
{
    if a < b {
        lemma_colors_grow(channels, a, b - 1);
    }
}

/// The one pixel of the image at a column of a block and a sensor pixel
proof fn lemma_pixel_place(w: Weave, n: int, col: int, p: int)
    requires
        w.valid(),
        0 <= n < w.blocks(),
        0 <= col < w.strip(),
        0 <= p < w.rows,
    ensures
        ({
            let x = n * w.strip() + col;
            let i = (w.rows - 1 - p) * w.cols + x;
            &&& 0 <= n * w.strip()
            &&& n * w.strip() + w.strip() <= w.cols
            &&& 0 <= (w.rows - 1 - p) * w.cols
            &&& 0 <= i < w.rows * w.cols
            &&& w.covers(n, i)
            &&& w.col_of(n, i) == col
            &&& w.bar_of(i) == p
            &&& forall|j: int|
                w.covers(n, j) && w.col_of(n, j) == col && w.bar_of(j) == p ==> j == i
        }),
{
    let strip = w.strip();
    let cols = w.cols;
    let blocks = w.blocks();
    assert(strip >= 1) by (nonlinear_arith)
        requires
            w.gap >= 1,
            w.ccd_lines >= 1,
            strip == w.gap * w.ccd_lines,
    ;
    assert(blocks * strip <= cols) by (nonlinear_arith)
        requires
            strip >= 1,
            blocks == cols / strip,
            cols >= 0,
    ;
    assert(n * strip + strip <= blocks * strip && 0 <= n * strip) by (nonlinear_arith)
        requires
            0 <= n,
            n + 1 <= blocks,
            strip >= 1,
    ;
    let x = n * strip + col;
    let y = w.rows - 1 - p;
    let i = y * cols + x;
    assert(0 <= y * cols && y * cols + cols <= w.rows * cols) by (nonlinear_arith)
        requires
            0 <= y,
            y + 1 <= w.rows,
            0 <= cols,
    ;
    assert(i % cols == x && i / cols == y) by {
        vstd::arithmetic::div_mod::lemma_fundamental_div_mod_converse(i, cols, y, x);
    }
    assert forall|j: int|
        w.covers(n, j) && w.col_of(n, j) == col && w.bar_of(j) == p implies j == i by {
        vstd::arithmetic::div_mod::lemma_fundamental_div_mod(j, cols);
        assert(j / cols == y && j % cols == x);
        assert(cols * (j / cols) == y * cols) by (nonlinear_arith)
            requires
                j / cols == y,
        ;
    }
}

/// How a stream is scrambled, as the decoder works with it
struct Transposed<'a> {
    rows: usize,
    cols: usize,
    ccd_lines: usize,
    gap: usize,
    /// Where each output channel's samples sit, in the output's order
    slots: Vec<Slot>,
    /// Color planes among `slots`
    colors: usize,
    /// Infrared channels among `slots`, the infrared buffer's stride
    ir: usize,
    /// Samples in one readout
    readout: usize,
    /// Samples in one stage position
    stage: usize,
    bytes_per_sample: usize,
    curves: Option<&'a Curves>,
    channels: Ghost<Seq<u8>>,
    readings: Ghost<int>,
}

/// The buffers with one pixel of every channel written
spec fn put_pixel(w: Weave, block: Seq<u8>, col: int, p: int, i: int, s: Planes) -> Planes {
    Planes {
        colors: Seq::new(
            s.colors.len(),
            |c: int| s.colors[c].update(i, w.value(block, col, p, w.color_at(c))),
        ),
        ir: if w.once() == 0 {
            s.ir
        } else {
            s.ir.update(i, w.value(block, col, p, w.last_once(w.channels.len() as int)))
        },
    }
}

impl<'a> Transposed<'a> {
    /// The shape this is
    spec fn weave(&self) -> Weave {
        Weave {
            rows: self.rows as int,
            cols: self.cols as int,
            ccd_lines: self.ccd_lines as int,
            gap: self.gap as int,
            channels: self.channels@,
            readings: self.readings@,
            width: self.bytes_per_sample as int,
            curves: match self.curves {
                Some(curves) => Some(*curves),
                None => None,
            },
        }
    }

    spec fn wf(&self) -> bool {
        let w = self.weave();
        &&& w.valid()
        &&& w.block_fits()
        &&& self.readout == w.readout()
        &&& self.stage == w.stage()
        &&& self.colors == w.colors()
        &&& self.ir == w.once()
        &&& self.slots@.len() == w.channels.len()
        &&& forall|k: int| 0 <= k < self.slots@.len() ==> (#[trigger] self.slots@[k]).is_slot(w, k)
    }

    /// Bytes one [`emit`](Self::emit) consumes
    fn block_bytes(&self) -> (r: usize)
        requires
            self.wf(),
        ensures
            r == self.weave().block_bytes(),
    {
        proof {
            let all = self.gap * self.stage;
            assert(0 <= all && all <= all * self.bytes_per_sample) by (nonlinear_arith)
                requires
                    all == self.gap * self.stage,
                    self.gap >= 0,
                    self.stage >= 0,
                    self.bytes_per_sample >= 1,
            ;
        }
        self.gap * self.stage * self.bytes_per_sample
    }

    /// Blocks the layout promises
    fn blocks(&self) -> (r: usize)
        requires
            self.wf(),
        ensures
            r == self.weave().blocks(),
    {
        proof {
            assert(1 <= self.gap * self.ccd_lines <= u32::MAX * 255) by (nonlinear_arith)
                requires
                    1 <= self.gap <= u32::MAX,
                    1 <= self.ccd_lines <= 255,
            ;
            let strip = self.gap * self.ccd_lines;
            assert(0 <= self.cols as int / strip <= self.cols) by (nonlinear_arith)
                requires
                    strip >= 1,
                    self.cols >= 0,
            ;
        }
        let strip: u64 = self.gap as u64 * self.ccd_lines as u64;
        (self.cols as u64 / strip) as usize
    }

    /// Samples the infrared buffer holds
    fn ir_samples(&self) -> (r: usize)
        requires
            self.wf(),
            self.weave().planes_fit(),
        ensures
            r == self.weave().ir_samples(),
    {
        self.rows * self.cols * self.ir
    }

    /// The readings of one channel averaged
    ///
    /// Integers throughout. Rounding to nearest keeps the average off a
    /// systematic bias toward zero. A sample is corrected before the average,
    /// not after: the remap is not linear, so the two orders disagree.
    fn averaged(&self, block: &[u8], col: usize, p: usize, k: usize) -> (r: u16)
        requires
            self.wf(),
            block@.len() == self.weave().block_bytes(),
            col < self.weave().strip(),
            p < self.rows,
            k < self.slots@.len(),
        ensures
            r == self.weave().value(block@, col as int, p as int, k as int),
    {
        let ghost w = self.weave();
        let slot = self.slots[k];
        assert(slot.is_slot(w, k as int));
        proof {
            lemma_slot_inside(w, k as int, 0);
            lemma_index_inside(w, col as int, p as int, w.slot(k as int, 0));
        }
        // A block lays its stage positions out under each CCD row in turn
        let position: usize = col % self.gap;
        let line: usize = col / self.gap;
        let base: usize = position * self.stage + line + p * self.ccd_lines;
        let mut sum: u32 = 0;
        let mut r: usize = 0;
        while r < slot.readings
            invariant
                self.wf(),
                w == self.weave(),
                block@.len() == w.block_bytes(),
                block@.len() == block.len(),
                col < w.strip(),
                p < self.rows,
                k < self.slots@.len(),
                slot.is_slot(w, k as int),
                slot.readings <= 255,
                r <= slot.readings,
                line == col as int / w.gap,
                base == (col as int % w.gap) * w.stage() + col as int / w.gap + p * w.ccd_lines,
                sum == w.total(block@, col as int, p as int, k as int, r as int),
                sum <= 65535 * r,
            decreases slot.readings - r,
        {
            let at: usize = slot.nth(r, Ghost(w), Ghost(k as int));
            proof {
                lemma_index_inside(w, col as int, p as int, at as int);
                let index = w.index(col as int, p as int, at as int);
                assert(index <= index * w.width) by (nonlinear_arith)
                    requires
                        index >= 0,
                        w.width >= 1,
                ;
            }
            let index: usize = base + at * self.readout;
            let raw: u16 = if self.bytes_per_sample == 1 {
                block[index] as u16
            } else {
                join16(block[2 * index], block[2 * index + 1])
            };
            let one: u16 = match self.curves {
                Some(curves) => curves.correct(line, raw),
                None => raw,
            };
            assert(one == w.reading(block@, col as int, p as int, k as int, r as int));
            sum += one as u32;
            r += 1;
        }
        let n: u32 = slot.readings as u32;
        proof {
            assert((sum + n as int / 2) / n as int <= 65535) by (nonlinear_arith)
                requires
                    1 <= n,
                    sum <= 65535 * n,
            ;
        }
        ((sum + n / 2) / n) as u16
    }

    /// Write one pixel of every channel
    fn put(
        &self,
        block: &[u8],
        col: usize,
        p: usize,
        pixel: usize,
        colors_out: &mut Vec<Vec<u16>>,
        ir_out: &mut Vec<u16>,
    )
        requires
            self.wf(),
            block@.len() == self.weave().block_bytes(),
            col < self.weave().strip(),
            p < self.rows,
            pixel < self.weave().rows * self.weave().cols,
            self.weave().room(planes(old(colors_out)@, old(ir_out)@)),
        ensures
            planes(final(colors_out)@, final(ir_out)@) == put_pixel(
                self.weave(),
                block@,
                col as int,
                p as int,
                pixel as int,
                planes(old(colors_out)@, old(ir_out)@),
            ),
    {
        let ghost w = self.weave();
        let ghost s = planes(colors_out@, ir_out@);
        let ghost count = w.channels.len() as int;
        let mut k: usize = 0;
        while k < self.slots.len()
            invariant
                self.wf(),
                w == self.weave(),
                count == w.channels.len(),
                count == self.slots@.len(),
                s.colors.len() == w.colors(),
                w.room(s),
                block@.len() == w.block_bytes(),
                col < w.strip(),
                p < self.rows,
                pixel < w.rows * w.cols,
                k <= count,
                colors_out@.len() == s.colors.len(),
                ir_out@.len() == s.ir.len(),
                forall|c: int|
                    0 <= c < s.colors.len() ==> (#[trigger] colors_out@[c])@ == if c < colors_in(
                        w.channels,
                        k as int,
                    ) {
                        s.colors[c].update(
                            pixel as int,
                            w.value(block@, col as int, p as int, w.color_at(c)),
                        )
                    } else {
                        s.colors[c]
                    },
                ir_out@ == if w.last_once(k as int) < 0 {
                    s.ir
                } else {
                    s.ir.update(
                        pixel as int,
                        w.value(block@, col as int, p as int, w.last_once(k as int)),
                    )
                },
            decreases count - k,
        {
            let value: u16 = self.averaged(block, col, p, k);
            let slot = self.slots[k];
            assert(slot.is_slot(w, k as int));
            proof {
                lemma_colors_bounds(w.channels, k as int);
                lemma_colors_bounds(w.channels, k + 1);
            }
            if slot.color {
                proof {
                    lemma_color_at(w, k as int);
                    assert(s.colors[slot.out as int].len() >= w.rows * w.cols);
                    assert(colors_out@[slot.out as int]@ == s.colors[slot.out as int]);
                }
                colors_out[slot.out][pixel] = value;
            } else {
                proof {
                    lemma_colors_bounds(w.channels, k as int);
                    lemma_colors_step(w.channels, k + 1, count);
                    lemma_infrared_room(w, s);
                }
                ir_out[pixel] = value;
                assert(ir_out@ =~= s.ir.update(pixel as int, value));
            }
            k += 1;
        }
        proof {
            lemma_last_once(w, count);
            let done = planes(colors_out@, ir_out@);
            let want = put_pixel(w, block@, col as int, p as int, pixel as int, s);
            assert forall|c: int| 0 <= c < s.colors.len() implies done.colors[c]
                == want.colors[c] by {
                assert(colors_out@[c]@ == want.colors[c]);
            }
            assert(done.colors =~= want.colors);
        }
    }

    /// Write one block's columns
    fn emit(
        &self,
        n: usize,
        block: &[u8],
        colors_out: &mut Vec<Vec<u16>>,
        ir_out: &mut Vec<u16>,
    )
        requires
            self.wf(),
            self.weave().planes_fit(),
            n < self.weave().blocks(),
            block@.len() == self.weave().block_bytes(),
            self.weave().room(planes(old(colors_out)@, old(ir_out)@)),
        ensures
            planes(final(colors_out)@, final(ir_out)@) == self.weave().after_block(
                n as int,
                block@,
                planes(old(colors_out)@, old(ir_out)@),
            ),
    {
        let ghost w = self.weave();
        let ghost s = planes(colors_out@, ir_out@);
        proof {
            lemma_strip_fits(w, n as int);
            lemma_partly_nothing(w, n as int, block@, s);
        }
        let strip: usize = self.gap * self.ccd_lines;
        let first: usize = n * strip;
        let mut col: usize = 0;
        while col < strip
            invariant
                self.wf(),
                w == self.weave(),
                w.planes_fit(),
                w.room(s),
                n < w.blocks(),
                strip == w.strip(),
                first == n * strip,
                first + strip <= self.cols,
                block@.len() == w.block_bytes(),
                col <= strip,
                planes(colors_out@, ir_out@) == w.partly(n as int, block@, s, col as int, 0),
            decreases strip - col,
        {
            let x: usize = first + col;
            let mut p: usize = 0;
            while p < self.rows
                invariant
                    self.wf(),
                    w == self.weave(),
                    w.planes_fit(),
                    w.room(s),
                    n < w.blocks(),
                    strip == w.strip(),
                    first == n * strip,
                    first + strip <= self.cols,
                    block@.len() == w.block_bytes(),
                    col < strip,
                    x == first + col,
                    p <= self.rows,
                    planes(colors_out@, ir_out@) == w.partly(
                        n as int,
                        block@,
                        s,
                        col as int,
                        p as int,
                    ),
                decreases self.rows - p,
            {
                proof {
                    lemma_pixel_place(w, n as int, col as int, p as int);
                    lemma_partly_room(w, n as int, block@, s, col as int, p as int);
                }
                // The bar reads out opposite to increasing y
                let y: usize = self.rows - 1 - p;
                let pixel: usize = y * self.cols + x;
                self.put(block, col, p, pixel, colors_out, ir_out);
                proof {
                    lemma_partly_step(w, n as int, block@, s, col as int, p as int);
                }
                p += 1;
            }
            proof {
                lemma_partly_column(w, n as int, block@, s, col as int);
            }
            col += 1;
        }
        proof {
            lemma_partly_all(w, n as int, block@, s);
        }
    }
}

/// A block's columns are all in the image
proof fn lemma_strip_fits(w: Weave, n: int)
    requires
        w.valid(),
        0 <= n < w.blocks(),
    ensures
        1 <= w.strip() <= w.cols,
        0 <= n * w.strip(),
        n * w.strip() + w.strip() <= w.cols,
{
    let strip = w.strip();
    let cols = w.cols;
    let blocks = w.blocks();
    assert(strip >= 1) by (nonlinear_arith)
        requires
            w.gap >= 1,
            w.ccd_lines >= 1,
            strip == w.gap * w.ccd_lines,
    ;
    assert(blocks * strip <= cols) by (nonlinear_arith)
        requires
            strip >= 1,
            blocks == cols / strip,
            cols >= 0,
    ;
    assert(n * strip + strip <= blocks * strip && 0 <= n * strip) by (nonlinear_arith)
        requires
            0 <= n,
            n + 1 <= blocks,
            strip >= 1,
    ;
}

/// There is a channel read once exactly where one is counted
proof fn lemma_last_once(w: Weave, n: int)
    requires
        0 <= n <= w.channels.len(),
    ensures
        w.last_once(n) < n,
        w.last_once(n) < 0 <==> colors_in(w.channels, n) == n,
        w.last_once(n) >= 0 ==> !is_color_id(w.channels[w.last_once(n)]),
    decreases n,
{
    if n > 0 {
        lemma_last_once(w, n - 1);
        lemma_colors_bounds(w.channels, n - 1);
    }
}

/// The infrared buffer holds the image, where there is a channel for it
proof fn lemma_infrared_room(w: Weave, s: Planes)
    requires
        0 <= w.rows,
        0 <= w.cols,
        w.room(s),
        w.once() != 0,
    ensures
        s.ir.len() >= w.rows * w.cols,
{
    lemma_colors_bounds(w.channels, w.channels.len() as int);
    let len = w.rows * w.cols;
    let once = w.once();
    assert(0 <= len) by (nonlinear_arith)
        requires
            0 <= w.rows,
            0 <= w.cols,
            len == w.rows * w.cols,
    ;
    assert(len <= len * once) by (nonlinear_arith)
        requires
            0 <= len,
            1 <= once,
    ;
}

/// Nothing of a block has been written before its first column
proof fn lemma_partly_nothing(w: Weave, n: int, block: Seq<u8>, s: Planes)
    requires
        w.valid(),
    ensures
        w.partly(n, block, s, 0, 0) == s,
{
    let part = w.partly(n, block, s, 0, 0);
    assert forall|i: int| !w.written(n, i, 0, 0) by {
        if w.covers(n, i) {
            lemma_bar_bounds(w, i);
        }
    }
    assert forall|c: int| 0 <= c < s.colors.len() implies part.colors[c] == s.colors[c] by {
        assert(part.colors[c] =~= s.colors[c]);
    }
    assert(part.colors =~= s.colors);
    assert(part.ir =~= s.ir);
}

/// A pixel of the image comes from the sensor bar
proof fn lemma_bar_bounds(w: Weave, i: int)
    requires
        0 <= w.rows,
        0 <= w.cols,
        0 <= i < w.rows * w.cols,
    ensures
        w.cols > 0,
        0 <= w.bar_of(i) < w.rows,
        0 <= i % w.cols < w.cols,
{
    assert(w.cols > 0) by (nonlinear_arith)
        requires
            0 <= w.rows,
            0 <= w.cols,
            0 <= i < w.rows * w.cols,
    ;
    assert(0 <= i / w.cols < w.rows) by (nonlinear_arith)
        requires
            0 < w.cols,
            0 <= i < w.rows * w.cols,
    ;
}

/// Writing a block does not change how much the buffers hold
proof fn lemma_partly_room(w: Weave, n: int, block: Seq<u8>, s: Planes, col: int, p: int)
    requires
        w.room(s),
    ensures
        w.room(w.partly(n, block, s, col, p)),
{
    let part = w.partly(n, block, s, col, p);
    assert forall|c: int| 0 <= c < part.colors.len() implies (#[trigger] part.colors[c]).len()
        >= w.rows * w.cols by {
        assert(part.colors[c].len() == s.colors[c].len());
    }
}

/// One pixel further
proof fn lemma_partly_step(w: Weave, n: int, block: Seq<u8>, s: Planes, col: int, p: int)
    requires
        w.valid(),
        w.room(s),
        0 <= n < w.blocks(),
        0 <= col < w.strip(),
        0 <= p < w.rows,
    ensures
        put_pixel(
            w,
            block,
            col,
            p,
            (w.rows - 1 - p) * w.cols + (n * w.strip() + col),
            w.partly(n, block, s, col, p),
        ) == w.partly(n, block, s, col, p + 1),
{
    lemma_pixel_place(w, n, col, p);
    let at = (w.rows - 1 - p) * w.cols + (n * w.strip() + col);
    let before = w.partly(n, block, s, col, p);
    let after = w.partly(n, block, s, col, p + 1);
    let put = put_pixel(w, block, col, p, at, before);
    assert forall|i: int| w.written(n, i, col, p + 1) == (w.written(n, i, col, p) || i == at) by {
        if w.covers(n, i) && w.col_of(n, i) == col && w.bar_of(i) == p {
            assert(i == at);
        }
    }
    assert(!w.written(n, at, col, p));
    assert forall|c: int| 0 <= c < s.colors.len() implies put.colors[c] == after.colors[c] by {
        assert(s.colors[c].len() >= w.rows * w.cols);
        assert(put.colors[c] =~= after.colors[c]);
    }
    assert(put.colors =~= after.colors);
    if w.once() != 0 {
        lemma_infrared_room(w, s);
        assert(put.ir =~= after.ir);
    }
}

/// A whole column is where the next one starts
proof fn lemma_partly_column(w: Weave, n: int, block: Seq<u8>, s: Planes, col: int)
    requires
        w.valid(),
    ensures
        w.partly(n, block, s, col, w.rows) == w.partly(n, block, s, col + 1, 0),
{
    let a = w.partly(n, block, s, col, w.rows);
    let b = w.partly(n, block, s, col + 1, 0);
    assert forall|i: int| w.written(n, i, col, w.rows) == w.written(n, i, col + 1, 0) by {
        if w.covers(n, i) {
            lemma_bar_bounds(w, i);
        }
    }
    assert forall|c: int| 0 <= c < s.colors.len() implies a.colors[c] == b.colors[c] by {
        assert(a.colors[c] =~= b.colors[c]);
    }
    assert(a.colors =~= b.colors);
    assert(a.ir =~= b.ir);
}

/// Every column is the whole block
proof fn lemma_partly_all(w: Weave, n: int, block: Seq<u8>, s: Planes)
    requires
        w.valid(),
    ensures
        w.partly(n, block, s, w.strip(), 0) == w.after_block(n, block, s),
{
    let a = w.partly(n, block, s, w.strip(), 0);
    let b = w.after_block(n, block, s);
    assert(forall|i: int| w.written(n, i, w.strip(), 0) == w.covers(n, i));
    assert forall|c: int| 0 <= c < s.colors.len() implies a.colors[c] == b.colors[c] by {
        assert(a.colors[c] =~= b.colors[c]);
    }
    assert(a.colors =~= b.colors);
    assert(a.ir =~= b.ir);
}

/// Unscrambles a scan into a caller-owned [`Samples`], one plane per channel
///
/// A chunk can end anywhere, so partial blocks are held until the rest arrives
pub struct Decoder<'a> {
    geometry: Transposed<'a>,
    /// A block the last chunk ended part-way through
    carry: Vec<u8>,
    /// Blocks emitted so far
    done: usize,
}

impl<'a> Decoder<'a> {
    /// What the stream is shaped like
    pub closed spec fn weave(&self) -> Weave {
        self.geometry.weave()
    }

    /// Blocks emitted so far
    pub closed spec fn done(&self) -> int {
        self.done as int
    }

    /// The start of a block the last chunk ended part-way through
    pub closed spec fn carry(&self) -> Seq<u8> {
        self.carry@
    }

    /// What holds of every decoder: no whole block is ever held back, and no
    /// more are emitted than the layout promised
    pub closed spec fn wf(&self) -> bool {
        &&& self.geometry.wf()
        &&& self.done <= self.weave().blocks()
        &&& self.carry@.len() < self.weave().block_bytes() || self.carry@.len() == 0
    }

    /// A decoder is of a shape a stream can have, and never emits more blocks than
    /// its layout promised
    pub proof fn law_a_decoder_keeps_its_shape(&self)
        requires
            self.wf(),
        ensures
            self.weave().valid(),
            self.weave().block_fits(),
            0 <= self.done() <= self.weave().blocks(),
    {
    }

    /// A decoder for a stream shaped like `layout`
    ///
    /// Both supported interleavings are the same readout: the sensor bar sits
    /// on the output's Y axis and reads out backwards, stage positions tile
    /// against CCD rows in blocks of the line gap, and each channel and
    /// multi-sample repeat gets its own readout slot. The three-line mode reads
    /// every CCD row at once; [`LINE_WITHOUT_DISTANCE`](ColorInterleaving::LINE_WITHOUT_DISTANCE)
    /// is the same with one row, where the gap is 1 and a block is one line of
    /// the feed.
    ///
    /// Whatever the line count, a feed position hands back `readouts()`
    /// exposures: the first reading's colors, then the channels that are never
    /// repeated, then the colors again for each further reading.
    pub fn new(layout: &Layout) -> (r: Result<Decoder<'a>, Error>)
        requires
            layout_fits(layout),
        ensures
            match layout_fault(layout) {
                Some(reason) => r matches Err(e) && e.is_unsupported("decode"@, reason),
                None => r matches Ok(decoder) && {
                    &&& decoder.wf()
                    &&& decoder.weave() == weave_of(layout)
                    &&& decoder.done() == 0
                    &&& decoder.carry() == Seq::<u8>::empty()
                },
            },
    {
        if layout.bytes_per_sample != 1 && layout.bytes_per_sample != 2 {
            let mut reason = decimal_text(layout.bytes_per_sample as u64);
            reason.append(" bytes a sample is neither of the widths 2-11-3 defines");
            return Err(bad(reason));
        }
        if !layout.interleaving.intersects(
            ColorInterleaving::MULTILINE_SIMULTANEOUS | ColorInterleaving::LINE_WITHOUT_DISTANCE,
        ) {
            let mut reason = layout.interleaving.text();
            reason.append(" is not an ordering this decodes yet");
            return Err(bad(reason));
        }
        let rows: usize = layout.pixels as usize;
        let cols: usize = layout.lines as usize;
        // One CCD row is the same readout: `gap` 1 and a block of one line of
        // the feed, so repeats sit exactly where they do in the three-line
        // readout
        let ccd_lines: usize = if layout.interleaving.contains(
            ColorInterleaving::MULTILINE_SIMULTANEOUS,
        ) && layout.ccd_lines > 1 {
            layout.ccd_lines as usize
        } else {
            // A single line, whatever the unit advertises for the three-line mode
            1
        };
        let gap: usize = if ccd_lines == 1 {
            1
        } else {
            layout.registration_gap as usize
        };
        let ghost w = weave_of(layout);
        proof {
            assert(0 <= gap * ccd_lines <= u32::MAX * 255) by (nonlinear_arith)
                requires
                    0 <= gap <= u32::MAX,
                    1 <= ccd_lines <= 255,
            ;
            if gap >= 1 {
                assert(gap * ccd_lines >= 1) by (nonlinear_arith)
                    requires
                        1 <= gap,
                        1 <= ccd_lines,
                ;
            }
        }
        let strip: u64 = gap as u64 * ccd_lines as u64;
        if gap == 0 || cols as u64 % strip != 0 {
            let mut reason = decimal_text(cols as u64);
            reason.append(" columns is not a whole number of ");
            push_decimal(&mut reason, strip);
            reason.append("-column blocks");
            return Err(bad(reason));
        }
        let readings: usize = if layout.readings_per_line == 0 {
            1
        } else {
            layout.readings_per_line as usize
        };
        proof {
            lemma_sizes_fit(w);
        }
        let readout: usize = rows * ccd_lines;
        let colors: usize = count_colors(layout.channels.as_slice());
        assert(layout.channels@.len() == layout.channels.len());
        let ir: usize = layout.channels.len() - colors;
        let stage: usize = layout.readouts() * readout;
        let slots = Slot::every(layout.channels.as_slice(), readings, Ghost(w));
        let geometry = Transposed {
            rows,
            cols,
            ccd_lines,
            gap,
            slots,
            colors,
            ir,
            readout,
            stage,
            bytes_per_sample: layout.bytes_per_sample as usize,
            curves: None,
            channels: Ghost(layout.channels@),
            readings: Ghost(readings as int),
        };
        proof {
            assert(geometry.weave() == w);
            lemma_some_blocks(w);
        }
        Ok(Decoder { geometry, carry: Vec::new(), done: 0 })
    }

    /// Correct the CCD's rows against each other as the stream is unscrambled
    ///
    /// Only the three-line mode has rows to correct. A single-line pass reads
    /// every sample off one row, so there is no inter-line mismatch and a
    /// correction would only distort it.
    pub fn correcting(self, curves: &'a Curves) -> (r: Decoder<'a>)
        requires
            self.wf(),
        ensures
            r.wf(),
            r.done() == self.done(),
            r.carry() == self.carry(),
            r.weave() == self.weave().correcting(*curves),
    {
        let mut r = self;
        if r.geometry.ccd_lines > 1 {
            let ghost before = r.geometry;
            r.geometry.curves = Some(curves);
            proof {
                let w = r.geometry.weave();
                assert(w == (Weave { curves: Some(*curves), ..before.weave() }));
                assert forall|k: int| 0 <= k < r.geometry.slots@.len() implies (
                #[trigger] r.geometry.slots@[k]).is_slot(w, k) by {
                    assert(before.slots@[k].is_slot(before.weave(), k));
                }
            }
        }
        r
    }

    /// Rows and columns of the image: the sensor bar down, the feed across
    pub fn shape(&self) -> (r: (usize, usize))
        ensures
            r.0 == self.weave().rows,
            r.1 == self.weave().cols,
    {
        (self.geometry.rows, self.geometry.cols)
    }

    /// Color planes this decoder produces
    pub fn colors(&self) -> (r: usize)
        requires
            self.wf(),
        ensures
            r == self.weave().colors(),
    {
        self.geometry.colors
    }

    /// Samples the infrared buffer has to hold, 0 where the pass carries none
    pub fn ir_samples(&self) -> (r: usize)
        requires
            self.wf(),
            self.weave().planes_fit(),
        ensures
            r == self.weave().ir_samples(),
    {
        self.geometry.ir_samples()
    }

    /// Blocks emitted so far, of the [`Layout`]'s total
    pub fn decoded(&self) -> (r: usize)
        ensures
            r == self.done(),
    {
        self.done
    }

    /// Whether every block the layout promised arrived
    pub fn complete(&self) -> (r: bool)
        requires
            self.wf(),
        ensures
            r == (self.done() == self.weave().blocks()),
    {
        self.done == self.geometry.blocks()
    }

    /// Feed the next chunk, writing whatever blocks it completes into `samples`
    ///
    /// Bytes past the last block the layout promised are dropped: the unit pads
    /// a short read rather than truncating one.
    pub fn push(&mut self, chunk: &[u8], samples: &mut Samples) -> (r: Result<(), Error>)
        requires
            old(self).wf(),
            old(samples).colors@.len() == old(self).weave().colors()
                ==> old(self).weave().planes_fit(),
            old(self).weave().push_fault(old(samples)@) is None
                ==> old(self).weave().block_bytes() > 0,
        ensures
            final(self).wf(),
            final(self).weave() == old(self).weave(),
            match old(self).weave().push_fault(old(samples)@) {
                Some(reason) => {
                    &&& r matches Err(e) && e.is_unsupported("decode"@, reason)
                    &&& final(samples)@ == old(samples)@
                    &&& final(self).done() == old(self).done()
                    &&& final(self).carry() == old(self).carry()
                },
                None => {
                    &&& r is Ok
                    &&& (Progress {
                        done: final(self).done(),
                        planes: final(samples)@,
                        carry: final(self).carry(),
                    }) == feed(
                        old(self).weave(),
                        old(self).done(),
                        old(samples)@,
                        old(self).carry() + chunk@,
                    )
                },
            },
            final(samples).ir is Some == old(samples).ir is Some,
            (Progress {
                done: final(self).done(),
                planes: final(samples)@,
                carry: final(self).carry(),
            }) == pushed(
                old(self).weave(),
                (Progress {
                    done: old(self).done(),
                    planes: old(samples)@,
                    carry: old(self).carry(),
                }),
                chunk@,
            ),
    {
        let ghost w = self.weave();
        let ghost s = samples@;
        let count: usize = self.colors();
        if samples.colors.len() != count {
            let mut reason = String::from_str("the output holds ");
            push_decimal(&mut reason, samples.colors.len() as u64);
            reason.append(" color planes and this stream needs ");
            push_decimal(&mut reason, count as u64);
            return Err(bad(reason));
        }
        let (rows, cols) = self.shape();
        let plane_len: usize = rows * cols;
        if let Some(i) = find_short(&samples.colors, plane_len, Ghost(w), Ghost(s)) {
            let mut reason = String::from_str("color plane ");
            push_decimal(&mut reason, i as u64);
            reason.append(" holds ");
            push_decimal(&mut reason, samples.colors[i].len() as u64);
            reason.append(" samples and this stream needs ");
            push_decimal(&mut reason, plane_len as u64);
            return Err(bad(reason));
        }
        let needed: usize = self.ir_samples();
        let have: usize = match &samples.ir {
            Some(ir) => ir.len(),
            None => 0,
        };
        if have < needed {
            let mut reason = String::from_str("the infrared output holds ");
            push_decimal(&mut reason, have as u64);
            reason.append(" samples and this stream needs ");
            push_decimal(&mut reason, needed as u64);
            return Err(bad(reason));
        }
        proof {
            lemma_no_fault_is_room(w, s);
        }
        let mut none: Vec<u16> = Vec::new();
        match &mut samples.ir {
            Some(ir) => {
                self.push_into(chunk, &mut samples.colors, ir);
            },
            None => {
                assert(none@ =~= s.ir);
                self.push_into(chunk, &mut samples.colors, &mut none);
                assert(none@ =~= s.ir);
            },
        }
        proof {
            let end = feed(w, old(self).done(), s, old(self).carry() + chunk@);
            assert(samples@.colors == end.planes.colors);
            assert(samples@.ir == end.planes.ir);
        }
        Ok(())
    }

    /// [`push`](Self::push) against raw color planes and infrared directly
    fn push_into(&mut self, chunk: &[u8], colors_out: &mut Vec<Vec<u16>>, ir_out: &mut Vec<u16>)
        requires
            old(self).wf(),
            old(self).weave().planes_fit(),
            old(self).weave().block_bytes() > 0,
            old(self).weave().room(planes(old(colors_out)@, old(ir_out)@)),
        ensures
            final(self).wf(),
            final(self).weave() == old(self).weave(),
            final(ir_out)@.len() == old(ir_out)@.len(),
            (Progress {
                done: final(self).done(),
                planes: planes(final(colors_out)@, final(ir_out)@),
                carry: final(self).carry(),
            }) == feed(
                old(self).weave(),
                old(self).done(),
                planes(old(colors_out)@, old(ir_out)@),
                old(self).carry() + chunk@,
            ),
    {
        let ghost w = self.weave();
        let ghost end = feed(w, self.done(), planes(colors_out@, ir_out@), self.carry() + chunk@);
        let ghost ir_len = ir_out@.len();
        let width: usize = self.geometry.block_bytes();
        let mut at: usize = 0;
        assert(chunk@.len() == chunk.len());

        // Finish the block the last chunk ended part-way through
        if self.carry.len() > 0 {
            let short: usize = width - self.carry.len();
            let take: usize = if short < chunk.len() {
                short
            } else {
                chunk.len()
            };
            let ghost all = self.carry@ + chunk@;
            self.carry.extend_from_slice(&chunk[0..take]);
            assert(self.carry@ =~= all.take((width - short) + take));
            at = take;
            if self.carry.len() < width {
                assert(self.carry@ =~= all);
                return;
            }
            let mut block: Vec<u8> = Vec::new();
            std::mem::swap(&mut self.carry, &mut block);
            assert(block@ =~= all.take(width as int));
            assert(all.skip(width as int) =~= chunk@.skip(at as int));
            self.take(block.as_slice(), colors_out, ir_out);
        } else {
            assert(self.carry@ + chunk@ =~= chunk@);
            assert(chunk@.skip(0) =~= chunk@);
        }

        while chunk.len() - at >= width
            invariant
                self.wf(),
                w == self.weave(),
                w.planes_fit(),
                width == w.block_bytes(),
                width > 0,
                w.room(planes(colors_out@, ir_out@)),
                ir_out@.len() == ir_len,
                self.carry@.len() == 0,
                at <= chunk@.len(),
                chunk@.len() == chunk.len(),
                end == feed(
                    w,
                    self.done(),
                    planes(colors_out@, ir_out@),
                    chunk@.skip(at as int),
                ),
            decreases chunk@.len() - at,
        {
            let block: &[u8] = &chunk[at..at + width];
            proof {
                let rest = chunk@.skip(at as int);
                assert(rest.take(width as int) =~= block@);
                assert(rest.skip(width as int) =~= chunk@.skip(at + width));
            }
            self.take(block, colors_out, ir_out);
            at += width;
        }
        self.carry.extend_from_slice(&chunk[at..chunk.len()]);
        assert(self.carry@ =~= chunk@.skip(at as int));
    }

    /// Emit one block, unless the layout has already had every block it wanted
    fn take(&mut self, block: &[u8], colors_out: &mut Vec<Vec<u16>>, ir_out: &mut Vec<u16>)
        requires
            old(self).wf(),
            old(self).weave().planes_fit(),
            block@.len() == old(self).weave().block_bytes(),
            old(self).weave().room(planes(old(colors_out)@, old(ir_out)@)),
        ensures
            final(self).wf(),
            final(self).weave() == old(self).weave(),
            final(self).carry() == old(self).carry(),
            final(ir_out)@.len() == old(ir_out)@.len(),
            old(self).weave().room(planes(final(colors_out)@, final(ir_out)@)),
            ({
                let w = old(self).weave();
                let done = old(self).done();
                let before = planes(old(colors_out)@, old(ir_out)@);
                let after = planes(final(colors_out)@, final(ir_out)@);
                if done >= w.blocks() {
                    final(self).done() == done && after == before
                } else {
                    final(self).done() == done + 1 && after == w.after_block(done, block@, before)
                }
            }),
    {
        if self.done >= self.geometry.blocks() {
            return;
        }
        let ghost w = self.weave();
        let ghost s = planes(colors_out@, ir_out@);
        self.geometry.emit(self.done, block, colors_out, ir_out);
        proof {
            lemma_after_block_room(w, self.done as int, block@, s);
        }
        self.done = self.done + 1;
    }
}

/// The products that size a block fit where their product does
proof fn lemma_sizes_fit(w: Weave)
    requires
        w.valid(),
        w.block_fits(),
    ensures
        0 <= w.readouts(),
        0 <= w.readout(),
        0 <= w.stage() <= w.block_bytes(),
        w.readouts() * w.readout() <= usize::MAX,
{
    lemma_colors_bounds(w.channels, w.channels.len() as int);
    let colors = w.colors();
    assert(0 <= colors * w.readings) by (nonlinear_arith)
        requires
            0 <= colors,
            1 <= w.readings,
    ;
    assert(0 <= w.readout()) by (nonlinear_arith)
        requires
            0 <= w.rows,
            1 <= w.ccd_lines,
            w.readout() == w.rows * w.ccd_lines,
    ;
    let readouts = w.readouts();
    let readout = w.readout();
    assert(0 <= readouts * readout) by (nonlinear_arith)
        requires
            0 <= readouts,
            0 <= readout,
    ;
    let stage = w.stage();
    let all = w.gap * stage;
    assert(stage <= all) by (nonlinear_arith)
        requires
            0 <= stage,
            1 <= w.gap,
            all == w.gap * stage,
    ;
    assert(all <= all * w.width) by (nonlinear_arith)
        requires
            0 <= all,
            1 <= w.width,
    ;
}

/// A layout promises no less than no blocks
proof fn lemma_some_blocks(w: Weave)
    requires
        w.valid(),
    ensures
        0 <= w.blocks(),
{
    let strip = w.strip();
    assert(strip >= 1) by (nonlinear_arith)
        requires
            w.gap >= 1,
            w.ccd_lines >= 1,
            strip == w.gap * w.ccd_lines,
    ;
    assert(0 <= w.cols / strip) by (nonlinear_arith)
        requires
            strip >= 1,
            0 <= w.cols,
    ;
}

/// Buffers nothing is wrong with hold the whole image
proof fn lemma_no_fault_is_room(w: Weave, s: Planes)
    requires
        w.push_fault(s) is None,
    ensures
        w.room(s),
{
    let pick = |c: int| s.colors[c].len() < w.rows * w.cols;
    lemma_first_index_none(s.colors.len() as int, pick, 0);
    assert forall|c: int| 0 <= c < s.colors.len() implies (#[trigger] s.colors[c]).len() >= w.rows
        * w.cols by {
        assert(!pick(c));
    }
}

/// A block does not change how much the buffers hold
proof fn lemma_after_block_room(w: Weave, n: int, block: Seq<u8>, s: Planes)
    requires
        w.room(s),
    ensures
        w.room(w.after_block(n, block, s)),
        w.after_block(n, block, s).ir.len() == s.ir.len(),
{
    let after = w.after_block(n, block, s);
    assert forall|c: int| 0 <= c < after.colors.len() implies (#[trigger] after.colors[c]).len()
        >= w.rows * w.cols by {
        assert(after.colors[c].len() == s.colors[c].len());
    }
}

/// A stream split anywhere decodes the same: reading `a` and then `b` is
/// reading the two together
pub proof fn law_split_anywhere(w: Weave, done: int, s: Planes, a: Seq<u8>, b: Seq<u8>)
    ensures
        ({
            let first = feed(w, done, s, a);
            feed(w, first.done, first.planes, first.carry + b) == feed(w, done, s, a + b)
        }),
    decreases a.len(),
{
    let width = w.block_bytes();
    if width > 0 && a.len() >= width {
        assert((a + b).take(width) =~= a.take(width));
        assert((a + b).skip(width) =~= a.skip(width) + b);
        if done >= w.blocks() {
            law_split_anywhere(w, done, s, a.skip(width), b);
        } else {
            law_split_anywhere(
                w,
                done + 1,
                w.after_block(done, a.take(width), s),
                a.skip(width),
                b,
            );
        }
    }
}

/// Bytes past the last block the layout promised are dropped
pub proof fn law_padding_is_dropped(w: Weave, s: Planes, bytes: Seq<u8>)
    ensures
        feed(w, w.blocks(), s, bytes).planes == s,
        feed(w, w.blocks(), s, bytes).done == w.blocks(),
    decreases bytes.len(),
{
    let width = w.block_bytes();
    if width > 0 && bytes.len() >= width {
        law_padding_is_dropped(w, s, bytes.skip(width));
    }
}

/// The bytes of one block further on
proof fn lemma_blocks_ahead(len: int, width: int)
    requires
        width > 0,
        len >= width,
    ensures
        (len - width) / width == len / width - 1,
        len / width >= 1,
{
    assert((len - width) / width == len / width - 1 && len / width >= 1) by (nonlinear_arith)
        requires
            width > 0,
            len >= width,
    ;
}

/// As many blocks are emitted as arrived whole, up to what the layout promised,
/// and less than a block is kept
pub proof fn law_whole_blocks_are_emitted(w: Weave, done: int, s: Planes, bytes: Seq<u8>)
    requires
        w.block_bytes() > 0,
        0 <= done <= w.blocks(),
    ensures
        ({
            let whole = bytes.len() as int / w.block_bytes();
            let after = feed(w, done, s, bytes);
            &&& after.done == if done + whole <= w.blocks() {
                done + whole
            } else {
                w.blocks()
            }
            &&& after.carry == bytes.skip(whole * w.block_bytes())
            &&& after.carry.len() < w.block_bytes()
        }),
    decreases bytes.len(),
{
    let width = w.block_bytes();
    let len = bytes.len() as int;
    if len >= width {
        lemma_blocks_ahead(len, width);
        let rest = bytes.skip(width);
        if done >= w.blocks() {
            law_whole_blocks_are_emitted(w, done, s, rest);
        } else {
            law_whole_blocks_are_emitted(
                w,
                done + 1,
                w.after_block(done, bytes.take(width), s),
                rest,
            );
        }
        let whole = len / width;
        assert((whole - 1) * width + width == whole * width) by (nonlinear_arith);
        assert(0 <= (whole - 1) * width) by (nonlinear_arith)
            requires
                whole >= 1,
                width > 0,
        ;
        assert(whole * width <= len) by (nonlinear_arith)
            requires
                whole == len / width,
                width > 0,
        ;
        assert(rest.skip((whole - 1) * width) =~= bytes.skip(whole * width));
    } else {
        assert(len / width == 0) by (nonlinear_arith)
            requires
                0 <= len < width,
        ;
        assert(bytes.skip(0) =~= bytes);
    }
}

/// Block `n` of a stream
pub open spec fn nth_block(w: Weave, bytes: Seq<u8>, n: int) -> Seq<u8> {
    bytes.subrange(n * w.block_bytes(), (n + 1) * w.block_bytes())
}

/// The block that carries a pixel of the image
pub open spec fn block_of(w: Weave, i: int) -> int {
    (i % w.cols) / w.strip()
}

/// A pixel is carried by one block
proof fn lemma_block_of(w: Weave, i: int, n: int)
    requires
        w.valid(),
        0 <= i < w.rows * w.cols,
    ensures
        w.covers(n, i) <==> n == block_of(w, i),
        0 <= block_of(w, i) < w.blocks(),
{
    lemma_bar_bounds(w, i);
    let x = i % w.cols;
    let strip = w.strip();
    assert(strip >= 1) by (nonlinear_arith)
        requires
            w.gap >= 1,
            w.ccd_lines >= 1,
            strip == w.gap * w.ccd_lines,
    ;
    assert((n * strip <= x < n * strip + strip) <==> n == x / strip) by (nonlinear_arith)
        requires
            strip >= 1,
            0 <= x,
    ;
    let cols = w.cols;
    assert(0 <= x / strip < cols / strip) by (nonlinear_arith)
        requires
            strip >= 1,
            0 <= x < cols,
            cols % strip == 0,
    ;
}

/// Block `n` of a stream is block `n - 1` of what follows the first
proof fn lemma_nth_block_ahead(w: Weave, bytes: Seq<u8>, n: int)
    requires
        w.block_bytes() > 0,
        n >= 1,
        bytes.len() >= w.block_bytes(),
        (n + 1) * w.block_bytes() <= bytes.len(),
    ensures
        nth_block(w, bytes.skip(w.block_bytes()), n - 1) == nth_block(w, bytes, n),
{
    let width = w.block_bytes();
    assert((n - 1) * width + width == n * width && n * width + width == (n + 1) * width)
        by (nonlinear_arith);
    assert(0 <= (n - 1) * width) by (nonlinear_arith)
        requires
            n >= 1,
            width > 0,
    ;
    assert(nth_block(w, bytes.skip(width), n - 1) =~= nth_block(w, bytes, n));
}

/// What a stream leaves in one buffer, pixel by pixel
proof fn lemma_feed_pixel(w: Weave, done: int, s: Planes, bytes: Seq<u8>, c: int, i: int)
    requires
        w.valid(),
        w.block_bytes() > 0,
        0 <= done <= w.blocks(),
        w.room(s),
        0 <= i < w.rows * w.cols,
        0 <= c < w.colors() || c == -1 && w.once() != 0,
    ensures
        ({
            let after = feed(w, done, s, bytes);
            let n = block_of(w, i);
            let k = if c == -1 {
                w.last_once(w.channels.len() as int)
            } else {
                w.color_at(c)
            };
            let was = if c == -1 {
                s.ir[i]
            } else {
                s.colors[c][i]
            };
            let now = if c == -1 {
                after.planes.ir[i]
            } else {
                after.planes.colors[c][i]
            };
            now == if done <= n && (n - done + 1) * w.block_bytes() <= bytes.len() {
                w.pixel(n, nth_block(w, bytes, n - done), k, i)
            } else {
                was
            }
        }),
        w.room(feed(w, done, s, bytes).planes),
    decreases bytes.len(),
{
    let width = w.block_bytes();
    let n = block_of(w, i);
    lemma_block_of(w, i, done);
    if c == -1 {
        lemma_infrared_room(w, s);
    } else {
        assert(s.colors[c].len() >= w.rows * w.cols);
    }
    if bytes.len() >= width {
        let rest = bytes.skip(width);
        let block = bytes.take(width);
        if done >= w.blocks() {
            lemma_feed_pixel(w, done, s, rest, c, i);
        } else {
            let next = w.after_block(done, block, s);
            lemma_after_block_room(w, done, block, s);
            lemma_feed_pixel(w, done + 1, next, rest, c, i);
            if n == done {
                assert(0 * width == 0 && 1 * width == width) by (nonlinear_arith);
                assert(nth_block(w, bytes, 0) =~= block);
            } else if done + 1 <= n {
                let ahead = n - (done + 1);
                assert((ahead + 1) * width + width == (n - done + 1) * width) by (nonlinear_arith)
                    requires
                        ahead == n - (done + 1),
                ;
                if (n - done + 1) * width <= bytes.len() {
                    lemma_nth_block_ahead(w, bytes, n - done);
                }
            }
        }
    } else if done <= n {
        assert((n - done + 1) * width >= width) by (nonlinear_arith)
            requires
                n >= done,
                width > 0,
        ;
    }
}

/// What a whole stream leaves in a color plane: a pixel whose block arrived is
/// what that block carries for it, and every other one is where it was
pub proof fn law_color_pixels(w: Weave, s: Planes, bytes: Seq<u8>, c: int, i: int)
    requires
        w.valid(),
        w.block_bytes() > 0,
        w.room(s),
        0 <= c < w.colors(),
        0 <= i < w.rows * w.cols,
    ensures
        feed(w, 0, s, bytes).planes.colors[c][i] == if (block_of(w, i) + 1) * w.block_bytes()
            <= bytes.len() {
            w.pixel(block_of(w, i), nth_block(w, bytes, block_of(w, i)), w.color_at(c), i)
        } else {
            s.colors[c][i]
        },
{
    lemma_block_of(w, i, 0);
    lemma_feed_pixel(w, 0, s, bytes, c, i);
}

/// What a whole stream leaves in the infrared buffer, where the pass has a
/// channel for it
pub proof fn law_infrared_pixels(w: Weave, s: Planes, bytes: Seq<u8>, i: int)
    requires
        w.valid(),
        w.block_bytes() > 0,
        w.room(s),
        w.once() != 0,
        0 <= i < w.rows * w.cols,
    ensures
        feed(w, 0, s, bytes).planes.ir[i] == if (block_of(w, i) + 1) * w.block_bytes()
            <= bytes.len() {
            w.pixel(
                block_of(w, i),
                nth_block(w, bytes, block_of(w, i)),
                w.last_once(w.channels.len() as int),
                i,
            )
        } else {
            s.ir[i]
        },
{
    lemma_block_of(w, i, 0);
    lemma_feed_pixel(w, 0, s, bytes, -1, i);
}

/// A single-line pass is the three-line readout with one CCD row, so the same
/// bytes come out the same image whichever interleaving names them
pub proof fn law_one_row_is_a_single_line(single: &Layout, three: &Layout)
    requires
        !single.interleaving.has(ColorInterleaving::MULTILINE_SIMULTANEOUS),
        three.ccd_lines <= 1,
        single.pixels == three.pixels,
        single.lines == three.lines,
        single.channels@ == three.channels@,
        single.readings_per_line == three.readings_per_line,
        single.bytes_per_sample == three.bytes_per_sample,
    ensures
        weave_of(single) == weave_of(three),
{
}

/// A channel multi-sampling does not repeat is read once, however many readings
/// the window asked for
pub proof fn law_once_is_once(w: Weave, k: int)
    requires
        0 <= k < w.channels.len(),
        !is_color_id(w.channels[k]),
    ensures
        w.repeats(k) == 1,
        w.colors() == 0 ==> w.readouts() == w.channels.len(),
{
    if w.colors() == 0 {
        assert(0 * w.readings == 0) by (nonlinear_arith);
    }
}

/// A pass that reads one CCD row is never corrected: whatever the curves say, the
/// same chunks leave the same samples, and leave the decoder as far along
pub proof fn law_a_single_line_is_never_corrected(
    layout: &Layout,
    curves: Curves,
    samples: Planes,
    chunks: Seq<Seq<u8>>,
)
    requires
        !layout.interleaving.has(ColorInterleaving::MULTILINE_SIMULTANEOUS) || layout.ccd_lines
            <= 1,
    ensures
        ({
            let start = Progress { done: 0, planes: samples, carry: Seq::empty() };
            pushed_each(weave_of(layout).correcting(curves), start, chunks) == pushed_each(
                weave_of(layout),
                start,
                chunks,
            )
        }),
{
}

/// How a stage position is laid out: the colors in their order, then the
/// channels read once in theirs, then the colors again for each further reading
pub proof fn law_the_order_of_the_readouts(w: Weave, k: int, r: int)
    requires
        0 <= k < w.channels.len(),
        0 <= r,
    ensures
        ({
            let colors = colors_in(w.channels, w.channels.len() as int);
            let before = colors_in(w.channels, k);
            &&& w.channels[k] == 9 ==> w.slot(k, r) == colors + k - before
            &&& w.channels[k] != 9 && r == 0 ==> w.slot(k, r) == before
            &&& w.channels[k] != 9 && r == 1 ==> w.slot(k, r) == w.channels.len() + before
            &&& w.channels[k] != 9 && r >= 1 ==> w.slot(k, r + 1) == w.slot(k, r) + colors
            &&& w.channels[k] != 9 ==> w.repeats(k) == w.readings
            &&& w.channels[k] == 9 ==> w.repeats(k) == 1
        }),
{
    let colors = w.colors();
    assert((r - 1) * colors + colors == r * colors) by (nonlinear_arith);
    assert(0 * colors == 0);
}

/// The sizes a pass comes to, out of its rows, its columns and its channels
pub proof fn law_what_a_pass_comes_to(w: Weave)
    requires
        w.valid(),
    ensures
        ({
            let colors = colors_in(w.channels, w.channels.len() as int);
            let others = w.channels.len() - colors;
            let readouts = colors * w.readings + others;
            &&& w.colors() == colors
            &&& w.block_bytes() == w.gap * (readouts * (w.rows * w.ccd_lines)) * w.width
            &&& w.blocks() * (w.gap * w.ccd_lines) == w.cols
            &&& w.ir_samples() == w.rows * w.cols * others
        }),
{
    let strip = w.strip();
    assert(strip >= 1) by (nonlinear_arith)
        requires
            w.gap >= 1,
            w.ccd_lines >= 1,
            strip == w.gap * w.ccd_lines,
    ;
    let cols = w.cols;
    assert(cols / strip * strip == cols) by (nonlinear_arith)
        requires
            strip >= 1,
            cols % strip == 0,
    ;
}

/// A sample is one byte, or two with the more significant in front
pub proof fn law_what_a_sample_is(w: Weave, block: Seq<u8>, i: int)
    ensures
        w.width == 1 ==> w.sample(block, i) == block[i],
        w.width == 2 ==> w.sample(block, i) == 0x100 * block[2 * i] + block[2 * i + 1],
{
}

/// A sample is corrected by the curve of the row it was read on, and left as it
/// is where there is no curve
pub proof fn law_what_a_reading_is(
    w: Weave,
    block: Seq<u8>,
    line: int,
    stage: int,
    p: int,
    k: int,
    r: int,
)
    requires
        w.gap >= 1,
        0 <= line,
        0 <= stage < w.gap,
    ensures
        ({
            let readouts = colors_in(w.channels, w.channels.len() as int) * w.readings
                + w.channels.len() - colors_in(w.channels, w.channels.len() as int);
            let readout = w.rows * w.ccd_lines;
            let at = stage * (readouts * readout) + w.slot(k, r) * readout + p * w.ccd_lines + line;
            let read = w.reading(block, line * w.gap + stage, p, k, r);
            &&& w.curves is None ==> read == w.sample(block, at)
            &&& w.curves matches Some(curves) ==> read == curves.corrected(
                line,
                w.sample(block, at),
            )
        }),
{
    let col = line * w.gap + stage;
    vstd::arithmetic::div_mod::lemma_fundamental_div_mod_converse(col, w.gap, line, stage);
}

/// The first readings together are no more than as many full ones
proof fn lemma_total_bounds(w: Weave, block: Seq<u8>, col: int, p: int, k: int, n: int)
    requires
        0 <= n,
    ensures
        0 <= w.total(block, col, p, k, n) <= 0xFFFF * n,
    decreases n,
{
    if n > 0 {
        lemma_total_bounds(w, block, col, p, k, n - 1);
    }
}

/// The readings of a channel are added one by one, and its value is their
/// average: no other whole number is nearer, and of two as near it is the larger
pub proof fn law_readings_are_averaged(w: Weave, block: Seq<u8>, col: int, p: int, k: int, n: int)
    requires
        w.readings >= 1,
        0 <= n,
    ensures
        w.total(block, col, p, k, 0) == 0,
        w.total(block, col, p, k, n + 1) == w.total(block, col, p, k, n) + w.reading(
            block,
            col,
            p,
            k,
            n,
        ),
        n == w.repeats(k) ==> ({
            let all = w.total(block, col, p, k, n);
            let v = w.value(block, col, p, k) as int;
            -n < 2 * (n * v - all) <= n
        }),
        w.repeats(k) == 1 ==> w.value(block, col, p, k) == w.reading(block, col, p, k, 0),
{
    if n == w.repeats(k) {
        let all = w.total(block, col, p, k, n);
        lemma_total_bounds(w, block, col, p, k, n);
        let v = (all + n / 2) / n;
        assert(0 <= v <= 0xFFFF && n * v <= all + n / 2 < n * v + n) by (nonlinear_arith)
            requires
                v == (all + n / 2) / n,
                n >= 1,
                0 <= all <= 0xFFFF * n,
        ;
        assert(w.value(block, col, p, k) == v);
    }
    if w.repeats(k) == 1 {
        assert(w.total(block, col, p, k, 1) == w.total(block, col, p, k, 0) + w.reading(
            block,
            col,
            p,
            k,
            0,
        ));
        assert(w.total(block, col, p, k, 0) == 0);
    }
}

/// Where pixel `(x, y)` of the image is read: the stage comes to a run of
/// columns for each row of the CCD, one run behind the other, and the bar is
/// read from the bottom up
pub proof fn law_where_a_pixel_is_read(w: Weave, n: int, line: int, stage: int, y: int)
    requires
        w.valid(),
        0 <= n < w.blocks(),
        0 <= line < w.ccd_lines,
        0 <= stage < w.gap,
        0 <= y < w.rows,
    ensures
        ({
            let x = (n * w.ccd_lines + line) * w.gap + stage;
            let i = y * w.cols + x;
            &&& 0 <= x < w.cols
            &&& 0 <= i < w.rows * w.cols
            &&& block_of(w, i) == n
            &&& forall|m: int| #[trigger] w.covers(m, i) <==> m == n
            &&& w.col_of(n, i) == line * w.gap + stage
            &&& w.bar_of(i) + y == w.rows - 1
        }),
{
    let gap = w.gap;
    let lines = w.ccd_lines;
    let col = line * gap + stage;
    assert(0 <= col < gap * lines) by (nonlinear_arith)
        requires
            0 <= line,
            line + 1 <= lines,
            0 <= stage < gap,
            col == line * gap + stage,
    ;
    let x = (n * lines + line) * gap + stage;
    assert(x == n * (gap * lines) + col) by (nonlinear_arith)
        requires
            x == (n * lines + line) * gap + stage,
            col == line * gap + stage,
    ;
    lemma_pixel_place(w, n, col, w.rows - 1 - y);
    let i = y * w.cols + x;
    lemma_block_of(w, i, n);
    assert forall|m: int| #[trigger] w.covers(m, i) <==> m == n by {
        lemma_block_of(w, i, m);
    }
}

/// Where a pixel of a color plane comes from in the stream, for a pass that
/// reads each color once and is not corrected: `at` samples on, out of the
/// stage positions, the channels, the bar and the CCD's rows that were read
/// before it
pub proof fn law_a_color_pixel_is_this_sample(
    w: Weave,
    s: Planes,
    bytes: Seq<u8>,
    k: int,
    n: int,
    line: int,
    stage: int,
    y: int,
)
    requires
        w.valid(),
        w.room(s),
        w.readings == 1,
        w.curves is None,
        0 <= k < w.channels.len(),
        w.channels[k] != 9,
        0 <= n < w.blocks(),
        0 <= line < w.ccd_lines,
        0 <= stage < w.gap,
        0 <= y < w.rows,
        bytes.len() >= (n + 1) * (w.gap * (w.channels.len() * (w.rows * w.ccd_lines)) * w.width),
    ensures
        ({
            let x = (n * w.ccd_lines + line) * w.gap + stage;
            let before = colors_in(w.channels, k);
            let at = ((n * w.gap + stage) * w.channels.len() + before) * (w.rows * w.ccd_lines)
                + (w.rows - 1 - y) * w.ccd_lines + line;
            let pixel = feed(w, 0, s, bytes).planes.colors[before][y * w.cols + x];
            &&& w.width == 1 ==> pixel == bytes[at]
            &&& w.width == 2 ==> pixel == 0x100 * bytes[2 * at] + bytes[2 * at + 1]
        }),
{
    let x = (n * w.ccd_lines + line) * w.gap + stage;
    let i = y * w.cols + x;
    let before = colors_in(w.channels, k);
    let all = w.channels.len() as int;
    law_where_a_pixel_is_read(w, n, line, stage, y);
    lemma_color_at(w, k);
    lemma_colors_bounds(w.channels, k);
    lemma_colors_bounds(w.channels, k + 1);
    lemma_colors_bounds(w.channels, all);
    assert(is_color_id(w.channels[k]));
    assert(colors_in(w.channels, k + 1) == before + 1);
    assert(w.colors() * 1 == w.colors());
    assert(w.readouts() == all);
    let readout = w.readout();
    assert(readout >= 1) by (nonlinear_arith)
        requires
            w.rows >= 1,
            w.ccd_lines >= 1,
            readout == w.rows * w.ccd_lines,
    ;
    let stages = w.stage();
    assert(stages >= 1) by (nonlinear_arith)
        requires
            all >= 1,
            readout >= 1,
            stages == all * readout,
    ;
    let bb = w.block_bytes();
    assert(w.gap * stages * w.width >= 1) by (nonlinear_arith)
        requires
            w.gap >= 1,
            stages >= 1,
            w.width >= 1,
    ;
    law_color_pixels(w, s, bytes, before, i);
    let block = nth_block(w, bytes, n);
    let col = line * w.gap + stage;
    let p = w.rows - 1 - y;
    law_readings_are_averaged(w, block, col, p, k, 0);
    vstd::arithmetic::div_mod::lemma_fundamental_div_mod_converse(col, w.gap, line, stage);
    assert(0 <= col < w.strip()) by (nonlinear_arith)
        requires
            0 <= line,
            line + 1 <= w.ccd_lines,
            0 <= stage < w.gap,
            col == line * w.gap + stage,
            w.strip() == w.gap * w.ccd_lines,
    ;
    lemma_index_inside(w, col, p, before);
    let j = w.index(col, p, before);
    let at = ((n * w.gap + stage) * all + before) * readout + p * w.ccd_lines + line;
    let gap = w.gap;
    let width = w.width;
    let place = n * gap + stage;
    vstd::arithmetic::mul::lemma_mul_is_distributive_add_other_way(readout, place * all, before);
    vstd::arithmetic::mul::lemma_mul_is_associative(place, all, readout);
    vstd::arithmetic::mul::lemma_mul_is_distributive_add_other_way(stages, n * gap, stage);
    vstd::arithmetic::mul::lemma_mul_is_associative(n, gap, stages);
    assert(at == n * (gap * stages) + j);
    let per = gap * stages;
    vstd::arithmetic::mul::lemma_mul_is_associative(n, per, width);
    assert((n + 1) * bb == n * bb + bb) by (nonlinear_arith);
    assert(0 <= n * bb) by (nonlinear_arith)
        requires
            n >= 0,
            bb >= 1,
    ;
    assert(block.len() == bb);
    if width == 1 {
        assert(block[j] == bytes[n * bb + j]);
    } else {
        assert(block[2 * j] == bytes[n * bb + 2 * j]);
        assert(block[2 * j + 1] == bytes[n * bb + 2 * j + 1]);
    }
}

/// The infrared buffer is left with the last of the channels that are read once
pub proof fn law_which_channel_is_infrared(w: Weave, k: int)
    requires
        0 <= k < w.channels.len(),
    ensures
        w.last_once(w.channels.len() as int) == k <==> w.channels[k] == 9 && forall|j: int|
            k < j < w.channels.len() ==> w.channels[j] != 9,
{
    lemma_last_of(w, w.channels.len() as int, k);
}

/// The last channel read once among the first so many
proof fn lemma_last_of(w: Weave, n: int, k: int)
    requires
        0 <= k < n <= w.channels.len(),
    ensures
        w.last_once(n) == k <==> w.channels[k] == 9 && forall|j: int|
            k < j < n ==> w.channels[j] != 9,
    decreases n,
{
    if k < n - 1 {
        lemma_last_of(w, n - 1, k);
        if w.channels[n - 1] != 9 {
            assert(is_color_id(w.channels[n - 1]));
        }
    } else {
        lemma_last_once(w, n - 1);
    }
}

/// What a layout's stream is shaped like: as many rows of the CCD as the unit
/// has where it reads them at once, and one otherwise
pub proof fn law_what_a_layout_describes(layout: &Layout)
    ensures
        ({
            let w = weave_of(layout);
            let together = layout.interleaving.bits & 0x40 == 0x40 && layout.ccd_lines >= 2;
            &&& w.rows == layout.pixels
            &&& w.cols == layout.lines
            &&& w.channels == layout.channels@
            &&& w.width == layout.bytes_per_sample
            &&& w.curves is None
            &&& together ==> w.ccd_lines == layout.ccd_lines && w.gap == layout.registration_gap
            &&& !together ==> w.ccd_lines == 1 && w.gap == 1
            &&& layout.readings_per_line <= 1 ==> w.readings == 1
            &&& layout.readings_per_line >= 1 ==> w.readings == layout.readings_per_line
        }),
{
}

/// Which layouts can be decoded: one or two bytes a sample, one of the two
/// orderings, and as many columns as come out even in blocks
pub proof fn law_which_layouts_are_decoded(layout: &Layout)
    ensures
        ({
            let together = layout.interleaving.bits & 0x40 == 0x40 && layout.ccd_lines >= 2;
            layout_fault(layout) is None <==> {
                &&& layout.bytes_per_sample == 1 || layout.bytes_per_sample == 2
                &&& layout.interleaving.bits & 0x40 == 0x40 || layout.interleaving.bits & 0x02 == 0x02
                &&& together ==> layout.registration_gap > 0 && layout.lines as int % (
                layout.registration_gap * layout.ccd_lines) == 0
            }
        }),
{
    let bits = layout.interleaving.bits;
    assert(bits & (0x40u8 | 0x02u8) != 0 <==> bits & 0x40 == 0x40 || bits & 0x02 == 0x02) by (
    bit_vector);
    assert(layout.lines as int % 1 == 0);
}

/// Which buffers take a stream: one for each color that holds every pixel, and
/// an infrared one that holds them for each of the other channels
pub proof fn law_which_buffers_are_taken(w: Weave, s: Planes)
    ensures
        ({
            let colors = colors_in(w.channels, w.channels.len() as int);
            let takes = {
                &&& s.colors.len() == colors
                &&& forall|c: int|
                    0 <= c < colors ==> (#[trigger] s.colors[c]).len() >= w.rows * w.cols
                &&& s.ir.len() >= w.rows * w.cols * (w.channels.len() - colors)
            };
            &&& w.push_fault(s) is None <==> takes
            &&& view_fault(w, s) is None <==> takes
            &&& w.room(s) <==> takes
        }),
{
    let pick = |c: int| s.colors[c].len() < w.rows * w.cols;
    lemma_first_index_none(s.colors.len() as int, pick, 0);
    if w.first_short(s) is None {
        assert forall|c: int| 0 <= c < s.colors.len() implies (#[trigger] s.colors[c]).len()
            >= w.rows * w.cols by {
            assert(!pick(c));
        }
    }
}

/// Curves are kept for a pass that reads more than one row of the CCD, and for
/// no other; nothing else about it moves
pub proof fn law_what_is_corrected(w: Weave, curves: Curves)
    ensures
        w.ccd_lines >= 2 ==> w.correcting(curves).curves == Some(curves),
        w.ccd_lines <= 1 ==> w.correcting(curves).curves == w.curves,
        w.correcting(curves) == (Weave { curves: w.correcting(curves).curves, ..w }),
{
}

/// A buffer is cleared to as many samples as it has to hold, each of them 0
pub proof fn law_a_blank_plane(n: int, i: int)
    requires
        0 <= i < n,
    ensures
        zeros(n).len() == n,
        zeros(n)[i] == 0,
{
}

/// A chunk that faulty buffers refuse leaves everything as it was, and one that
/// they take is read on from where the last one ended
pub proof fn law_what_a_chunk_does(w: Weave, from: Progress, chunk: Seq<u8>)
    ensures
        !w.room(from.planes) ==> pushed(w, from, chunk) == from,
        w.room(from.planes) ==> pushed(w, from, chunk) == feed(
            w,
            from.done,
            from.planes,
            from.carry + chunk,
        ),
{
    law_which_buffers_are_taken(w, from.planes);
}

/// A decoder has had every block once they make up every column of the image
pub proof fn law_when_a_decoder_is_complete(decoder: &Decoder<'_>, r: bool, done: usize)
    requires
        decoder.wf(),
        call_ensures(Decoder::complete, (decoder,), r),
        call_ensures(Decoder::decoded, (decoder,), done),
    ensures
        r <==> done * (decoder.weave().gap * decoder.weave().ccd_lines) == decoder.weave().cols,
        done * (decoder.weave().gap * decoder.weave().ccd_lines) <= decoder.weave().cols,
{
    let w = decoder.weave();
    decoder.law_a_decoder_keeps_its_shape();
    law_what_a_pass_comes_to(w);
    let strip = w.gap * w.ccd_lines;
    let blocks = w.blocks();
    assert(strip >= 1) by (nonlinear_arith)
        requires
            w.gap >= 1,
            w.ccd_lines >= 1,
            strip == w.gap * w.ccd_lines,
    ;
    let d = done as int;
    assert(d * strip <= blocks * strip && (d * strip == blocks * strip <==> d == blocks))
        by (nonlinear_arith)
        requires
            strip >= 1,
            d <= blocks,
    ;
}

} // verus!
