//! Letting the operator see and adjust the frames detection found
//!
//! Some strips have no good automatic answer, so one detected frame at a time
//! is shown and nudged with the arrow keys. Detection's own guess is always
//! where a frame starts out.

use crate::text::{decimal, decimal_text};
use vstd::prelude::*;

verus! {

/// How much of the frame's own width to show either side of it, for the
/// neighboring gaps to judge the edge against. Scales with the box itself, so
/// growing or shrinking it keeps roughly the same amount of context in view
pub const CONTEXT: u32 = 1;

/// How many pixels a dash and the gap after it each run, along the box's own
/// edges
pub const DASH: u32 = 4;

/// How many columns are shown for a frame of `width`: it and its context, as far
/// as the strip goes
pub open spec fn shown(width: int, strip: int) -> int {
    if 3 * width < strip {
        3 * width
    } else {
        strip
    }
}

/// The first column that is shown: as far left as the margin asks, unless that
/// runs off either end
pub open spec fn shown_from(col: int, width: int, strip: int) -> int {
    let asked = if col < width {
        0
    } else {
        col - width
    };
    let most = strip - shown(width, strip);
    if asked < most {
        asked
    } else {
        most
    }
}

/// The columns of the strip to show for a frame, the first and the one past the
/// last
///
/// A fixed-width window that slides and clamps as one piece: two
/// independently-clamped edges would grow the crop instead of panning it, the
/// moment a frame sits within one margin of either edge of the whole strip.
pub fn window(col: u32, width: u32, strip: u32) -> (r: (u32, u32))
    requires
        3 * width <= u32::MAX,
    ensures
        r.1 - r.0 == shown(width as int, strip as int),
        r.1 <= strip,
        r.0 <= col,
        r.0 == shown_from(col as int, width as int, strip as int),
{
    let margin: u32 = width * CONTEXT;
    let wide: u32 = width + 2 * margin;
    let target: u32 = if wide < strip {
        wide
    } else {
        strip
    };
    let asked: u32 = if col < margin {
        0
    } else {
        col - margin
    };
    let most: u32 = strip - target;
    let left: u32 = if asked < most {
        asked
    } else {
        most
    };
    (left, left + target)
}

/// A frame that fits in the strip is in view whole
pub proof fn law_a_frame_is_in_view(col: int, width: int, strip: int, left: int)
    requires
        0 <= col,
        0 <= width,
        col + width <= strip,
        left == shown_from(col, width, strip),
    ensures
        left <= col,
        col + width <= left + shown(width, strip),
{
}

/// What the operator pressed
#[derive(Debug, Clone, Copy, PartialEq, Eq, Structural)]
pub enum Key {
    Left,
    Right,
    Up,
    Down,
    Enter,
    /// `q`, Escape or Ctrl-c
    Quit,
    /// Anything else
    Other,
}

/// What a key asks for
#[derive(Debug, Clone, Copy, PartialEq, Eq, Structural)]
pub enum Answer {
    /// Take the frame as it is
    Accept,
    /// Stop. Nothing was scanned
    Abort,
    /// Try the frame at this column, this wide
    Try(usize, u32),
    /// Nothing
    Stay,
}

/// What a key asks for of a frame at a column and so wide: the arrows to the
/// sides move it, the others resize it, and it never gets narrower than a column
pub fn pressed(key: Key, col: usize, width: u32) -> (r: Answer)
    requires
        col < usize::MAX,
        width < u32::MAX,
    ensures
        r == match key {
            Key::Enter => Answer::Accept,
            Key::Quit => Answer::Abort,
            Key::Left => Answer::Try(
                if col == 0 {
                    0
                } else {
                    (col - 1) as usize
                },
                width,
            ),
            Key::Right => Answer::Try((col + 1) as usize, width),
            Key::Up => Answer::Try(col, (width + 1) as u32),
            Key::Down => if width > 1 {
                Answer::Try(col, (width - 1) as u32)
            } else {
                Answer::Stay
            },
            Key::Other => Answer::Stay,
        },
{
    match key {
        Key::Enter => Answer::Accept,
        Key::Quit => Answer::Abort,
        Key::Left => Answer::Try(
            if col == 0 {
                0
            } else {
                col - 1
            },
            width,
        ),
        Key::Right => Answer::Try(col + 1, width),
        Key::Up => Answer::Try(col, width + 1),
        Key::Down => if width > 1 {
            Answer::Try(col, width - 1)
        } else {
            Answer::Stay
        },
        Key::Other => Answer::Stay,
    }
}

/// Move to `candidate` if it still builds a real frame
pub fn try_set(frame: &mut (usize, u32), candidate: (usize, u32), usable: bool)
    ensures
        *final(frame) == if usable {
            candidate
        } else {
            *old(frame)
        },
{
    if usable {
        *frame = candidate;
    }
}

/// The planes a preview shows as red, green and blue: three of them as they are,
/// or one as all three
pub fn preview_planes(planes: &[usize]) -> (r: Result<[usize; 3], String>)
    ensures
        if planes@.len() == 3 {
            r matches Ok(p) && p@ == planes@
        } else if planes@.len() == 1 {
            r matches Ok(p) && p@ == seq![planes@[0], planes@[0], planes@[0]]
        } else {
            r matches Err(e) && e@ == decimal(planes@.len())
                + " color planes is not a thumbnail --review can show"@
        },
{
    if planes.len() == 3 {
        let p: [usize; 3] = [planes[0], planes[1], planes[2]];
        proof {
            assert(p@ =~= planes@);
        }
        return Ok(p);
    }
    if planes.len() == 1 {
        let p: [usize; 3] = [planes[0], planes[0], planes[0]];
        proof {
            assert(p@ =~= seq![planes@[0], planes@[0], planes@[0]]);
        }
        return Ok(p);
    }
    let mut e = decimal_text(planes.len() as u64);
    e.append(" color planes is not a thumbnail --review can show");
    Err(e)
}

/// The least sample of a plane, and the greatest: what is there is stretched
/// between them
///
/// They are never the same, so that there is something to stretch by.
pub fn levels(plane: &[u16]) -> (r: (u16, u16))
    requires
        exists|i: int| 0 <= i < plane@.len() && plane@[i] < 65535,
    ensures
        forall|i: int| 0 <= i < plane@.len() ==> r.0 <= #[trigger] plane@[i],
        exists|i: int| 0 <= i < plane@.len() && plane@[i] == r.0,
        forall|i: int| 0 <= i < plane@.len() ==> #[trigger] plane@[i] <= r.1,
        r.1 == r.0 + 1 || exists|i: int| 0 <= i < plane@.len() && plane@[i] == r.1,
        r.0 < r.1,
{
    let mut lo: u16 = plane[0];
    let mut hi: u16 = plane[0];
    let mut n: usize = 1;
    while n < plane.len()
        invariant
            1 <= n <= plane@.len(),
            forall|i: int| 0 <= i < n ==> lo <= #[trigger] plane@[i] && plane@[i] <= hi,
            exists|i: int| 0 <= i < n && plane@[i] == lo,
            exists|i: int| 0 <= i < n && plane@[i] == hi,
        decreases plane@.len() - n,
    {
        let v: u16 = plane[n];
        let ghost was_lo = choose|i: int| 0 <= i < n && plane@[i] == lo;
        let ghost was_hi = choose|i: int| 0 <= i < n && plane@[i] == hi;
        if v < lo {
            lo = v;
            assert(plane@[n as int] == lo);
        } else {
            assert(plane@[was_lo] == lo);
        }
        if v > hi {
            hi = v;
            assert(plane@[n as int] == hi);
        } else {
            assert(plane@[was_hi] == hi);
        }
        n += 1;
    }
    if hi <= lo {
        hi = lo + 1;
    }
    (lo, hi)
}

/// A picture of three bytes a pixel, row after row
#[derive(Debug, PartialEq, Eq)]
pub struct Canvas {
    pub width: u32,
    pub height: u32,
    pub data: Vec<u8>,
}

impl Canvas {
    /// Whether there are three bytes for every pixel
    pub open spec fn wf(&self) -> bool {
        self.data@.len() == 3 * (self.width * self.height)
    }

    /// Byte `c` of a pixel
    pub open spec fn byte(&self, x: int, y: int, c: int) -> u8 {
        self.data@[3 * (y * self.width + x) + c]
    }
}

/// Whether a dash, rather than the gap after one, falls here along an edge
pub open spec fn dashed(p: int) -> bool {
    p % 8 < 4
}

/// The right edge of a box, which stays in the picture
pub open spec fn box_end(w: int, start: int, width: int) -> int {
    let last = if w > 0 {
        w - 1
    } else {
        0
    };
    if start + width < last {
        start + width
    } else {
        last
    }
}

/// Whether a pixel of a picture is on a box's dashed edge
///
/// The sides run the full height. The top and the bottom run between them, or
/// are the one column a box off the right end starts at.
pub open spec fn on_box(w: int, h: int, start: int, width: int, x: int, y: int) -> bool {
    let end = box_end(w, start, width);
    ||| (x == start || x == end) && dashed(y)
    ||| (y == 0 || y == h - 1) && start <= x && (x <= end || x == start) && dashed(x - start)
}

/// Where a pixel's bytes are
proof fn lemma_pixel_bytes(w: int, h: int, x: int, y: int)
    requires
        0 <= x < w,
        0 <= y < h,
    ensures
        0 <= y * w + x < w * h,
        0 <= y * w,
{
    assert(0 <= y * w && y * w + w <= w * h) by (nonlinear_arith)
        requires
            0 <= y,
            y + 1 <= h,
            0 <= w,
    ;
}

/// No two pixels share a place
proof fn lemma_pixels_apart(w: int, x: int, y: int, a: int, b: int)
    requires
        0 <= x < w,
        0 <= a < w,
        y * w + x == b * w + a,
    ensures
        x == a && y == b,
{
    vstd::arithmetic::div_mod::lemma_fundamental_div_mod_converse(y * w + x, w, y, x);
    vstd::arithmetic::div_mod::lemma_fundamental_div_mod_converse(b * w + a, w, b, a);
}

/// Whether two pictures differ by one colored pixel at most
spec fn one_pixel(a: Canvas, b: Canvas, x: int, y: int, color: Seq<u8>, put: bool) -> bool {
    &&& b.width == a.width
    &&& b.height == a.height
    &&& b.wf()
    &&& forall|p: int, q: int, c: int|
        0 <= p < a.width && 0 <= q < a.height && 0 <= c < 3 ==> #[trigger] b.byte(p, q, c) == if put
            && p == x && q == y {
            color[c]
        } else {
            a.byte(p, q, c)
        }
}

/// Color one pixel
fn put_pixel(image: &mut Canvas, x: u32, y: u32, color: [u8; 3])
    requires
        old(image).wf(),
        x < old(image).width,
        y < old(image).height,
    ensures
        one_pixel(*old(image), *final(image), x as int, y as int, color@, true),
{
    let ghost before = *image;
    let ghost w = image.width as int;
    proof {
        lemma_pixel_bytes(w, image.height as int, x as int, y as int);
        assert(image.data@.len() == image.data.len());
    }
    let at: usize = 3 * (y as usize * image.width as usize + x as usize);
    image.data[at] = color[0];
    image.data[at + 1] = color[1];
    image.data[at + 2] = color[2];
    proof {
        assert forall|p: int, q: int, c: int|
            0 <= p < before.width && 0 <= q < before.height && 0 <= c < 3 implies #[trigger] image.byte(
        p, q, c) == if p == x && q == y {
            color@[c]
        } else {
            before.byte(p, q, c)
        } by {
            lemma_pixel_bytes(w, before.height as int, p, q);
            if !(p == x && q == y) && q * w + p == y * w + x {
                lemma_pixels_apart(w, p, q, x as int, y as int);
            }
        }
    }
}

/// Whether a picture is another with some of its pixels colored
pub open spec fn colored(a: Canvas, b: Canvas, color: Seq<u8>, on: spec_fn(int, int) -> bool) -> bool {
    &&& b.width == a.width
    &&& b.height == a.height
    &&& b.wf()
    &&& forall|x: int, y: int, c: int|
        0 <= x < a.width && 0 <= y < a.height && 0 <= c < 3 ==> #[trigger] b.byte(x, y, c) == if on(
            x,
            y,
        ) {
            color[c]
        } else {
            a.byte(x, y, c)
        }
}

/// Draw `[start, start+width)`'s box, full height, one pixel and dashed so it
/// reads as a marker over the picture rather than a hard crop of it
pub fn draw_box(image: &mut Canvas, start: u32, width: u32, color: [u8; 3])
    requires
        old(image).wf(),
        start + width <= u32::MAX,
    ensures
        colored(
            *old(image),
            *final(image),
            color@,
            |x: int, y: int|
                on_box(
                    old(image).width as int,
                    old(image).height as int,
                    start as int,
                    width as int,
                    x,
                    y,
                ),
        ),
{
    let ghost before = *image;
    let w: u32 = image.width;
    let h: u32 = image.height;
    let last: u32 = if w > 0 {
        w - 1
    } else {
        0
    };
    let end: u32 = if start + width < last {
        start + width
    } else {
        last
    };
    let mut y: u32 = 0;
    while y < h
        invariant
            y <= h,
            w == before.width,
            h == before.height,
            end == box_end(w as int, start as int, width as int),
            colored(
                before,
                *image,
                color@,
                |a: int, b: int| b < y && (a == start || a == end) && dashed(b),
            ),
        decreases h - y,
    {
        if y % (DASH * 2) < DASH {
            if start < w {
                put_pixel(image, start, y, color);
            }
            if end < w {
                put_pixel(image, end, y, color);
            }
        }
        y += 1;
    }
    let stop: u32 = if end < start {
        start
    } else {
        end
    };
    let mut x: u32 = start;
    while x < w && x <= stop
        invariant
            start <= x,
            w == before.width,
            h == before.height,
            end == box_end(w as int, start as int, width as int),
            stop == if end < start {
                start
            } else {
                end
            },
            colored(
                before,
                *image,
                color@,
                |a: int, b: int|
                    (a == start || a == end) && dashed(b) || (b == 0 || b == h - 1) && start <= a
                        && a < x && a <= stop && dashed(a - start),
            ),
        decreases w - x,
    {
        if (x - start) % (DASH * 2) < DASH {
            if h > 0 {
                put_pixel(image, x, 0, color);
                put_pixel(image, x, h - 1, color);
            }
        }
        x += 1;
    }
}

/// Part of a picture, as `image::imageops::crop_imm` and `SubImage::to_image` cut
/// it out
///
/// The claim is that a part inside the picture comes out with the size that was
/// asked for, holding the pixels that were there.
#[verifier::external_body]
fn crop(image: &Canvas, x: u32, y: u32, width: u32, height: u32) -> (r: Canvas)
    requires
        image.wf(),
        3 * image.width <= usize::MAX,
        x + width <= image.width,
        y + height <= image.height,
    ensures
        r.wf(),
        r.width == width,
        r.height == height,
        forall|p: int, q: int, c: int|
            0 <= p < width && 0 <= q < height && 0 <= c < 3 ==> #[trigger] r.byte(p, q, c)
                == image.byte(x + p, y + q, c),
{
    let whole = image::RgbImage::from_raw(image.width, image.height, image.data.clone())
        .expect("three bytes for every pixel");
    let part = image::imageops::crop_imm(&whole, x, y, width, height).to_image();
    Canvas { width: part.width(), height: part.height(), data: part.into_raw() }
}

/// What the operator is shown of a strip for one frame: the columns around it,
/// with its box drawn on them
pub fn preview(strip: &Canvas, col: u32, width: u32, color: [u8; 3]) -> (r: Canvas)
    requires
        strip.wf(),
        3 * strip.width <= usize::MAX,
        3 * width <= u32::MAX,
        col + width <= u32::MAX,
    ensures
        r.wf(),
        r.width == shown(width as int, strip.width as int),
        r.height == strip.height,
        ({
            let left = shown_from(col as int, width as int, strip.width as int);
            forall|x: int, y: int, c: int|
                0 <= x < r.width && 0 <= y < r.height && 0 <= c < 3 ==> #[trigger] r.byte(x, y, c)
                    == if on_box(r.width as int, r.height as int, col - left, width as int, x, y) {
                    color@[c]
                } else {
                    strip.byte(left + x, y, c)
                }
        }),
{
    let (left, right) = window(col, width, strip.width);
    let mut view = crop(strip, left, 0, right - left, strip.height);
    draw_box(&mut view, col - left, width, color);
    view
}

/// What is shown: three times the frame with the frame in the middle, pushed
/// back into the strip where that runs off an end, and the whole strip where it
/// is no wider
pub proof fn law_where_the_view_is(col: int, width: int, strip: int)
    requires
        0 <= col,
        0 <= width,
        0 <= strip,
    ensures
        strip <= 3 * width ==> shown(width, strip) == strip && shown_from(col, width, strip) == 0,
        strip > 3 * width ==> shown(width, strip) == 3 * width,
        strip > 3 * width && col <= width ==> shown_from(col, width, strip) == 0,
        strip > 3 * width && col >= width && col + 2 * width <= strip ==> shown_from(
            col,
            width,
            strip,
        ) == col - width,
        strip > 3 * width && col + 2 * width >= strip ==> shown_from(col, width, strip) + 3 * width
            == strip,
{
}

/// Which pixels a box colors: of its two sides and its two ends, four in every
/// eight, the sides counted from the top and the ends from its left
pub proof fn law_which_pixels_are_on_a_box(w: int, h: int, start: int, width: int, x: int, y: int)
    requires
        0 <= x < w,
        0 <= y < h,
        0 <= start,
        0 <= width,
        start + width < w,
    ensures
        x < start || x > start + width ==> !on_box(w, h, start, width, x, y),
        start < x < start + width && 0 < y < h - 1 ==> !on_box(w, h, start, width, x, y),
        (x == start || x == start + width) && 0 < y < h - 1 ==> (on_box(w, h, start, width, x, y)
            <==> y % 8 <= 3),
        start < x < start + width && (y == 0 || y == h - 1) ==> (on_box(w, h, start, width, x, y)
            <==> (x - start) % 8 <= 3),
        x == start && (y == 0 || y == h - 1) ==> on_box(w, h, start, width, x, y),
        x == start + width && (y == 0 || y == h - 1) ==> (on_box(w, h, start, width, x, y) <==> y
            % 8 <= 3 || width % 8 <= 3),
{
}

/// A box that runs off the right of the picture ends on its last column
pub proof fn law_a_box_stays_in_the_picture(w: int, start: int, width: int)
    requires
        0 <= start,
        0 <= width,
    ensures
        start + width < w ==> box_end(w, start, width) == start + width,
        w > 0 && start + width >= w ==> box_end(w, start, width) == w - 1,
        w <= 0 ==> box_end(w, start, width) == 0,
{
}

/// What the keys do to a frame: left and right move it by a column, up and down
/// change its width by one, and it neither leaves the strip on the left nor gets
/// narrower than a column
pub proof fn law_what_a_key_does(key: Key, col: usize, width: u32, r: Answer)
    requires
        col < usize::MAX,
        width < u32::MAX,
        call_ensures(pressed, (key, col, width), r),
    ensures
        r is Accept <==> key is Enter,
        r is Abort <==> key is Quit,
        key is Left ==> (r matches Answer::Try(c, w) && w == width && (col > 0 ==> c + 1 == col) && (
        col == 0 ==> c == 0)),
        key is Right ==> (r matches Answer::Try(c, w) && w == width && c == col + 1),
        key is Up ==> (r matches Answer::Try(c, w) && c == col && w == width + 1),
        key is Down && width >= 2 ==> (r matches Answer::Try(c, w) && c == col && w + 1 == width),
        r is Stay <==> key is Other || key is Down && width <= 1,
{
}

/// The columns that are shown hold the frame in the middle, with its own width to
/// either side, where the strip has room for that
pub proof fn law_which_columns_are_shown(col: u32, width: u32, strip: u32, r: (u32, u32))
    requires
        call_ensures(window, (col, width, strip), r),
        width <= col,
        col + 2 * width <= strip,
    ensures
        r.0 == col - width,
        r.1 == col + 2 * width,
{
}

/// What a plane is stretched between: its least sample, and its greatest or the
/// one past the least where they are all the same
pub proof fn law_what_a_plane_is_stretched_between(plane: &[u16], i: int, j: int, r: (u16, u16))
    requires
        call_ensures(levels, (plane,), r),
        0 <= i < plane@.len(),
        0 <= j < plane@.len(),
    ensures
        r.0 <= plane@[i] <= r.1,
        (forall|k: int| 0 <= k < plane@.len() ==> plane@[i] <= #[trigger] plane@[k]) ==> r.0
            == plane@[i],
        (forall|k: int| 0 <= k < plane@.len() ==> #[trigger] plane@[k] <= plane@[j])
            && plane@[i] < plane@[j] ==> r.1 == plane@[j],
        (forall|k: int| 0 <= k < plane@.len() ==> #[trigger] plane@[k] == plane@[i]) ==> r.1
            == plane@[i] + 1,
{
    let low = choose|k: int| 0 <= k < plane@.len() && plane@[k] == r.0;
    assert(plane@[low] == r.0);
    if exists|k: int| 0 <= k < plane@.len() && plane@[k] == r.1 {
        let high = choose|k: int| 0 <= k < plane@.len() && plane@[k] == r.1;
        assert(plane@[high] == r.1);
    }
}

/// A preview shows three planes as they are and one as all three colors
pub proof fn law_what_a_preview_shows(planes: &[usize], r: Result<[usize; 3], String>)
    requires
        call_ensures(preview_planes, (planes,), r),
    ensures
        r is Ok <==> planes@.len() == 1 || planes@.len() == 3,
        r matches Ok(p) ==> p@.len() == 3 && forall|c: int|
            0 <= c < 3 ==> #[trigger] p@[c] == if planes@.len() == 3 {
                planes@[c]
            } else {
                planes@[0]
            },
{
}

/// A preview holds the strip's own pixels from where the view starts, but for the
/// box, which is in the color that was asked for
pub proof fn law_what_a_preview_holds(
    strip: &Canvas,
    col: u32,
    width: u32,
    color: [u8; 3],
    r: Canvas,
    x: int,
    y: int,
    c: int,
)
    requires
        call_ensures(preview, (strip, col, width, color), r),
        0 < width <= col,
        col + 2 * width <= strip.width,
        0 <= x < 3 * width,
        0 <= y < strip.height,
        0 <= c < 3,
    ensures
        r.width == 3 * width && r.height == strip.height,
        x < width || x > 2 * width ==> r.byte(x, y, c) == strip.byte(col - width + x, y, c),
        width < x < 2 * width && 0 < y < strip.height - 1 ==> r.byte(x, y, c) == strip.byte(
            col - width + x,
            y,
            c,
        ),
        x == width && y % 8 < 4 ==> r.byte(x, y, c) == color@[c],
{
    assert(shown(width as int, strip.width as int) == 3 * width);
    assert(shown_from(col as int, width as int, strip.width as int) == col - width);
    law_which_pixels_are_on_a_box(
        r.width as int,
        r.height as int,
        width as int,
        width as int,
        x,
        y,
    );
}

} // verus!
