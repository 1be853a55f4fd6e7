//! Additional address information page, code 0xC8
//!
//! Where the holder's frames sit. Only published when `Address` byte 16 sets
//! [`FRAME_RECTS`](super::address::CoordinateBase::FRAME_RECTS)

use super::{Error, Page};
use crate::bytes::be32_at;
use vstd::prelude::*;

verus! {

/// One image's rectangle, in the same coordinates a window origin uses
#[derive(Debug, Clone, Copy, PartialEq, Eq, Structural)]
pub struct Frame {
    /// X address of the left edge
    pub left: u32,
    /// Y address of the top edge
    pub top: u32,
    /// Extent along X
    pub width: u32,
    /// Extent along Y, `None` where the unit does not know it
    ///
    /// A masked holder publishes its frames outright. A strip holder does not:
    /// the length is measured during thumbnail scanning, so until the host
    /// has found the boundaries itself and sent them back as
    /// `DataType::Boundary`, this is 0.
    /// `None` is that obligation, not a missing field
    pub length: Option<u32>,
}

impl Frame {
    /// The rectangle at `at`, whose length is absent where it is 0
    pub open spec fn read(b: Seq<u8>, at: int) -> Frame {
        let length = be32_at(b, at + 12);
        Frame {
            left: be32_at(b, at),
            top: be32_at(b, at + 4),
            width: be32_at(b, at + 8),
            length: if length != 0 {
                Some(length)
            } else {
                None
            },
        }
    }
}

#[derive(Debug, PartialEq, Eq)]
pub struct Frames {
    /// Byte 4, which follows the attached holder rather than the model
    pub images: Vec<Frame>,
}

impl Clone for Frames {
    fn clone(&self) -> (r: Frames)
        ensures
            r.images@ == self.images@,
    {
        let images = self.images.clone();
        assert(images@ =~= self.images@);
        Frames { images }
    }
}

/// How much of a page its rectangles need, or `None` where it carries them all
///
/// The rectangles are read number by number, so the first number that is not
/// whole is the one that is missed.
pub open spec fn frames_short_of(b: Seq<u8>) -> Option<int> {
    if b.len() < 5 {
        Some(5)
    } else if b.len() >= 5 + 16 * b[4] {
        None
    } else {
        Some(5 + 4 * ((b.len() - 5) / 4) + 4)
    }
}

impl Frames {
    pub const PAGE_CODE: u8 = 0xC8;

    /// Bytes one rectangle occupies
    const STRIDE: usize = 16;

    /// Whether the unit knows where every frame ends, or the host owes it
    /// boundary detection first
    pub fn measured(&self) -> (r: bool)
        ensures
            r == (self.images@.len() > 0 && forall|n: int|
                0 <= n < self.images@.len() ==> (#[trigger] self.images@[n]).length is Some),
    {
        let mut n: usize = 0;
        while n < self.images.len()
            invariant
                n <= self.images@.len(),
                forall|k: int| 0 <= k < n ==> (#[trigger] self.images@[k]).length is Some,
            decreases self.images@.len() - n,
        {
            if self.images[n].length.is_none() {
                return false;
            }
            n += 1;
        }
        self.images.len() > 0
    }
}

impl TryFrom<&Page> for Frames {
    type Error = Error;

    fn try_from(page: &Page) -> (r: Result<Frames, Error>)
        ensures
            match frames_short_of(page@) {
                Some(need) => r matches Err(e) && e.is_short(page.code(), need, page@.len() as int),
                None => r matches Ok(frames) && frames.images@ == Seq::new(
                    page@[4] as nat,
                    |n: int| Frame::read(page@, 5 + 16 * n),
                ),
            },
    {
        let count: usize = page.u8(4)? as usize;
        let mut images: Vec<Frame> = Vec::new();
        let mut n: usize = 0;
        while n < count
            invariant
                n <= count <= 255,
                page@.len() >= 5,
                count == page@[4],
                5 + 16 * n <= page@.len(),
                images@ == Seq::new(n as nat, |k: int| Frame::read(page@, 5 + 16 * k)),
            decreases count - n,
        {
            let at: usize = 5 + n * Frames::STRIDE;
            let left = page.be32(at)?;
            let top = page.be32(at + 4)?;
            let width = page.be32(at + 8)?;
            let length = page.be32(at + 12)?;
            images.push(
                Frame {
                    left,
                    top,
                    width,
                    length: if length != 0 {
                        Some(length)
                    } else {
                        None
                    },
                },
            );
            n += 1;
        }
        Ok(Frames { images })
    }
}

impl vstd::std_specs::convert::TryFromSpecImpl<&Page> for Frames {
    open spec fn obeys_try_from_spec() -> bool {
        false
    }

    open spec fn try_from_spec(page: &Page) -> Result<Frames, Error> {
        arbitrary()
    }
}

/// Where the numbers of a rectangle are, and that a length of 0 is one that is
/// not known
pub proof fn law_where_a_frame_is(b: Seq<u8>, at: int)
    ensures
        ({
            let f = Frame::read(b, at);
            let length = 0x100_0000 * b[at + 12] + 0x1_0000 * b[at + 13] + 0x100 * b[at + 14] + b[at
                + 15];
            &&& f.left == 0x100_0000 * b[at] + 0x1_0000 * b[at + 1] + 0x100 * b[at + 2] + b[at + 3]
            &&& f.top == 0x100_0000 * b[at + 4] + 0x1_0000 * b[at + 5] + 0x100 * b[at + 6] + b[at
                + 7]
            &&& f.width == 0x100_0000 * b[at + 8] + 0x1_0000 * b[at + 9] + 0x100 * b[at + 10] + b[at
                + 11]
            &&& length == 0 ==> f.length is None
            &&& length > 0 ==> (f.length matches Some(n) && n == length)
        }),
{
}

/// A page of rectangles holds sixteen bytes for each behind the first five, and
/// one that does not is said to need the first number that is not whole
pub proof fn law_what_a_frame_page_has_to_hold(b: Seq<u8>)
    ensures
        frames_short_of(b) is None <==> b.len() >= 5 && b.len() - 5 >= 16 * b[4],
        b.len() < 5 ==> frames_short_of(b) == Some(5int),
        b.len() >= 5 && b.len() - 5 < 16 * b[4] ==> (frames_short_of(b) matches Some(need)
            && b.len() < need <= b.len() + 4 && need <= 5 + 16 * b[4] && (need - 5) % 4 == 0),
{
}

} // verus!
