//! CCD measurement setting page, code 0xE3

use super::{Error, Page};
use crate::bytes::be16_at;
use vstd::prelude::*;

verus! {

#[derive(Debug)]
pub struct CcdMeasurement {
    /// Declared page length; the page is 4 + this. Byte 3
    pub page_length: u8,
    /// Which channels a measurement covers. Byte 4, with byte 5 reserved
    pub colors: Channels,
    /// Bytes 6,7
    pub resolution: u16,
    /// How many times each measurement is scanned. Byte 8
    pub scans: u8,
    /// Curves per channel. Byte 9
    pub types: u8,
    /// The ratio of each measurement point, byte 11 onward, two bytes each.
    /// Byte 10 says how many there are
    pub points: Vec<u16>,
}

impl Clone for CcdMeasurement {
    fn clone(&self) -> (r: CcdMeasurement)
        ensures
            r == (CcdMeasurement { points: r.points, ..*self }),
            r.points@ == self.points@,
    {
        let points = self.points.clone();
        assert(points@ =~= self.points@);
        CcdMeasurement {
            page_length: self.page_length,
            colors: self.colors,
            resolution: self.resolution,
            scans: self.scans,
            types: self.types,
            points,
        }
    }
}

/// Byte 4. Two or more may be set at once
#[derive(Debug, Clone, Copy, PartialEq, Eq, Structural)]
pub struct Channels {
    pub bits: u8,
}

impl Channels {
    pub const RED: u8 = 0x01;

    pub const GREEN: u8 = 0x02;

    pub const BLUE: u8 = 0x04;

    pub const NEUTRAL_GRAY: u8 = 0x08;

    pub const CYAN: u8 = 0x10;

    pub const MAGENTA: u8 = 0x20;

    pub const YELLOW: u8 = 0x40;

    pub const BLACK: u8 = 0x80;

    /// Every flag there is a name for
    pub const NAMED: u8 = 0xFF;

    /// The flags of `bits` that have a name
    pub fn from_bits_truncate(bits: u8) -> (r: Channels)
        ensures
            r == Channels::known(bits),
    {
        Channels { bits: bits & Channels::NAMED }
    }

    /// The flags of `bits` that have a name
    pub open spec fn known(bits: u8) -> Channels {
        Channels { bits: bits & Channels::NAMED }
    }

    /// The flags as one number
    pub fn bits(&self) -> (r: u8)
        ensures
            r == self.bits,
    {
        self.bits
    }

    /// Whether every flag of `mask` is set
    pub open spec fn has(self, mask: u8) -> bool {
        self.bits & mask == mask
    }

    /// Whether every flag of `mask` is set
    pub fn contains(&self, mask: u8) -> (r: bool)
        ensures
            r == self.has(mask),
    {
        self.bits & mask == mask
    }
}

/// How many bits of a byte are set
pub open spec fn ones(b: u8) -> int {
    b % 2 + b / 2 % 2 + b / 4 % 2 + b / 8 % 2 + b / 16 % 2 + b / 32 % 2 + b / 64 % 2 + b / 128
}

/// What a page is short of, or `None` where it carries every field and as many
/// points as it says: the first point that is not whole is the one missed
pub open spec fn ccd_short_of(b: Seq<u8>) -> Option<int> {
    if b.len() < 11 {
        Some(11)
    } else if b.len() >= 11 + 2 * b[10] {
        None
    } else {
        Some(11 + 2 * ((b.len() - 11) / 2) + 2)
    }
}

impl CcdMeasurement {
    pub const PAGE_CODE: u8 = 0xE3;

    /// How many response curves a measurement produces
    pub open spec fn curve_count(&self) -> int {
        ones(self.colors.bits) * self.types
    }

    /// What the page says, field by field
    pub open spec fn says(&self, b: Seq<u8>) -> bool {
        &&& self.page_length == b[3]
        &&& self.colors == Channels::known(b[4])
        &&& self.resolution == be16_at(b, 6)
        &&& self.scans == b[8]
        &&& self.types == b[9]
        &&& self.points@ == Seq::new(b[10] as nat, |n: int| be16_at(b, 11 + 2 * n))
    }

    /// How many response curves a measurement produces
    ///
    /// As many as the channels in byte 4 times the types in byte 9, which is
    /// what sizes the reply to a `DataType::CcdData` READ
    pub fn curves(&self) -> (r: usize)
        ensures
            r == self.curve_count(),
    {
        let b: u8 = self.colors.bits;
        let ones: usize = (b % 2 + b / 2 % 2 + b / 4 % 2 + b / 8 % 2 + b / 16 % 2 + b / 32 % 2 + b
            / 64 % 2 + b / 128) as usize;
        assert(ones * self.types <= 8 * 255) by (nonlinear_arith)
            requires
                ones <= 8,
                self.types <= 255,
        ;
        ones * self.types as usize
    }
}

impl TryFrom<&Page> for CcdMeasurement {
    type Error = Error;

    fn try_from(page: &Page) -> (r: Result<CcdMeasurement, Error>)
        ensures
            match ccd_short_of(page@) {
                Some(need) => r matches Err(e) && e.is_short(page.code(), need, page@.len() as int),
                None => r matches Ok(ccd) && ccd.says(page@),
            },
    {
        let count: usize = page.u8(10)? as usize;
        let mut points: Vec<u16> = Vec::new();
        let mut n: usize = 0;
        while n < count
            invariant
                n <= count <= 255,
                page@.len() >= 11,
                count == page@[10],
                11 + 2 * n <= page@.len(),
                points@ == Seq::new(n as nat, |k: int| be16_at(page@, 11 + 2 * k)),
            decreases count - n,
        {
            points.push(page.be16(11 + 2 * n)?);
            n += 1;
        }
        Ok(
            CcdMeasurement {
                page_length: page.u8(3)?,
                colors: Channels::from_bits_truncate(page.u8(4)?),
                resolution: page.be16(6)?,
                scans: page.u8(8)?,
                types: page.u8(9)?,
                points,
            },
        )
    }
}

impl vstd::std_specs::convert::TryFromSpecImpl<&Page> for CcdMeasurement {
    open spec fn obeys_try_from_spec() -> bool {
        false
    }

    open spec fn try_from_spec(page: &Page) -> Result<CcdMeasurement, Error> {
        arbitrary()
    }
}

/// The channels are counted bit by bit, and there is a curve of each type for
/// every one
pub proof fn law_channels_are_counted_one_by_one(bits: u8)
    ensures
        ones(0) == 0,
        bits > 0 ==> ones(bits) == ones(bits / 2) + bits % 2,
        0 <= ones(bits) <= 8,
        Channels::known(bits).bits == bits,
{
    assert(bits & 0xFF == bits) by (bit_vector);
}

/// There is a curve of each type for every channel: one more type is one more
/// curve of each
pub proof fn law_curves_are_counted_by_channel_and_type(ccd: CcdMeasurement, more: CcdMeasurement)
    requires
        more.colors == ccd.colors,
        more.types == ccd.types + 1,
    ensures
        ccd.types == 0 ==> ccd.curve_count() == 0,
        more.curve_count() == ccd.curve_count() + ones(ccd.colors.bits),
{
    let n = ones(ccd.colors.bits);
    let t = ccd.types as int;
    assert(n * (t + 1) == n * t + n) by (nonlinear_arith);
}

/// Where each number of the page is
pub proof fn law_where_a_measurement_is(ccd: CcdMeasurement, b: Seq<u8>, n: int)
    requires
        ccd_short_of(b) is None,
        ccd.says(b),
        0 <= n < b[10],
    ensures
        ccd.page_length == b[3],
        ccd.colors.bits == b[4],
        ccd.resolution == 0x100 * b[6] + b[7],
        ccd.scans == b[8],
        ccd.types == b[9],
        ccd.points@.len() == b[10],
        ccd.points@[n] == 0x100 * b[11 + 2 * n] + b[12 + 2 * n],
{
    law_channels_are_counted_one_by_one(b[4]);
}

/// A measurement page holds eleven bytes and two more for each point, and one
/// that does not is said to need the first point that is not whole
pub proof fn law_what_a_measurement_has_to_hold(b: Seq<u8>)
    ensures
        ccd_short_of(b) is None <==> b.len() >= 11 && (b.len() - 11) >= 2 * b[10],
        match ccd_short_of(b) {
            Some(need) => b.len() < need && (need == 11 || need > 11 && b.len() >= need - 2 && (need
                - 11) % 2 == 0 && need <= 11 + 2 * b[10]),
            None => true,
        },
        b.len() < 11 ==> ccd_short_of(b) == Some(11int),
        b.len() >= 11 ==> ccd_short_of(b) != Some(11int),
{
}

/// Which bits the channels of a measurement are
pub proof fn law_what_the_channel_flags_are(bits: u8)
    ensures
        Channels::known(bits).has(Channels::RED) <==> bits % 2 == 1,
        Channels::known(bits).has(Channels::GREEN) <==> bits / 2 % 2 == 1,
        Channels::known(bits).has(Channels::BLUE) <==> bits / 4 % 2 == 1,
        Channels::known(bits).has(Channels::NEUTRAL_GRAY) <==> bits / 8 % 2 == 1,
        Channels::known(bits).has(Channels::CYAN) <==> bits / 16 % 2 == 1,
        Channels::known(bits).has(Channels::MAGENTA) <==> bits / 32 % 2 == 1,
        Channels::known(bits).has(Channels::YELLOW) <==> bits / 64 % 2 == 1,
        Channels::known(bits).has(Channels::BLACK) <==> bits / 128 == 1,
{
    let k = bits & 0xFF;
    assert((k & 0x01 == 0x01 <==> bits % 2 == 1) && (k & 0x02 == 0x02 <==> bits / 2 % 2 == 1) && (k
        & 0x04 == 0x04 <==> bits / 4 % 2 == 1) && (k & 0x08 == 0x08 <==> bits / 8 % 2 == 1) && (k
        & 0x10 == 0x10 <==> bits / 16 % 2 == 1) && (k & 0x20 == 0x20 <==> bits / 32 % 2 == 1) && (k
        & 0x40 == 0x40 <==> bits / 64 % 2 == 1) && (k & 0x80 == 0x80 <==> bits / 128 == 1)) by (
    bit_vector)
        requires
            k == bits & 0xFF,
    ;
}

} // verus!
