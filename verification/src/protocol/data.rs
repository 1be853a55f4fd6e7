//! READ and SEND data types

use super::caps::other::DataTypes;
use super::sense::Coop;
use crate::bytes::{
    be16_at, be16_bytes, be32_at, be32_bytes, byte_of, copied, lemma_be32_round, push16, push32,
    read16, read32,
};
use crate::error::Error;
use crate::text::{decimal, decimal_text, push_decimal};
use vstd::prelude::*;

verus! {

/// The header in front of every type but `DataType::Image`
pub const HEADER: usize = 6;

/// One row of the data type table
#[derive(Debug, Clone, Copy, PartialEq, Eq, Structural)]
pub struct Row {
    /// Byte 2 of a READ or SEND
    pub code: u8,
    /// Bytes per element. `None` where the caller picks from 1, 2 or 4, or where
    /// none is documented because no unit implements the type. A unit refuses a
    /// qualifier whose low byte disagrees with this column
    pub width: Option<u8>,
    /// Elements, where the table fixes a number rather than saying Variable
    pub count: Option<u32>,
    /// Whether the 6-byte data header precedes the valid data
    pub header: bool,
    /// The `Features` bit that says a unit will READ it, where the page has one
    pub read: Option<DataTypes>,
    /// The `Features` bit that says a unit will SEND it
    pub write: Option<DataTypes>,
}

/// Every data type there is, so one a unit implements can be named even where
/// another's does not. Support is never baked in here: `Features` decides it at
/// runtime through [`Row::read`] and [`Row::write`]
#[derive(Debug, Clone, Copy, PartialEq, Eq, Structural)]
pub enum DataType {
    Image,
    HalftoneMask,
    Lut,
    Histogram,
    MaxValue,
    Matrix,
    Filter,
    Shading,
    DarkVoltage,
    Magnetic,
    Cooperation,
    Boundary,
    AnalogGamma,
    AnalogGain,
    DigitalGain,
    WhiteBalanceExposure,
    /// Called Reserved by a family that advertises it in `Features`
    Setup,
    Perforation,
    Boundary2,
    ShipmentWhiteBalance,
    CcdData,
    DriverVersion,
    LeakVolume,
    RamBuffer,
    EepromBuffer,
}

impl DataType {
    /// Byte 2 of a READ or SEND
    pub open spec fn code(self) -> u8 {
        match self {
            DataType::Image => 0x00,
            DataType::HalftoneMask => 0x02,
            DataType::Lut => 0x03,
            DataType::Histogram => 0x80,
            DataType::MaxValue => 0x81,
            DataType::Matrix => 0x82,
            DataType::Filter => 0x83,
            DataType::Shading => 0x84,
            DataType::DarkVoltage => 0x85,
            DataType::Magnetic => 0x86,
            DataType::Cooperation => 0x87,
            DataType::Boundary => 0x88,
            DataType::AnalogGamma => 0x89,
            DataType::AnalogGain => 0x8A,
            DataType::DigitalGain => 0x8B,
            DataType::WhiteBalanceExposure => 0x8C,
            DataType::Setup => 0x8D,
            DataType::Perforation => 0x8E,
            DataType::Boundary2 => 0x8F,
            DataType::ShipmentWhiteBalance => 0x90,
            DataType::CcdData => 0x91,
            DataType::DriverVersion => 0x92,
            DataType::LeakVolume => 0x93,
            DataType::RamBuffer => 0xE0,
            DataType::EepromBuffer => 0xE1,
        }
    }

    /// Bytes per element, where the table fixes it
    pub open spec fn width(self) -> Option<u8> {
        match self {
            DataType::Lut => Some(2),
            DataType::MaxValue => Some(2),
            DataType::Shading => Some(2),
            DataType::Cooperation => Some(1),
            DataType::Boundary => Some(4),
            DataType::AnalogGain => Some(4),
            DataType::WhiteBalanceExposure => Some(4),
            DataType::Setup => Some(1),
            DataType::CcdData => Some(2),
            DataType::LeakVolume => Some(2),
            _ => None,
        }
    }

    /// Elements, where the table fixes a number
    pub open spec fn count(self) -> Option<u32> {
        match self {
            DataType::Lut => Some(16384),
            DataType::MaxValue => Some(1),
            DataType::Shading => Some(47352),
            DataType::AnalogGain => Some(2),
            DataType::WhiteBalanceExposure => Some(1),
            DataType::LeakVolume => Some(3),
            _ => None,
        }
    }

    /// The `Features` bit that says a unit will READ it
    pub open spec fn read_bit(self) -> Option<u64> {
        match self {
            DataType::HalftoneMask => Some(DataTypes::HALFTONE_READ),
            DataType::Lut => Some(DataTypes::GAMMA_READ),
            DataType::Histogram => Some(DataTypes::HISTOGRAM_READ),
            DataType::MaxValue => Some(DataTypes::MAX_VALUE_READ),
            DataType::Matrix => Some(DataTypes::MATRIX_READ),
            DataType::Filter => Some(DataTypes::FILTER_READ),
            DataType::Shading => Some(DataTypes::SHADING_READ),
            DataType::DarkVoltage => Some(DataTypes::DARK_VOLTAGE_READ),
            DataType::Magnetic => Some(DataTypes::MAGNETIC_READ),
            DataType::Cooperation => Some(DataTypes::COOP_PARAMS_READ),
            DataType::Boundary => Some(DataTypes::BOUNDARY_READ),
            DataType::AnalogGamma => Some(DataTypes::ANALOG_GAMMA_READ),
            DataType::AnalogGain => Some(DataTypes::ANALOG_GAIN_READ),
            DataType::DigitalGain => Some(DataTypes::DIGITAL_GAIN_READ),
            DataType::WhiteBalanceExposure => Some(DataTypes::EXPOSURE_READ),
            DataType::Setup => Some(DataTypes::SETUP_READ),
            DataType::Perforation => Some(DataTypes::PERFORATION_READ),
            DataType::Boundary2 => Some(DataTypes::BOUNDARY2_READ),
            DataType::ShipmentWhiteBalance => Some(DataTypes::INITIAL_WB_READ),
            DataType::CcdData => Some(DataTypes::CCD_DATA_READ),
            DataType::DriverVersion => Some(DataTypes::DRIVER_VERSION_READ),
            DataType::LeakVolume => Some(DataTypes::LEAK_READ),
            _ => None,
        }
    }

    /// The `Features` bit that says a unit will SEND it
    pub open spec fn write_bit(self) -> Option<u64> {
        match self {
            DataType::HalftoneMask => Some(DataTypes::HALFTONE_WRITE),
            DataType::Lut => Some(DataTypes::GAMMA_WRITE),
            DataType::Matrix => Some(DataTypes::MATRIX_WRITE),
            DataType::Filter => Some(DataTypes::FILTER_WRITE),
            DataType::Shading => Some(DataTypes::SHADING_WRITE),
            DataType::DarkVoltage => Some(DataTypes::DARK_VOLTAGE_WRITE),
            DataType::Magnetic => Some(DataTypes::MAGNETIC_WRITE),
            DataType::Boundary => Some(DataTypes::BOUNDARY_WRITE),
            DataType::Setup => Some(DataTypes::SETUP_WRITE),
            DataType::Boundary2 => Some(DataTypes::BOUNDARY2_WRITE),
            DataType::DriverVersion => Some(DataTypes::DRIVER_VERSION_WRITE),
            _ => None,
        }
    }

    /// One row of the table
    pub open spec fn row_of(self) -> Row {
        Row {
            code: self.code(),
            width: self.width(),
            count: self.count(),
            header: self != DataType::Image,
            read: DataType::bit(self.read_bit()),
            write: DataType::bit(self.write_bit()),
        }
    }

    /// A flag on its own
    pub open spec fn bit(flag: Option<u64>) -> Option<DataTypes> {
        match flag {
            Some(bits) => Some(DataTypes { bits }),
            None => None,
        }
    }

    /// One row of the table
    pub fn row(self) -> (r: Row)
        ensures
            r == self.row_of(),
    {
        match self {
            // 1 or 2 bytes, so the caller picks, and always available
            DataType::Image => Row {
                code: 0x00,
                width: None,
                count: None,
                header: false,
                read: None,
                write: None,
            },
            DataType::HalftoneMask => Row {
                code: 0x02,
                width: None,
                count: None,
                header: true,
                read: Some(DataTypes { bits: DataTypes::HALFTONE_READ }),
                write: Some(DataTypes { bits: DataTypes::HALFTONE_WRITE }),
            },
            DataType::Lut => Row {
                code: 0x03,
                width: Some(2),
                count: Some(16384),
                header: true,
                read: Some(DataTypes { bits: DataTypes::GAMMA_READ }),
                write: Some(DataTypes { bits: DataTypes::GAMMA_WRITE }),
            },
            DataType::Histogram => Row {
                code: 0x80,
                width: None,
                count: None,
                header: true,
                read: Some(DataTypes { bits: DataTypes::HISTOGRAM_READ }),
                write: None,
            },
            DataType::MaxValue => Row {
                code: 0x81,
                width: Some(2),
                count: Some(1),
                header: true,
                read: Some(DataTypes { bits: DataTypes::MAX_VALUE_READ }),
                write: None,
            },
            DataType::Matrix => Row {
                code: 0x82,
                width: None,
                count: None,
                header: true,
                read: Some(DataTypes { bits: DataTypes::MATRIX_READ }),
                write: Some(DataTypes { bits: DataTypes::MATRIX_WRITE }),
            },
            DataType::Filter => Row {
                code: 0x83,
                width: None,
                count: None,
                header: true,
                read: Some(DataTypes { bits: DataTypes::FILTER_READ }),
                write: Some(DataTypes { bits: DataTypes::FILTER_WRITE }),
            },
            DataType::Shading => Row {
                code: 0x84,
                width: Some(2),
                count: Some(47352),
                header: true,
                read: Some(DataTypes { bits: DataTypes::SHADING_READ }),
                write: Some(DataTypes { bits: DataTypes::SHADING_WRITE }),
            },
            DataType::DarkVoltage => Row {
                code: 0x85,
                width: None,
                count: None,
                header: true,
                read: Some(DataTypes { bits: DataTypes::DARK_VOLTAGE_READ }),
                write: Some(DataTypes { bits: DataTypes::DARK_VOLTAGE_WRITE }),
            },
            DataType::Magnetic => Row {
                code: 0x86,
                width: None,
                count: None,
                header: true,
                read: Some(DataTypes { bits: DataTypes::MAGNETIC_READ }),
                write: Some(DataTypes { bits: DataTypes::MAGNETIC_WRITE }),
            },
            // 18 elements on one family, Variable on another, so left open
            DataType::Cooperation => Row {
                code: 0x87,
                width: Some(1),
                count: None,
                header: true,
                read: Some(DataTypes { bits: DataTypes::COOP_PARAMS_READ }),
                write: None,
            },
            DataType::Boundary => Row {
                code: 0x88,
                width: Some(4),
                count: None,
                header: true,
                read: Some(DataTypes { bits: DataTypes::BOUNDARY_READ }),
                write: Some(DataTypes { bits: DataTypes::BOUNDARY_WRITE }),
            },
            DataType::AnalogGamma => Row {
                code: 0x89,
                width: None,
                count: None,
                header: true,
                read: Some(DataTypes { bits: DataTypes::ANALOG_GAMMA_READ }),
                write: None,
            },
            DataType::AnalogGain => Row {
                code: 0x8A,
                width: Some(4),
                count: Some(2),
                header: true,
                read: Some(DataTypes { bits: DataTypes::ANALOG_GAIN_READ }),
                write: None,
            },
            DataType::DigitalGain => Row {
                code: 0x8B,
                width: None,
                count: None,
                header: true,
                read: Some(DataTypes { bits: DataTypes::DIGITAL_GAIN_READ }),
                write: None,
            },
            DataType::WhiteBalanceExposure => Row {
                code: 0x8C,
                width: Some(4),
                count: Some(1),
                header: true,
                read: Some(DataTypes { bits: DataTypes::EXPOSURE_READ }),
                write: None,
            },
            // No width is fixed, but it is read with the 1-byte code and a color
            // qualifier
            DataType::Setup => Row {
                code: 0x8D,
                width: Some(1),
                count: None,
                header: true,
                read: Some(DataTypes { bits: DataTypes::SETUP_READ }),
                write: Some(DataTypes { bits: DataTypes::SETUP_WRITE }),
            },
            DataType::Perforation => Row {
                code: 0x8E,
                width: None,
                count: None,
                header: true,
                read: Some(DataTypes { bits: DataTypes::PERFORATION_READ }),
                write: None,
            },
            DataType::Boundary2 => Row {
                code: 0x8F,
                width: None,
                count: None,
                header: true,
                read: Some(DataTypes { bits: DataTypes::BOUNDARY2_READ }),
                write: Some(DataTypes { bits: DataTypes::BOUNDARY2_WRITE }),
            },
            DataType::ShipmentWhiteBalance => Row {
                code: 0x90,
                width: None,
                count: None,
                header: true,
                read: Some(DataTypes { bits: DataTypes::INITIAL_WB_READ }),
                write: None,
            },
            DataType::CcdData => Row {
                code: 0x91,
                width: Some(2),
                count: None,
                header: true,
                read: Some(DataTypes { bits: DataTypes::CCD_DATA_READ }),
                write: None,
            },
            DataType::DriverVersion => Row {
                code: 0x92,
                width: None,
                count: None,
                header: true,
                read: Some(DataTypes { bits: DataTypes::DRIVER_VERSION_READ }),
                write: Some(DataTypes { bits: DataTypes::DRIVER_VERSION_WRITE }),
            },
            DataType::LeakVolume => Row {
                code: 0x93,
                width: Some(2),
                count: Some(3),
                header: true,
                read: Some(DataTypes { bits: DataTypes::LEAK_READ }),
                write: None,
            },
            // Both buffers are always there, so Features has no bit for them
            DataType::RamBuffer => Row {
                code: 0xE0,
                width: None,
                count: None,
                header: true,
                read: None,
                write: None,
            },
            DataType::EepromBuffer => Row {
                code: 0xE1,
                width: None,
                count: None,
                header: true,
                read: None,
                write: None,
            },
        }
    }

    /// Whether the qualifier's upper byte names a channel
    pub open spec fn is_per_color(self) -> bool {
        self is Lut || self is Histogram || self is MaxValue || self is Shading
            || self is DarkVoltage || self is WhiteBalanceExposure || self is Setup
    }

    /// Whether the qualifier's upper byte names a channel
    pub fn per_color(self) -> (r: bool)
        ensures
            r == self.is_per_color(),
    {
        match self {
            DataType::Lut
            | DataType::Histogram
            | DataType::MaxValue
            | DataType::Shading
            | DataType::DarkVoltage
            | DataType::WhiteBalanceExposure
            | DataType::Setup => true,
            _ => false,
        }
    }

    /// What one element holds: a float for the analog gain, and otherwise a
    /// number as wide as the table says, or 2 bytes where it does not
    pub open spec fn scalar_of(self) -> Scalar {
        if self is AnalogGain {
            Scalar::F32
        } else {
            match self.width() {
                Some(1) => Scalar::U8,
                Some(4) => Scalar::U32,
                _ => Scalar::U16,
            }
        }
    }

    /// What one element holds. Width alone does not say: the two 4-byte types
    /// differ, and analog gain is IEEE-754, so `3F800000` reads back as 1.0
    pub fn scalar(self) -> (r: Scalar)
        ensures
            r == self.scalar_of(),
    {
        match self {
            DataType::AnalogGain => Scalar::F32,
            DataType::Boundary | DataType::WhiteBalanceExposure => Scalar::U32,
            _ => match self.row().width {
                Some(1) => Scalar::U8,
                Some(4) => Scalar::U32,
                _ => Scalar::U16,
            },
        }
    }
}

#[derive(Debug, Clone, Copy, PartialEq, Eq, Structural)]
pub enum Scalar {
    U8,
    U16,
    U32,
    /// IEEE-754 single precision
    F32,
}

/// Valid data, split into elements
///
/// Leak volume arrives as [`Words`](Self::Words) scaled by a million, and
/// boundary information as [`Longs`](Self::Longs) whose first is a length and a
/// frame count rather than a coordinate. Neither is unpacked here
#[derive(Debug, PartialEq, Eq)]
pub enum Values {
    Bytes(Vec<u8>),
    Words(Vec<u16>),
    Longs(Vec<u32>),
    /// Each element's IEEE-754 bits
    Floats(Vec<u32>),
}

impl Clone for Values {
    fn clone(&self) -> (r: Values)
        ensures
            match (*self, r) {
                (Values::Bytes(a), Values::Bytes(b)) => b@ == a@,
                (Values::Words(a), Values::Words(b)) => b@ == a@,
                (Values::Longs(a), Values::Longs(b)) => b@ == a@,
                (Values::Floats(a), Values::Floats(b)) => b@ == a@,
                _ => false,
            },
    {
        match self {
            Values::Bytes(v) => {
                let w = v.clone();
                assert(w@ =~= v@);
                Values::Bytes(w)
            },
            Values::Words(v) => {
                let w = v.clone();
                assert(w@ =~= v@);
                Values::Words(w)
            },
            Values::Longs(v) => {
                let w = v.clone();
                assert(w@ =~= v@);
                Values::Longs(w)
            },
            Values::Floats(v) => {
                let w = v.clone();
                assert(w@ =~= v@);
                Values::Floats(w)
            },
        }
    }
}

/// The 16-bit elements of a run of bytes, dropping a tail too short to fill one
pub open spec fn words_of(b: Seq<u8>) -> Seq<u16> {
    Seq::new(b.len() / 2, |n: int| be16_at(b, 2 * n))
}

/// The 32-bit elements of a run of bytes, dropping a tail too short to fill one
pub open spec fn longs_of(b: Seq<u8>) -> Seq<u32> {
    Seq::new(b.len() / 4, |n: int| be32_at(b, 4 * n))
}

/// Split into 16-bit elements
fn words(b: &[u8]) -> (r: Vec<u16>)
    ensures
        r@ == words_of(b@),
{
    let mut r: Vec<u16> = Vec::new();
    let mut n: usize = 0;
    let count: usize = b.len() / 2;
    while n < count
        invariant
            n <= count,
            count == b@.len() / 2,
            b@.len() == b.len(),
            r@ == words_of(b@).take(n as int),
        decreases count - n,
    {
        r.push(read16(b, 2 * n));
        n += 1;
    }
    r
}

/// Split into 32-bit elements
fn longs(b: &[u8]) -> (r: Vec<u32>)
    ensures
        r@ == longs_of(b@),
{
    let mut r: Vec<u32> = Vec::new();
    let mut n: usize = 0;
    let count: usize = b.len() / 4;
    while n < count
        invariant
            n <= count,
            count == b@.len() / 4,
            b@.len() == b.len(),
            r@ == longs_of(b@).take(n as int),
        decreases count - n,
    {
        r.push(read32(b, 4 * n));
        n += 1;
    }
    r
}

impl Values {
    /// Split `bytes` into elements, dropping any tail too short to fill one
    pub fn decode(scalar: Scalar, bytes: &[u8]) -> (r: Values)
        ensures
            match scalar {
                Scalar::U8 => r matches Values::Bytes(v) && v@ == bytes@,
                Scalar::U16 => r matches Values::Words(v) && v@ == words_of(bytes@),
                Scalar::U32 => r matches Values::Longs(v) && v@ == longs_of(bytes@),
                Scalar::F32 => r matches Values::Floats(v) && v@ == longs_of(bytes@),
            },
    {
        match scalar {
            Scalar::U8 => Values::Bytes(copied(bytes)),
            Scalar::U16 => Values::Words(words(bytes)),
            Scalar::U32 => Values::Longs(longs(bytes)),
            Scalar::F32 => Values::Floats(longs(bytes)),
        }
    }
}

/// What the qualifier's low byte calls an element of `width` bytes
pub open spec fn width_code_of(width: u8) -> Option<u8> {
    match width {
        1 => Some(0x00),
        2 => Some(0x01),
        4 => Some(0x03),
        _ => None,
    }
}

/// What the qualifier's low byte calls an element of `width` bytes
pub fn width_code(width: u8) -> (r: Option<u8>)
    ensures
        r == width_code_of(width),
{
    match width {
        1 => Some(0x00),
        2 => Some(0x01),
        4 => Some(0x03),
        _ => None,
    }
}

/// One frame's rectangle as `DataType::Boundary` carries it
///
/// Sub-scanning is Y and main-scanning is X, and this record puts them in that
/// order, the reverse of `Frames`, which leads with the left edge. Inclusive of
/// the lower right, so a 13860 line frame ends at 13859
#[derive(Debug, Clone, Copy, Default, PartialEq, Eq, Structural)]
pub struct Rect {
    /// Bytes 4-7, upper left in the sub-scanning direction
    pub top: u32,
    /// Bytes 8-11, upper left in the main-scanning direction
    pub left: u32,
    /// Bytes 12-15, lower right in the sub-scanning direction
    pub bottom: u32,
    /// Bytes 16-19, lower right in the main-scanning direction
    pub right: u32,
}

impl Rect {
    /// Whether an address falls in it, its lower right being its own
    pub open spec fn holds(self, x: u32, y: u32) -> bool {
        self.left <= x <= self.right && self.top <= y <= self.bottom
    }

    /// Whether `r` sits wholly inside it
    pub open spec fn covers(self, r: Rect) -> bool {
        self.left <= r.left && r.right <= self.right && self.top <= r.top && r.bottom <= self.bottom
    }

    /// The bytes of one rectangle
    pub open spec fn wire(self) -> Seq<u8> {
        be32_bytes(self.top) + be32_bytes(self.left) + be32_bytes(self.bottom) + be32_bytes(
            self.right,
        )
    }

    /// The rectangle at `at`
    pub open spec fn read(b: Seq<u8>, at: int) -> Rect {
        Rect {
            top: be32_at(b, at),
            left: be32_at(b, at + 4),
            bottom: be32_at(b, at + 8),
            right: be32_at(b, at + 12),
        }
    }
}

/// Boundary information, `DataType::Boundary`
///
/// Where each frame sits. After a thumbnail of strip film the host works these
/// out and sends them, which is what gives the unit frame lengths it could not
/// measure for itself. Addresses are inches times the maximum resolution, the
/// same unit a window origin uses at pitch 1
#[derive(Debug, Default, PartialEq, Eq)]
pub struct Boundary {
    pub frames: Vec<Rect>,
}

impl Clone for Boundary {
    fn clone(&self) -> (r: Boundary)
        ensures
            r.frames@ == self.frames@,
    {
        let frames = self.frames.clone();
        assert(frames@ =~= self.frames@);
        Boundary { frames }
    }
}

/// The frames of a boundary record, or `None` where it is shorter than its own
/// count says
pub open spec fn boundary_frames(b: Seq<u8>) -> Option<Seq<Rect>> {
    if b.len() < 4 || b.len() < 4 + 16 * b[2] {
        None
    } else {
        Some(Seq::new(b[2] as nat, |n: int| Rect::read(b, 4 + 16 * n)))
    }
}

/// The bytes of the first `n` rectangles
pub open spec fn rects_wire(frames: Seq<Rect>, n: nat) -> Seq<u8>
    decreases n,
{
    if n == 0 {
        Seq::empty()
    } else {
        rects_wire(frames, (n - 1) as nat) + frames[n - 1].wire()
    }
}

/// A whole boundary record: its length, its count, and its rectangles
pub open spec fn boundary_wire(frames: Seq<Rect>) -> Seq<u8> {
    be16_bytes((4 + 16 * frames.len()) as u16) + seq![frames.len() as u8, 0u8] + rects_wire(
        frames,
        frames.len(),
    )
}

/// `n` is the first of `frames` that `pick` takes, or there is none
pub open spec fn first_frame(
    frames: Seq<Rect>,
    pick: spec_fn(Rect) -> bool,
    found: Option<Rect>,
) -> bool {
    match found {
        Some(r) => exists|n: int|
            #![trigger frames[n]]
            0 <= n < frames.len() && frames[n] == r && pick(r) && forall|k: int|
                0 <= k < n ==> !pick(#[trigger] frames[k]),
        None => forall|k: int| 0 <= k < frames.len() ==> !pick(#[trigger] frames[k]),
    }
}

impl Boundary {
    /// Bytes before the first rectangle
    const HEAD: usize = 4;

    /// Bytes each rectangle occupies
    const RECT: usize = 16;

    /// The frame an address falls in, which is what autofocus resolves against
    pub fn at(&self, x: u32, y: u32) -> (r: Option<Rect>)
        ensures
            first_frame(self.frames@, |f: Rect| f.holds(x, y), r),
    {
        let mut n: usize = 0;
        while n < self.frames.len()
            invariant
                n <= self.frames@.len(),
                forall|k: int| 0 <= k < n ==> !(#[trigger] self.frames@[k]).holds(x, y),
            decreases self.frames@.len() - n,
        {
            let f = self.frames[n];
            if f.left <= x && x <= f.right && f.top <= y && y <= f.bottom {
                assert(self.frames@[n as int] == f);
                return Some(f);
            }
            n += 1;
        }
        None
    }

    /// The frame a rectangle sits wholly inside, which is what the stage
    /// resolves a window against
    pub fn holding(&self, r: Rect) -> (found: Option<Rect>)
        ensures
            first_frame(self.frames@, |f: Rect| f.covers(r), found),
    {
        let mut n: usize = 0;
        while n < self.frames.len()
            invariant
                n <= self.frames@.len(),
                forall|k: int| 0 <= k < n ==> !(#[trigger] self.frames@[k]).covers(r),
            decreases self.frames@.len() - n,
        {
            let f = self.frames[n];
            if f.left <= r.left && r.right <= f.right && f.top <= r.top && r.bottom <= f.bottom {
                assert(self.frames@[n as int] == f);
                return Some(f);
            }
            n += 1;
        }
        None
    }

    /// Read a record
    pub fn from_bytes(b: &[u8]) -> (r: Option<Boundary>)
        ensures
            match boundary_frames(b@) {
                Some(frames) => r matches Some(boundary) && boundary.frames@ == frames,
                None => r is None,
            },
    {
        if b.len() < Boundary::HEAD {
            return None;
        }
        let count: usize = b[2] as usize;
        if b.len() < Boundary::HEAD + count * Boundary::RECT {
            return None;
        }
        let mut frames: Vec<Rect> = Vec::new();
        let mut n: usize = 0;
        while n < count
            invariant
                n <= count <= 255,
                count == b@[2],
                b@.len() >= 4 + 16 * count,
                frames@ == Seq::new(n as nat, |k: int| Rect::read(b@, 4 + 16 * k)),
            decreases count - n,
        {
            let at: usize = Boundary::HEAD + n * Boundary::RECT;
            frames.push(
                Rect {
                    top: read32(b, at),
                    left: read32(b, at + 4),
                    bottom: read32(b, at + 8),
                    right: read32(b, at + 12),
                },
            );
            n += 1;
        }
        Some(Boundary { frames })
    }

    /// Write a record
    pub fn to_bytes(&self) -> (r: Result<Vec<u8>, Error>)
        ensures
            match r {
                Ok(bytes) => self.frames@.len() <= 255 && bytes@ == boundary_wire(self.frames@),
                Err(e) => self.frames@.len() > 255 && e.is_unsupported(
                    "boundary"@,
                    decimal(self.frames@.len())
                        + " frames cannot fit the one-byte count field"@,
                ),
            },
    {
        // The count is one byte, so more than 255 frames cannot be encoded. A
        // silent truncation would send a garbage table
        if self.frames.len() > 255 {
            let mut reason = decimal_text(self.frames.len() as u64);
            reason.append(" frames cannot fit the one-byte count field");
            return Err(Error::Unsupported { op: "boundary", reason });
        }
        let mut out: Vec<u8> = Vec::new();
        // The unit's own record counts the whole thing, these two bytes with it
        let length: u16 = (Boundary::HEAD + self.frames.len() * Boundary::RECT) as u16;
        push16(&mut out, length);
        out.push(self.frames.len() as u8);
        out.push(0);
        let ghost head = out@;
        proof {
            assert(head =~= be16_bytes((4 + 16 * self.frames@.len()) as u16)
                + seq![self.frames@.len() as u8, 0u8]);
            assert(head + rects_wire(self.frames@, 0) =~= head);
        }
        let mut n: usize = 0;
        while n < self.frames.len()
            invariant
                n <= self.frames@.len(),
                out@ == head + rects_wire(self.frames@, n as nat),
            decreases self.frames@.len() - n,
        {
            let r = self.frames[n];
            push32(&mut out, r.top);
            push32(&mut out, r.left);
            push32(&mut out, r.bottom);
            push32(&mut out, r.right);
            proof {
                assert(out@ =~= head + (rects_wire(self.frames@, n as nat) + r.wire()));
            }
            n += 1;
        }
        Ok(out)
    }
}

/// What the unit remembers about one image
#[derive(Debug, Clone, Copy, Default, PartialEq, Eq, Structural)]
pub struct Image {
    /// Which image this is
    pub index: u8,
    /// Exposure after this image's prescan
    pub exposure: u32,
    /// White balance exposure from the same prescan
    pub white_balance: u32,
    /// Darkest level the prescan found
    pub min: u16,
    /// Brightest level the prescan found
    pub max: u16,
}

impl Image {
    /// The entry at `at`
    pub open spec fn read(b: Seq<u8>, at: int) -> Image {
        Image {
            index: b[at],
            exposure: be32_at(b, at + 1),
            white_balance: be32_at(b, at + 5),
            min: be16_at(b, at + 9),
            max: be16_at(b, at + 11),
        }
    }
}

/// Setup information, `DataType::Setup`
///
/// The unit's own record of what it measured: the film base and, per image,
/// what a prescan decided. It survives across sessions, and `Features`'s
/// `SETUP_WRITE` means a driver can put its own numbers back
#[derive(Debug, PartialEq, Eq)]
pub struct Setup {
    /// Byte 2, 0 on both units
    pub format: u8,
    /// Bytes 3,4. The film base level
    pub base_level: u16,
    /// Bytes 5-8, the exposure the base level was decided at
    pub base_exposure: u32,
    /// Bytes 9-12, the white balance exposure at that same measurement
    pub base_white_balance: u32,
    /// Byte 13 counts them, and they follow it, 13 bytes each
    pub images: Vec<Image>,
}

impl Clone for Setup {
    fn clone(&self) -> (r: Setup)
        ensures
            r == (Setup { images: r.images, ..*self }),
            r.images@ == self.images@,
    {
        let images = self.images.clone();
        assert(images@ =~= self.images@);
        Setup {
            format: self.format,
            base_level: self.base_level,
            base_exposure: self.base_exposure,
            base_white_balance: self.base_white_balance,
            images,
        }
    }
}

impl Setup {
    /// Bytes before the first image entry
    const HEAD: usize = 14;

    /// Bytes each image entry occupies
    const IMAGE: usize = 13;

    /// What a record says
    pub open spec fn says(&self, b: Seq<u8>) -> bool {
        &&& self.format == b[2]
        &&& self.base_level == be16_at(b, 3)
        &&& self.base_exposure == be32_at(b, 5)
        &&& self.base_white_balance == be32_at(b, 9)
        &&& self.images@ == Seq::new(b[13] as nat, |n: int| Image::read(b, 14 + 13 * n))
    }

    /// Read a record, which is refused where it is shorter than its image count
    pub fn from_bytes(b: &[u8]) -> (r: Option<Setup>)
        ensures
            r is Some <==> b@.len() >= 14 && b@.len() >= 14 + 13 * b@[13],
            r matches Some(setup) ==> setup.says(b@),
    {
        if b.len() < Setup::HEAD {
            return None;
        }
        let count: usize = b[13] as usize;
        if b.len() < Setup::HEAD + count * Setup::IMAGE {
            return None;
        }
        let mut images: Vec<Image> = Vec::new();
        let mut n: usize = 0;
        while n < count
            invariant
                n <= count <= 255,
                count == b@[13],
                b@.len() >= 14 + 13 * count,
                images@ == Seq::new(n as nat, |k: int| Image::read(b@, 14 + 13 * k)),
            decreases count - n,
        {
            let at: usize = Setup::HEAD + n * Setup::IMAGE;
            images.push(
                Image {
                    index: b[at],
                    exposure: read32(b, at + 1),
                    white_balance: read32(b, at + 5),
                    min: read16(b, at + 9),
                    max: read16(b, at + 11),
                },
            );
            n += 1;
        }
        Some(
            Setup {
                format: b[2],
                base_level: read16(b, 3),
                base_exposure: read32(b, 5),
                base_white_balance: read32(b, 9),
                images,
            },
        )
    }
}

/// What EXECUTE can be told to do
///
/// `Features` bytes 20-35 say which of these a unit has, so nothing here is assumed
/// to exist. Only the ones with a documented name are spelled out
#[derive(Debug, Clone, Copy, PartialEq, Eq, Structural)]
pub enum Op {
    /// The same as a power-on
    Initialize,
    ReturnToOrigin,
    /// The first setting value is 0 off, 1 on
    AutoAf,
    /// Likewise
    AutoCalibration,
    /// Takes an address in both setting values
    AutoFocus,
    /// The same plus a channel
    ColorAutoFocus,
    SetupShading,
    /// Moves the scan block in the AF direction, first value the position
    FocusMove,
    /// Ejects
    Unload,
    /// A code without a name
    Other(u8),
}

impl Op {
    /// The operation's code
    pub open spec fn code_of(self) -> u8 {
        match self {
            Op::Initialize => 0x80,
            Op::ReturnToOrigin => 0x81,
            Op::AutoAf => 0x91,
            Op::AutoCalibration => 0x92,
            Op::AutoFocus => 0xA0,
            Op::ColorAutoFocus => 0xA1,
            Op::SetupShading => 0xB0,
            Op::FocusMove => 0xC1,
            Op::Unload => 0xD0,
            Op::Other(code) => code,
        }
    }

    /// The operation a code names
    pub open spec fn of(code: u8) -> Op {
        match code {
            0x80 => Op::Initialize,
            0x81 => Op::ReturnToOrigin,
            0x91 => Op::AutoAf,
            0x92 => Op::AutoCalibration,
            0xA0 => Op::AutoFocus,
            0xA1 => Op::ColorAutoFocus,
            0xB0 => Op::SetupShading,
            0xC1 => Op::FocusMove,
            0xD0 => Op::Unload,
            x => Op::Other(x),
        }
    }

    /// The operation's name
    pub open spec fn wording(self) -> Seq<char> {
        match self {
            Op::Initialize => "Initialize"@,
            Op::ReturnToOrigin => "ReturnToOrigin"@,
            Op::AutoAf => "AutoAf"@,
            Op::AutoCalibration => "AutoCalibration"@,
            Op::AutoFocus => "AutoFocus"@,
            Op::ColorAutoFocus => "ColorAutoFocus"@,
            Op::SetupShading => "SetupShading"@,
            Op::FocusMove => "FocusMove"@,
            Op::Unload => "Unload"@,
            Op::Other(code) => "Other("@ + decimal(code as nat) + ")"@,
        }
    }

    /// The operation's code
    pub fn code(self) -> (r: u8)
        ensures
            r == self.code_of(),
    {
        match self {
            Op::Initialize => 0x80,
            Op::ReturnToOrigin => 0x81,
            Op::AutoAf => 0x91,
            Op::AutoCalibration => 0x92,
            Op::AutoFocus => 0xA0,
            Op::ColorAutoFocus => 0xA1,
            Op::SetupShading => 0xB0,
            Op::FocusMove => 0xC1,
            Op::Unload => 0xD0,
            Op::Other(code) => code,
        }
    }

    /// Name the operation
    pub fn name(self) -> (r: String)
        ensures
            r@ == self.wording(),
    {
        match self {
            Op::Initialize => String::from_str("Initialize"),
            Op::ReturnToOrigin => String::from_str("ReturnToOrigin"),
            Op::AutoAf => String::from_str("AutoAf"),
            Op::AutoCalibration => String::from_str("AutoCalibration"),
            Op::AutoFocus => String::from_str("AutoFocus"),
            Op::ColorAutoFocus => String::from_str("ColorAutoFocus"),
            Op::SetupShading => String::from_str("SetupShading"),
            Op::FocusMove => String::from_str("FocusMove"),
            Op::Unload => String::from_str("Unload"),
            Op::Other(code) => {
                let mut s = String::from_str("Other(");
                push_decimal(&mut s, code as u64);
                s.append(")");
                s
            },
        }
    }
}

impl From<u8> for Op {
    fn from(code: u8) -> (r: Op) {
        match code {
            0x80 => Op::Initialize,
            0x81 => Op::ReturnToOrigin,
            0x91 => Op::AutoAf,
            0x92 => Op::AutoCalibration,
            0xA0 => Op::AutoFocus,
            0xA1 => Op::ColorAutoFocus,
            0xB0 => Op::SetupShading,
            0xC1 => Op::FocusMove,
            0xD0 => Op::Unload,
            x => Op::Other(x),
        }
    }
}

impl vstd::std_specs::convert::FromSpecImpl<u8> for Op {
    open spec fn obeys_from_spec() -> bool {
        true
    }

    open spec fn from_spec(code: u8) -> Op {
        Op::of(code)
    }
}

/// Reading a code as an operation loses nothing
pub proof fn law_op_code_round_trip(code: u8)
    ensures
        Op::of(code).code_of() == code,
{
}

/// An operation with a name of its own is what its code reads as
pub proof fn law_op_round_trip(op: Op)
    requires
        !(op is Other),
    ensures
        Op::of(op.code_of()) == op,
{
}

/// The operation parameter SET PARAMETER carries
///
/// The table runs to 13 bytes, but 9 are enough, leaving off the speed, torque
/// and driving method. What the two setting values mean depends on the
/// operation: for AF they are the address to focus on, for a focus move the
/// first is the position
#[derive(Debug, Clone, Copy, Default, PartialEq, Eq, Structural)]
pub struct Operation {
    /// Which channel, where the operation takes one
    pub color: u8,
    pub first: u32,
    pub second: u32,
}

impl Operation {
    /// What is sent and read back, against the 13 the table runs to
    pub const LENGTH: usize = 9;

    /// What a parameter says
    pub open spec fn read(b: Seq<u8>) -> Option<Operation> {
        if b.len() < 9 {
            None
        } else {
            Some(Operation { color: b[0], first: be32_at(b, 1), second: be32_at(b, 5) })
        }
    }

    /// The bytes of a parameter
    pub open spec fn wire(self) -> Seq<u8> {
        seq![self.color] + be32_bytes(self.first) + be32_bytes(self.second)
    }

    /// Read a parameter
    pub fn from_bytes(b: &[u8]) -> (r: Option<Operation>)
        ensures
            r == Operation::read(b@),
    {
        if b.len() < Operation::LENGTH {
            return None;
        }
        Some(Operation { color: b[0], first: read32(b, 1), second: read32(b, 5) })
    }

    /// Write a parameter
    pub fn to_bytes(&self) -> (r: [u8; 9])
        ensures
            r@ == self.wire(),
    {
        let r: [u8; 9] = [
            self.color,
            byte_of(self.first, 0),
            byte_of(self.first, 1),
            byte_of(self.first, 2),
            byte_of(self.first, 3),
            byte_of(self.second, 0),
            byte_of(self.second, 1),
            byte_of(self.second, 2),
            byte_of(self.second, 3),
        ];
        proof {
            assert(r@ =~= self.wire());
        }
        r
    }
}

/// The geometry block three of the cooperative jobs share
///
/// Each job fills in only the fields it needs and leaves the rest zero
#[derive(Debug, Clone, Copy, Default, PartialEq, Eq, Structural)]
pub struct Geometry {
    /// Bytes 5,6
    pub bytes_per_line: u16,
    /// Bytes 7,8. Scanning lines times frames
    pub entire_lines: u16,
    /// Byte 9
    pub bits_per_color: u8,
    /// Bytes 10,11
    pub lines_per_image: u16,
    /// Byte 12. Exposures per line, which is what averaging needs
    pub readings_per_line: u8,
    /// Bytes 13,14. Line Gap Count over the scanning pitch, filled in only by
    /// the multi-line record
    pub registration_gap: u16,
}

impl Geometry {
    /// The shortest record carrying one of these, so the gap has to be there
    const LENGTH: usize = 15;

    /// What a record says
    pub open spec fn read(b: Seq<u8>) -> Option<Geometry> {
        if b.len() < 15 {
            None
        } else {
            Some(
                Geometry {
                    bytes_per_line: be16_at(b, 5),
                    entire_lines: be16_at(b, 7),
                    bits_per_color: b[9],
                    lines_per_image: be16_at(b, 10),
                    readings_per_line: b[12],
                    registration_gap: be16_at(b, 13),
                },
            )
        }
    }

    /// Read a record
    fn from_bytes(b: &[u8]) -> (r: Option<Geometry>)
        ensures
            r == Geometry::read(b@),
    {
        if b.len() < Geometry::LENGTH {
            return None;
        }
        Some(
            Geometry {
                bytes_per_line: read16(b, 5),
                entire_lines: read16(b, 7),
                bits_per_color: b[9],
                lines_per_image: read16(b, 10),
                readings_per_line: b[12],
                registration_gap: read16(b, 13),
            },
        )
    }
}

/// Padding the host has to strip
///
/// Shares no byte past 4 with [`Geometry`], and runs 27 bytes rather than 18
#[derive(Debug, Clone, Copy, Default, PartialEq, Eq, Structural)]
pub struct Truncation {
    /// Bytes 5,6. Says which of the counts below is attached at all
    pub position: Position,
    /// Bytes 7,8 then 9,10, measured from each color's own origin
    pub per_color: Edges,
    /// Bytes 11,12 then 13,14, measured from the origin of all colors
    pub all_colors: Edges,
    /// Bytes 19,20 then 21,22, counted in lines rather than bytes
    pub lines: Edges,
    /// Bytes 23,24 then 25,26, measured from one frame's origin
    pub frame: Edges,
}

/// A count of padding at each end of an axis, in the record's own unit
#[derive(Debug, Clone, Copy, Default, PartialEq, Eq, Structural)]
pub struct Edges {
    /// The first-pixel or first-line side
    pub first: u16,
    /// The last-pixel or last-line side
    pub last: u16,
}

impl Edges {
    /// The pair of counts at `i`
    pub open spec fn read(b: Seq<u8>, i: int) -> Edges {
        Edges { first: be16_at(b, i), last: be16_at(b, i + 2) }
    }

    /// The pair of counts at `i`
    fn at(b: &[u8], i: usize) -> (r: Edges)
        requires
            i + 4 <= b@.len(),
        ensures
            r == Edges::read(b@, i as int),
    {
        assert(b@.len() == b.len());
        Edges { first: read16(b, i), last: read16(b, i + 2) }
    }
}

/// Bytes 5 and 6 of the truncation record, assembled as `byte5 | byte6 << 8`
#[derive(Debug, Clone, Copy, Default, PartialEq, Eq, Structural)]
pub struct Position {
    pub bits: u16,
}

impl Position {
    pub const COLOR_FIRST: u16 = 0x0001;

    pub const COLOR_LAST: u16 = 0x0002;

    pub const ALL_FIRST: u16 = 0x0004;

    pub const ALL_LAST: u16 = 0x0008;

    pub const LINE_FIRST: u16 = 0x0040;

    pub const LINE_LAST: u16 = 0x0080;

    pub const FRAME_FIRST: u16 = 0x0100;

    pub const FRAME_LAST: u16 = 0x0200;

    /// Every flag there is a name for
    pub const NAMED: u16 = 0x03CF;

    /// The flags of `bits` that have a name
    pub fn from_bits_truncate(bits: u16) -> (r: Position)
        ensures
            r == Position::known(bits),
    {
        Position { bits: bits & Position::NAMED }
    }

    /// The flags of `bits` that have a name
    pub open spec fn known(bits: u16) -> Position {
        Position { bits: bits & Position::NAMED }
    }

    /// The flags as one number
    pub fn bits(&self) -> (r: u16)
        ensures
            r == self.bits,
    {
        self.bits
    }

    /// Whether every flag of `mask` is set
    pub open spec fn has(self, mask: u16) -> bool {
        self.bits & mask == mask
    }

    /// Whether every flag of `mask` is set
    pub fn contains(&self, mask: u16) -> (r: bool)
        ensures
            r == self.has(mask),
    {
        self.bits & mask == mask
    }
}

impl Truncation {
    /// The record runs to byte 26
    const LENGTH: usize = 27;

    /// What a record says
    pub open spec fn read(b: Seq<u8>) -> Option<Truncation> {
        if b.len() < 27 {
            None
        } else {
            Some(
                Truncation {
                    position: Position::known((b[5] + 256 * b[6]) as u16),
                    per_color: Edges::read(b, 7),
                    all_colors: Edges::read(b, 11),
                    lines: Edges::read(b, 19),
                    frame: Edges::read(b, 23),
                },
            )
        }
    }

    /// Read a record
    fn from_bytes(b: &[u8]) -> (r: Option<Truncation>)
        ensures
            r == Truncation::read(b@),
    {
        if b.len() < Truncation::LENGTH {
            return None;
        }
        Some(
            Truncation {
                position: Position::from_bits_truncate(b[5] as u16 + 256 * b[6] as u16),
                per_color: Edges::at(b, 7),
                all_colors: Edges::at(b, 11),
                lines: Edges::at(b, 19),
                frame: Edges::at(b, 23),
            },
        )
    }
}

/// What the scanner wants doing, and the numbers to do it with
///
/// Read back as `DataType::Cooperation` once a SCAN says a job is pending. Byte
/// 0 picks the layout of everything after byte 4, and the four layouts share
/// nothing
#[derive(Debug, PartialEq, Eq)]
pub enum CooperativeAction {
    /// Thumbnail (1), averaging (2) and multi-line registration (4)
    Geometry(Coop, Geometry),
    /// Truncation (6)
    Truncate(Truncation),
    /// CCD data (7). Bytes 5-12, one measurement type per color in the order
    /// R, G, B, neutral gray, C, M, Y, K
    CcdData([u8; 8]),
    /// A job with no documented layout, kept whole so it can be reported
    Unknown(u8, Vec<u8>),
}

impl Clone for CooperativeAction {
    fn clone(&self) -> (r: CooperativeAction)
        ensures
            match *self {
                CooperativeAction::Unknown(code, whole) => r matches CooperativeAction::Unknown(
                    c,
                    w,
                ) && c == code && w@ == whole@,
                _ => r == *self,
            },
    {
        match self {
            CooperativeAction::Geometry(job, geometry) => CooperativeAction::Geometry(
                *job,
                *geometry,
            ),
            CooperativeAction::Truncate(truncation) => CooperativeAction::Truncate(*truncation),
            CooperativeAction::CcdData(types) => CooperativeAction::CcdData(*types),
            CooperativeAction::Unknown(code, whole) => CooperativeAction::Unknown(
                *code,
                copied(whole.as_slice()),
            ),
        }
    }
}

impl CooperativeAction {
    /// What the table promises, which truncation exceeds. A floor, not the
    /// answer: the data header's own length is what sizes a read
    pub const LENGTH: usize = 18;

    /// What a record says. One too short for its own kind is kept whole
    pub open spec fn says(&self, b: Seq<u8>) -> bool {
        let kept = self matches CooperativeAction::Unknown(code, whole) && code == b[0] && whole@
            == b;
        match Coop::of(b[0]) {
            Coop::Thumbnail | Coop::Averaging | Coop::MultiLineRegistration => match Geometry::read(
                b,
            ) {
                Some(g) => *self == CooperativeAction::Geometry(Coop::of(b[0]), g),
                None => kept,
            },
            Coop::Truncate => match Truncation::read(b) {
                Some(t) => *self == CooperativeAction::Truncate(t),
                None => kept,
            },
            Coop::CcdData => if b.len() >= 13 {
                self matches CooperativeAction::CcdData(types) && types@ == b.subrange(5, 13)
            } else {
                kept
            },
            Coop::Unknown(_) => kept,
        }
    }

    /// Byte 0, in the same namespace as the `09h-80h` ASCQ that announced it
    ///
    /// Two families give the same job different 4th sense bytes, so dispatch
    /// on this rather than on the sense
    pub fn kind(&self) -> (r: Coop)
        ensures
            r == match *self {
                CooperativeAction::Geometry(kind, _) => kind,
                CooperativeAction::Truncate(_) => Coop::Truncate,
                CooperativeAction::CcdData(_) => Coop::CcdData,
                CooperativeAction::Unknown(code, _) => Coop::of(code),
            },
    {
        match self {
            CooperativeAction::Geometry(kind, _) => *kind,
            CooperativeAction::Truncate(_) => Coop::Truncate,
            CooperativeAction::CcdData(_) => Coop::CcdData,
            CooperativeAction::Unknown(code, _) => Coop::from(*code),
        }
    }

    /// Read a record, of which there is none in no bytes at all
    pub fn from_bytes(b: &[u8]) -> (r: Option<CooperativeAction>)
        ensures
            r is Some <==> b@.len() > 0,
            r matches Some(action) ==> action.says(b@),
    {
        if b.len() == 0 {
            return None;
        }
        let kind = Coop::from(b[0]);
        match kind {
            Coop::Thumbnail | Coop::Averaging | Coop::MultiLineRegistration => {
                if let Some(g) = Geometry::from_bytes(b) {
                    return Some(CooperativeAction::Geometry(kind, g));
                }
            },
            Coop::Truncate => {
                if let Some(t) = Truncation::from_bytes(b) {
                    return Some(CooperativeAction::Truncate(t));
                }
            },
            Coop::CcdData => {
                if b.len() >= 13 {
                    let types: [u8; 8] = [b[5], b[6], b[7], b[8], b[9], b[10], b[11], b[12]];
                    proof {
                        assert(types@ =~= b@.subrange(5, 13));
                    }
                    return Some(CooperativeAction::CcdData(types));
                }
            },
            Coop::Unknown(_) => {},
        }
        Some(CooperativeAction::Unknown(b[0], copied(b)))
    }
}

/// What precedes the valid data of a read
#[derive(Debug, Clone, Copy, PartialEq, Eq, Structural)]
pub struct Header {
    /// Byte 0, echoing the type asked for
    pub code: u8,
    /// Byte 1. Valid bits per element, which can be fewer than the bytes carry:
    /// 14-bit data arrives in 2 bytes and reports 14
    pub bits: u8,
    /// Bytes 2-5. What the unit holds, and it is *not* cut down to match a short
    /// transfer length, so one short read tells us how much to ask for
    pub length: u32,
}

impl Header {
    /// Read the header and return the rest of the slice
    pub fn from_bytes(b: &[u8]) -> (r: Option<(Header, &[u8])>)
        ensures
            r is Some <==> b@.len() >= HEADER,
            r matches Some((h, rest)) ==> h == (Header {
                code: b@[0],
                bits: b@[1],
                length: be32_at(b@, 2),
            }) && rest@ == b@.skip(HEADER as int),
    {
        if b.len() < HEADER {
            return None;
        }
        let rest: &[u8] = &b[HEADER..b.len()];
        Some((Header { code: b[0], bits: b[1], length: read32(b, 2) }, rest))
    }
}

/// Where rectangle `n` sits among the bytes of several
proof fn lemma_rect_bytes(frames: Seq<Rect>, count: nat, n: int)
    requires
        0 <= n < count <= frames.len(),
    ensures
        rects_wire(frames, count).len() == 16 * count,
        rects_wire(frames, count).subrange(16 * n, 16 * n + 16) == frames[n].wire(),
    decreases count,
{
    let before = rects_wire(frames, (count - 1) as nat);
    lemma_rects_len(frames, (count - 1) as nat);
    if n == count - 1 {
        assert(rects_wire(frames, count).subrange(16 * n, 16 * n + 16) =~= frames[n].wire());
    } else {
        lemma_rect_bytes(frames, (count - 1) as nat, n);
        assert(rects_wire(frames, count).subrange(16 * n, 16 * n + 16) =~= before.subrange(
            16 * n,
            16 * n + 16,
        ));
    }
}

/// Every rectangle takes 16 bytes
proof fn lemma_rects_len(frames: Seq<Rect>, count: nat)
    requires
        count <= frames.len(),
    ensures
        rects_wire(frames, count).len() == 16 * count,
    decreases count,
{
    if count > 0 {
        lemma_rects_len(frames, (count - 1) as nat);
    }
}

/// A rectangle survives being written and read back
pub proof fn law_rect_round_trip(r: Rect)
    ensures
        Rect::read(r.wire(), 0) == r,
{
    lemma_be32_round(r.top);
    lemma_be32_round(r.left);
    lemma_be32_round(r.bottom);
    lemma_be32_round(r.right);
}

/// A frame table that can be written at all reads back as itself
pub proof fn law_boundary_round_trip(frames: Seq<Rect>)
    requires
        frames.len() <= 255,
    ensures
        boundary_frames(boundary_wire(frames)) == Some(frames),
{
    let b = boundary_wire(frames);
    let rects = rects_wire(frames, frames.len());
    lemma_rects_len(frames, frames.len());
    assert(b[2] == frames.len());
    assert(b.len() == 4 + 16 * frames.len());
    let read = Seq::new(b[2] as nat, |n: int| Rect::read(b, 4 + 16 * n));
    assert forall|n: int| 0 <= n < frames.len() implies #[trigger] read[n] == frames[n] by {
        lemma_rect_bytes(frames, frames.len(), n);
        law_rect_round_trip(frames[n]);
        let wire = rects.subrange(16 * n, 16 * n + 16);
        assert forall|k: int| 0 <= k < 16 implies b[4 + 16 * n + k] == #[trigger] wire[k] by {
            assert(b[4 + 16 * n + k] == rects[16 * n + k]);
        }
        assert(wire[0] == b[4 + 16 * n] && wire[1] == b[4 + 16 * n + 1] && wire[2] == b[4 + 16 * n
            + 2] && wire[3] == b[4 + 16 * n + 3]);
        assert(wire[4] == b[4 + 16 * n + 4] && wire[5] == b[4 + 16 * n + 5] && wire[6] == b[4 + 16
            * n + 6] && wire[7] == b[4 + 16 * n + 7]);
        assert(wire[8] == b[4 + 16 * n + 8] && wire[9] == b[4 + 16 * n + 9] && wire[10] == b[4 + 16
            * n + 10] && wire[11] == b[4 + 16 * n + 11]);
        assert(wire[12] == b[4 + 16 * n + 12] && wire[13] == b[4 + 16 * n + 13] && wire[14] == b[4
            + 16 * n + 14] && wire[15] == b[4 + 16 * n + 15]);
        assert(Rect::read(b, 4 + 16 * n) == Rect::read(wire, 0));
    }
    assert(read =~= frames);
}

/// An address in a rectangle is in every frame that the rectangle sits wholly
/// inside
pub proof fn law_a_covering_frame_holds_its_addresses(frame: Rect, r: Rect, x: u32, y: u32)
    requires
        frame.covers(r),
        r.holds(x, y),
    ensures
        frame.holds(x, y),
{
}

/// An operation parameter survives being written and read back, whatever bytes
/// stand behind it
pub proof fn law_operation_reads_with_bytes_behind(op: Operation, behind: Seq<u8>)
    ensures
        Operation::read(op.wire() + behind) == Some(op),
{
    lemma_be32_round(op.first);
    lemma_be32_round(op.second);
    let w = op.wire() + behind;
    assert(w[0] == op.color);
    assert(w[1] == be32_bytes(op.first)[0] && w[2] == be32_bytes(op.first)[1] && w[3] == be32_bytes(
        op.first,
    )[2] && w[4] == be32_bytes(op.first)[3]);
    assert(w[5] == be32_bytes(op.second)[0] && w[6] == be32_bytes(op.second)[1] && w[7]
        == be32_bytes(op.second)[2] && w[8] == be32_bytes(op.second)[3]);
}

/// An operation parameter survives being written and read back
pub proof fn law_operation_round_trip(op: Operation)
    ensures
        Operation::read(op.wire()) == Some(op),
{
    law_operation_reads_with_bytes_behind(op, Seq::empty());
    assert(op.wire() + Seq::<u8>::empty() =~= op.wire());
}

/// No two data types share a code
pub proof fn law_codes_are_distinct(a: DataType, b: DataType)
    requires
        a.code() == b.code(),
    ensures
        a == b,
{
}

/// A width the table fixes is one the qualifier has a code for
pub proof fn law_widths_have_codes(t: DataType)
    ensures
        t.width() matches Some(w) ==> width_code_of(w) is Some,
{
}

/// What each code of a READ or SEND is the code of, and that every type but the
/// image has a header
pub proof fn law_what_the_data_codes_name(t: DataType)
    ensures
        ({
            let row = t.row_of();
            &&& row.code == 0x00 <==> t is Image
            &&& row.code == 0x02 <==> t is HalftoneMask
            &&& row.code == 0x03 <==> t is Lut
            &&& row.code == 0x80 <==> t is Histogram
            &&& row.code == 0x81 <==> t is MaxValue
            &&& row.code == 0x82 <==> t is Matrix
            &&& row.code == 0x83 <==> t is Filter
            &&& row.code == 0x84 <==> t is Shading
            &&& row.code == 0x85 <==> t is DarkVoltage
            &&& row.code == 0x86 <==> t is Magnetic
            &&& row.code == 0x87 <==> t is Cooperation
            &&& row.code == 0x88 <==> t is Boundary
            &&& row.code == 0x89 <==> t is AnalogGamma
            &&& row.code == 0x8a <==> t is AnalogGain
            &&& row.code == 0x8b <==> t is DigitalGain
            &&& row.code == 0x8c <==> t is WhiteBalanceExposure
            &&& row.code == 0x8d <==> t is Setup
            &&& row.code == 0x8e <==> t is Perforation
            &&& row.code == 0x8f <==> t is Boundary2
            &&& row.code == 0x90 <==> t is ShipmentWhiteBalance
            &&& row.code == 0x91 <==> t is CcdData
            &&& row.code == 0x92 <==> t is DriverVersion
            &&& row.code == 0x93 <==> t is LeakVolume
            &&& row.code == 0xe0 <==> t is RamBuffer
            &&& row.code == 0xe1 <==> t is EepromBuffer
            &&& row.header <==> row.code != 0
        }),
{
}

/// Which types have elements of a fixed width, which a fixed number of them, and
/// what an element is
pub proof fn law_what_the_data_types_hold(t: DataType)
    ensures
        ({
            let row = t.row_of();
            &&& row.width == Some(1u8) <==> t is Cooperation || t is Setup
            &&& row.width == Some(2u8) <==> t is Lut || t is MaxValue || t is Shading || t is CcdData
                || t is LeakVolume
            &&& row.width == Some(4u8) <==> t is Boundary || t is AnalogGain
                || t is WhiteBalanceExposure
            &&& row.width matches Some(w) ==> w == 1 || w == 2 || w == 4
            &&& row.count == Some(16384u32) <==> t is Lut
            &&& row.count == Some(47352u32) <==> t is Shading
            &&& row.count == Some(1u32) <==> t is MaxValue || t is WhiteBalanceExposure
            &&& row.count == Some(2u32) <==> t is AnalogGain
            &&& row.count == Some(3u32) <==> t is LeakVolume
            &&& row.count matches Some(n) ==> n <= 3 && n > 0 || n == 16384 || n == 47352
            &&& t.scalar_of() == Scalar::F32 <==> t is AnalogGain
            &&& t.scalar_of() == Scalar::U32 <==> t is Boundary || t is WhiteBalanceExposure
            &&& t.scalar_of() == Scalar::U8 <==> t is Cooperation || t is Setup
            &&& t.is_per_color() <==> t is Lut || t is Histogram || t is MaxValue || t is Shading
                || t is DarkVoltage || t is WhiteBalanceExposure || t is Setup
        }),
{
}

/// Which flag of the features page offers each type for reading, and that the
/// types without one are always there
pub proof fn law_what_offers_a_type_for_reading(t: DataType)
    ensures
        ({
            let row = t.row_of();
            &&& row.read == Some(DataTypes { bits: 0x1 }) <==> t is HalftoneMask
            &&& row.read == Some(DataTypes { bits: 0x4 }) <==> t is Lut
            &&& row.read == Some(DataTypes { bits: 0x10 }) <==> t is Histogram
            &&& row.read == Some(DataTypes { bits: 0x20 }) <==> t is MaxValue
            &&& row.read == Some(DataTypes { bits: 0x100 }) <==> t is Matrix
            &&& row.read == Some(DataTypes { bits: 0x400 }) <==> t is Filter
            &&& row.read == Some(DataTypes { bits: 0x1000 }) <==> t is Shading
            &&& row.read == Some(DataTypes { bits: 0x10000 }) <==> t is DarkVoltage
            &&& row.read == Some(DataTypes { bits: 0x40000 }) <==> t is Magnetic
            &&& row.read == Some(DataTypes { bits: 0x100000 }) <==> t is Cooperation
            &&& row.read == Some(DataTypes { bits: 0x200000 }) <==> t is Boundary
            &&& row.read == Some(DataTypes { bits: 0x1000000 }) <==> t is AnalogGamma
            &&& row.read == Some(DataTypes { bits: 0x2000000 }) <==> t is AnalogGain
            &&& row.read == Some(DataTypes { bits: 0x4000000 }) <==> t is DigitalGain
            &&& row.read == Some(DataTypes { bits: 0x8000000 }) <==> t is WhiteBalanceExposure
            &&& row.read == Some(DataTypes { bits: 0x10000000 }) <==> t is Setup
            &&& row.read == Some(DataTypes { bits: 0x40000000 }) <==> t is Perforation
            &&& row.read == Some(DataTypes { bits: 0x100000000 }) <==> t is Boundary2
            &&& row.read == Some(DataTypes { bits: 0x400000000 }) <==> t is ShipmentWhiteBalance
            &&& row.read == Some(DataTypes { bits: 0x800000000 }) <==> t is CcdData
            &&& row.read == Some(DataTypes { bits: 0x1000000000 }) <==> t is DriverVersion
            &&& row.read == Some(DataTypes { bits: 0x4000000000 }) <==> t is LeakVolume
            &&& row.read is None <==> t is Image || t is RamBuffer || t is EepromBuffer
        }),
{
}

/// Which flag of the features page offers each type for writing
pub proof fn law_what_offers_a_type_for_writing(t: DataType)
    ensures
        ({
            let row = t.row_of();
            &&& row.write == Some(DataTypes { bits: 0x2 }) <==> t is HalftoneMask
            &&& row.write == Some(DataTypes { bits: 0x8 }) <==> t is Lut
            &&& row.write == Some(DataTypes { bits: 0x200 }) <==> t is Matrix
            &&& row.write == Some(DataTypes { bits: 0x800 }) <==> t is Filter
            &&& row.write == Some(DataTypes { bits: 0x2000 }) <==> t is Shading
            &&& row.write == Some(DataTypes { bits: 0x20000 }) <==> t is DarkVoltage
            &&& row.write == Some(DataTypes { bits: 0x80000 }) <==> t is Magnetic
            &&& row.write == Some(DataTypes { bits: 0x400000 }) <==> t is Boundary
            &&& row.write == Some(DataTypes { bits: 0x20000000 }) <==> t is Setup
            &&& row.write == Some(DataTypes { bits: 0x200000000 }) <==> t is Boundary2
            &&& row.write == Some(DataTypes { bits: 0x2000000000 }) <==> t is DriverVersion
            &&& row.write is Some <==> t is HalftoneMask || t is Lut || t is Matrix || t is Filter || t is Shading || t is DarkVoltage || t is Magnetic || t is Boundary || t is Setup || t is Boundary2 || t is DriverVersion
        }),
{
}

/// What an element's width is called
pub proof fn law_what_the_widths_are_called(width: u8)
    ensures
        width_code_of(width) is Some <==> width == 1 || width == 2 || width == 4,
        width_code_of(width) matches Some(code) ==> code + 1 == width,
{
}

/// What each code of an operation is the code of
pub proof fn law_what_the_operation_codes_name(code: u8)
    ensures
        ({
            let op = Op::of(code);
            &&& op == Op::Initialize <==> code == 0x80
            &&& op == Op::ReturnToOrigin <==> code == 0x81
            &&& op == Op::AutoAf <==> code == 0x91
            &&& op == Op::AutoCalibration <==> code == 0x92
            &&& op == Op::AutoFocus <==> code == 0xA0
            &&& op == Op::ColorAutoFocus <==> code == 0xA1
            &&& op == Op::SetupShading <==> code == 0xB0
            &&& op == Op::FocusMove <==> code == 0xC1
            &&& op == Op::Unload <==> code == 0xD0
        }),
{
}

/// Elements are as many as fit whole, each spelled most significant byte first
pub proof fn law_where_elements_are(b: Seq<u8>, n: int)
    ensures
        words_of(b).len() == b.len() / 2,
        longs_of(b).len() == b.len() / 4,
        0 <= n < b.len() / 2 ==> words_of(b)[n] == 0x100 * b[2 * n] + b[2 * n + 1],
        0 <= n < b.len() / 4 ==> longs_of(b)[n] == 0x100_0000 * b[4 * n] + 0x1_0000 * b[4 * n + 1]
            + 0x100 * b[4 * n + 2] + b[4 * n + 3],
{
}

/// A rectangle holds an address exactly where it is neither past one of its edges
/// nor short of one, and covers another exactly where it holds both its corners,
/// unless that one is inside out
pub proof fn law_what_a_rectangle_holds(f: Rect, r: Rect, x: u32, y: u32)
    ensures
        f.holds(x, y) <==> !(x < f.left || x > f.right || y < f.top || y > f.bottom),
        r.left <= r.right && r.top <= r.bottom ==> (f.covers(r) <==> f.holds(r.left, r.top)
            && f.holds(r.right, r.bottom)),
        f.covers(r) <==> !(r.left < f.left || r.right > f.right || r.top < f.top || r.bottom
            > f.bottom),
{
}

/// Where the numbers of a boundary record are: a count in byte 2, and from byte 4
/// on sixteen bytes a frame, the top left corner before the bottom right one, the
/// feed before the bar
pub proof fn law_where_the_frames_are(b: Seq<u8>, n: int)
    ensures
        boundary_frames(b) is None <==> b.len() < 4 || b.len() < 4 + 16 * b[2],
        boundary_frames(b) matches Some(frames) ==> {
            &&& frames.len() == b[2]
            &&& 0 <= n < b[2] ==> {
                let (f, at) = (frames[n], 4 + 16 * n);
                &&& f.top == 0x100_0000 * b[at] + 0x1_0000 * b[at + 1] + 0x100 * b[at + 2] + b[at
                    + 3]
                &&& f.left == 0x100_0000 * b[at + 4] + 0x1_0000 * b[at + 5] + 0x100 * b[at + 6]
                    + b[at + 7]
                &&& f.bottom == 0x100_0000 * b[at + 8] + 0x1_0000 * b[at + 9] + 0x100 * b[at + 10]
                    + b[at + 11]
                &&& f.right == 0x100_0000 * b[at + 12] + 0x1_0000 * b[at + 13] + 0x100 * b[at + 14]
                    + b[at + 15]
            }
        },
{
}

/// A boundary record counts its own bytes, these two with them, and its frames
pub proof fn law_a_boundary_counts_itself(frames: Seq<Rect>)
    requires
        frames.len() <= 255,
    ensures
        ({
            let b = boundary_wire(frames);
            &&& b.len() == 4 + 16 * frames.len()
            &&& 0x100 * b[0] + b[1] == b.len()
            &&& b[2] == frames.len()
            &&& b[3] == 0
        }),
{
    lemma_rects_wire_len(frames, frames.len());
}

/// As many rectangles as there are, sixteen bytes each
proof fn lemma_rects_wire_len(frames: Seq<Rect>, n: nat)
    requires
        n <= frames.len(),
    ensures
        rects_wire(frames, n).len() == 16 * n,
    decreases n,
{
    if n > 0 {
        lemma_rects_wire_len(frames, (n - 1) as nat);
    }
}

/// Where the numbers of a setup record are: thirteen bytes an image, behind
/// fourteen that say what they were decided at
pub proof fn law_where_a_setup_is(setup: Setup, b: Seq<u8>, n: int)
    requires
        setup.says(b),
    ensures
        setup.format == b[2],
        setup.base_level == 0x100 * b[3] + b[4],
        setup.base_exposure == 0x100_0000 * b[5] + 0x1_0000 * b[6] + 0x100 * b[7] + b[8],
        setup.base_white_balance == 0x100_0000 * b[9] + 0x1_0000 * b[10] + 0x100 * b[11] + b[12],
        setup.images@.len() == b[13],
        0 <= n < b[13] ==> {
            let (image, at) = (setup.images@[n], 14 + 13 * n);
            &&& image.index == b[at]
            &&& image.exposure == 0x100_0000 * b[at + 1] + 0x1_0000 * b[at + 2] + 0x100 * b[at + 3]
                + b[at + 4]
            &&& image.white_balance == 0x100_0000 * b[at + 5] + 0x1_0000 * b[at + 6] + 0x100 * b[at
                + 7] + b[at + 8]
            &&& image.min == 0x100 * b[at + 9] + b[at + 10]
            &&& image.max == 0x100 * b[at + 11] + b[at + 12]
        },
{
}

/// Where an operation parameter is: a channel, and two numbers
pub proof fn law_where_an_operation_is(b: Seq<u8>)
    ensures
        Operation::read(b) is Some <==> b.len() >= 9,
        Operation::read(b) matches Some(op) ==> {
            &&& op.color == b[0]
            &&& op.first == 0x100_0000 * b[1] + 0x1_0000 * b[2] + 0x100 * b[3] + b[4]
            &&& op.second == 0x100_0000 * b[5] + 0x1_0000 * b[6] + 0x100 * b[7] + b[8]
        },
{
}

/// What a job record says by its first byte: a geometry for a thumbnail, an
/// averaging and a registration, a truncation, or a type for each of eight
/// colors. A record too short for that, or of another kind, is kept whole
pub proof fn law_what_a_job_says(action: CooperativeAction, b: Seq<u8>)
    requires
        b.len() > 0,
        action.says(b),
    ensures
        (b[0] == 1 || b[0] == 2 || b[0] == 4) && b.len() >= 15 ==> match action {
            CooperativeAction::Geometry(job, g) => {
                &&& job == Coop::Thumbnail <==> b[0] == 1
                &&& job == Coop::Averaging <==> b[0] == 2
                &&& job == Coop::MultiLineRegistration <==> b[0] == 4
                &&& g.bytes_per_line == 0x100 * b[5] + b[6]
                &&& g.entire_lines == 0x100 * b[7] + b[8]
                &&& g.bits_per_color == b[9]
                &&& g.lines_per_image == 0x100 * b[10] + b[11]
                &&& g.readings_per_line == b[12]
                &&& g.registration_gap == 0x100 * b[13] + b[14]
            },
            _ => false,
        },
        b[0] == 6 && b.len() >= 27 ==> match action {
            CooperativeAction::Truncate(t) => {
                &&& t.position.bits == ((b[5] + 0x100 * b[6]) as u16) & 0x03CF
                &&& t.per_color.first == 0x100 * b[7] + b[8]
                &&& t.per_color.last == 0x100 * b[9] + b[10]
                &&& t.all_colors.first == 0x100 * b[11] + b[12]
                &&& t.all_colors.last == 0x100 * b[13] + b[14]
                &&& t.lines.first == 0x100 * b[19] + b[20]
                &&& t.lines.last == 0x100 * b[21] + b[22]
                &&& t.frame.first == 0x100 * b[23] + b[24]
                &&& t.frame.last == 0x100 * b[25] + b[26]
            },
            _ => false,
        },
        b[0] == 7 && b.len() >= 13 ==> match action {
            CooperativeAction::CcdData(types) => types@ == b.subrange(5, 13),
            _ => false,
        },
        !((b[0] == 1 || b[0] == 2 || b[0] == 4) && b.len() >= 15) && !(b[0] == 6 && b.len() >= 27)
            && !(b[0] == 7 && b.len() >= 13) ==> match action {
            CooperativeAction::Unknown(code, whole) => code == b[0] && whole@ == b,
            _ => false,
        },
{
}

/// What each operation is called, and one without a name by its number
pub proof fn law_what_the_operations_are_called(op: Op, code: u8)
    ensures
        op is Initialize ==> op.wording() == "Initialize"@,
        op is ReturnToOrigin ==> op.wording() == "ReturnToOrigin"@,
        op is AutoAf ==> op.wording() == "AutoAf"@,
        op is AutoCalibration ==> op.wording() == "AutoCalibration"@,
        op is AutoFocus ==> op.wording() == "AutoFocus"@,
        op is ColorAutoFocus ==> op.wording() == "ColorAutoFocus"@,
        op is SetupShading ==> op.wording() == "SetupShading"@,
        op is FocusMove ==> op.wording() == "FocusMove"@,
        op is Unload ==> op.wording() == "Unload"@,
        op == Op::Other(code) ==> op.wording() == "Other("@ + decimal(code as nat) + ")"@,
{
}

/// Where the numbers of a read's header are, and where its data starts
pub proof fn law_where_a_read_starts(b: &[u8], r: Option<(Header, &[u8])>)
    requires
        call_ensures(Header::from_bytes, (b,), r),
    ensures
        r is Some <==> b@.len() >= 6,
        r matches Some((h, rest)) ==> h.code == b@[0] && h.bits == b@[1] && h.length == 0x100_0000
            * b@[2] + 0x1_0000 * b@[3] + 0x100 * b@[4] + b@[5] && rest@.len() + 6 == b@.len(),
        r matches Some((h, rest)) ==> forall|i: int|
            0 <= i < rest@.len() ==> #[trigger] rest@[i] == b@[6 + i],
{
}

/// An address is in the first frame whose four sides it is within, and a
/// rectangle in the first whose four sides are all beyond its own
pub proof fn law_which_frame_an_address_is_in(
    b: &Boundary,
    x: u32,
    y: u32,
    at: Option<Rect>,
    part: Rect,
    holding: Option<Rect>,
    n: int,
)
    requires
        call_ensures(Boundary::at, (b, x, y), at),
        call_ensures(Boundary::holding, (b, part), holding),
        0 <= n < b.frames@.len(),
    ensures
        ({
            let f = b.frames@[n];
            let first = forall|k: int|
                0 <= k < n ==> !((#[trigger] b.frames@[k]).left <= x <= b.frames@[k].right
                    && b.frames@[k].top <= y <= b.frames@[k].bottom);
            first && f.left <= x <= f.right && f.top <= y <= f.bottom ==> at == Some(f)
        }),
        ({
            let f = b.frames@[n];
            at is None ==> !(f.left <= x <= f.right && f.top <= y <= f.bottom)
        }),
        ({
            let f = b.frames@[n];
            let first = forall|k: int|
                0 <= k < n ==> !((#[trigger] b.frames@[k]).left <= part.left && part.right
                    <= b.frames@[k].right && b.frames@[k].top <= part.top && part.bottom
                    <= b.frames@[k].bottom);
            first && f.left <= part.left && part.right <= f.right && f.top <= part.top
                && part.bottom <= f.bottom ==> holding == Some(f)
        }),
{
    let f = b.frames@[n];
    if f.left <= x <= f.right && f.top <= y <= f.bottom {
        assert(b.frames@[n].holds(x, y));
    }
    if f.covers(part) {
        assert(b.frames@[n].covers(part));
    }
}

} // verus!
