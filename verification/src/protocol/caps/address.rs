//! "Address information"
//!
//! Probably the most complex page, with all of the major details a scan needs

use super::{
    after, carried, field_end, field_need, law_where_an_extendable_field_ends,
    lemma_field_end_moves, lemma_field_end_stays, nonzero16, nonzero8, short_of, Error, Page,
};
use crate::bytes::{be16_at, be32_at};
use crate::range::RangeInclusive;
use vstd::arithmetic::div_mod::lemma_basic_div;
use vstd::prelude::*;

verus! {

#[derive(Debug, Clone, Copy)]
pub struct Address {
    /// Declared page length; the page is 4 + this. Byte 3
    pub page_length: u8,
    /// SCSI data transfer function bitflags. Byte 4
    pub transfer: Transfer,
    /// Window descriptor block length in bytes. Bytes 5,6
    pub window_descriptor_len: u16,
    /// Length of SET PARAMETER command in bytes. Bytes 7,8
    pub set_parameter_len: u16,
    /// SCSI buffer size in bytes, None being unlimited. Bytes 9,10
    pub scsi_buffer: Option<u16>,
    /// Image buffer size in KB. Bytes 11,12
    pub image_buffer_kb: u16,
    /// Number of units that can be attached simultaneously. Byte 13
    pub units_attachable: u8,
    /// ID of the attached adapter. None when none is attached, or one the unit does not recognize. Byte 14
    ///
    /// On LS-4x/LS-5x this field is used differently: it reads 1 when an adapter is inserted, or 0 when it's empty.
    pub adapter_id: Option<u8>,
    /// ID of the attached holder, same convention. Byte 15
    pub holder_id: Option<u8>,
    /// On LS-4x/LS-5x: connected adapter ID, byte 17.
    pub connected_adapter: Option<u8>,
    /// Coordinate base information. Byte 16 bits 2-7
    pub coordinate_base: CoordinateBase,
    /// Pitch rule. Byte 16 bits 0-1, with the line gap from byte 85 folded in
    pub pitch_rule: PitchRule,
    /// The kind of addressing that is supported. Byte 17. Different use on LS-4x/LS-5x, see connected_adapter
    pub addressing_kind: AddressingKind,
    /// Details of the X-axis. Bytes 18-39
    pub x_axis: Axis,
    /// Details of the Y-axis. Bytes 40-61
    pub y_axis: Axis,
    /// Travel along a strip beyond what one window covers. Bytes 62-69
    pub y_outside: Option<RangeInclusive<u32>>,
    /// Valid resolutions for the thumbnail scanning. Bytes 70-73
    pub thumbnail_resolution: RangeInclusive<u16>,
    /// Byte 74. Not a maximum: it reads 0 through most of a session that writes
    /// four-rectangle tables, so do not size a frame table against it
    pub max_frames: u8,
    /// Byte 75. Moves with byte 74 rather than with the table, so it is no more
    /// a count of the loaded frames than that one is a maximum
    pub loaded_frames: u8,
    /// Range of valid focus addresses. Bytes 76-79
    pub focus_range: RangeInclusive<u16>,
    /// Maximum lamp warm-up time. Bytes 80,81
    pub lamp_warmup_time: u16,
    /// A/D bit depth. Byte 82
    pub bit_depth: u8,
    /// Number of pixels in the CCD (maximum across colors). Bytes 83,84
    pub ccd_pixels: u16,
    /// Distance between CCD lines. Byte 85
    pub line_gap: u8,
    /// Number of lines on the CCD, normalized: 0 on the wire means 3. Byte 86
    pub lines: u8,
}

/// Details of each axis: byte 18 for X and byte 40 for Y
#[derive(Debug, Clone, Copy, PartialEq, Eq, Structural)]
pub struct Axis {
    /// Native, optical resolution in DPI
    pub optical_dpi: u16,
    /// DPI range settable
    pub dpi_range: RangeInclusive<u16>,
    /// Window descriptor offset address range
    pub address_range: RangeInclusive<u32>,
    /// Address offset for the first image
    pub address_offset: u32,
    /// Max window width in this axis
    pub boundary: u32,
}

impl Axis {
    /// Equal ends mean no arbitrary range on this axis
    pub open spec fn has_range(self) -> bool {
        self.address_range.start != self.address_range.last
    }

    /// Equal ends mean no arbitrary range on this axis: the caller has to use the full [`boundary`](Self::boundary) width
    pub fn croppable(&self) -> (r: bool)
        ensures
            r == self.has_range(),
    {
        self.address_range.start != self.address_range.last
    }
}

/// Byte 16 bits 2-7. Bits 0-1 are the resolution type and live in
/// [`PitchRule`]; bit 5 is reserved and bit 7 is the extension bit
#[derive(Debug, Clone, Copy, PartialEq, Eq, Structural)]
pub struct CoordinateBase {
    pub bits: u8,
}

impl CoordinateBase {
    /// The main-scanning origin is at the right end of the medium
    pub const X_ORIGIN_REVERSED: u8 = 0x04;

    /// The sub-scanning origin is at the bottom end of the medium
    pub const Y_ORIGIN_REVERSED: u8 = 0x08;

    /// Thumbnails are stored last frame to first, rather than first to last
    pub const THUMBNAIL_REVERSED: u8 = 0x10;

    /// The unit publishes frame rectangles
    pub const FRAME_RECTS: u8 = 0x40;

    /// Every flag there is a name for
    pub const NAMED: u8 = 0x5C;

    /// The flags of `bits` that have a name
    pub fn from_bits_truncate(bits: u8) -> (r: CoordinateBase)
        ensures
            r == CoordinateBase::known(bits),
    {
        CoordinateBase { bits: bits & CoordinateBase::NAMED }
    }

    /// The flags of `bits` that have a name
    pub open spec fn known(bits: u8) -> CoordinateBase {
        CoordinateBase { bits: bits & CoordinateBase::NAMED }
    }

    /// The flags as one number
    pub fn bits(&self) -> (r: u8)
        ensures
            r == self.bits,
    {
        self.bits
    }

    /// Whether every flag of `mask` is set
    pub open spec fn has(self, mask: u8) -> bool {
        self.bits & mask == mask
    }

    /// Whether every flag of `mask` is set
    pub fn contains(&self, mask: u8) -> (r: bool)
        ensures
            r == self.has(mask),
    {
        self.bits & mask == mask
    }
}

/// Byte 16 bits 0-1 with the line gap count folded in
///
/// "Pitch" here is the optical_dpi / requested dpi (from GET WINDOW)
#[derive(Debug, Clone, Copy, PartialEq, Eq, Structural)]
pub enum PitchRule {
    /// Any resolution in range
    Continuous, // 0
    /// Only exact pitches
    EachPitch, // 1
    /// Pitch must divide the line gap count
    DivisorsOf(u8), // 2
    /// Pitch must be 1 or even
    OnePlusEven, // 3
}

impl PitchRule {
    /// Whether a unit under this rule scans at `pitch`
    pub open spec fn allows(self, pitch: u32) -> bool {
        match self {
            PitchRule::Continuous | PitchRule::EachPitch => pitch >= 1,
            PitchRule::DivisorsOf(gap) => pitch >= 1 && gap as int % pitch as int == 0,
            PitchRule::OnePlusEven => pitch == 1 || pitch >= 2 && pitch % 2 == 0,
        }
    }

    /// Whether `pitch` is the widest this rule allows that is no wider than
    /// what was asked, where asking for less than 1 is asking for 1
    pub open spec fn snaps(self, asked: u32, pitch: u32) -> bool {
        &&& self.allows(pitch)
        &&& pitch <= asked || pitch == 1
        &&& forall|q: u32| pitch < q <= asked ==> !#[trigger] self.allows(q)
    }

    /// Snap `optical / asked` to a pitch the unit will really scan at
    ///
    /// The unit moves a resolution off the ladder to one it has and reports
    /// `01h-37h-00h`, so this is the pitch that sizes an image, not the ratio
    /// itself
    pub fn snap(self, pitch: u32) -> (r: u32)
        ensures
            self.snaps(pitch, r),
    {
        let pitch: u32 = if pitch < 1 {
            1
        } else {
            pitch
        };
        match self {
            PitchRule::Continuous | PitchRule::EachPitch => pitch,
            PitchRule::DivisorsOf(gap) => {
                let mut p: u32 = pitch;
                while p > 1 && gap as u32 % p != 0
                    invariant
                        1 <= p <= pitch,
                        self == PitchRule::DivisorsOf(gap),
                        forall|q: u32| p < q <= pitch ==> !#[trigger] self.allows(q),
                    decreases p,
                {
                    p -= 1;
                }
                p
            },
            PitchRule::OnePlusEven => if pitch == 1 {
                1
            } else {
                pitch - pitch % 2
            },
        }
    }
}

/// Byte 4. Two families give bits 0 and 3 different meanings, but each zeroes
/// what it does not use, so the union parses on both
#[derive(Debug, Clone, Copy, PartialEq, Eq, Structural)]
pub struct Transfer {
    pub bits: u8,
}

impl Transfer {
    /// Microcode downloading on one family, unused on the other
    pub const MICROCODE: u8 = 0x01;

    /// READ must be in units of [line bytes x colors]
    pub const READ_LINE_COLS: u8 = 0x02;

    /// READ must be in units of [line bytes]
    pub const READ_LINE: u8 = 0x04;

    /// Thumbnail READ in units of [frame bytes x colors]
    pub const THUMB_FRAME_COLS: u8 = 0x08;

    /// Every flag there is a name for
    pub const NAMED: u8 = 0x0F;

    /// The flags of `bits` that have a name
    pub fn from_bits_truncate(bits: u8) -> (r: Transfer)
        ensures
            r == Transfer::known(bits),
    {
        Transfer { bits: bits & Transfer::NAMED }
    }

    /// The flags of `bits` that have a name
    pub open spec fn known(bits: u8) -> Transfer {
        Transfer { bits: bits & Transfer::NAMED }
    }

    /// The flags as one number
    pub fn bits(&self) -> (r: u8)
        ensures
            r == self.bits,
    {
        self.bits
    }

    /// Whether every flag of `mask` is set
    pub open spec fn has(self, mask: u8) -> bool {
        self.bits & mask == mask
    }

    /// Whether every flag of `mask` is set
    pub fn contains(&self, mask: u8) -> (r: bool)
        ensures
            r == self.has(mask),
    {
        self.bits & mask == mask
    }
}

/// Byte 17. What a SET WINDOW address refers to on this unit, and what the
/// unit can be told to move
#[derive(Debug, Clone, Copy, PartialEq, Eq, Structural)]
pub struct AddressingKind {
    pub bits: u8,
}

impl AddressingKind {
    /// SET WINDOW addresses are positions on the medium itself
    pub const ADDR_MEDIUM: u8 = 0x01;

    /// SET WINDOW addresses are positions of the transport
    pub const ADDR_MECHANISM: u8 = 0x02;

    /// A scanning range may not span two or more frames
    pub const SINGLE_FRAME_ONLY: u8 = 0x04;

    /// The medium's position can be commanded
    pub const MEDIUM_MOVABLE: u8 = 0x10;

    /// The transport's position can be commanded
    pub const MECHANISM_MOVABLE: u8 = 0x20;

    /// Every flag there is a name for
    pub const NAMED: u8 = 0x37;

    /// The flags of `bits` that have a name
    pub fn from_bits_truncate(bits: u8) -> (r: AddressingKind)
        ensures
            r == AddressingKind::known(bits),
    {
        AddressingKind { bits: bits & AddressingKind::NAMED }
    }

    /// The flags of `bits` that have a name
    pub open spec fn known(bits: u8) -> AddressingKind {
        AddressingKind { bits: bits & AddressingKind::NAMED }
    }

    /// The flags as one number
    pub fn bits(&self) -> (r: u8)
        ensures
            r == self.bits,
    {
        self.bits
    }

    /// Whether every flag of `mask` is set
    pub open spec fn has(self, mask: u8) -> bool {
        self.bits & mask == mask
    }

    /// Whether every flag of `mask` is set
    pub fn contains(&self, mask: u8) -> (r: bool)
        ensures
            r == self.has(mask),
    {
        self.bits & mask == mask
    }
}

/// One axis's 22 byte block
pub open spec fn axis_at(b: Seq<u8>, at: int) -> Axis {
    Axis {
        optical_dpi: be16_at(b, at),
        dpi_range: RangeInclusive { start: be16_at(b, at + 4), last: be16_at(b, at + 2) },
        address_range: RangeInclusive { start: be32_at(b, at + 10), last: be32_at(b, at + 6) },
        address_offset: be32_at(b, at + 14),
        boundary: be32_at(b, at + 18),
    }
}

/// What an axis's block is short of, in the order it is read
pub open spec fn axis_short_of(len: nat, at: int, rest: Option<int>) -> Option<int> {
    short_of(len, at, 2, short_of(len, at + 4, 2, short_of(len, at + 2, 2,
    short_of(len, at + 10, 4, short_of(len, at + 6, 4, short_of(len, at + 14, 4,
    short_of(len, at + 18, 4, rest)))))))
}

/// Where the fields behind the first extendable one start. Byte 5 on a unit
/// that does not extend it
pub open spec fn head_of(b: Seq<u8>) -> int {
    field_end(b, 4)->0
}

/// Where the fields behind the second extendable one start. Byte 17 on a unit
/// that extends neither
pub open spec fn rest_of(b: Seq<u8>) -> int {
    field_end(b, head_of(b) + 11)->0
}

/// What the fields in front of the second extendable one are short of
pub open spec fn head_short_of(len: nat, head: int, rest: Option<int>) -> Option<int> {
    short_of(len, head, 2, short_of(len, head + 2, 2, short_of(len, head + 4, 2,
    short_of(len, head + 6, 2, short_of(len, head + 8, 1, short_of(len, head + 9, 1,
    short_of(len, head + 10, 1, rest)))))))
}

/// What the fields behind the axes are short of
pub open spec fn tail_short_of(len: nat, axes: int) -> Option<int> {
    short_of(len, axes + 44, 4, short_of(len, axes + 48, 4, short_of(len, axes + 54, 2,
    short_of(len, axes + 52, 2, short_of(len, axes + 56, 1, short_of(len, axes + 57, 1,
    short_of(len, axes + 58, 2, short_of(len, axes + 60, 2, short_of(len, axes + 62, 2,
    short_of(len, axes + 64, 1, short_of(len, axes + 65, 2, None)))))))))))
}

/// What a page is short of, or `None` where it carries every field it has to
pub open spec fn address_short_of(b: Seq<u8>) -> Option<int> {
    let len = b.len();
    if len < 4 {
        Some(4)
    } else if field_end(b, 4) is None {
        Some(field_need(b, 4))
    } else {
        let head = head_of(b);
        let axes = rest_of(b) + 1;
        head_short_of(
            len,
            head,
            if field_end(b, head + 11) is None {
                Some(field_need(b, head + 11))
            } else {
                short_of(
                    len,
                    axes - 1,
                    1,
                    axis_short_of(len, axes, axis_short_of(len, axes + 22, tail_short_of(len, axes))),
                )
            },
        )
    }
}

/// The rule two bits name, over the line gap the page carries
pub open spec fn rule_of(bits: u8, line_gap: u8) -> PitchRule {
    if bits % 4 == 0 {
        PitchRule::Continuous
    } else if bits % 4 == 1 {
        PitchRule::EachPitch
    } else if bits % 4 == 2 {
        PitchRule::DivisorsOf(line_gap)
    } else {
        PitchRule::OnePlusEven
    }
}

/// What the page says, field by field
pub open spec fn address_of(b: Seq<u8>) -> Address {
    let head = head_of(b);
    let base = b[head + 11];
    let rest = rest_of(b);
    let axes = rest + 1;
    let line_gap = match carried(b, axes + 67) {
        Some(gap) => gap,
        None => 0,
    };
    Address {
        page_length: b[3],
        transfer: Transfer::known(b[4]),
        window_descriptor_len: be16_at(b, head),
        set_parameter_len: be16_at(b, head + 2),
        scsi_buffer: nonzero16(be16_at(b, head + 4)),
        image_buffer_kb: be16_at(b, head + 6),
        units_attachable: b[head + 8],
        adapter_id: nonzero8(b[head + 9]),
        holder_id: nonzero8(b[head + 10]),
        connected_adapter: nonzero8(b[rest]),
        coordinate_base: CoordinateBase::known(base),
        pitch_rule: rule_of(base, line_gap),
        addressing_kind: AddressingKind::known(b[rest]),
        x_axis: axis_at(b, axes),
        y_axis: axis_at(b, axes + 22),
        y_outside: if be32_at(b, axes + 48) == 0 && be32_at(b, axes + 44) == 0 {
            None
        } else {
            Some(RangeInclusive { start: be32_at(b, axes + 48), last: be32_at(b, axes + 44) })
        },
        thumbnail_resolution: RangeInclusive {
            start: be16_at(b, axes + 54),
            last: be16_at(b, axes + 52),
        },
        max_frames: b[axes + 56],
        loaded_frames: b[axes + 57],
        focus_range: RangeInclusive { start: be16_at(b, axes + 58), last: be16_at(b, axes + 60) },
        lamp_warmup_time: be16_at(b, axes + 62),
        bit_depth: b[axes + 64],
        ccd_pixels: be16_at(b, axes + 65),
        line_gap,
        lines: match carried(b, axes + 68) {
            Some(n) => if n == 0 {
                3
            } else {
                n
            },
            None => 3,
        },
    }
}

/// Read one axis's block
fn read_axis(page: &Page, at: usize) -> (r: Result<Axis, Error>)
    ensures
        match axis_short_of(page@.len(), at as int, None) {
            Some(need) => r matches Err(e) && e.is_short(page.code(), need, page@.len() as int),
            None => r == Ok::<Axis, Error>(axis_at(page@, at as int)),
        },
{
    proof {
        page.lemma_fits();
    }
    let optical_dpi = page.be16(at)?;
    let dpi_min = page.be16(after(at, 4))?;
    let dpi_max = page.be16(after(at, 2))?;
    let address_min = page.be32(after(at, 10))?;
    let address_max = page.be32(after(at, 6))?;
    let address_offset = page.be32(after(at, 14))?;
    let boundary = page.be32(after(at, 18))?;
    Ok(
        Axis {
            optical_dpi,
            dpi_range: RangeInclusive { start: dpi_min, last: dpi_max },
            address_range: RangeInclusive { start: address_min, last: address_max },
            address_offset,
            boundary,
        },
    )
}

impl Address {
    pub const PAGE_CODE: u8 = 0xC1;

    /// The finer of the two axes' optical resolutions
    pub open spec fn optical(self) -> u16 {
        if self.y_axis.optical_dpi >= self.x_axis.optical_dpi {
            self.y_axis.optical_dpi
        } else {
            self.x_axis.optical_dpi
        }
    }

    /// The pitch a resolution asks for, where 0 is taken as 1
    pub open spec fn asked_pitch(self, dpi: u16) -> u32 {
        if dpi == 0 {
            self.optical() as u32
        } else {
            (self.optical() / dpi) as u32
        }
    }

    /// The distance between the CCD rows at `dpi`, in output lines
    ///
    /// The distance is byte 85 divided by the scanning pitch.
    ///
    /// If the pitch is larger than the gap, the distance is zero. The CCD rows
    /// then give the same output line.
    pub fn registration_gap(&self, dpi: u16) -> (r: u32)
        ensures
            forall|pitch: u32| #[trigger]
                self.pitch_rule.snaps(self.asked_pitch(dpi), pitch) ==> r == self.line_gap as int
                    / pitch as int && (pitch > self.line_gap ==> r == 0),
            exists|pitch: u32| #[trigger]
                self.pitch_rule.snaps(self.asked_pitch(dpi), pitch) && r == self.line_gap as int
                    / pitch as int,
    {
        let optical: u32 = if self.y_axis.optical_dpi >= self.x_axis.optical_dpi {
            self.y_axis.optical_dpi as u32
        } else {
            self.x_axis.optical_dpi as u32
        };
        let ghost old_dpi = dpi;
        let dpi: u32 = if dpi == 0 {
            1
        } else {
            dpi as u32
        };
        let asked: u32 = optical / dpi;
        let pitch = self.pitch_rule.snap(asked);
        proof {
            assert(0 <= optical as int / dpi as int <= optical as int) by (nonlinear_arith)
                requires
                    dpi >= 1,
            ;
            assert(self.pitch_rule.snaps(self.asked_pitch(old_dpi), pitch));
            assert forall|q: u32| #[trigger]
                self.pitch_rule.snaps(self.asked_pitch(old_dpi), q) implies q == pitch by {
                law_snapping_is_settled(self.pitch_rule, self.asked_pitch(old_dpi), q, pitch);
            }
            if pitch > self.line_gap {
                lemma_basic_div(self.line_gap as int, pitch as int);
            }
        }
        self.line_gap as u32 / pitch
    }
}

impl TryFrom<&Page> for Address {
    type Error = Error;

    fn try_from(page: &Page) -> (r: Result<Address, Error>)
        ensures
            match address_short_of(page@) {
                Some(need) => r matches Err(e) && e.is_short(page.code(), need, page@.len() as int),
                None => r == Ok::<Address, Error>(address_of(page@)),
            },
    {
        proof {
            page.lemma_fits();
        }
        let page_length = page.u8(3)?;

        // Two extendable fields, each moving everything that follows it. The
        // byte numbers in the comments are where a unit that extends neither
        // puts them
        let (bits, head) = page.flags(4)?;  // byte 5
        let transfer = Transfer::from_bits_truncate(bits);
        let window_descriptor_len = page.be16(head)?;
        let set_parameter_len = page.be16(after(head, 2))?;
        let scsi_buffer = page.opt_be16(after(head, 4))?;
        let image_buffer_kb = page.be16(after(head, 6))?;
        let units_attachable = page.u8(after(head, 8))?;
        let adapter_id = page.opt_u8(after(head, 9))?;
        let holder_id = page.opt_u8(after(head, 10))?;

        let (base, rest) = page.flags(after(head, 11))?;  // byte 17
        let addressing_kind = AddressingKind::from_bits_truncate(page.u8(rest)?);
        let connected_adapter = page.opt_u8(rest)?;

        // Both axes are the same 22 byte block, X then Y
        let axes: usize = after(rest, 1);  // byte 18
        let x_axis = read_axis(page, axes)?;
        let y_axis = read_axis(page, after(axes, 22))?;

        let y_outside_max = page.be32(after(axes, 44))?;
        let y_outside_min = page.be32(after(axes, 48))?;
        let y_outside = if y_outside_min == 0 && y_outside_max == 0 {
            None
        } else {
            Some(RangeInclusive { start: y_outside_min, last: y_outside_max })
        };

        let thumbnail_min = page.be16(after(axes, 54))?;
        let thumbnail_max = page.be16(after(axes, 52))?;
        let max_frames = page.u8(after(axes, 56))?;
        let loaded_frames = page.u8(after(axes, 57))?;
        let focus_min = page.be16(after(axes, 58))?;
        let focus_max = page.be16(after(axes, 60))?;
        let lamp_warmup_time = page.be16(after(axes, 62))?;
        let bit_depth = page.u8(after(axes, 64))?;
        let ccd_pixels = page.be16(after(axes, 65))?;
        // Byte 85. Read what the page carries, not what the transport padded
        // the allocation with: a 20h pad is a gap of 32. A unit that sends no
        // value has no gap to register
        let line_gap: u8 = match page.carried_u8(after(axes, 67)) {
            Some(gap) => gap,
            None => 0,
        };

        let coordinate_base = CoordinateBase::from_bits_truncate(base);
        let pitch_rule = match base % 4 {
            0 => PitchRule::Continuous,
            1 => PitchRule::EachPitch,
            2 => PitchRule::DivisorsOf(line_gap),
            _ => PitchRule::OnePlusEven,
        };

        // Byte 86: zero *or a page that stops before it* means three
        let lines: u8 = match page.carried_u8(after(axes, 68)) {
            Some(n) => if n == 0 {
                3
            } else {
                n
            },
            None => 3,
        };

        Ok(
            Address {
                page_length,
                transfer,
                window_descriptor_len,
                set_parameter_len,
                scsi_buffer,
                image_buffer_kb,
                units_attachable,
                adapter_id,
                holder_id,
                connected_adapter,
                coordinate_base,
                pitch_rule,
                addressing_kind,
                x_axis,
                y_axis,
                y_outside,
                thumbnail_resolution: RangeInclusive { start: thumbnail_min, last: thumbnail_max },
                max_frames,
                loaded_frames,
                focus_range: RangeInclusive { start: focus_min, last: focus_max },
                lamp_warmup_time,
                bit_depth,
                ccd_pixels,
                line_gap,
                lines,
            },
        )
    }
}

impl vstd::std_specs::convert::TryFromSpecImpl<&Page> for Address {
    open spec fn obeys_try_from_spec() -> bool {
        false
    }

    open spec fn try_from_spec(page: &Page) -> Result<Address, Error> {
        Ok(address_of(page@))
    }
}

/// A page whose first extendable field carries on into one more byte
pub open spec fn extended(b: Seq<u8>, next: u8) -> Seq<u8> {
    seq![b[0], b[1], b[2], (b[3] + 1) as u8, b[4] | 0x80, next] + b.skip(5)
}

/// A unit whose first field carries on into another byte moves every field of
/// the page along with it, and says the same
pub proof fn law_an_extension_moves_the_page_along(b: Seq<u8>, next: u8)
    requires
        address_short_of(b) is None,
        b[3] < 255,
        b[4] & 0x80 == 0,
        next & 0x80 == 0,
    ensures
        address_short_of(extended(b, next)) is None,
        address_of(extended(b, next)) == (Address {
            page_length: (b[3] + 1) as u8,
            ..address_of(b)
        }),
{
    let moved = extended(b, next);
    let bits = b[4];
    assert((bits | 0x80) & 0x80 != 0 && (bits | 0x80) & 0x0F == bits & 0x0F) by (bit_vector);
    assert(moved[3] == b[3] + 1 && moved[4] == bits | 0x80 && moved[5] == next);
    assert forall|j: int| 6 <= j < moved.len() implies #[trigger] moved[j] == b[j - 1] by {
        assert(moved[j] == b.skip(5)[j - 6]);
    }
    reveal_with_fuel(field_end, 3);
    assert(field_end(b, 4) == Some(5int));
    assert(field_end(moved, 4) == Some(6int));
    lemma_field_end_moves(b, moved, head_of(b) + 11, 1);
    let axes = rest_of(b) + 1;
    assert(rest_of(moved) == rest_of(b) + 1);
    assert(carried(moved, axes + 1 + 67) == carried(b, axes + 67));
    assert(carried(moved, axes + 1 + 68) == carried(b, axes + 68));
    assert(axis_at(moved, axes + 1) == axis_at(b, axes));
    assert(axis_at(moved, axes + 23) == axis_at(b, axes + 22));
}

/// What the unit sent stands whatever the transport padded after it
pub proof fn law_padding_says_nothing(b: Seq<u8>, pad: Seq<u8>)
    requires
        address_short_of(b) is None,
        b.len() >= 4 + b[3],
    ensures
        address_short_of(b + pad) is None,
        address_of(b + pad) == address_of(b),
{
    let padded = b + pad;
    assert(forall|j: int| 0 <= j < b.len() ==> #[trigger] padded[j] == b[j]);
    lemma_field_end_stays(b, pad, 4);
    lemma_field_end_stays(b, pad, head_of(b) + 11);
    let axes = rest_of(b) + 1;
    assert(carried(padded, axes + 67) == carried(b, axes + 67));
    assert(carried(padded, axes + 68) == carried(b, axes + 68));
    assert(axis_at(padded, axes) == axis_at(b, axes));
    assert(axis_at(padded, axes + 22) == axis_at(b, axes + 22));
}

/// Snapping a pitch that is already one the unit scans at leaves it
pub proof fn law_a_scanned_pitch_stays(rule: PitchRule, asked: u32, pitch: u32)
    requires
        rule.allows(asked),
        rule.snaps(asked, pitch),
    ensures
        pitch == asked,
{
}

/// There is one pitch that a pitch snaps to
pub proof fn law_snapping_is_settled(rule: PitchRule, asked: u32, a: u32, b: u32)
    requires
        rule.snaps(asked, a),
        rule.snaps(asked, b),
    ensures
        a == b,
{
}

/// Where the fields in front of the axes are, counted from the end of the first
/// extendable field and from the end of the second
pub proof fn law_where_the_unit_describes_itself(b: Seq<u8>, head: int, rest: int)
    requires
        address_short_of(b) is None,
        field_end(b, 4) == Some(head),
        field_end(b, head + 11) == Some(rest),
    ensures
        ({
            let a = address_of(b);
            &&& a.page_length == b[3]
            &&& a.transfer.bits == b[4] % 16
            &&& a.window_descriptor_len == 0x100 * b[head] + b[head + 1]
            &&& a.set_parameter_len == 0x100 * b[head + 2] + b[head + 3]
            &&& b[head + 4] == 0 && b[head + 5] == 0 ==> a.scsi_buffer is None
            &&& b[head + 4] > 0 || b[head + 5] > 0 ==> (a.scsi_buffer matches Some(n) && n == 0x100
                * b[head + 4] + b[head + 5])
            &&& a.image_buffer_kb == 0x100 * b[head + 6] + b[head + 7]
            &&& a.units_attachable == b[head + 8]
            &&& b[head + 9] == 0 ==> a.adapter_id is None
            &&& b[head + 9] > 0 ==> a.adapter_id == Some(b[head + 9])
            &&& b[head + 10] == 0 ==> a.holder_id is None
            &&& b[head + 10] > 0 ==> a.holder_id == Some(b[head + 10])
            &&& a.coordinate_base.bits == b[head + 11] & 0x5C
            &&& b[rest] == 0 ==> a.connected_adapter is None
            &&& b[rest] > 0 ==> a.connected_adapter == Some(b[rest])
            &&& a.addressing_kind.bits == b[rest] & 0x37
        }),
{
    let bits = b[4];
    assert(bits & 0x0F == bits % 16) by (bit_vector);
}

/// Where the numbers of the two axes are: the same 22 bytes for each, the
/// larger end of every range in front of the smaller
pub proof fn law_where_the_axes_are(b: Seq<u8>, head: int, rest: int)
    requires
        address_short_of(b) is None,
        field_end(b, 4) == Some(head),
        field_end(b, head + 11) == Some(rest),
    ensures
        ({
            let x = address_of(b).x_axis;
            let at = rest + 1;
            &&& x.optical_dpi == 0x100 * b[at] + b[at + 1]
            &&& x.dpi_range.last == 0x100 * b[at + 2] + b[at + 3]
            &&& x.dpi_range.start == 0x100 * b[at + 4] + b[at + 5]
            &&& x.address_range.last == 0x100_0000 * b[at + 6] + 0x1_0000 * b[at + 7] + 0x100 * b[at
                + 8] + b[at + 9]
            &&& x.address_range.start == 0x100_0000 * b[at + 10] + 0x1_0000 * b[at + 11] + 0x100
                * b[at + 12] + b[at + 13]
            &&& x.address_offset == 0x100_0000 * b[at + 14] + 0x1_0000 * b[at + 15] + 0x100 * b[at
                + 16] + b[at + 17]
            &&& x.boundary == 0x100_0000 * b[at + 18] + 0x1_0000 * b[at + 19] + 0x100 * b[at + 20]
                + b[at + 21]
        }),
        ({
            let y = address_of(b).y_axis;
            let at = rest + 23;
            &&& y.optical_dpi == 0x100 * b[at] + b[at + 1]
            &&& y.dpi_range.last == 0x100 * b[at + 2] + b[at + 3]
            &&& y.dpi_range.start == 0x100 * b[at + 4] + b[at + 5]
            &&& y.address_range.last == 0x100_0000 * b[at + 6] + 0x1_0000 * b[at + 7] + 0x100 * b[at
                + 8] + b[at + 9]
            &&& y.address_range.start == 0x100_0000 * b[at + 10] + 0x1_0000 * b[at + 11] + 0x100
                * b[at + 12] + b[at + 13]
            &&& y.address_offset == 0x100_0000 * b[at + 14] + 0x1_0000 * b[at + 15] + 0x100 * b[at
                + 16] + b[at + 17]
            &&& y.boundary == 0x100_0000 * b[at + 18] + 0x1_0000 * b[at + 19] + 0x100 * b[at + 20]
                + b[at + 21]
        }),
{
}

/// Where the fields behind the axes are, and what stands for the last two where
/// the page ends before them
pub proof fn law_where_the_mechanism_is(b: Seq<u8>, head: int, rest: int)
    requires
        address_short_of(b) is None,
        field_end(b, 4) == Some(head),
        field_end(b, head + 11) == Some(rest),
    ensures
        ({
            let a = address_of(b);
            let at = rest + 45;
            let far = 0x100_0000 * b[at] + 0x1_0000 * b[at + 1] + 0x100 * b[at + 2] + b[at + 3];
            let near = 0x100_0000 * b[at + 4] + 0x1_0000 * b[at + 5] + 0x100 * b[at + 6] + b[at + 7];
            &&& far == 0 && near == 0 ==> a.y_outside is None
            &&& far > 0 || near > 0 ==> (a.y_outside matches Some(r) && r.start == near && r.last
                == far)
            &&& a.thumbnail_resolution.last == 0x100 * b[at + 8] + b[at + 9]
            &&& a.thumbnail_resolution.start == 0x100 * b[at + 10] + b[at + 11]
            &&& a.max_frames == b[at + 12]
            &&& a.loaded_frames == b[at + 13]
            &&& a.focus_range.start == 0x100 * b[at + 14] + b[at + 15]
            &&& a.focus_range.last == 0x100 * b[at + 16] + b[at + 17]
            &&& a.lamp_warmup_time == 0x100 * b[at + 18] + b[at + 19]
            &&& a.bit_depth == b[at + 20]
            &&& a.ccd_pixels == 0x100 * b[at + 21] + b[at + 22]
            &&& b.len() > at + 23 && 4 + b[3] > at + 23 ==> a.line_gap == b[at + 23]
            &&& b.len() <= at + 23 || 4 + b[3] <= at + 23 ==> a.line_gap == 0
            &&& b.len() > at + 24 && 4 + b[3] > at + 24 && b[at + 24] > 0 ==> a.lines == b[at + 24]
            &&& b.len() <= at + 24 || 4 + b[3] <= at + 24 || b[at + 24] == 0 ==> a.lines == 3
            &&& a.pitch_rule is Continuous <==> b[head + 11] % 4 == 0
            &&& a.pitch_rule is EachPitch <==> b[head + 11] % 4 == 1
            &&& a.pitch_rule == PitchRule::DivisorsOf(a.line_gap) <==> b[head + 11] % 4 == 2
            &&& a.pitch_rule is OnePlusEven <==> b[head + 11] % 4 == 3
        }),
{
}

/// What a page that ends early is said to need: the first field, as they are
/// read, that it does not hold to its end
pub proof fn law_what_an_address_page_has_to_hold(b: Seq<u8>)
    ensures
        b.len() < 4 ==> address_short_of(b) == Some(4int),
        b.len() >= 4 && field_end(b, 4) is None ==> address_short_of(b) == Some(b.len() as int + 1),
        b.len() >= 4 && field_end(b, 4) is Some ==> ({
            let head = field_end(b, 4)->0;
            let past = b.len() - head;
            &&& past < 2 ==> address_short_of(b) == Some(head + 2)
            &&& 2 <= past < 4 ==> address_short_of(b) == Some(head + 4)
            &&& 4 <= past < 6 ==> address_short_of(b) == Some(head + 6)
            &&& 6 <= past < 8 ==> address_short_of(b) == Some(head + 8)
            &&& 8 <= past < 11 ==> address_short_of(b) == Some(b.len() as int + 1)
            &&& 11 <= past && field_end(b, head + 11) is None ==> address_short_of(b) == Some(
                b.len() as int + 1,
            )
        }),
        b.len() >= 4 && field_end(b, 4) is Some && b.len() - field_end(b, 4)->0 >= 11 && field_end(
            b,
            field_end(b, 4)->0 + 11,
        ) is Some ==> ({
            let at = field_end(b, field_end(b, 4)->0 + 11)->0 + 1;
            let past = b.len() - at;
            &&& past >= 67 <==> address_short_of(b) is None
            &&& past < 0 ==> address_short_of(b) == Some(at)
            &&& 0 <= past < 2 ==> address_short_of(b) == Some(at + 2)
            &&& 2 <= past < 6 ==> address_short_of(b) == Some(at + 6)
            &&& 6 <= past < 14 ==> address_short_of(b) == Some(at + 14)
            &&& 14 <= past < 18 ==> address_short_of(b) == Some(at + 18)
            &&& 18 <= past < 22 ==> address_short_of(b) == Some(at + 22)
            &&& 22 <= past < 24 ==> address_short_of(b) == Some(at + 24)
            &&& 24 <= past < 28 ==> address_short_of(b) == Some(at + 28)
            &&& 28 <= past < 36 ==> address_short_of(b) == Some(at + 36)
            &&& 36 <= past < 40 ==> address_short_of(b) == Some(at + 40)
            &&& 40 <= past < 44 ==> address_short_of(b) == Some(at + 44)
            &&& 44 <= past < 48 ==> address_short_of(b) == Some(at + 48)
            &&& 48 <= past < 52 ==> address_short_of(b) == Some(at + 52)
            &&& 52 <= past < 56 ==> address_short_of(b) == Some(at + 56)
            &&& 56 <= past < 58 ==> address_short_of(b) == Some(b.len() as int + 1)
            &&& 58 <= past < 60 ==> address_short_of(b) == Some(at + 60)
            &&& 60 <= past < 62 ==> address_short_of(b) == Some(at + 62)
            &&& 62 <= past < 64 ==> address_short_of(b) == Some(at + 64)
            &&& 64 <= past < 65 ==> address_short_of(b) == Some(at + 65)
            &&& 65 <= past < 67 ==> address_short_of(b) == Some(at + 67)
        }),
{
    law_where_an_extendable_field_ends(b, 4, 0);
    if b.len() >= 4 && field_end(b, 4) is Some {
        let head = field_end(b, 4)->0;
        law_where_an_extendable_field_ends(b, 4, head);
        law_where_an_extendable_field_ends(b, head + 11, 0);
        if field_end(b, head + 11) is Some {
            law_where_an_extendable_field_ends(b, head + 11, field_end(b, head + 11)->0);
        }
    }
}

/// Which bits of their bytes the named flags are
pub proof fn law_what_the_address_flags_are(bits: u8)
    ensures
        Transfer::known(bits).has(Transfer::MICROCODE) <==> bits % 2 == 1,
        Transfer::known(bits).has(Transfer::READ_LINE_COLS) <==> bits / 2 % 2 == 1,
        Transfer::known(bits).has(Transfer::READ_LINE) <==> bits / 4 % 2 == 1,
        Transfer::known(bits).has(Transfer::THUMB_FRAME_COLS) <==> bits / 8 % 2 == 1,
        Transfer::known(bits).bits == bits % 16,
        CoordinateBase::known(bits).has(CoordinateBase::X_ORIGIN_REVERSED) <==> bits / 4 % 2 == 1,
        CoordinateBase::known(bits).has(CoordinateBase::Y_ORIGIN_REVERSED) <==> bits / 8 % 2 == 1,
        CoordinateBase::known(bits).has(CoordinateBase::THUMBNAIL_REVERSED) <==> bits / 16 % 2 == 1,
        CoordinateBase::known(bits).has(CoordinateBase::FRAME_RECTS) <==> bits / 64 % 2 == 1,
        CoordinateBase::known(bits).bits == bits / 64 % 2 * 64 + bits / 4 % 8 * 4,
        AddressingKind::known(bits).has(AddressingKind::ADDR_MEDIUM) <==> bits % 2 == 1,
        AddressingKind::known(bits).has(AddressingKind::ADDR_MECHANISM) <==> bits / 2 % 2 == 1,
        AddressingKind::known(bits).has(AddressingKind::SINGLE_FRAME_ONLY) <==> bits / 4 % 2 == 1,
        AddressingKind::known(bits).has(AddressingKind::MEDIUM_MOVABLE) <==> bits / 16 % 2 == 1,
        AddressingKind::known(bits).has(AddressingKind::MECHANISM_MOVABLE) <==> bits / 32 % 2 == 1,
        AddressingKind::known(bits).bits == bits / 16 % 4 * 16 + bits % 8,
{
    let t = bits & 0x0F;
    assert((t & 0x01 == 0x01 <==> bits % 2 == 1) && (t & 0x02 == 0x02 <==> bits / 2 % 2 == 1) && (t
        & 0x04 == 0x04 <==> bits / 4 % 2 == 1) && (t & 0x08 == 0x08 <==> bits / 8 % 2 == 1) && t
        == bits % 16) by (bit_vector)
        requires
            t == bits & 0x0F,
    ;
    let c = bits & 0x5C;
    assert((c & 0x04 == 0x04 <==> bits / 4 % 2 == 1) && (c & 0x08 == 0x08 <==> bits / 8 % 2 == 1)
        && (c & 0x10 == 0x10 <==> bits / 16 % 2 == 1) && (c & 0x40 == 0x40 <==> bits / 64 % 2 == 1)
        && c == bits / 64 % 2 * 64 + bits / 4 % 8 * 4) by (bit_vector)
        requires
            c == bits & 0x5C,
    ;
    let k = bits & 0x37;
    assert((k & 0x01 == 0x01 <==> bits % 2 == 1) && (k & 0x02 == 0x02 <==> bits / 2 % 2 == 1) && (k
        & 0x04 == 0x04 <==> bits / 4 % 2 == 1) && (k & 0x10 == 0x10 <==> bits / 16 % 2 == 1) && (k
        & 0x20 == 0x20 <==> bits / 32 % 2 == 1) && k == bits / 16 % 4 * 16 + bits % 8) by (
    bit_vector)
        requires
            k == bits & 0x37,
    ;
}

/// A pitch is taken as it is asked where any will do, at the even number below
/// where only those will, and at the largest divisor of the gap that is no
/// wider where it has to divide it; less than 1 is 1
pub proof fn law_what_a_pitch_snaps_to(rule: PitchRule, asked: u32, pitch: u32)
    requires
        rule.snaps(asked, pitch),
    ensures
        asked <= 1 ==> pitch == 1,
        1 <= pitch && (asked >= 1 ==> pitch <= asked),
        rule is Continuous || rule is EachPitch ==> (asked >= 1 ==> pitch == asked),
        rule is OnePlusEven && asked >= 2 ==> pitch == asked / 2 * 2,
        rule matches PitchRule::DivisorsOf(gap) ==> gap as int % pitch as int == 0,
        rule matches PitchRule::DivisorsOf(gap) ==> (forall|q: u32|
            1 <= q <= asked && #[trigger] (gap as int % q as int) == 0 ==> q <= pitch),
{
    if rule is Continuous || rule is EachPitch {
        if asked >= 1 {
            assert(rule.allows(asked));
        }
    }
    if rule is OnePlusEven && asked >= 2 {
        let even = (asked / 2 * 2) as u32;
        assert(rule.allows(even));
        assert(pitch <= asked);
    }
    if let PitchRule::DivisorsOf(gap) = rule {
        assert forall|q: u32| 1 <= q <= asked && #[trigger] (gap as int % q as int) == 0 implies q
            <= pitch by {
            assert(rule.allows(q));
        }
    }
}

/// The pitch a resolution asks for is how often it goes into the finer of the
/// two axes' resolutions
pub proof fn law_the_pitch_that_is_asked(a: Address, dpi: u16)
    ensures
        ({
            let finer = if a.x_axis.optical_dpi > a.y_axis.optical_dpi {
                a.x_axis.optical_dpi as int
            } else {
                a.y_axis.optical_dpi as int
            };
            let asked = a.asked_pitch(dpi) as int;
            &&& dpi == 0 ==> asked == finer
            &&& dpi > 0 ==> asked * dpi <= finer < (asked + 1) * dpi
        }),
{
    let finer = a.optical() as int;
    if dpi > 0 {
        let d = dpi as int;
        let q = finer / d;
        assert(q * d <= finer < (q + 1) * d && 0 <= q <= finer) by (nonlinear_arith)
            requires
                q == finer / d,
                d > 0,
                finer >= 0,
        ;
        assert(a.asked_pitch(dpi) == q);
    }
}

/// An axis can be cropped unless both ends of its addresses are one
pub proof fn law_what_can_be_cropped(axis: Axis)
    ensures
        axis.has_range() <==> axis.address_range.start < axis.address_range.last
            || axis.address_range.last < axis.address_range.start,
{
}

/// The distance between the rows is how often the pitch that is scanned goes into
/// their distance on the CCD
pub proof fn law_how_far_apart_the_rows_are(a: Address, dpi: u16, pitch: u32, r: u32)
    requires
        call_ensures(Address::registration_gap, (&a, dpi), r),
        a.pitch_rule.snaps(a.asked_pitch(dpi), pitch),
    ensures
        r * pitch <= a.line_gap < (r + 1) * pitch,
        pitch > a.line_gap ==> r == 0,
{
    let gap = a.line_gap as int;
    let p = pitch as int;
    let q = r as int;
    assert(q * p <= gap < (q + 1) * p) by (nonlinear_arith)
        requires
            q == gap / p,
            p >= 1,
            gap >= 0,
    ;
}

} // verus!
