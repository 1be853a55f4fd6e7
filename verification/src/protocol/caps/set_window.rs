//! SET WINDOW function page, describes what SET WINDOW can do, code 0xD1

use super::{
    after, be_at, field_end, field_need, law_a_wide_number_keeps_its_last_bytes,
    law_where_an_extendable_field_ends, lemma_field_end_moves, short_of, Error, Page,
};
use crate::range::RangeInclusive;
use crate::text::{flags_text, flags_wording};
use vstd::prelude::*;

verus! {

#[derive(Debug, Clone, Copy)]
pub struct SetWindowFunction {
    /// Declared page length; the page is 4 + this. Byte 3
    pub page_length: u8,
    /// What kind of scanning can we do. Byte 4
    pub kind: ScanKind,
    /// What modes are supported for the scan. Byte 5.
    pub mode: ScanMode,
    /// Color interleaving (how the image data stream is decoded). Byte 6.
    pub interleaving: ColorInterleaving,
    /// The composition of the color. Byte 7
    pub components: ColorComponents,
    /// Which component may occupy each position of a multi-color read. Bytes 8-9
    pub order: [Option<Component>; 4],
    /// Per-channel output bit depth. Byte 10
    pub depth: BitDepth,
    /// Number of setup modes supported. Byte 11
    pub setup_modes: u8,
    /// Digital image control support. Byte 12
    pub dic: u8,
    /// Length of additional information for digital image control. Byte 13
    pub dic_len: u8,
    /// Analog control support. Byte 14.
    pub aic: AnalogControl,
    /// Length of additional information for analog image control. Byte 15
    pub aic_len: u8,
    /// The first analog control's range. Both units put the exposure value
    /// here, in units of 10 ns, with byte 16 giving its width as 4. Bytes 16-24
    pub exposure: RangeInclusive<u32>,
    /// Byte 25
    pub filter_support: u8,
    /// Byte 26
    pub matrix_support: u8,
    /// Byte 27
    pub halftone_support: u8,
}

/// Byte 4, describes the kind of image scanning we can do
#[derive(Debug, Clone, Copy, PartialEq, Eq, Structural)]
pub struct ScanKind {
    pub bits: u8,
}

impl ScanKind {
    pub const IMAGE: u8 = 0x01;

    pub const THUMBNAIL: u8 = 0x02;

    /// Scanning for deciding exposure/gains/etc
    pub const SETUP_1: u8 = 0x04;

    /// Same as SETUP_1 but the low-density/high-density limit values are used
    /// instead of the maximum value and the minimum value
    pub const SETUP_2: u8 = 0x08;

    /// Scanning for creating a histogram of the data
    pub const HISTOGRAM: u8 = 0x10;

    /// AE exposure passes (in hardware). No unit seen sets this
    pub const AE: u8 = 0x20;

    /// White-balance preserving AE. Unset everywhere [`AE`](Self::AE) is
    pub const AE_WB: u8 = 0x40;

    /// Every flag there is a name for
    pub const NAMED: u8 = 0x7F;

    /// The flags of `bits` that have a name
    pub fn from_bits_truncate(bits: u8) -> (r: ScanKind)
        ensures
            r == ScanKind::known(bits),
    {
        ScanKind { bits: bits & ScanKind::NAMED }
    }

    /// The flags of `bits` that have a name
    pub open spec fn known(bits: u8) -> ScanKind {
        ScanKind { bits: bits & ScanKind::NAMED }
    }

    /// The flags as one number
    pub fn bits(&self) -> (r: u8)
        ensures
            r == self.bits,
    {
        self.bits
    }

    /// Whether every flag of `mask` is set
    pub open spec fn has(self, mask: u8) -> bool {
        self.bits & mask == mask
    }

    /// Whether every flag of `mask` is set
    pub fn contains(&self, mask: u8) -> (r: bool)
        ensures
            r == self.has(mask),
    {
        self.bits & mask == mask
    }
}

/// Byte 5, the mode of the scan. Bits 3 and 5 are reserved
#[derive(Debug, Clone, Copy, PartialEq, Eq, Structural)]
pub struct ScanMode {
    pub bits: u8,
}

impl ScanMode {
    pub const HIGH_QUALITY: u8 = 0x01;

    pub const NORMAL_QUALITY: u8 = 0x02;

    pub const HIGH_SPEED: u8 = 0x04;

    pub const MULTI_READING: u8 = 0x10;

    pub const REVERSE_DIRECTION: u8 = 0x40;

    /// Every flag there is a name for
    pub const NAMED: u8 = 0x57;

    /// The flags of `bits` that have a name
    pub fn from_bits_truncate(bits: u8) -> (r: ScanMode)
        ensures
            r == ScanMode::known(bits),
    {
        ScanMode { bits: bits & ScanMode::NAMED }
    }

    /// The flags of `bits` that have a name
    pub open spec fn known(bits: u8) -> ScanMode {
        ScanMode { bits: bits & ScanMode::NAMED }
    }

    /// The flags as one number
    pub fn bits(&self) -> (r: u8)
        ensures
            r == self.bits,
    {
        self.bits
    }

    /// Whether every flag of `mask` is set
    pub open spec fn has(self, mask: u8) -> bool {
        self.bits & mask == mask
    }

    /// Whether every flag of `mask` is set
    pub fn contains(&self, mask: u8) -> (r: bool)
        ensures
            r == self.has(mask),
    {
        self.bits & mask == mask
    }

    /// The flags' names, in order
    pub open spec fn names() -> Seq<(u8, Seq<char>)> {
        seq![
            (ScanMode::HIGH_QUALITY, "HIGH_QUALITY"@),
            (ScanMode::NORMAL_QUALITY, "NORMAL_QUALITY"@),
            (ScanMode::HIGH_SPEED, "HIGH_SPEED"@),
            (ScanMode::MULTI_READING, "MULTI_READING"@),
            (ScanMode::REVERSE_DIRECTION, "REVERSE_DIRECTION"@),
        ]
    }

    /// The flags by name
    pub open spec fn wording(self) -> Seq<char> {
        "ScanMode("@ + flags_wording(self.bits, ScanMode::NAMED, ScanMode::names()) + ")"@
    }

    /// Say which flags are set
    pub fn text(&self) -> (r: String)
        ensures
            r@ == self.wording(),
    {
        let table: [(u8, &'static str); 5] = [
            (ScanMode::HIGH_QUALITY, "HIGH_QUALITY"),
            (ScanMode::NORMAL_QUALITY, "NORMAL_QUALITY"),
            (ScanMode::HIGH_SPEED, "HIGH_SPEED"),
            (ScanMode::MULTI_READING, "MULTI_READING"),
            (ScanMode::REVERSE_DIRECTION, "REVERSE_DIRECTION"),
        ];
        let t = flags_text(self.bits, ScanMode::NAMED, &table, Ghost(ScanMode::names()));
        let mut s = String::from_str("ScanMode(");
        s.append(t.as_str());
        s.append(")");
        s
    }
}

/// Byte 6, how the image data is color-interleaved. Bit 3 is reserved
#[derive(Debug, Clone, Copy, PartialEq, Eq, Structural)]
pub struct ColorInterleaving {
    pub bits: u8,
}

impl ColorInterleaving {
    pub const PIXEL_WITHOUT_DISTANCE: u8 = 0x01;

    pub const LINE_WITHOUT_DISTANCE: u8 = 0x02;

    pub const PLANE: u8 = 0x04;

    pub const PIXEL_WITH_DISTANCE: u8 = 0x10;

    pub const LINE_WITH_DISTANCE: u8 = 0x20;

    pub const MULTILINE_SIMULTANEOUS: u8 = 0x40;

    /// Every flag there is a name for
    pub const NAMED: u8 = 0x77;

    /// The flags of `bits` that have a name
    pub fn from_bits_truncate(bits: u8) -> (r: ColorInterleaving)
        ensures
            r == ColorInterleaving::known(bits),
    {
        ColorInterleaving { bits: bits & ColorInterleaving::NAMED }
    }

    /// The flags of `bits` that have a name
    pub open spec fn known(bits: u8) -> ColorInterleaving {
        ColorInterleaving { bits: bits & ColorInterleaving::NAMED }
    }

    /// The flags as one number
    pub fn bits(&self) -> (r: u8)
        ensures
            r == self.bits,
    {
        self.bits
    }

    /// Whether every flag of `mask` is set
    pub open spec fn has(self, mask: u8) -> bool {
        self.bits & mask == mask
    }

    /// Whether every flag of `mask` is set
    pub fn contains(&self, mask: u8) -> (r: bool)
        ensures
            r == self.has(mask),
    {
        self.bits & mask == mask
    }

    /// Whether any flag of `mask` is set
    pub open spec fn meets(self, mask: u8) -> bool {
        self.bits & mask != 0
    }

    /// Whether any flag of `mask` is set
    pub fn intersects(&self, mask: u8) -> (r: bool)
        ensures
            r == self.meets(mask),
    {
        self.bits & mask != 0
    }

    /// The flags' names, in order
    pub open spec fn names() -> Seq<(u8, Seq<char>)> {
        seq![
            (ColorInterleaving::PIXEL_WITHOUT_DISTANCE, "PIXEL_WITHOUT_DISTANCE"@),
            (ColorInterleaving::LINE_WITHOUT_DISTANCE, "LINE_WITHOUT_DISTANCE"@),
            (ColorInterleaving::PLANE, "PLANE"@),
            (ColorInterleaving::PIXEL_WITH_DISTANCE, "PIXEL_WITH_DISTANCE"@),
            (ColorInterleaving::LINE_WITH_DISTANCE, "LINE_WITH_DISTANCE"@),
            (ColorInterleaving::MULTILINE_SIMULTANEOUS, "MULTILINE_SIMULTANEOUS"@),
        ]
    }

    /// The flags by name
    pub open spec fn wording(self) -> Seq<char> {
        "ColorInterleaving("@ + flags_wording(self.bits, ColorInterleaving::NAMED, ColorInterleaving::names()) + ")"@
    }

    /// Say which flags are set
    pub fn text(&self) -> (r: String)
        ensures
            r@ == self.wording(),
    {
        let table: [(u8, &'static str); 6] = [
            (ColorInterleaving::PIXEL_WITHOUT_DISTANCE, "PIXEL_WITHOUT_DISTANCE"),
            (ColorInterleaving::LINE_WITHOUT_DISTANCE, "LINE_WITHOUT_DISTANCE"),
            (ColorInterleaving::PLANE, "PLANE"),
            (ColorInterleaving::PIXEL_WITH_DISTANCE, "PIXEL_WITH_DISTANCE"),
            (ColorInterleaving::LINE_WITH_DISTANCE, "LINE_WITH_DISTANCE"),
            (ColorInterleaving::MULTILINE_SIMULTANEOUS, "MULTILINE_SIMULTANEOUS"),
        ];
        let t = flags_text(self.bits, ColorInterleaving::NAMED, &table, Ghost(ColorInterleaving::names()));
        let mut s = String::from_str("ColorInterleaving(");
        s.append(t.as_str());
        s.append(")");
        s
    }
}

/// Byte 7, the color composition to be scanned
#[derive(Debug, Clone, Copy, PartialEq, Eq, Structural)]
pub struct ColorComponents {
    pub bits: u8,
}

impl ColorComponents {
    pub const NEUTRAL_GRAY: u8 = 0x01;

    /// Old-school document scanner setting
    pub const DROPOUT: u8 = 0x02;

    /// Red-Green-Blue
    pub const RGB: u8 = 0x04;

    /// Cyan-Magenta-Yellow
    pub const CMY: u8 = 0x08;

    /// Every flag there is a name for
    pub const NAMED: u8 = 0x0F;

    /// The flags of `bits` that have a name
    pub fn from_bits_truncate(bits: u8) -> (r: ColorComponents)
        ensures
            r == ColorComponents::known(bits),
    {
        ColorComponents { bits: bits & ColorComponents::NAMED }
    }

    /// The flags of `bits` that have a name
    pub open spec fn known(bits: u8) -> ColorComponents {
        ColorComponents { bits: bits & ColorComponents::NAMED }
    }

    /// The flags as one number
    pub fn bits(&self) -> (r: u8)
        ensures
            r == self.bits,
    {
        self.bits
    }

    /// Whether every flag of `mask` is set
    pub open spec fn has(self, mask: u8) -> bool {
        self.bits & mask == mask
    }

    /// Whether every flag of `mask` is set
    pub fn contains(&self, mask: u8) -> (r: bool)
        ensures
            r == self.has(mask),
    {
        self.bits & mask == mask
    }
}

/// Byte 10, bit-depth per channel
#[derive(Debug, Clone, Copy, PartialEq, Eq, Structural)]
pub struct BitDepth {
    pub bits: u8,
}

impl BitDepth {
    pub const BIT_1: u8 = 0x01;

    pub const BIT_8: u8 = 0x02;

    pub const BIT_10: u8 = 0x04;

    pub const BIT_12: u8 = 0x08;

    pub const BIT_14: u8 = 0x10;

    pub const BIT_16: u8 = 0x20;

    /// Every flag there is a name for
    pub const NAMED: u8 = 0x3F;

    /// The flags of `bits` that have a name
    pub fn from_bits_truncate(bits: u8) -> (r: BitDepth)
        ensures
            r == BitDepth::known(bits),
    {
        BitDepth { bits: bits & BitDepth::NAMED }
    }

    /// The flags of `bits` that have a name
    pub open spec fn known(bits: u8) -> BitDepth {
        BitDepth { bits: bits & BitDepth::NAMED }
    }

    /// The flags as one number
    pub fn bits(&self) -> (r: u8)
        ensures
            r == self.bits,
    {
        self.bits
    }

    /// Whether every flag of `mask` is set
    pub open spec fn has(self, mask: u8) -> bool {
        self.bits & mask == mask
    }

    /// Whether every flag of `mask` is set
    pub fn contains(&self, mask: u8) -> (r: bool)
        ensures
            r == self.has(mask),
    {
        self.bits & mask == mask
    }
}

/// Byte 14, analog image control functions this unit supports
#[derive(Debug, Clone, Copy, PartialEq, Eq, Structural)]
pub struct AnalogControl {
    pub bits: u8,
}

impl AnalogControl {
    pub const GAMMA: u8 = 0x01;

    pub const EXPOSURE_TIME: u8 = 0x02;

    pub const ANALOG_GAIN: u8 = 0x04;

    pub const DIGITAL_GAIN: u8 = 0x08;

    pub const ANALOG_SHIFT: u8 = 0x10;

    pub const ANALOG_OFFSET: u8 = 0x20;

    pub const EXPOSURE_VALUE: u8 = 0x40;

    /// Every flag there is a name for
    pub const NAMED: u8 = 0x7F;

    /// The flags of `bits` that have a name
    pub fn from_bits_truncate(bits: u8) -> (r: AnalogControl)
        ensures
            r == AnalogControl::known(bits),
    {
        AnalogControl { bits: bits & AnalogControl::NAMED }
    }

    /// The flags of `bits` that have a name
    pub open spec fn known(bits: u8) -> AnalogControl {
        AnalogControl { bits: bits & AnalogControl::NAMED }
    }

    /// The flags as one number
    pub fn bits(&self) -> (r: u8)
        ensures
            r == self.bits,
    {
        self.bits
    }

    /// Whether every flag of `mask` is set
    pub open spec fn has(self, mask: u8) -> bool {
        self.bits & mask == mask
    }

    /// Whether every flag of `mask` is set
    pub fn contains(&self, mask: u8) -> (r: bool)
        ensures
            r == self.has(mask),
    {
        self.bits & mask == mask
    }
}

#[derive(Debug, Clone, Copy, PartialEq, Eq, Structural)]
pub enum Component {
    Red,  // Or Cyan
    Green,  // Or Magenta
    Blue,  // Or Yellow
    Other(u8),  // Secret fourth thing (9 for IR)
}

impl Component {
    /// `None` for 0, which is defined as "all colors"
    pub open spec fn of_nibble(n: u8) -> Option<Component> {
        match n {
            0 => None,
            1 => Some(Component::Red),
            2 => Some(Component::Green),
            3 => Some(Component::Blue),
            x => Some(Component::Other(x)),
        }
    }

    /// `None` for 0, which is defined as "all colors"
    fn from_nibble(n: u8) -> (r: Option<Component>)
        ensures
            r == Component::of_nibble(n),
    {
        match n {
            0 => None,
            1 => Some(Component::Red),
            2 => Some(Component::Green),
            3 => Some(Component::Blue),
            x => Some(Component::Other(x)),
        }
    }
}

/// Where the variable parts of a page begin
///
/// Every one of them is moved along by what comes before it. The byte numbers
/// are where a unit that extends nothing puts them.
pub struct Places {
    /// Byte 5
    pub mode: int,
    /// Byte 6
    pub interleaving: int,
    /// Byte 7
    pub components: int,
    /// Byte 8
    pub order: int,
    /// Byte 11
    pub rest: int,
    /// Byte 14
    pub analog: int,
    /// Byte 15
    pub aic_len: int,
    /// Byte 16
    pub first: int,
    /// Byte 25
    pub tail: int,
}

/// Where the variable parts of this page begin, as far as it carries them
pub open spec fn places(b: Seq<u8>) -> Places {
    let mode = field_end(b, 4)->0;
    let interleaving = field_end(b, mode)->0;
    let components = field_end(b, interleaving)->0;
    let order = field_end(b, components)->0;
    let rest = field_end(b, order + 2)->0;
    let analog = rest + 3 + b[rest + 2];
    let aic_len = field_end(b, analog)->0;
    let first = aic_len + 1;
    Places {
        mode,
        interleaving,
        components,
        order,
        rest,
        analog,
        aic_len,
        first,
        tail: first + b[aic_len],
    }
}

/// What an extendable field is short of, or else what the fields behind it are
pub open spec fn field_short_of(b: Seq<u8>, i: int, rest: Option<int>) -> Option<int> {
    if field_end(b, i) is None {
        Some(field_need(b, i))
    } else {
        rest
    }
}

/// What the first analog control's parameter is short of: its width, and its
/// minimum and maximum as wide as that says. Nothing, where there is no control
pub open spec fn control_short_of(b: Seq<u8>, aic_len: u8, first: int, rest: Option<int>) -> Option<
    int,
> {
    if aic_len == 0 {
        rest
    } else {
        short_of(
            b.len(),
            first,
            1,
            short_of(
                b.len(),
                first + 1,
                b[first] as int,
                short_of(b.len(), first + 1 + b[first], b[first] as int, rest),
            ),
        )
    }
}

/// What the fields behind the analog control are short of
pub open spec fn tail_short_of(b: Seq<u8>, rest: int, tail: int) -> Option<int> {
    let len = b.len();
    short_of(len, 3, 1, short_of(len, rest, 1, short_of(len, rest + 1, 1,
    short_of(len, tail, 1, short_of(len, tail + 1, 1, short_of(len, tail + 2, 1, None))))))
}

/// What a page is short of, or `None` where it carries every field it has to
pub open spec fn set_window_short_of(b: Seq<u8>) -> Option<int> {
    let p = places(b);
    let len = b.len();
    field_short_of(b, 4, field_short_of(b, p.mode, field_short_of(b, p.interleaving,
    field_short_of(b, p.components, short_of(len, p.order, 1, short_of(len, p.order + 1, 1,
    field_short_of(b, p.order + 2, short_of(len, p.rest + 2, 1, field_short_of(b, p.analog,
    short_of(len, p.aic_len, 1, control_short_of(b, b[p.aic_len], p.first,
    tail_short_of(b, p.rest, p.tail))))))))))))
}

/// The exposure a unit will take, which is its first analog control's range. A
/// unit offering no analog control at all has no exposure to set
pub open spec fn exposure_of(b: Seq<u8>, aic_len: u8, first: int) -> RangeInclusive<u32> {
    if aic_len == 0 {
        RangeInclusive { start: 0, last: 0 }
    } else {
        RangeInclusive {
            start: be_at(b, first + 1, b[first] as nat) as u32,
            last: be_at(b, first + 1 + b[first], b[first] as nat) as u32,
        }
    }
}

impl SetWindowFunction {
    pub const PAGE_CODE: u8 = 0xD1;

    /// What the page says, field by field
    pub open spec fn says(&self, b: Seq<u8>) -> bool {
        let p = places(b);
        &&& self.page_length == b[3]
        &&& self.kind == ScanKind::known(b[4])
        &&& self.mode == ScanMode::known(b[p.mode])
        &&& self.interleaving == ColorInterleaving::known(b[p.interleaving])
        &&& self.components == ColorComponents::known(b[p.components])
        &&& self.order@ == seq![
            Component::of_nibble((b[p.order] % 16) as u8),
            Component::of_nibble((b[p.order] / 16) as u8),
            Component::of_nibble((b[p.order + 1] % 16) as u8),
            Component::of_nibble((b[p.order + 1] / 16) as u8),
        ]
        &&& self.depth == BitDepth::known(b[p.order + 2])
        &&& self.setup_modes == b[p.rest]
        &&& self.dic == b[p.rest + 1]
        &&& self.dic_len == b[p.rest + 2]
        &&& self.aic == AnalogControl::known(b[p.analog])
        &&& self.aic_len == b[p.aic_len]
        &&& self.exposure == exposure_of(b, b[p.aic_len], p.first)
        &&& self.filter_support == b[p.tail]
        &&& self.matrix_support == b[p.tail + 1]
        &&& self.halftone_support == b[p.tail + 2]
    }

    /// Whether `component` may be read in `position` (0-based)
    ///
    /// A position the page does not speak of, or leaves to any color, takes
    /// every component.
    pub fn permits(&self, position: usize, component: Component) -> (r: bool)
        ensures
            r == (position >= 4 || self.order@[position as int] is None
                || self.order@[position as int] == Some(component)),
    {
        if position >= 4 {
            return true;
        }
        match self.order[position] {
            None => true,
            Some(c) => c == component,
        }
    }
}

/// The first analog control's range
fn read_exposure(page: &Page, aic_len: u8, first: usize) -> (r: Result<RangeInclusive<u32>, Error>)
    ensures
        match control_short_of(page@, aic_len, first as int, None) {
            Some(need) => r matches Err(e) && e.is_short(page.code(), need, page@.len() as int),
            None => r == Ok::<RangeInclusive<u32>, Error>(
                exposure_of(page@, aic_len, first as int),
            ),
        },
{
    proof {
        page.lemma_fits();
    }
    if aic_len == 0 {
        return Ok(RangeInclusive { start: 0, last: 0 });
    }
    let width: usize = page.u8(first)? as usize;
    let start = page.be(after(first, 1), width)?;
    let last = page.be(after(after(first, 1), width), width)?;
    Ok(RangeInclusive { start, last })
}

impl TryFrom<&Page> for SetWindowFunction {
    type Error = Error;

    fn try_from(page: &Page) -> (r: Result<SetWindowFunction, Error>)
        ensures
            match set_window_short_of(page@) {
                Some(need) => r matches Err(e) && e.is_short(page.code(), need, page@.len() as int),
                None => r matches Ok(f) && f.says(page@),
            },
    {
        proof {
            page.lemma_fits();
        }
        // Four extendable fields in a row, each saying where the next begins.
        // The byte numbers are where a unit that extends none of them puts them
        let (kind, at_mode) = page.flags(4)?;  // byte 4
        let (mode, at_interleaving) = page.flags(at_mode)?;  // byte 5
        let (interleaving, at_components) = page.flags(at_interleaving)?;  // byte 6
        let (components, order) = page.flags(at_components)?;  // byte 7
        let o1 = page.u8(order)?;  // byte 8
        let o2 = page.u8(after(order, 1))?;
        let (depth, rest) = page.flags(after(order, 2))?;  // byte 10

        // The digital control's additional information sits between the two
        // supports, so the analog side starts wherever that ended
        let dic_len = page.u8(after(rest, 2))?;
        let analog: usize = after(after(rest, 3), dic_len as usize);
        let (aic, at_len) = page.flags(analog)?;  // byte 14
        let aic_len = page.u8(at_len)?;

        // Then the first control's parameter: its width, its minimum and its
        // maximum, the last two as wide as the first says
        let first: usize = after(at_len, 1);
        let exposure = read_exposure(page, aic_len, first)?;
        let tail: usize = after(first, aic_len as usize);

        let page_length = page.u8(3)?;
        let setup_modes = page.u8(rest)?;
        let dic = page.u8(after(rest, 1))?;
        let filter_support = page.u8(tail)?;
        let matrix_support = page.u8(after(tail, 1))?;
        let halftone_support = page.u8(after(tail, 2))?;
        Ok(
            SetWindowFunction {
                page_length,
                kind: ScanKind::from_bits_truncate(kind),
                mode: ScanMode::from_bits_truncate(mode),
                interleaving: ColorInterleaving::from_bits_truncate(interleaving),
                components: ColorComponents::from_bits_truncate(components),
                order: [
                    Component::from_nibble(o1 % 16),
                    Component::from_nibble(o1 / 16),
                    Component::from_nibble(o2 % 16),
                    Component::from_nibble(o2 / 16),
                ],
                depth: BitDepth::from_bits_truncate(depth),
                setup_modes,
                dic,
                dic_len,
                aic: AnalogControl::from_bits_truncate(aic),
                aic_len,
                exposure,
                filter_support,
                matrix_support,
                halftone_support,
            },
        )
    }
}

impl vstd::std_specs::convert::TryFromSpecImpl<&Page> for SetWindowFunction {
    open spec fn obeys_try_from_spec() -> bool {
        false
    }

    open spec fn try_from_spec(page: &Page) -> Result<SetWindowFunction, Error> {
        arbitrary()
    }
}

/// A page whose scanning kind carries on into one more byte
pub open spec fn extended(b: Seq<u8>, next: u8) -> Seq<u8> {
    seq![b[0], b[1], b[2], (b[3] + 1) as u8, b[4] | 0x80, next] + b.skip(5)
}

/// A page with digital control information in it, where it had none
pub open spec fn informed(b: Seq<u8>, info: Seq<u8>) -> Seq<u8> {
    let at = places(b).rest + 2;
    b.take(at).push(info.len() as u8) + info + b.skip(at + 1)
}

/// A number reads the same where it is moved along
proof fn lemma_be_moves(b: Seq<u8>, moved: Seq<u8>, i: int, width: nat, by: int)
    requires
        0 <= i,
        0 <= by,
        i + width <= b.len(),
        moved.len() == b.len() + by,
        forall|j: int| i + by <= j < moved.len() ==> #[trigger] moved[j] == b[j - by],
    ensures
        be_at(moved, i + by, width) == be_at(b, i, width),
    decreases width,
{
    if width > 0 {
        lemma_be_moves(b, moved, i, (width - 1) as nat, by);
        assert(moved[i + by + width - 1] == b[i + width - 1]);
    }
}

/// The exposure reads the same where the analog side is moved along
proof fn lemma_exposure_moves(b: Seq<u8>, moved: Seq<u8>, aic_len: u8, first: int, by: int)
    requires
        0 <= first,
        0 <= by,
        moved.len() == b.len() + by,
        forall|j: int| first + by <= j < moved.len() ==> #[trigger] moved[j] == b[j - by],
        control_short_of(b, aic_len, first, None) is None,
    ensures
        exposure_of(moved, aic_len, first + by) == exposure_of(b, aic_len, first),
        forall|rest: Option<int>|
            control_short_of(moved, aic_len, first + by, rest) == rest && #[trigger] control_short_of(
                b,
                aic_len,
                first,
                rest,
            ) == rest,
{
    if aic_len != 0 {
        assert(moved[first + by] == b[first]);
        lemma_be_moves(b, moved, first + 1, b[first] as nat, by);
        lemma_be_moves(b, moved, first + 1 + b[first], b[first] as nat, by);
    }
}

/// What a page says, whoever reads it off: two values that say the same page
/// agree on everything
pub open spec fn same_function(a: SetWindowFunction, b: SetWindowFunction) -> bool {
    &&& a.kind == b.kind
    &&& a.mode == b.mode
    &&& a.interleaving == b.interleaving
    &&& a.components == b.components
    &&& a.order@ == b.order@
    &&& a.depth == b.depth
    &&& a.setup_modes == b.setup_modes
    &&& a.dic == b.dic
    &&& a.aic == b.aic
    &&& a.aic_len == b.aic_len
    &&& a.exposure == b.exposure
    &&& a.filter_support == b.filter_support
    &&& a.matrix_support == b.matrix_support
    &&& a.halftone_support == b.halftone_support
}

/// A unit whose scanning kind carries on into another byte moves the whole page
/// along, and says the same
pub proof fn law_an_extended_kind_moves_the_page_along(
    b: Seq<u8>,
    next: u8,
    flat: SetWindowFunction,
    moved: SetWindowFunction,
)
    requires
        set_window_short_of(b) is None,
        b[3] < 255,
        b[4] & 0x80 == 0,
        next & 0x80 == 0,
        flat.says(b),
        moved.says(extended(b, next)),
    ensures
        set_window_short_of(extended(b, next)) is None,
        same_function(flat, moved),
        moved.dic_len == flat.dic_len,
{
    let m = extended(b, next);
    let bits = b[4];
    assert((bits | 0x80) & 0x80 != 0 && (bits | 0x80) & 0x7F == bits & 0x7F) by (bit_vector);
    assert(m[3] == b[3] + 1 && m[4] == bits | 0x80 && m[5] == next);
    assert forall|j: int| 6 <= j < m.len() implies #[trigger] m[j] == b[j - 1] by {
        assert(m[j] == b.skip(5)[j - 6]);
    }
    reveal_with_fuel(field_end, 3);
    let p = places(b);
    let q = places(m);
    assert(p.mode == 5 && q.mode == 6);
    lemma_field_end_moves(b, m, p.mode, 1);
    lemma_field_end_moves(b, m, p.interleaving, 1);
    lemma_field_end_moves(b, m, p.components, 1);
    lemma_field_end_moves(b, m, p.order + 2, 1);
    assert(q.rest == p.rest + 1);
    assert(q.analog == p.analog + 1);
    lemma_field_end_moves(b, m, p.analog, 1);
    assert(q.first == p.first + 1);
    assert(b[p.aic_len] == m[q.aic_len]);
    assert(control_short_of(b, b[p.aic_len], p.first, None) is None);
    lemma_exposure_moves(b, m, b[p.aic_len], p.first, 1);
    assert(control_short_of(b, b[p.aic_len], p.first, tail_short_of(b, p.rest, p.tail))
        == tail_short_of(b, p.rest, p.tail));
    assert(flat.order@ =~= moved.order@);
}

/// Digital control information pushes the analog side along by the length it
/// declares, and what is said of everything else stays
pub proof fn law_digital_information_moves_the_analog_side(
    b: Seq<u8>,
    info: Seq<u8>,
    flat: SetWindowFunction,
    moved: SetWindowFunction,
)
    requires
        set_window_short_of(b) is None,
        flat.says(b),
        flat.dic_len == 0,
        info.len() <= 255,
        moved.says(informed(b, info)),
    ensures
        set_window_short_of(informed(b, info)) is None,
        same_function(flat, moved),
        moved.dic_len == info.len(),
{
    let m = informed(b, info);
    let by = info.len() as int;
    let p = places(b);
    let at = p.rest + 2;
    lemma_fields_in_order(b);
    assert forall|j: int| 0 <= j < at implies #[trigger] m[j] == b[j] by {}
    assert(m[at] == info.len());
    assert forall|j: int| at + 1 + by <= j < m.len() implies #[trigger] m[j] == b[j - by] by {
        assert(m[j] == b.skip(at + 1)[j - by - at - 1]);
    }
    lemma_field_end_same(b, m, 4, at);
    lemma_field_end_same(b, m, p.mode, at);
    lemma_field_end_same(b, m, p.interleaving, at);
    lemma_field_end_same(b, m, p.components, at);
    lemma_field_end_same(b, m, p.order + 2, at);
    let q = places(m);
    assert(q.rest == p.rest);
    assert(q.analog == p.analog + by);
    lemma_field_end_moves(b, m, p.analog, by);
    assert(q.first == p.first + by);
    assert(m[q.aic_len] == b[p.aic_len]);
    assert(control_short_of(b, b[p.aic_len], p.first, None) is None);
    lemma_exposure_moves(b, m, b[p.aic_len], p.first, by);
    assert(control_short_of(b, b[p.aic_len], p.first, tail_short_of(b, p.rest, p.tail))
        == tail_short_of(b, p.rest, p.tail));
    assert(flat.order@ =~= moved.order@);
}

/// The parts of a page that is not short come one behind another
proof fn lemma_fields_in_order(b: Seq<u8>)
    requires
        set_window_short_of(b) is None,
    ensures
        ({
            let p = places(b);
            4 < p.mode < p.interleaving < p.components < p.order < p.order + 2 < p.rest < p.rest + 2
                < p.analog < b.len()
        }),
{
    let p = places(b);
    lemma_field_end_moves(b, b, 4, 0);
    lemma_field_end_moves(b, b, p.mode, 0);
    lemma_field_end_moves(b, b, p.interleaving, 0);
    lemma_field_end_moves(b, b, p.components, 0);
    lemma_field_end_moves(b, b, p.order + 2, 0);
    lemma_field_end_moves(b, b, p.analog, 0);
    reveal_with_fuel(field_end, 2);
}

/// A field that ends in front of a change ends where it did
proof fn lemma_field_end_same(b: Seq<u8>, m: Seq<u8>, i: int, at: int)
    requires
        0 <= i,
        at <= b.len(),
        at <= m.len(),
        forall|j: int| 0 <= j < at ==> #[trigger] m[j] == b[j],
        field_end(b, i) matches Some(end) && end <= at,
    ensures
        field_end(m, i) == field_end(b, i),
        i < field_end(b, i)->0,
    decreases at - i,
{
    reveal_with_fuel(field_end, 2);
    assert(i < at) by {
        if i >= at {
            lemma_field_end_moves(b, b, i, 0);
        }
    }
    assert(m[i] == b[i]);
    if b[i] & 0x80 != 0 {
        lemma_field_end_same(b, m, i + 1, at);
    }
}

/// Where the fields of the page are: each extendable one starts where the one
/// before it ends, the digital controls are skipped over, and the analog
/// controls' parameter is stepped over by its length
pub proof fn law_where_a_function_is(
    f: SetWindowFunction,
    b: Seq<u8>,
    mode: int,
    interleaving: int,
    components: int,
    order: int,
    rest: int,
    aic_len: int,
)
    requires
        set_window_short_of(b) is None,
        f.says(b),
        field_end(b, 4) == Some(mode),
        field_end(b, mode) == Some(interleaving),
        field_end(b, interleaving) == Some(components),
        field_end(b, components) == Some(order),
        field_end(b, order + 2) == Some(rest),
        field_end(b, rest + 3 + b[rest + 2]) == Some(aic_len),
    ensures
        f.page_length == b[3],
        f.kind.bits == b[4] % 0x80,
        f.mode.bits == b[mode] & 0x57,
        f.interleaving.bits == b[interleaving] & 0x77,
        f.components.bits == b[components] % 0x10,
        f.order@.len() == 4,
        f.order@[0] == Component::of_nibble((b[order] % 0x10) as u8),
        f.order@[1] == Component::of_nibble((b[order] / 0x10) as u8),
        f.order@[2] == Component::of_nibble((b[order + 1] % 0x10) as u8),
        f.order@[3] == Component::of_nibble((b[order + 1] / 0x10) as u8),
        f.depth.bits == b[order + 2] % 0x40,
        f.setup_modes == b[rest],
        f.dic == b[rest + 1],
        f.dic_len == b[rest + 2],
        f.aic.bits == b[rest + 3 + b[rest + 2]] % 0x80,
        f.aic_len == b[aic_len],
        f.filter_support == b[aic_len + 1 + b[aic_len]],
        f.matrix_support == b[aic_len + 2 + b[aic_len]],
        f.halftone_support == b[aic_len + 3 + b[aic_len]],
        b[aic_len] == 0 ==> f.exposure.start == 0 && f.exposure.last == 0,
        b[aic_len] > 0 && b[aic_len + 1] == 2 ==> f.exposure.start == 0x100 * b[aic_len + 2]
            + b[aic_len + 3] && f.exposure.last == 0x100 * b[aic_len + 4] + b[aic_len + 5],
        b[aic_len] > 0 && b[aic_len + 1] == 4 ==> f.exposure.start == 0x100_0000 * b[aic_len + 2]
            + 0x1_0000 * b[aic_len + 3] + 0x100 * b[aic_len + 4] + b[aic_len + 5]
            && f.exposure.last == 0x100_0000 * b[aic_len + 6] + 0x1_0000 * b[aic_len + 7] + 0x100
            * b[aic_len + 8] + b[aic_len + 9],
        b[aic_len] > 0 ==> f.exposure.start == be_at(b, aic_len + 2, b[aic_len + 1] as nat),
        b[aic_len] > 0 ==> f.exposure.last == be_at(
            b,
            aic_len + 2 + b[aic_len + 1],
            b[aic_len + 1] as nat,
        ),
{
    lemma_low_bits(b[4]);
    lemma_low_bits(b[components]);
    lemma_low_bits(b[order + 2]);
    lemma_low_bits(b[rest + 3 + b[rest + 2]]);
    law_where_an_extendable_field_ends(b, 4, mode);
    law_where_an_extendable_field_ends(b, mode, interleaving);
    law_where_an_extendable_field_ends(b, interleaving, components);
    law_where_an_extendable_field_ends(b, components, order);
    law_where_an_extendable_field_ends(b, order + 2, rest);
    law_where_an_extendable_field_ends(b, rest + 3 + b[rest + 2], aic_len);
    if b[aic_len] > 0 {
        let width = b[aic_len + 1] as nat;
        law_a_wide_number_keeps_its_last_bytes(b, aic_len + 2, width);
        law_a_wide_number_keeps_its_last_bytes(b, aic_len + 2 + width, width);
    }
}

/// The low bits of a byte are what is left of it
proof fn lemma_low_bits(bits: u8)
    ensures
        bits & 0x0F == bits % 0x10,
        bits & 0x3F == bits % 0x40,
        bits & 0x7F == bits % 0x80,
{
    assert(bits & 0x0F == bits % 0x10 && bits & 0x3F == bits % 0x40 && bits & 0x7F == bits % 0x80)
        by (bit_vector);
}

/// A page is whole exactly where each of its extendable fields ends in it and
/// so do the parameter of the analog controls and the three bytes behind it
pub proof fn law_which_pages_are_whole(
    b: Seq<u8>,
    mode: int,
    interleaving: int,
    components: int,
    order: int,
    rest: int,
    aic_len: int,
)
    requires
        b.len() >= 4,
        field_end(b, 4) == Some(mode),
        field_end(b, mode) == Some(interleaving),
        field_end(b, interleaving) == Some(components),
        field_end(b, components) == Some(order),
        order + 2 <= b.len(),
        field_end(b, order + 2) == Some(rest),
        rest + 3 <= b.len(),
        field_end(b, rest + 3 + b[rest + 2]) == Some(aic_len),
    ensures
        aic_len >= b.len() ==> set_window_short_of(b) == Some(aic_len + 1),
        aic_len < b.len() && b[aic_len] == 0 ==> ({
            &&& set_window_short_of(b) is None <==> aic_len + 4 <= b.len()
            &&& aic_len + 4 > b.len() ==> set_window_short_of(b) == Some(b.len() as int + 1)
        }),
        aic_len < b.len() && b[aic_len] > 0 ==> ({
            let wide = aic_len + 2 + 2 * b[aic_len + 1];
            let tail = aic_len + 1 + b[aic_len];
            &&& set_window_short_of(b) is None <==> aic_len + 2 <= b.len() && wide <= b.len() && tail
                + 3 <= b.len()
            &&& aic_len + 2 > b.len() ==> set_window_short_of(b) == Some(aic_len + 2)
            &&& aic_len + 2 <= b.len() < aic_len + 2 + b[aic_len + 1] ==> set_window_short_of(b)
                == Some(aic_len + 2 + b[aic_len + 1])
            &&& aic_len + 2 + b[aic_len + 1] <= b.len() < wide && aic_len + 2 <= b.len()
                ==> set_window_short_of(b) == Some(wide)
            &&& aic_len + 2 <= b.len() && wide <= b.len() && b.len() < tail ==> set_window_short_of(b)
                == Some(tail + 1)
            &&& aic_len + 2 <= b.len() && wide <= b.len() && tail <= b.len() < tail + 3
                ==> set_window_short_of(b) == Some(b.len() as int + 1)
        }),
{
    law_where_an_extendable_field_ends(b, 4, mode);
    law_where_an_extendable_field_ends(b, mode, interleaving);
    law_where_an_extendable_field_ends(b, interleaving, components);
    law_where_an_extendable_field_ends(b, components, order);
    law_where_an_extendable_field_ends(b, order + 2, rest);
    law_where_an_extendable_field_ends(b, rest + 3 + b[rest + 2], aic_len);
}

/// A page that ends inside one of the fields before the analog controls is said
/// to need one byte more, or as much as the field it lacks altogether
pub proof fn law_what_a_page_that_ends_early_needs(
    b: Seq<u8>,
    mode: int,
    interleaving: int,
    components: int,
)
    requires
        field_end(b, 4) == Some(mode),
        field_end(b, mode) == Some(interleaving),
        field_end(b, interleaving) == Some(components),
    ensures
        field_end(b, components) is None ==> set_window_short_of(b) == Some(b.len() as int + 1),
        field_end(b, components) matches Some(order) ==> {
            &&& order + 2 > b.len() ==> set_window_short_of(b) == Some(b.len() as int + 1)
            &&& order + 2 <= b.len() && field_end(b, order + 2) is None ==> set_window_short_of(b)
                == Some(b.len() as int + 1)
            &&& order + 2 <= b.len() && field_end(b, order + 2) is Some ==> ({
                let rest = field_end(b, order + 2)->0;
                let analog = rest + 3 + b[rest + 2];
                &&& rest + 3 > b.len() ==> set_window_short_of(b) == Some(rest + 3)
                &&& rest + 3 <= b.len() <= analog ==> set_window_short_of(b) == Some(analog + 1)
                &&& rest + 3 <= b.len() && analog < b.len() && field_end(b, analog) is None
                    ==> set_window_short_of(b) == Some(b.len() as int + 1)
            })
        },
{
    law_where_an_extendable_field_ends(b, 4, mode);
    law_where_an_extendable_field_ends(b, mode, interleaving);
    law_where_an_extendable_field_ends(b, interleaving, components);
    if let Some(order) = field_end(b, components) {
        law_where_an_extendable_field_ends(b, components, order);
        if let Some(rest) = field_end(b, order + 2) {
            law_where_an_extendable_field_ends(b, order + 2, rest);
        }
    }
}

/// A page that ends inside one of its first extendable fields is said to need
/// the byte behind what arrived
pub proof fn law_what_a_page_that_hardly_starts_needs(b: Seq<u8>)
    ensures
        b.len() <= 4 ==> set_window_short_of(b) == Some(5int),
        b.len() > 4 && field_end(b, 4) is None ==> set_window_short_of(b) == Some(
            b.len() as int + 1,
        ),
        field_end(b, 4) matches Some(mode) ==> field_end(b, mode) is None ==> set_window_short_of(b)
            == Some(b.len() as int + 1),
        field_end(b, 4) matches Some(mode) ==> field_end(b, mode) matches Some(interleaving)
            ==> field_end(b, interleaving) is None ==> set_window_short_of(b) == Some(
            b.len() as int + 1,
        ),
{
    if let Some(mode) = field_end(b, 4) {
        law_where_an_extendable_field_ends(b, 4, mode);
        if let Some(interleaving) = field_end(b, mode) {
            law_where_an_extendable_field_ends(b, mode, interleaving);
        }
    }
}

/// What the digits of the component order name
pub proof fn law_what_a_component_digit_names(n: u8)
    ensures
        Component::of_nibble(n) is None <==> n == 0,
        Component::of_nibble(n) == Some(Component::Red) <==> n == 1,
        Component::of_nibble(n) == Some(Component::Green) <==> n == 2,
        Component::of_nibble(n) == Some(Component::Blue) <==> n == 3,
        Component::of_nibble(n) == Some(Component::Other(n)) <==> n > 3,
{
}

/// Which bits of their bytes the scanning flags are
pub proof fn law_what_the_scanning_flags_are(bits: u8)
    ensures
        ScanKind::known(bits).has(ScanKind::IMAGE) <==> bits % 2 == 1,
        ScanKind::known(bits).has(ScanKind::THUMBNAIL) <==> bits / 2 % 2 == 1,
        ScanKind::known(bits).has(ScanKind::SETUP_1) <==> bits / 4 % 2 == 1,
        ScanKind::known(bits).has(ScanKind::SETUP_2) <==> bits / 8 % 2 == 1,
        ScanKind::known(bits).has(ScanKind::HISTOGRAM) <==> bits / 16 % 2 == 1,
        ScanKind::known(bits).has(ScanKind::AE) <==> bits / 32 % 2 == 1,
        ScanKind::known(bits).has(ScanKind::AE_WB) <==> bits / 64 % 2 == 1,
        ScanKind::known(bits).bits == bits % 0x80,
        ScanMode::known(bits).has(ScanMode::HIGH_QUALITY) <==> bits % 2 == 1,
        ScanMode::known(bits).has(ScanMode::NORMAL_QUALITY) <==> bits / 2 % 2 == 1,
        ScanMode::known(bits).has(ScanMode::HIGH_SPEED) <==> bits / 4 % 2 == 1,
        ScanMode::known(bits).has(ScanMode::MULTI_READING) <==> bits / 16 % 2 == 1,
        ScanMode::known(bits).has(ScanMode::REVERSE_DIRECTION) <==> bits / 64 % 2 == 1,
        ScanMode::known(bits).bits == bits / 64 % 2 * 64 + bits / 16 % 2 * 16 + bits % 8,
{
    let k = bits & 0x7F;
    assert((k & 0x01 == 0x01 <==> bits % 2 == 1) && (k & 0x02 == 0x02 <==> bits / 2 % 2 == 1) && (k
        & 0x04 == 0x04 <==> bits / 4 % 2 == 1) && (k & 0x08 == 0x08 <==> bits / 8 % 2 == 1) && (k
        & 0x10 == 0x10 <==> bits / 16 % 2 == 1) && (k & 0x20 == 0x20 <==> bits / 32 % 2 == 1) && (k
        & 0x40 == 0x40 <==> bits / 64 % 2 == 1) && k == bits % 0x80) by (bit_vector)
        requires
            k == bits & 0x7F,
    ;
    let m = bits & 0x57;
    assert((m & 0x01 == 0x01 <==> bits % 2 == 1) && (m & 0x02 == 0x02 <==> bits / 2 % 2 == 1) && (m
        & 0x04 == 0x04 <==> bits / 4 % 2 == 1) && (m & 0x10 == 0x10 <==> bits / 16 % 2 == 1) && (m
        & 0x40 == 0x40 <==> bits / 64 % 2 == 1) && m == bits / 64 % 2 * 64 + bits / 16 % 2 * 16
        + bits % 8) by (bit_vector)
        requires
            m == bits & 0x57,
    ;
}

/// Which bits of their bytes the flags of an image's layout and depth are
pub proof fn law_what_the_layout_flags_are(bits: u8)
    ensures
        ColorInterleaving::known(bits).has(ColorInterleaving::PIXEL_WITHOUT_DISTANCE) <==> bits % 2
            == 1,
        ColorInterleaving::known(bits).has(ColorInterleaving::LINE_WITHOUT_DISTANCE) <==> bits / 2
            % 2 == 1,
        ColorInterleaving::known(bits).has(ColorInterleaving::PLANE) <==> bits / 4 % 2 == 1,
        ColorInterleaving::known(bits).has(ColorInterleaving::PIXEL_WITH_DISTANCE) <==> bits / 16
            % 2 == 1,
        ColorInterleaving::known(bits).has(ColorInterleaving::LINE_WITH_DISTANCE) <==> bits / 32 % 2
            == 1,
        ColorInterleaving::known(bits).has(ColorInterleaving::MULTILINE_SIMULTANEOUS) <==> bits / 64
            % 2 == 1,
        ColorInterleaving::known(bits).bits == bits / 16 % 8 * 16 + bits % 8,
        ColorComponents::known(bits).has(ColorComponents::NEUTRAL_GRAY) <==> bits % 2 == 1,
        ColorComponents::known(bits).has(ColorComponents::DROPOUT) <==> bits / 2 % 2 == 1,
        ColorComponents::known(bits).has(ColorComponents::RGB) <==> bits / 4 % 2 == 1,
        ColorComponents::known(bits).has(ColorComponents::CMY) <==> bits / 8 % 2 == 1,
        ColorComponents::known(bits).bits == bits % 0x10,
        BitDepth::known(bits).has(BitDepth::BIT_1) <==> bits % 2 == 1,
        BitDepth::known(bits).has(BitDepth::BIT_8) <==> bits / 2 % 2 == 1,
        BitDepth::known(bits).has(BitDepth::BIT_10) <==> bits / 4 % 2 == 1,
        BitDepth::known(bits).has(BitDepth::BIT_12) <==> bits / 8 % 2 == 1,
        BitDepth::known(bits).has(BitDepth::BIT_14) <==> bits / 16 % 2 == 1,
        BitDepth::known(bits).has(BitDepth::BIT_16) <==> bits / 32 % 2 == 1,
        BitDepth::known(bits).bits == bits % 0x40,
{
    let i = bits & 0x77;
    assert((i & 0x01 == 0x01 <==> bits % 2 == 1) && (i & 0x02 == 0x02 <==> bits / 2 % 2 == 1) && (i
        & 0x04 == 0x04 <==> bits / 4 % 2 == 1) && (i & 0x10 == 0x10 <==> bits / 16 % 2 == 1) && (i
        & 0x20 == 0x20 <==> bits / 32 % 2 == 1) && (i & 0x40 == 0x40 <==> bits / 64 % 2 == 1) && i
        == bits / 16 % 8 * 16 + bits % 8) by (bit_vector)
        requires
            i == bits & 0x77,
    ;
    let c = bits & 0x0F;
    assert((c & 0x01 == 0x01 <==> bits % 2 == 1) && (c & 0x02 == 0x02 <==> bits / 2 % 2 == 1) && (c
        & 0x04 == 0x04 <==> bits / 4 % 2 == 1) && (c & 0x08 == 0x08 <==> bits / 8 % 2 == 1) && c
        == bits % 0x10) by (bit_vector)
        requires
            c == bits & 0x0F,
    ;
    let d = bits & 0x3F;
    assert((d & 0x01 == 0x01 <==> bits % 2 == 1) && (d & 0x02 == 0x02 <==> bits / 2 % 2 == 1) && (d
        & 0x04 == 0x04 <==> bits / 4 % 2 == 1) && (d & 0x08 == 0x08 <==> bits / 8 % 2 == 1) && (d
        & 0x10 == 0x10 <==> bits / 16 % 2 == 1) && (d & 0x20 == 0x20 <==> bits / 32 % 2 == 1) && d
        == bits % 0x40) by (bit_vector)
        requires
            d == bits & 0x3F,
    ;
}

/// Which bits of their byte the analog controls are
pub proof fn law_what_the_analog_controls_are(bits: u8)
    ensures
        AnalogControl::known(bits).has(AnalogControl::GAMMA) <==> bits % 2 == 1,
        AnalogControl::known(bits).has(AnalogControl::EXPOSURE_TIME) <==> bits / 2 % 2 == 1,
        AnalogControl::known(bits).has(AnalogControl::ANALOG_GAIN) <==> bits / 4 % 2 == 1,
        AnalogControl::known(bits).has(AnalogControl::DIGITAL_GAIN) <==> bits / 8 % 2 == 1,
        AnalogControl::known(bits).has(AnalogControl::ANALOG_SHIFT) <==> bits / 16 % 2 == 1,
        AnalogControl::known(bits).has(AnalogControl::ANALOG_OFFSET) <==> bits / 32 % 2 == 1,
        AnalogControl::known(bits).has(AnalogControl::EXPOSURE_VALUE) <==> bits / 64 % 2 == 1,
        AnalogControl::known(bits).bits == bits % 0x80,
{
    let k = bits & 0x7F;
    assert((k & 0x01 == 0x01 <==> bits % 2 == 1) && (k & 0x02 == 0x02 <==> bits / 2 % 2 == 1) && (k
        & 0x04 == 0x04 <==> bits / 4 % 2 == 1) && (k & 0x08 == 0x08 <==> bits / 8 % 2 == 1) && (k
        & 0x10 == 0x10 <==> bits / 16 % 2 == 1) && (k & 0x20 == 0x20 <==> bits / 32 % 2 == 1) && (k
        & 0x40 == 0x40 <==> bits / 64 % 2 == 1) && k == bits % 0x80) by (bit_vector)
        requires
            k == bits & 0x7F,
    ;
}

/// Flags meet a mask where they share a bit with it
pub proof fn law_what_meets_a_mask(flags: ColorInterleaving, mask: u8)
    ensures
        flags.meets(mask) <==> exists|n: u8| n < 8 && #[trigger] (1u8 << n) & flags.bits & mask != 0,
{
    let x = flags.bits;
    let y = mask;
    if x & y != 0 {
        assert((1u8 << 0) & x & y != 0 || (1u8 << 1) & x & y != 0 || (1u8 << 2) & x & y != 0 || (1u8
            << 3) & x & y != 0 || (1u8 << 4) & x & y != 0 || (1u8 << 5) & x & y != 0 || (1u8 << 6)
            & x & y != 0 || (1u8 << 7) & x & y != 0) by (bit_vector)
            requires
                x & y != 0,
        ;
    } else {
        assert forall|n: u8| n < 8 implies #[trigger] (1u8 << n) & x & y == 0 by {
            assert((1u8 << n) & x & y == 0) by (bit_vector)
                requires
                    x & y == 0,
            ;
        }
    }
}

} // verus!
