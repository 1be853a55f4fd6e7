//! Data around the GET/SET WINDOW commands

use super::caps::address::Axis;
use super::caps::set_window::{BitDepth, ColorInterleaving, ScanKind, ScanMode};
use super::caps::Capabilities;
use super::image::colors_in;
use crate::bytes::{
    be16_at, be16_bytes, be32_at, be32_bytes, byte_of, law_bytes_spell_the_number,
    lemma_be16_again, lemma_be16_at, lemma_be32_again, lemma_be32_at, read16, read32,
};
use crate::error::Error;
use crate::search::{
    first_index, law_a_search_finds_the_first, lemma_first_index_none, lemma_first_index_same,
};
use crate::text::{decimal, decimal_text, hex_value, push_decimal, push_hex_value};
use vstd::prelude::*;

verus! {

/// How many bytes one descriptor occupies
pub const LENGTH: usize = 50;

/// A scanning channel
///
/// One namespace for two fields: a window identifier and a data type
/// qualifier, which agree on the codes
#[derive(Debug, Clone, Copy, PartialEq, Eq, PartialOrd, Ord, Hash, Structural)]
pub enum Channel {
    /// 0. The G component, which is only scanned alone
    Default,
    Red,
    Green,
    Blue,
    /// 4, which has a name and no unit that supports it
    NeutralGray,
    /// 9. Measures obstructions rather than color
    Infrared,
    /// A code without a name
    Other(u8),
}

impl Channel {
    /// The channel's code
    pub open spec fn id_of(self) -> u8 {
        match self {
            Channel::Default => 0,
            Channel::Red => 1,
            Channel::Green => 2,
            Channel::Blue => 3,
            Channel::NeutralGray => 4,
            Channel::Infrared => 9,
            Channel::Other(id) => id,
        }
    }

    /// The channel a code names
    pub open spec fn of(id: u8) -> Channel {
        match id {
            0 => Channel::Default,
            1 => Channel::Red,
            2 => Channel::Green,
            3 => Channel::Blue,
            4 => Channel::NeutralGray,
            9 => Channel::Infrared,
            x => Channel::Other(x),
        }
    }

    /// The channel's code
    pub fn id(self) -> (r: u8)
        ensures
            r == self.id_of(),
    {
        match self {
            Channel::Default => 0,
            Channel::Red => 1,
            Channel::Green => 2,
            Channel::Blue => 3,
            Channel::NeutralGray => 4,
            Channel::Infrared => 9,
            Channel::Other(id) => id,
        }
    }

    /// Whether this carries color rather than measuring what is in the way
    pub open spec fn carries_color(self) -> bool {
        !(self is Infrared)
    }

    /// Whether this carries color rather than measuring what is in the way
    ///
    /// An image composition counts these and not infrared
    pub fn is_color(self) -> (r: bool)
        ensures
            r == self.carries_color(),
    {
        match self {
            Channel::Infrared => false,
            _ => true,
        }
    }

    /// Where this sits in an R, G, B ordered reading, for the data types whose
    /// qualifier names a component
    pub fn visible_index(self) -> (r: Option<usize>)
        ensures
            r == match self {
                Channel::Red => Some(0usize),
                Channel::Green => Some(1usize),
                Channel::Default => Some(1usize),
                Channel::Blue => Some(2usize),
                _ => None,
            },
    {
        match self {
            Channel::Red => Some(0),
            // The default qualifier is the green component
            Channel::Green | Channel::Default => Some(1),
            Channel::Blue => Some(2),
            _ => None,
        }
    }
}

impl From<u8> for Channel {
    fn from(id: u8) -> (r: Channel) {
        match id {
            0 => Channel::Default,
            1 => Channel::Red,
            2 => Channel::Green,
            3 => Channel::Blue,
            4 => Channel::NeutralGray,
            9 => Channel::Infrared,
            x => Channel::Other(x),
        }
    }
}

impl vstd::std_specs::convert::FromSpecImpl<u8> for Channel {
    open spec fn obeys_from_spec() -> bool {
        true
    }

    open spec fn from_spec(id: u8) -> Channel {
        Channel::of(id)
    }
}

/// Reading a code as a channel loses nothing
pub proof fn law_channel_code_round_trip(id: u8)
    ensures
        Channel::of(id).id_of() == id,
{
}

/// A channel with a name of its own is what its code reads as
pub proof fn law_channel_round_trip(channel: Channel)
    requires
        !(channel is Other),
    ensures
        Channel::of(channel.id_of()) == channel,
{
}

#[derive(Debug, Clone, Copy, PartialEq, Eq)]
pub struct Window {
    /// Window identifier, 0,1,2,3,9 (Default 0 is the same as green 2). Byte 0.
    pub id: u8,
    /// Byte 1 bit 0
    pub auto: bool,
    /// Resolution in DPI (X/Y). Bytes 2-5
    ///
    /// Y sets the stepping down the frame: a 10000x1200 window at 666x333
    /// returns 100 lines where a square 666 returns 200.
    ///
    /// An X the unit cannot do is rounded to `optical / round(optical / asked)`
    /// and reported with `01h-37h-00h`
    pub resolution: (u16, u16),
    /// Window origin (upper left) of X and Y. Bytes 6-13
    ///
    /// The wire unit is inches times the measurement unit divisor, so at the
    /// unit's maximum resolution these are pixels
    pub origin: (u32, u32),
    /// Size of the window, in the same units as the origin.
    /// Bounded by `Address`'s boundary, which the power-on descriptor exceeds. Bytes 14-21
    pub size: (u32, u32),
    /// Brightness. Byte 22
    pub brightness: u8,
    /// Threshold. Byte 23
    pub threshold: u8,
    /// Contrast. Byte 24
    pub contrast: u8,
    /// Image composition. Byte 25
    pub composition: Composition,
    /// Pixel composition (bit depth). Byte 26
    pub bpp: u8,
    /// Halftone pattern. Bytes 27-28
    pub halftone_pattern: u16,
    /// Reverse in bit 7, padding type in the low bits. Byte 29
    pub padding_type: u8,
    /// Bit ordering: Byte 30-31
    pub bit_ordering: u16,
    /// Compression type. Byte 32
    pub compression_type: u8,
    /// Compression argument. Byte 33
    pub compression_argument: u8,
    /// One less than the number of times each line is read, so 0 is a single ordinary pass. Byte 40 high nibble
    pub multiple_reading: u8,
    /// What order to read this window's color in: 0 asks for the unit's own ordering, R=1, G=2, B=3. Byte 40 low nibble
    ///
    /// Across a window set this must be all-zero or all-nonzero with no repeats, or SCAN answers `05h-2Ch-02h`
    pub color_ordering: u8,
    /// Byte 41
    pub flags: Flags,
    /// Setup mode. Byte 41 bits 3-1
    ///
    /// Only meaningful when `SetWindowFunction` advertises [`ScanKind::SETUP_2`], which caps it with the setup-mode count in byte 11 of that page
    pub setup_mode: u8,
    /// Byte 42. `SetWindowFunction` reports which of these the unit will do, so a selection is checkable against it with `contains`
    pub scanning_kind: ScanKind,
    /// Byte 43, likewise checkable against `SetWindowFunction`
    pub scanning_mode: ScanMode,
    /// Byte 44, likewise checkable against `SetWindowFunction`
    pub color_interleaving: ColorInterleaving,
    /// Target output value for auto exposure. Byte 45, default 255. Sending 0 sets 255, and GET WINDOW then reports 255
    pub ae_value: u8,
    /// Integration time in units of 10 ns, up to `3FFFFFFh`. Bytes 46-49
    pub exposure: u32,
}

/// Byte 41, whose bits 3-1 are the setup mode, kept as a field
#[derive(Debug, Clone, Copy, PartialEq, Eq, Structural)]
pub struct Flags {
    pub bits: u8,
}

impl Flags {
    /// Average along the scan line. This is binning across the sensor bar,
    /// not repeated reads of a line, which is `multiple_reading`
    pub const AVERAGING: u8 = 0x80;

    pub const MATRIX: u8 = 0x40;

    pub const FILTER: u8 = 0x20;

    /// Set for positive film, unset for negative
    pub const POSITIVE: u8 = 0x01;

    /// Every flag there is a name for
    pub const NAMED: u8 = 0xE1;

    /// The flags of `bits` that have a name
    pub fn from_bits_truncate(bits: u8) -> (r: Flags)
        ensures
            r == Flags::known(bits),
    {
        Flags { bits: bits & Flags::NAMED }
    }

    /// The flags of `bits` that have a name
    pub open spec fn known(bits: u8) -> Flags {
        Flags { bits: bits & Flags::NAMED }
    }

    /// The flags as one number
    pub fn bits(&self) -> (r: u8)
        ensures
            r == self.bits,
    {
        self.bits
    }

    /// Whether every flag of `mask` is set
    pub open spec fn has(self, mask: u8) -> bool {
        self.bits & mask == mask
    }

    /// Whether every flag of `mask` is set
    pub fn contains(&self, mask: u8) -> (r: bool)
        ensures
            r == self.has(mask),
    {
        self.bits & mask == mask
    }
}

#[derive(Debug, Copy, Clone, PartialEq, Eq, Structural)]
pub enum Composition {
    BilevelBW,
    DitheredBW,
    MultilevelBW,
    BilevelRGB,
    DitheredRGB,
    MultilevelRGB,
    Unknown(u8),
}

impl Composition {
    /// The composition a code names
    pub open spec fn of(value: u8) -> Composition {
        match value {
            0x00 => Composition::BilevelBW,
            0x01 => Composition::DitheredBW,
            0x02 => Composition::MultilevelBW,
            0x03 => Composition::BilevelRGB,
            0x04 => Composition::DitheredRGB,
            0x05 => Composition::MultilevelRGB,
            x => Composition::Unknown(x),
        }
    }

    /// The composition's code
    pub open spec fn code_of(self) -> u8 {
        match self {
            Composition::BilevelBW => 0x00,
            Composition::DitheredBW => 0x01,
            Composition::MultilevelBW => 0x02,
            Composition::BilevelRGB => 0x03,
            Composition::DitheredRGB => 0x04,
            Composition::MultilevelRGB => 0x05,
            Composition::Unknown(x) => x,
        }
    }

    /// What the composition is called
    pub open spec fn wording(self) -> Seq<char> {
        match self {
            Composition::BilevelBW => "BilevelBW"@,
            Composition::DitheredBW => "DitheredBW"@,
            Composition::MultilevelBW => "MultilevelBW"@,
            Composition::BilevelRGB => "BilevelRGB"@,
            Composition::DitheredRGB => "DitheredRGB"@,
            Composition::MultilevelRGB => "MultilevelRGB"@,
            Composition::Unknown(x) => "Unknown("@ + decimal(x as nat) + ")"@,
        }
    }

    /// How many planes a composition puts in the stream, where it is one of the
    /// two multi-level codes
    pub open spec fn plane_count(self) -> Option<usize> {
        match self {
            Composition::MultilevelBW => Some(1),
            Composition::MultilevelRGB => Some(3),
            _ => None,
        }
    }

    /// Name the composition
    pub fn name(self) -> (r: String)
        ensures
            r@ == self.wording(),
    {
        match self {
            Composition::BilevelBW => String::from_str("BilevelBW"),
            Composition::DitheredBW => String::from_str("DitheredBW"),
            Composition::MultilevelBW => String::from_str("MultilevelBW"),
            Composition::BilevelRGB => String::from_str("BilevelRGB"),
            Composition::DitheredRGB => String::from_str("DitheredRGB"),
            Composition::MultilevelRGB => String::from_str("MultilevelRGB"),
            Composition::Unknown(x) => {
                let mut s = String::from_str("Unknown(");
                push_decimal(&mut s, x as u64);
                s.append(")");
                s
            },
        }
    }
}

impl From<u8> for Composition {
    fn from(value: u8) -> (r: Composition) {
        match value {
            0x00 => Composition::BilevelBW,
            0x01 => Composition::DitheredBW,
            0x02 => Composition::MultilevelBW,
            0x03 => Composition::BilevelRGB,
            0x04 => Composition::DitheredRGB,
            0x05 => Composition::MultilevelRGB,
            x => Composition::Unknown(x),
        }
    }
}

impl vstd::std_specs::convert::FromSpecImpl<u8> for Composition {
    open spec fn obeys_from_spec() -> bool {
        true
    }

    open spec fn from_spec(value: u8) -> Composition {
        Composition::of(value)
    }
}

impl From<Composition> for u8 {
    fn from(value: Composition) -> (r: u8) {
        match value {
            Composition::BilevelBW => 0x00,
            Composition::DitheredBW => 0x01,
            Composition::MultilevelBW => 0x02,
            Composition::BilevelRGB => 0x03,
            Composition::DitheredRGB => 0x04,
            Composition::MultilevelRGB => 0x05,
            Composition::Unknown(x) => x,
        }
    }
}

impl vstd::std_specs::convert::FromSpecImpl<Composition> for u8 {
    open spec fn obeys_from_spec() -> bool {
        true
    }

    open spec fn from_spec(value: Composition) -> u8 {
        value.code_of()
    }
}

/// Reading a code as a composition loses nothing
pub proof fn law_composition_code_round_trip(value: u8)
    ensures
        Composition::of(value).code_of() == value,
{
}

/// A descriptor shorter than [`LENGTH`]
#[derive(Debug, Clone, Copy, PartialEq, Eq, Structural)]
pub struct TooShort {
    pub got: usize,
}

impl TooShort {
    /// Say this to a person
    pub fn message(&self) -> (r: String)
        ensures
            r@ == "window descriptor was "@ + decimal(self.got as nat) + " bytes, need "@
                + decimal(50),
    {
        let mut s = String::from_str("window descriptor was ");
        push_decimal(&mut s, self.got as u64);
        s.append(" bytes, need ");
        push_decimal(&mut s, LENGTH as u64);
        s
    }
}

impl TryFrom<&[u8]> for Window {
    type Error = TooShort;

    /// Takes at least [`LENGTH`] bytes and ignores any beyond it, since a unit
    /// may report a stride larger than the fields it defines
    fn try_from(d: &[u8]) -> (r: Result<Window, TooShort>)
        ensures
            r == if d@.len() >= LENGTH {
                Ok::<Window, TooShort>(Window::read(d@))
            } else {
                Err::<Window, TooShort>(TooShort { got: d@.len() as usize })
            },
    {
        if d.len() < LENGTH {
            return Err(TooShort { got: d.len() });
        }
        Ok(
            Window {
                id: d[0],
                auto: d[1] % 2 != 0,
                resolution: (read16(d, 2), read16(d, 4)),
                origin: (read32(d, 6), read32(d, 10)),
                size: (read32(d, 14), read32(d, 18)),
                brightness: d[22],
                threshold: d[23],
                contrast: d[24],
                composition: Composition::from(d[25]),
                bpp: d[26],
                halftone_pattern: read16(d, 27),
                padding_type: d[29],
                bit_ordering: read16(d, 30),
                compression_type: d[32],
                compression_argument: d[33],
                multiple_reading: d[40] / 16,
                color_ordering: d[40] % 16,
                flags: Flags::from_bits_truncate(d[41]),
                setup_mode: d[41] / 2 % 8,
                scanning_kind: ScanKind::from_bits_truncate(d[42]),
                scanning_mode: ScanMode::from_bits_truncate(d[43]),
                color_interleaving: ColorInterleaving::from_bits_truncate(d[44]),
                ae_value: d[45],
                exposure: read32(d, 46),
            },
        )
    }
}

impl vstd::std_specs::convert::TryFromSpecImpl<&[u8]> for Window {
    open spec fn obeys_try_from_spec() -> bool {
        true
    }

    open spec fn try_from_spec(d: &[u8]) -> Result<Window, TooShort> {
        if d@.len() >= LENGTH {
            Ok(Window::read(d@))
        } else {
            Err(TooShort { got: d@.len() as usize })
        }
    }
}

/// Whether `bits` is the deepest depth on offer
pub open spec fn is_deepest(offered: BitDepth, bits: u8) -> bool {
    &&& depth_flag(bits) matches Some(flag) && offered.has(flag)
    &&& forall|b: u8|
        b > bits && #[trigger] depth_flag(b) is Some ==> !offered.has(depth_flag(b)->0)
}

/// The flag of `SetWindowFunction` byte 10 that offers a depth of byte 26
pub open spec fn depth_flag(bits: u8) -> Option<u8> {
    match bits {
        16 => Some(BitDepth::BIT_16),
        14 => Some(BitDepth::BIT_14),
        12 => Some(BitDepth::BIT_12),
        10 => Some(BitDepth::BIT_10),
        8 => Some(BitDepth::BIT_8),
        1 => Some(BitDepth::BIT_1),
        _ => None,
    }
}

/// The flag of `SetWindowFunction` byte 10 that offers a depth of byte 26
fn flag_of_depth(bits: u8) -> (r: Option<u8>)
    ensures
        r == depth_flag(bits),
{
    match bits {
        16 => Some(BitDepth::BIT_16),
        14 => Some(BitDepth::BIT_14),
        12 => Some(BitDepth::BIT_12),
        10 => Some(BitDepth::BIT_10),
        8 => Some(BitDepth::BIT_8),
        1 => Some(BitDepth::BIT_1),
        _ => None,
    }
}

/// Something worth saying of a window that is not refused for it
#[derive(Debug, Clone, Copy, PartialEq, Eq)]
pub enum Warning {
    /// The window reaches past the adapter's opening on this axis
    PastOpening { name: char, size: u32, opening: u32 },
    /// The width is not a whole number of line-gap blocks
    SplitBlock { width: u32, block: u32 },
}

impl Warning {
    /// Say this to a person
    pub fn message(&self) -> (r: &'static str)
        ensures
            r@ == match self {
                Warning::PastOpening { .. } => "window reaches past the adapter's opening"@,
                Warning::SplitBlock { .. } => "width is not a whole number of line-gap blocks"@,
            },
    {
        match self {
            Warning::PastOpening { .. } => "window reaches past the adapter's opening",
            Warning::SplitBlock { .. } => "width is not a whole number of line-gap blocks",
        }
    }
}

/// The deepest per-channel depth this unit offers, from `SetWindowFunction` byte 10
///
/// `None` where the page advertises nothing, which would leave a descriptor with
/// no legal value for byte 26
pub fn deepest_depth(offered: BitDepth) -> (r: Option<u8>)
    ensures
        match r {
            Some(bits) => is_deepest(offered, bits),
            None => forall|b: u8| #[trigger] depth_flag(b) is Some ==> !offered.has(
                depth_flag(b)->0,
            ),
        },
{
    if offered.contains(BitDepth::BIT_16) {
        Some(16)
    } else if offered.contains(BitDepth::BIT_14) {
        Some(14)
    } else if offered.contains(BitDepth::BIT_12) {
        Some(12)
    } else if offered.contains(BitDepth::BIT_10) {
        Some(10)
    } else if offered.contains(BitDepth::BIT_8) {
        Some(8)
    } else if offered.contains(BitDepth::BIT_1) {
        Some(1)
    } else {
        None
    }
}

/// How many planes a composition puts in the stream
///
/// Only the two multi-level codes are supported, and [`Window::validate`]
/// refuses the rest
fn planes(composition: Composition) -> (r: Option<usize>)
    ensures
        r == composition.plane_count(),
{
    match composition {
        Composition::MultilevelBW => Some(1),
        Composition::MultilevelRGB => Some(3),
        _ => None,
    }
}

/// Something a unit will not take: what was asked, and why not
pub struct Refused {
    pub op: Seq<char>,
    pub reason: Seq<char>,
}

/// The refusal of `op` for `reason`
pub open spec fn refused(op: &str, reason: Seq<char>) -> Option<Refused> {
    Some(Refused { op: op@, reason })
}

/// The first refusal of two checks
pub open spec fn or_else(a: Option<Refused>, b: Option<Refused>) -> Option<Refused> {
    if a is Some {
        a
    } else {
        b
    }
}

/// Whether a check came out as it has to: accepted where nothing is refused,
/// and refused as stated where something is
pub open spec fn comes_out(r: Result<(), Error>, fault: Option<Refused>) -> bool {
    match fault {
        None => r is Ok,
        Some(f) => r matches Err(e) && e.is_unsupported(f.op, f.reason),
    }
}

/// How many of the first `n` windows read a color
pub open spec fn color_windows(windows: Seq<Window>, n: nat) -> nat
    decreases n,
{
    if n == 0 {
        0
    } else {
        color_windows(windows, (n - 1) as nat) + if windows[n - 1].reads().carries_color() {
            1nat
        } else {
            0nat
        }
    }
}

/// Whether a read position was claimed by an earlier window of the set
pub open spec fn claimed_before(windows: Seq<Window>, n: int) -> bool {
    exists|k: int|
        0 <= k < n && #[trigger] windows[k].color_ordering == windows[n].color_ordering
}

/// The first window that disagrees with the first of the set
pub open spec fn first_odd(windows: Seq<Window>) -> Option<int> {
    first_index(windows.len() as int, |n: int| !windows[n].agrees(windows[0]), 1)
}

/// The first window that leaves the order to the unit
pub open spec fn first_unordered(windows: Seq<Window>) -> Option<int> {
    first_index(windows.len() as int, |n: int| windows[n].color_ordering == 0, 0)
}

/// The first window whose read position is taken
pub open spec fn first_repeat(windows: Seq<Window>) -> Option<int> {
    first_index(windows.len() as int, |n: int| claimed_before(windows, n), 0)
}

/// The first window that pins its read position
pub open spec fn first_ordered(windows: Seq<Window>) -> Option<int> {
    first_index(windows.len() as int, |n: int| windows[n].color_ordering != 0, 0)
}

/// The first window that reads the default color
pub open spec fn first_default(windows: Seq<Window>) -> Option<int> {
    first_index(windows.len() as int, |n: int| windows[n].reads() == Channel::Default, 0)
}

/// What is wrong with a set's read positions: they are all zero, or all nonzero
/// and distinct
pub open spec fn ordering_fault(windows: Seq<Window>) -> Option<Refused> {
    if first_ordered(windows) is None {
        None
    } else if let Some(n) = first_unordered(windows) {
        refused(
            "color ordering",
            "window "@ + decimal(windows[n].id as nat)
                + " leaves the order to the unit while the rest of the set pins it"@,
        )
    } else if let Some(n) = first_repeat(windows) {
        refused(
            "color ordering",
            "read position "@ + decimal(windows[n].color_ordering as nat) + " is claimed twice"@,
        )
    } else {
        None
    }
}

/// What is wrong with a set's composition: it carries one plane for each color
/// channel, infrared being none
pub open spec fn planes_fault(windows: Seq<Window>) -> Option<Refused> {
    let composition = windows[0].composition;
    let visible = color_windows(windows, windows.len());
    match composition.plane_count() {
        None => refused(
            "image composition",
            composition.wording() + " puts no known number of planes in the stream"@,
        ),
        Some(planes) => if planes != visible {
            refused(
                "image composition",
                composition.wording() + " carries "@ + decimal(planes as nat)
                    + " plane(s) and this set scans "@ + decimal(visible) + " color channel(s)"@,
            )
        } else {
            None
        },
    }
}

/// What is wrong with a set of windows, the first thing that is
pub open spec fn set_fault(windows: Seq<Window>) -> Option<Refused> {
    if windows.len() == 0 {
        refused("window set", "a scan needs at least one window"@)
    } else if windows.len() > 1 && first_default(windows) is Some {
        refused("window set", "the default color cannot be scanned alongside another"@)
    } else if let Some(n) = first_odd(windows) {
        refused(
            "window set",
            "window "@ + decimal(windows[n].id as nat) + " differs from window "@ + decimal(
                windows[0].id as nat,
            ) + " in a parameter common to the set"@,
        )
    } else {
        or_else(ordering_fault(windows), planes_fault(windows))
    }
}

/// Check the rules that span a whole window set rather than one descriptor
///
/// These are what SCAN refuses rather than SET WINDOW: a descriptor is legal on
/// its own and only the combination is not. Each descriptor is checked by
/// [`Window::validate`] when it is set
pub fn validate_set(windows: &[Window]) -> (r: Result<(), Error>)
    ensures
        comes_out(r, set_fault(windows@)),
{
    if windows.len() == 0 {
        return refuse("window set", String::from_str("a scan needs at least one window"));
    }
    // The default color is valid when only the default color is read
    if windows.len() > 1 && any_default(windows) {
        return refuse(
            "window set",
            String::from_str("the default color cannot be scanned alongside another"),
        );
    }
    // A disagreement here is an invalid combination of windows. A set carries
    // one descriptor per channel so each can hold its own exposure
    if let Some(n) = find_odd(windows) {
        let mut reason = String::from_str("window ");
        push_decimal(&mut reason, windows[n].id as u64);
        reason.append(" differs from window ");
        push_decimal(&mut reason, windows[0].id as u64);
        reason.append(" in a parameter common to the set");
        return refuse("window set", reason);
    }
    // The read positions are all zero, or all nonzero and distinct. SCAN
    // answers anything else with 05h-2Ch-02h
    check_ordering(windows)?;
    // The composition says how many color planes the stream carries. It has to
    // match the visible channels in the set. Infrared is not one of them: the
    // RGB code goes with four windows to three planes
    check_planes(windows)
}

/// Whether any window reads the default color
fn any_default(windows: &[Window]) -> (r: bool)
    ensures
        r == first_default(windows@) is Some,
{
    let ghost pick = |n: int| windows@[n].reads() == Channel::Default;
    let mut n: usize = 0;
    while n < windows.len()
        invariant
            n <= windows@.len(),
            pick == (|n: int| windows@[n].reads() == Channel::Default),
            first_default(windows@) == first_index(windows@.len() as int, pick, n as int),
        decreases windows@.len() - n,
    {
        if windows[n].channel() == Channel::Default {
            return true;
        }
        n += 1;
    }
    false
}

/// The first window that disagrees with the first of the set
fn find_odd(windows: &[Window]) -> (r: Option<usize>)
    requires
        windows@.len() > 0,
    ensures
        match r {
            Some(n) => n < windows@.len() && first_odd(windows@) == Some(n as int),
            None => first_odd(windows@) is None,
        },
{
    let ghost pick = |n: int| !windows@[n].agrees(windows@[0]);
    let mut n: usize = 1;
    while n < windows.len()
        invariant
            1 <= n <= windows@.len(),
            pick == (|n: int| !windows@[n].agrees(windows@[0])),
            first_odd(windows@) == first_index(windows@.len() as int, pick, n as int),
        decreases windows@.len() - n,
    {
        if !windows[n].agrees_with(&windows[0]) {
            return Some(n);
        }
        n += 1;
    }
    None
}

/// The first window whose read position is, or is not, left to the unit
fn find_ordering(windows: &[Window], left: bool) -> (r: Option<usize>)
    ensures
        match r {
            Some(n) => n < windows@.len() && (if left {
                first_unordered(windows@)
            } else {
                first_ordered(windows@)
            }) == Some(n as int),
            None => (if left {
                first_unordered(windows@)
            } else {
                first_ordered(windows@)
            }) is None,
        },
{
    let ghost zero = |n: int| windows@[n].color_ordering == 0;
    let ghost pinned = |n: int| windows@[n].color_ordering != 0;
    let mut n: usize = 0;
    while n < windows.len()
        invariant
            n <= windows@.len(),
            zero == (|n: int| windows@[n].color_ordering == 0),
            pinned == (|n: int| windows@[n].color_ordering != 0),
            left ==> first_unordered(windows@) == first_index(
                windows@.len() as int,
                zero,
                n as int,
            ),
            !left ==> first_ordered(windows@) == first_index(
                windows@.len() as int,
                pinned,
                n as int,
            ),
        decreases windows@.len() - n,
    {
        if (windows[n].color_ordering == 0) == left {
            return Some(n);
        }
        n += 1;
    }
    None
}

/// Whether a read position was claimed by an earlier window of the set
fn is_claimed(windows: &[Window], n: usize) -> (r: bool)
    requires
        n < windows@.len(),
    ensures
        r == claimed_before(windows@, n as int),
{
    let mut k: usize = 0;
    while k < n
        invariant
            k <= n < windows@.len(),
            forall|j: int|
                0 <= j < k ==> #[trigger] windows@[j].color_ordering
                    != windows@[n as int].color_ordering,
        decreases n - k,
    {
        if windows[k].color_ordering == windows[n].color_ordering {
            return true;
        }
        k += 1;
    }
    false
}

/// The first window whose read position is taken
fn find_repeat(windows: &[Window]) -> (r: Option<usize>)
    ensures
        match r {
            Some(n) => n < windows@.len() && first_repeat(windows@) == Some(n as int),
            None => first_repeat(windows@) is None,
        },
{
    let ghost pick = |n: int| claimed_before(windows@, n);
    let mut n: usize = 0;
    while n < windows.len()
        invariant
            n <= windows@.len(),
            pick == (|n: int| claimed_before(windows@, n)),
            first_repeat(windows@) == first_index(windows@.len() as int, pick, n as int),
        decreases windows@.len() - n,
    {
        if is_claimed(windows, n) {
            return Some(n);
        }
        n += 1;
    }
    None
}

/// The read positions of a set
fn check_ordering(windows: &[Window]) -> (r: Result<(), Error>)
    ensures
        comes_out(r, ordering_fault(windows@)),
{
    if find_ordering(windows, false).is_none() {
        return Ok(());
    }
    if let Some(n) = find_ordering(windows, true) {
        let mut reason = String::from_str("window ");
        push_decimal(&mut reason, windows[n].id as u64);
        reason.append(" leaves the order to the unit while the rest of the set pins it");
        return refuse("color ordering", reason);
    }
    if let Some(n) = find_repeat(windows) {
        let mut reason = String::from_str("read position ");
        push_decimal(&mut reason, windows[n].color_ordering as u64);
        reason.append(" is claimed twice");
        return refuse("color ordering", reason);
    }
    Ok(())
}

/// The planes of a set against its channels
fn check_planes(windows: &[Window]) -> (r: Result<(), Error>)
    requires
        windows@.len() > 0,
    ensures
        comes_out(r, planes_fault(windows@)),
{
    let composition = windows[0].composition;
    let planes: usize = match planes(composition) {
        Some(planes) => planes,
        None => {
            let mut reason = composition.name();
            reason.append(" puts no known number of planes in the stream");
            return refuse("image composition", reason);
        },
    };
    let mut visible: usize = 0;
    let mut n: usize = 0;
    while n < windows.len()
        invariant
            n <= windows@.len(),
            visible <= n,
            visible == color_windows(windows@, n as nat),
        decreases windows@.len() - n,
    {
        if windows[n].channel().is_color() {
            visible += 1;
        }
        n += 1;
    }
    if planes != visible {
        let mut reason = composition.name();
        reason.append(" carries ");
        push_decimal(&mut reason, planes as u64);
        reason.append(" plane(s) and this set scans ");
        push_decimal(&mut reason, visible as u64);
        reason.append(" color channel(s)");
        return refuse("image composition", reason);
    }
    Ok(())
}

/// A descriptor field this unit will not take
fn refuse(op: &'static str, reason: String) -> (r: Result<(), Error>)
    ensures
        r matches Err(e) && e.is_unsupported(op@, reason@),
{
    Err(Error::Unsupported { op, reason })
}

impl Window {
    /// Which channel this window reads, byte 0
    pub open spec fn reads(self) -> Channel {
        Channel::of(self.id)
    }

    /// Whether two windows agree on what is common to a set
    pub open spec fn agrees(self, w: Window) -> bool {
        &&& self.resolution.0 == w.resolution.0
        &&& self.size == w.size
        &&& self.origin == w.origin
        &&& self.bpp == w.bpp
        &&& self.composition == w.composition
        &&& self.color_interleaving == w.color_interleaving
        &&& self.scanning_kind == w.scanning_kind
        &&& self.scanning_mode == w.scanning_mode
        &&& self.multiple_reading == w.multiple_reading
        &&& self.flags == w.flags
    }

    /// What a descriptor says
    pub open spec fn read(d: Seq<u8>) -> Window {
        Window {
            id: d[0],
            auto: d[1] % 2 != 0,
            resolution: (be16_at(d, 2), be16_at(d, 4)),
            origin: (be32_at(d, 6), be32_at(d, 10)),
            size: (be32_at(d, 14), be32_at(d, 18)),
            brightness: d[22],
            threshold: d[23],
            contrast: d[24],
            composition: Composition::of(d[25]),
            bpp: d[26],
            halftone_pattern: be16_at(d, 27),
            padding_type: d[29],
            bit_ordering: be16_at(d, 30),
            compression_type: d[32],
            compression_argument: d[33],
            multiple_reading: (d[40] / 16) as u8,
            color_ordering: (d[40] % 16) as u8,
            flags: Flags::known(d[41]),
            setup_mode: (d[41] / 2 % 8) as u8,
            scanning_kind: ScanKind::known(d[42]),
            scanning_mode: ScanMode::known(d[43]),
            color_interleaving: ColorInterleaving::known(d[44]),
            ae_value: d[45],
            exposure: be32_at(d, 46),
        }
    }

    /// The bytes in front of the geometry
    #[verifier::opaque]
    pub open spec fn wire_head(self) -> Seq<u8> {
        seq![
            self.id,
            if self.auto {
                1u8
            } else {
                0u8
            },
        ] + be16_bytes(self.resolution.0) + be16_bytes(self.resolution.1)
    }

    /// The bytes of the geometry
    #[verifier::opaque]
    pub open spec fn wire_place(self) -> Seq<u8> {
        be32_bytes(self.origin.0) + be32_bytes(self.origin.1) + be32_bytes(self.size.0)
            + be32_bytes(self.size.1)
    }

    /// The bytes of how a pixel is made up
    #[verifier::opaque]
    pub open spec fn wire_pixel(self) -> Seq<u8> {
        seq![self.brightness, self.threshold, self.contrast, self.composition.code_of(), self.bpp]
            + be16_bytes(self.halftone_pattern) + seq![self.padding_type] + be16_bytes(
            self.bit_ordering,
        ) + seq![self.compression_type, self.compression_argument]
    }

    /// The bytes of how the scan goes
    #[verifier::opaque]
    pub open spec fn wire_scan(self) -> Seq<u8> {
        seq![
            (self.multiple_reading % 16 * 16 + self.color_ordering % 16) as u8,
            self.flags.bits | ((self.setup_mode % 8 * 2) as u8),
            self.scanning_kind.bits,
            self.scanning_mode.bits,
            self.color_interleaving.bits,
            self.ae_value,
        ] + be32_bytes(self.exposure)
    }

    /// The bytes of a descriptor, of which 34 to 39 are reserved
    pub open spec fn wire(self) -> Seq<u8> {
        self.wire_head() + self.wire_place() + self.wire_pixel() + seq![0u8, 0, 0, 0, 0, 0]
            + self.wire_scan()
    }

    /// What is wrong with byte 0
    pub open spec fn channel_fault(self) -> Option<Refused> {
        if self.reads() is NeutralGray || self.reads() is Other {
            refused(
                "window identifier",
                decimal(self.id as nat)
                    + " is not a scanning color: 2-10-4 defines 0 to 3, and 9 is infrared"@,
            )
        } else {
            None
        }
    }

    /// What is wrong with the resolution: a thumbnail runs off its own ladder
    pub open spec fn resolution_fault(self, caps: &Capabilities) -> Option<Refused> {
        let dpi = self.resolution.0;
        let thumbnail = self.scanning_kind.has(ScanKind::THUMBNAIL);
        let range = if thumbnail {
            caps.address.thumbnail_resolution
        } else {
            caps.address.x_axis.dpi_range
        };
        if !range.holds(dpi) {
            refused(
                "resolution",
                decimal(dpi as nat) + " dpi is outside the "@ + decimal(range.start as nat)
                    + " to "@ + decimal(range.last as nat) + " this unit offers for "@ + if thumbnail {
                    "thumbnails"@
                } else {
                    "images"@
                },
            )
        } else {
            None
        }
    }

    /// What is wrong with one axis of the geometry
    pub open spec fn axis_fault(axis: Axis, name: &str, origin: u32, size: u32) -> Option<Refused> {
        if !axis.address_range.holds(origin) {
            refused(
                "window origin",
                name@ + " "@ + decimal(origin as nat) + " is outside "@ + decimal(
                    axis.address_range.start as nat,
                ) + " to "@ + decimal(axis.address_range.last as nat),
            )
        } else if size == 0 {
            refused("window size", name@ + " is empty"@)
        } else if !axis.has_range() && size != axis.boundary {
            refused(
                "window size",
                name@ + " cannot be cropped, so it has to be exactly "@ + decimal(
                    axis.boundary as nat,
                ),
            )
        } else {
            None
        }
    }

    /// What is wrong with the geometry
    pub open spec fn geometry_fault(self, caps: &Capabilities) -> Option<Refused> {
        or_else(
            Window::axis_fault(caps.address.x_axis, "X", self.origin.0, self.size.0),
            Window::axis_fault(caps.address.y_axis, "Y", self.origin.1, self.size.1),
        )
    }

    /// What is wrong with the width against the sensor
    pub open spec fn sensor_fault(self, caps: &Capabilities) -> Option<Refused> {
        if self.origin.0 + self.size.0 > caps.address.ccd_pixels {
            refused(
                "window size",
                "X "@ + decimal(self.size.0 as nat) + " from "@ + decimal(self.origin.0 as nat)
                    + " runs past the "@ + decimal(caps.address.ccd_pixels as nat)
                    + " pixel sensor"@,
            )
        } else {
            None
        }
    }

    /// What is wrong with a selection against what is offered: it has to be
    /// something, and nothing past the offer
    pub open spec fn mode_fault(chosen: u8, offered: u8, op: &str) -> Option<Refused> {
        if chosen == 0 || chosen & !offered != 0 {
            refused(
                op,
                "asked for "@ + hex_value(chosen as nat) + " of the "@ + hex_value(offered as nat)
                    + " this unit offers"@,
            )
        } else {
            None
        }
    }

    /// What is wrong with bytes 42-44
    pub open spec fn modes_fault(self, caps: &Capabilities) -> Option<Refused> {
        let f = caps.set_window;
        or_else(
            Window::mode_fault(self.scanning_kind.bits, f.kind.bits, "scanning kind"),
            or_else(
                Window::mode_fault(self.scanning_mode.bits, f.mode.bits, "scanning mode"),
                Window::mode_fault(
                    self.color_interleaving.bits,
                    f.interleaving.bits,
                    "color interleaving",
                ),
            ),
        )
    }

    /// What is wrong with the depth and the composition
    pub open spec fn pixel_fault(self, caps: &Capabilities) -> Option<Refused> {
        match depth_flag(self.bpp) {
            None => refused(
                "pixel composition",
                decimal(self.bpp as nat) + " bits is not a depth 2-2-2-4 defines"@,
            ),
            Some(flag) => if !caps.set_window.depth.has(flag) {
                refused(
                    "pixel composition",
                    "this unit does not offer "@ + decimal(self.bpp as nat) + " bits"@,
                )
            } else if self.composition.plane_count() is None {
                refused(
                    "image composition",
                    "2-10-6 supports neither "@ + self.composition.wording()
                        + " nor anything else it lists past the two multi-level codes"@,
                )
            } else {
                None
            },
        }
    }

    /// What is wrong with the setup mode
    pub open spec fn setup_fault(self, caps: &Capabilities) -> Option<Refused> {
        let f = caps.set_window;
        if self.setup_mode == 0 {
            None
        } else if !f.kind.has(ScanKind::SETUP_2) {
            refused(
                "setup mode",
                "this unit does not offer setup scanning 2, which is what makes byte 41 bits 3-1 mean anything"@,
            )
        } else if self.setup_mode > f.setup_modes {
            refused(
                "setup mode",
                decimal(self.setup_mode as nat) + " is past the "@ + decimal(f.setup_modes as nat)
                    + " this unit offers"@,
            )
        } else {
            None
        }
    }

    /// What is wrong with the repeat count
    pub open spec fn reading_fault(self, caps: &Capabilities) -> Option<Refused> {
        if self.multiple_reading == 0 {
            None
        } else if self.multiple_reading > 0x0F {
            refused(
                "multiple reading",
                decimal(self.multiple_reading as nat)
                    + " does not fit the nibble byte 40 gives it"@,
            )
        } else if !caps.set_window.mode.has(ScanMode::MULTI_READING) {
            refused("multiple reading", "this unit reads each line once"@)
        } else if !self.scanning_mode.has(ScanMode::MULTI_READING) {
            refused(
                "multiple reading",
                decimal((self.multiple_reading + 1) as nat) + " readings needs "@ + (ScanMode {
                    bits: ScanMode::MULTI_READING,
                }).wording() + " in the scanning mode, which is "@ + self.scanning_mode.wording(),
            )
        } else {
            None
        }
    }

    /// What is wrong with the read position
    pub open spec fn order_fault(self) -> Option<Refused> {
        if self.color_ordering > 3 {
            refused("color ordering", decimal(self.color_ordering as nat) + " is not a read position"@)
        } else {
            None
        }
    }

    /// What is wrong with the exposure, of which 0 hands the choice to the unit
    pub open spec fn exposure_fault(self, caps: &Capabilities) -> Option<Refused> {
        let range = caps.set_window.exposure;
        if self.exposure != 0 && !range.holds(self.exposure) {
            refused(
                "exposure",
                decimal(self.exposure as nat) + " is outside the "@ + decimal(range.start as nat)
                    + " to "@ + decimal(range.last as nat)
                    + " ten-nanosecond units this unit offers"@,
            )
        } else {
            None
        }
    }

    /// What is wrong with a field that is pinned to 0
    pub open spec fn zero_fault(value: u16, op: &str) -> Option<Refused> {
        if value != 0 {
            refused(op, "2-10 defines this as 0, not "@ + decimal(value as nat))
        } else {
            None
        }
    }

    /// What is wrong with the fields that are pinned to 0
    pub open spec fn fixed_fault(self) -> Option<Refused> {
        or_else(
            Window::zero_fault(self.padding_type as u16, "padding type"),
            or_else(
                Window::zero_fault(self.compression_type as u16, "compression type"),
                or_else(
                    Window::zero_fault(self.compression_argument as u16, "compression argument"),
                    Window::zero_fault(self.bit_ordering, "bit ordering"),
                ),
            ),
        )
    }

    /// What is wrong with a descriptor, the first thing that is
    pub open spec fn fault(self, caps: &Capabilities) -> Option<Refused> {
        or_else(self.channel_fault(), or_else(self.resolution_fault(caps),
        or_else(self.geometry_fault(caps), or_else(self.sensor_fault(caps),
        or_else(self.modes_fault(caps), or_else(self.pixel_fault(caps),
        or_else(self.setup_fault(caps), or_else(self.reading_fault(caps),
        or_else(self.order_fault(), or_else(self.exposure_fault(caps), self.fixed_fault()))))))))))
    }

    /// Which channel this window reads, byte 0
    pub fn channel(&self) -> (r: Channel)
        ensures
            r == self.reads(),
    {
        Channel::from(self.id)
    }

    /// Whether two windows agree on what is common to a set
    fn agrees_with(&self, w: &Window) -> (r: bool)
        ensures
            r == self.agrees(*w),
    {
        self.resolution.0 == w.resolution.0 && self.size.0 == w.size.0 && self.size.1 == w.size.1
            && self.origin.0 == w.origin.0 && self.origin.1 == w.origin.1 && self.bpp == w.bpp
            && self.composition == w.composition && self.color_interleaving == w.color_interleaving
            && self.scanning_kind == w.scanning_kind && self.scanning_mode == w.scanning_mode
            && self.multiple_reading == w.multiple_reading && self.flags == w.flags
    }

    /// Check this descriptor against what the unit says it will accept
    ///
    /// Per-window rules only. The rules spanning a whole set are
    /// [`validate_set`], since a descriptor can be legal alone and not in company
    ///
    /// A resolution off the unit's ladder is deliberately not refused: the unit
    /// rounds it and reports `01h-37h-00h`, so it is an adjustment rather than
    /// a rejection
    pub fn validate(&self, caps: &Capabilities) -> (r: Result<(), Error>)
        ensures
            comes_out(r, self.fault(caps)),
    {
        self.check_channel()?;
        self.check_resolution(caps)?;
        self.check_geometry(caps)?;
        self.check_sensor(caps)?;
        self.check_modes(caps)?;
        self.check_pixel(caps)?;
        self.check_setup_mode(caps)?;
        self.check_multiple_reading(caps)?;
        self.check_color_ordering()?;
        self.check_exposure(caps)?;
        self.check_fixed_fields()
    }

    /// Byte 0 names a channel this unit scans
    fn check_channel(&self) -> (r: Result<(), Error>)
        ensures
            comes_out(r, self.channel_fault()),
    {
        match self.channel() {
            Channel::NeutralGray | Channel::Other(_) => {
                let mut reason = decimal_text(self.id as u64);
                reason.append(
                    " is not a scanning color: 2-10-4 defines 0 to 3, and 9 is infrared",
                );
                refuse("window identifier", reason)
            },
            _ => Ok(()),
        }
    }

    /// Bytes 2-5 are on a ladder this unit offers
    ///
    /// Only X is bounded. A thumbnail runs off its own ladder, `Address` bytes
    /// 70-73, well below the image one
    fn check_resolution(&self, caps: &Capabilities) -> (r: Result<(), Error>)
        ensures
            comes_out(r, self.resolution_fault(caps)),
    {
        let dpi: u16 = self.resolution.0;
        let thumbnail = self.scanning_kind.contains(ScanKind::THUMBNAIL);
        let range = if thumbnail {
            caps.address.thumbnail_resolution
        } else {
            caps.address.x_axis.dpi_range
        };
        if !range.contains(&dpi) {
            let mut reason = decimal_text(dpi as u64);
            reason.append(" dpi is outside the ");
            push_decimal(&mut reason, range.start as u64);
            reason.append(" to ");
            push_decimal(&mut reason, range.last as u64);
            reason.append(" this unit offers for ");
            reason.append(
                if thumbnail {
                    "thumbnails"
                } else {
                    "images"
                },
            );
            return refuse("resolution", reason);
        }
        Ok(())
    }

    /// One axis lands on the medium
    fn check_axis(axis: &Axis, name: &'static str, origin: u32, size: u32) -> (r: Result<
        (),
        Error,
    >)
        ensures
            comes_out(r, Window::axis_fault(*axis, name, origin, size)),
    {
        if !axis.address_range.contains(&origin) {
            let mut reason = String::from_str(name);
            reason.append(" ");
            push_decimal(&mut reason, origin as u64);
            reason.append(" is outside ");
            push_decimal(&mut reason, axis.address_range.start as u64);
            reason.append(" to ");
            push_decimal(&mut reason, axis.address_range.last as u64);
            return refuse("window origin", reason);
        }
        if size == 0 {
            let mut reason = String::from_str(name);
            reason.append(" is empty");
            return refuse("window size", reason);
        }
        // The boundary is the adapter's opening, not a limit: the unit's own
        // power-on descriptors exceed it. But an axis with no address range has
        // to be read whole
        if !axis.croppable() && size != axis.boundary {
            let mut reason = String::from_str(name);
            reason.append(" cannot be cropped, so it has to be exactly ");
            push_decimal(&mut reason, axis.boundary as u64);
            return refuse("window size", reason);
        }
        Ok(())
    }

    /// Bytes 6-21 land on the medium
    fn check_geometry(&self, caps: &Capabilities) -> (r: Result<(), Error>)
        ensures
            comes_out(r, self.geometry_fault(caps)),
    {
        Window::check_axis(&caps.address.x_axis, "X", self.origin.0, self.size.0)?;
        Window::check_axis(&caps.address.y_axis, "Y", self.origin.1, self.size.1)
    }

    /// The main-scanning axis against the sensor itself
    ///
    /// The one width that really is a limit: everything else the page reports is
    /// the loaded adapter's opening, which a window may exceed
    fn check_sensor(&self, caps: &Capabilities) -> (r: Result<(), Error>)
        ensures
            comes_out(r, self.sensor_fault(caps)),
    {
        let ccd: u64 = caps.address.ccd_pixels as u64;
        if self.origin.0 as u64 + self.size.0 as u64 > ccd {
            let mut reason = String::from_str("X ");
            push_decimal(&mut reason, self.size.0 as u64);
            reason.append(" from ");
            push_decimal(&mut reason, self.origin.0 as u64);
            reason.append(" runs past the ");
            push_decimal(&mut reason, ccd);
            reason.append(" pixel sensor");
            return refuse("window size", reason);
        }
        Ok(())
    }

    /// What is worth saying of one axis: a size past the adapter's opening, where
    /// the origin is on the medium at all
    pub open spec fn axis_warning(axis: Axis, name: char, origin: u32, size: u32) -> Seq<Warning> {
        if axis.address_range.holds(origin) && size > axis.boundary {
            seq![Warning::PastOpening { name, size, opening: axis.boundary }]
        } else {
            Seq::empty()
        }
    }

    /// What is worth saying of the width: multi-line reads walk the bar in blocks
    /// of the line gap, and one that is not a whole number of them splits a block
    pub open spec fn block_warning(self, caps: &Capabilities) -> Seq<Warning> {
        let block = caps.address.line_gap as u32;
        if self.color_interleaving.has(ColorInterleaving::MULTILINE_SIMULTANEOUS) && block != 0
            && self.size.0 % block != 0 {
            seq![Warning::SplitBlock { width: self.size.0, block }]
        } else {
            Seq::empty()
        }
    }

    /// What [`validate`](Self::validate) finds worth saying on its way, in order:
    /// nothing past the first thing it refuses
    pub open spec fn warned(self, caps: &Capabilities) -> Seq<Warning> {
        let (x, y) = (caps.address.x_axis, caps.address.y_axis);
        if self.channel_fault() is Some || self.resolution_fault(caps) is Some {
            Seq::empty()
        } else {
            Window::axis_warning(x, 'X', self.origin.0, self.size.0) + if Window::axis_fault(
                x,
                "X",
                self.origin.0,
                self.size.0,
            ) is Some {
                Seq::empty()
            } else {
                Window::axis_warning(y, 'Y', self.origin.1, self.size.1) + if Window::axis_fault(
                    y,
                    "Y",
                    self.origin.1,
                    self.size.1,
                ) is Some || self.sensor_fault(caps) is Some {
                    Seq::empty()
                } else {
                    self.block_warning(caps)
                }
            }
        }
    }

    /// What [`validate`](Self::validate) finds worth saying on its way, in order
    pub fn warnings(&self, caps: &Capabilities) -> (r: Vec<Warning>)
        ensures
            r@ == self.warned(caps),
    {
        let mut found: Vec<Warning> = Vec::new();
        if self.check_channel().is_err() || self.check_resolution(caps).is_err() {
            return found;
        }
        let (x, y) = (&caps.address.x_axis, &caps.address.y_axis);
        if x.address_range.contains(&self.origin.0) && self.size.0 > x.boundary {
            found.push(Warning::PastOpening { name: 'X', size: self.size.0, opening: x.boundary });
        }
        if Window::check_axis(x, "X", self.origin.0, self.size.0).is_err() {
            assert(found@ =~= self.warned(caps));
            return found;
        }
        if y.address_range.contains(&self.origin.1) && self.size.1 > y.boundary {
            found.push(Warning::PastOpening { name: 'Y', size: self.size.1, opening: y.boundary });
        }
        if Window::check_axis(y, "Y", self.origin.1, self.size.1).is_err() || self.check_sensor(
            caps,
        ).is_err() {
            assert(found@ =~= self.warned(caps));
            return found;
        }
        let block: u32 = caps.address.line_gap as u32;
        if self.color_interleaving.contains(ColorInterleaving::MULTILINE_SIMULTANEOUS) && block != 0
            && self.size.0 % block != 0 {
            found.push(Warning::SplitBlock { width: self.size.0, block });
        }
        assert(found@ =~= self.warned(caps));
        found
    }

    /// A selection is a subset of what is offered
    fn check_mode(chosen: u8, offered: u8, op: &'static str) -> (r: Result<(), Error>)
        ensures
            comes_out(r, Window::mode_fault(chosen, offered, op)),
    {
        if chosen == 0 || chosen & !offered != 0 {
            let mut reason = String::from_str("asked for ");
            push_hex_value(&mut reason, chosen as u64);
            reason.append(" of the ");
            push_hex_value(&mut reason, offered as u64);
            reason.append(" this unit offers");
            return refuse(op, reason);
        }
        Ok(())
    }

    /// Bytes 42-44 are each a subset of what `SetWindowFunction` advertises
    fn check_modes(&self, caps: &Capabilities) -> (r: Result<(), Error>)
        ensures
            comes_out(r, self.modes_fault(caps)),
    {
        let f = &caps.set_window;
        Window::check_mode(self.scanning_kind.bits, f.kind.bits, "scanning kind")?;
        Window::check_mode(self.scanning_mode.bits, f.mode.bits, "scanning mode")?;
        Window::check_mode(self.color_interleaving.bits, f.interleaving.bits, "color interleaving")
    }

    /// Byte 26 is a depth this unit offers and byte 25 a supported composition
    fn check_pixel(&self, caps: &Capabilities) -> (r: Result<(), Error>)
        ensures
            comes_out(r, self.pixel_fault(caps)),
    {
        let depth: u8 = match flag_of_depth(self.bpp) {
            Some(depth) => depth,
            None => {
                let mut reason = decimal_text(self.bpp as u64);
                reason.append(" bits is not a depth 2-2-2-4 defines");
                return refuse("pixel composition", reason);
            },
        };
        if !caps.set_window.depth.contains(depth) {
            let mut reason = String::from_str("this unit does not offer ");
            push_decimal(&mut reason, self.bpp as u64);
            reason.append(" bits");
            return refuse("pixel composition", reason);
        }
        // Only the two multi-level codes are supported
        if planes(self.composition).is_none() {
            let mut reason = String::from_str("2-10-6 supports neither ");
            let name = self.composition.name();
            reason.append(name.as_str());
            reason.append(" nor anything else it lists past the two multi-level codes");
            return refuse("image composition", reason);
        }
        Ok(())
    }

    /// Byte 41 bits 3-1 only mean something where setup scanning 2 is offered
    fn check_setup_mode(&self, caps: &Capabilities) -> (r: Result<(), Error>)
        ensures
            comes_out(r, self.setup_fault(caps)),
    {
        let f = &caps.set_window;
        if self.setup_mode != 0 {
            if !f.kind.contains(ScanKind::SETUP_2) {
                return refuse(
                    "setup mode",
                    String::from_str(
                        "this unit does not offer setup scanning 2, which is what makes byte 41 bits 3-1 mean anything",
                    ),
                );
            }
            if self.setup_mode > f.setup_modes {
                let mut reason = decimal_text(self.setup_mode as u64);
                reason.append(" is past the ");
                push_decimal(&mut reason, f.setup_modes as u64);
                reason.append(" this unit offers");
                return refuse("setup mode", reason);
            }
        }
        Ok(())
    }

    /// Byte 40's high nibble is a repeat count this unit will honor
    fn check_multiple_reading(&self, caps: &Capabilities) -> (r: Result<(), Error>)
        ensures
            comes_out(r, self.reading_fault(caps)),
    {
        if self.multiple_reading != 0 {
            if self.multiple_reading > 0x0F {
                let mut reason = decimal_text(self.multiple_reading as u64);
                reason.append(" does not fit the nibble byte 40 gives it");
                return refuse("multiple reading", reason);
            }
            if !caps.set_window.mode.contains(ScanMode::MULTI_READING) {
                return refuse(
                    "multiple reading",
                    String::from_str("this unit reads each line once"),
                );
            }
            // Byte 43 carries the mode bit wherever byte 40 is set, so a count
            // on its own is half a request
            if !self.scanning_mode.contains(ScanMode::MULTI_READING) {
                let wanted = ScanMode { bits: ScanMode::MULTI_READING };
                let mut reason = decimal_text(self.multiple_reading as u64 + 1);
                reason.append(" readings needs ");
                let name = wanted.text();
                reason.append(name.as_str());
                reason.append(" in the scanning mode, which is ");
                let name = self.scanning_mode.text();
                reason.append(name.as_str());
                return refuse("multiple reading", reason);
            }
        }
        Ok(())
    }

    /// A read position, 0 meaning the unit's own order
    ///
    /// `SetWindowFunction` bytes 8-9 also pin which component may sit at each
    /// position, but nothing states how a window identifier maps to a
    /// component, so that half is left to SCAN
    fn check_color_ordering(&self) -> (r: Result<(), Error>)
        ensures
            comes_out(r, self.order_fault()),
    {
        if self.color_ordering > 3 {
            let mut reason = decimal_text(self.color_ordering as u64);
            reason.append(" is not a read position");
            return refuse("color ordering", reason);
        }
        Ok(())
    }

    /// Bytes 46-49 are in the range `SetWindowFunction` reports
    ///
    /// 0 hands the choice to the unit, which then reports what it picked
    fn check_exposure(&self, caps: &Capabilities) -> (r: Result<(), Error>)
        ensures
            comes_out(r, self.exposure_fault(caps)),
    {
        let range = caps.set_window.exposure;
        if self.exposure != 0 && !range.contains(&self.exposure) {
            let mut reason = decimal_text(self.exposure as u64);
            reason.append(" is outside the ");
            push_decimal(&mut reason, range.start as u64);
            reason.append(" to ");
            push_decimal(&mut reason, range.last as u64);
            reason.append(" ten-nanosecond units this unit offers");
            return refuse("exposure", reason);
        }
        Ok(())
    }

    /// A field that is pinned to 0
    fn check_zero(value: u16, op: &'static str) -> (r: Result<(), Error>)
        ensures
            comes_out(r, Window::zero_fault(value, op)),
    {
        if value != 0 {
            let mut reason = String::from_str("2-10 defines this as 0, not ");
            push_decimal(&mut reason, value as u64);
            return refuse(op, reason);
        }
        Ok(())
    }

    /// The fields that are pinned to 0 on both units
    fn check_fixed_fields(&self) -> (r: Result<(), Error>)
        ensures
            comes_out(r, self.fixed_fault()),
    {
        Window::check_zero(self.padding_type as u16, "padding type")?;
        Window::check_zero(self.compression_type as u16, "compression type")?;
        Window::check_zero(self.compression_argument as u16, "compression argument")?;
        Window::check_zero(self.bit_ordering, "bit ordering")
    }

    /// Write one descriptor
    pub fn to_bytes(&self) -> (r: [u8; LENGTH])
        ensures
            r@ == self.wire(),
    {
        let r: [u8; LENGTH] = [
            self.id,
            if self.auto {
                1
            } else {
                0
            },
            (self.resolution.0 / 256) as u8,
            (self.resolution.0 % 256) as u8,
            (self.resolution.1 / 256) as u8,
            (self.resolution.1 % 256) as u8,
            byte_of(self.origin.0, 0),
            byte_of(self.origin.0, 1),
            byte_of(self.origin.0, 2),
            byte_of(self.origin.0, 3),
            byte_of(self.origin.1, 0),
            byte_of(self.origin.1, 1),
            byte_of(self.origin.1, 2),
            byte_of(self.origin.1, 3),
            byte_of(self.size.0, 0),
            byte_of(self.size.0, 1),
            byte_of(self.size.0, 2),
            byte_of(self.size.0, 3),
            byte_of(self.size.1, 0),
            byte_of(self.size.1, 1),
            byte_of(self.size.1, 2),
            byte_of(self.size.1, 3),
            self.brightness,
            self.threshold,
            self.contrast,
            u8::from(self.composition),
            self.bpp,
            (self.halftone_pattern / 256) as u8,
            (self.halftone_pattern % 256) as u8,
            self.padding_type,
            (self.bit_ordering / 256) as u8,
            (self.bit_ordering % 256) as u8,
            self.compression_type,
            self.compression_argument,
            // 34-39 reserved
            0,
            0,
            0,
            0,
            0,
            0,
            self.multiple_reading % 16 * 16 + self.color_ordering % 16,
            self.flags.bits | (self.setup_mode % 8 * 2),
            self.scanning_kind.bits,
            self.scanning_mode.bits,
            self.color_interleaving.bits,
            self.ae_value,
            byte_of(self.exposure, 0),
            byte_of(self.exposure, 1),
            byte_of(self.exposure, 2),
            byte_of(self.exposure, 3),
        ];
        proof {
            reveal(Window::wire_head);
            reveal(Window::wire_place);
            reveal(Window::wire_pixel);
            reveal(Window::wire_scan);
            assert(r@ =~= self.wire());
        }
        r
    }
}

/// Whether a set orders every color or none, and no two of them alike
pub open spec fn orders_well(windows: Seq<Window>) -> bool {
    ||| forall|n: int| 0 <= n < windows.len() ==> (#[trigger] windows[n]).color_ordering == 0
    ||| {
        &&& forall|n: int| 0 <= n < windows.len() ==> (#[trigger] windows[n]).color_ordering != 0
        &&& forall|k: int, n: int|
            0 <= k < n < windows.len() ==> (#[trigger] windows[k]).color_ordering != (
            #[trigger] windows[n]).color_ordering
    }
}

/// A set is accepted exactly where it has a window, scans the default color
/// alone or not at all, agrees throughout, orders every color or none, and
/// carries one plane for each color channel
pub proof fn law_accepted_sets(windows: Seq<Window>)
    ensures
        set_fault(windows) is None <==> {
            &&& windows.len() > 0
            &&& windows.len() > 1 ==> forall|n: int|
                0 <= n < windows.len() ==> (#[trigger] windows[n]).reads() != Channel::Default
            &&& forall|n: int| 1 <= n < windows.len() ==> (#[trigger] windows[n]).agrees(windows[0])
            &&& orders_well(windows)
            &&& windows[0].composition.plane_count() matches Some(planes) && planes
                == color_windows(windows, windows.len())
        },
{
    let len = windows.len() as int;
    let default = |n: int| windows[n].reads() == Channel::Default;
    let odd = |n: int| !windows[n].agrees(windows[0]);
    let zero = |n: int| windows[n].color_ordering == 0;
    let pinned = |n: int| windows[n].color_ordering != 0;
    let repeat = |n: int| claimed_before(windows, n);
    lemma_first_index_none(len, default, 0);
    lemma_first_index_none(len, odd, 1);
    lemma_first_index_none(len, zero, 0);
    lemma_first_index_none(len, pinned, 0);
    lemma_first_index_none(len, repeat, 0);
    assert(first_default(windows) is None <==> forall|n: int|
        0 <= n < len ==> (#[trigger] windows[n]).reads() != Channel::Default) by {
        assert(forall|n: int| #[trigger] default(n) == (windows[n].reads() == Channel::Default));
        if forall|n: int| 0 <= n < len ==> (#[trigger] windows[n]).reads() != Channel::Default {
            assert forall|n: int| 0 <= n < len implies !#[trigger] default(n) by {
                assert(windows[n].reads() != Channel::Default);
            }
        }
        if first_default(windows) is None {
            assert forall|n: int| 0 <= n < len implies (#[trigger] windows[n]).reads()
                != Channel::Default by {
                assert(!default(n));
            }
        }
    }
    assert(first_odd(windows) is None <==> forall|n: int|
        1 <= n < len ==> (#[trigger] windows[n]).agrees(windows[0])) by {
        if forall|n: int| 1 <= n < len ==> (#[trigger] windows[n]).agrees(windows[0]) {
            assert forall|n: int| 1 <= n < len implies !#[trigger] odd(n) by {
                assert(windows[n].agrees(windows[0]));
            }
        }
        if first_odd(windows) is None {
            assert forall|n: int| 1 <= n < len implies (#[trigger] windows[n]).agrees(
                windows[0],
            ) by {
                assert(!odd(n));
            }
        }
    }
    assert(ordering_fault(windows) is None <==> orders_well(windows)) by {
        if ordering_fault(windows) is None {
            if first_ordered(windows) is None {
                assert forall|n: int| 0 <= n < len implies (#[trigger] windows[n]).color_ordering
                    == 0 by {
                    assert(!pinned(n));
                }
            } else {
                assert forall|n: int| 0 <= n < len implies (#[trigger] windows[n]).color_ordering
                    != 0 by {
                    assert(!zero(n));
                }
                assert forall|k: int, n: int| 0 <= k < n < len implies (
                #[trigger] windows[k]).color_ordering != (
                #[trigger] windows[n]).color_ordering by {
                    assert(!repeat(n));
                }
            }
        }
        if orders_well(windows) {
            if forall|n: int| 0 <= n < len ==> (#[trigger] windows[n]).color_ordering == 0 {
                assert forall|n: int| 0 <= n < len implies !#[trigger] pinned(n) by {
                    assert(windows[n].color_ordering == 0);
                }
            } else {
                assert forall|n: int| 0 <= n < len implies !#[trigger] zero(n) by {
                    assert(windows[n].color_ordering != 0);
                }
                assert forall|n: int| 0 <= n < len implies !#[trigger] repeat(n) by {
                    if claimed_before(windows, n) {
                        let k = choose|k: int|
                            0 <= k < n && #[trigger] windows[k].color_ordering
                                == windows[n].color_ordering;
                        assert(windows[k].color_ordering != windows[n].color_ordering);
                    }
                }
            }
        }
    }
}

/// How many color channels a set reads goes by its identifiers alone
proof fn lemma_color_windows_same(a: Seq<Window>, b: Seq<Window>, n: nat)
    requires
        n <= a.len() == b.len(),
        forall|i: int| 0 <= i < a.len() ==> (#[trigger] a[i]).id == b[i].id,
    ensures
        color_windows(a, n) == color_windows(b, n),
    decreases n,
{
    if n > 0 {
        lemma_color_windows_same(a, b, (n - 1) as nat);
        assert(a[n - 1].id == b[n - 1].id);
    }
}

/// A set's exposures are its own: whether it is accepted, and why not, is the
/// same whatever they are
pub proof fn law_exposures_are_free(a: Seq<Window>, b: Seq<Window>)
    requires
        a.len() == b.len(),
        forall|i: int|
            0 <= i < a.len() ==> #[trigger] a[i] == (Window { exposure: a[i].exposure, ..b[i] }),
    ensures
        set_fault(a) == set_fault(b),
{
    let len = a.len() as int;
    if len > 0 {
        assert(a[0] == (Window { exposure: a[0].exposure, ..b[0] }));
    }
    lemma_first_index_same(
        len,
        |n: int| a[n].reads() == Channel::Default,
        |n: int| b[n].reads() == Channel::Default,
        0,
    );
    lemma_first_index_same(
        len,
        |n: int| !a[n].agrees(a[0]),
        |n: int| !b[n].agrees(b[0]),
        1,
    );
    lemma_first_index_same(
        len,
        |n: int| a[n].color_ordering == 0,
        |n: int| b[n].color_ordering == 0,
        0,
    );
    lemma_first_index_same(
        len,
        |n: int| a[n].color_ordering != 0,
        |n: int| b[n].color_ordering != 0,
        0,
    );
    assert forall|n: int| 0 <= n < len implies claimed_before(a, n) == claimed_before(b, n) by {
        assert(a[n] == (Window { exposure: a[n].exposure, ..b[n] }));
        if claimed_before(a, n) {
            let k = choose|k: int|
                0 <= k < n && #[trigger] a[k].color_ordering == a[n].color_ordering;
            assert(b[k].color_ordering == b[n].color_ordering);
        }
        if claimed_before(b, n) {
            let k = choose|k: int|
                0 <= k < n && #[trigger] b[k].color_ordering == b[n].color_ordering;
            assert(a[k] == (Window { exposure: a[k].exposure, ..b[k] }));
            assert(a[k].color_ordering == a[n].color_ordering);
        }
    }
    lemma_first_index_same(
        len,
        |n: int| claimed_before(a, n),
        |n: int| claimed_before(b, n),
        0,
    );
    lemma_color_windows_same(a, b, a.len());
    if let Some(n) = first_odd(a) {
        lemma_first_index_none(len, |n: int| !a[n].agrees(a[0]), 1);
        assert(a[n] == (Window { exposure: a[n].exposure, ..b[n] }));
    }
    if let Some(n) = first_unordered(a) {
        lemma_first_index_none(len, |n: int| a[n].color_ordering == 0, 0);
        assert(a[n] == (Window { exposure: a[n].exposure, ..b[n] }));
    }
    if let Some(n) = first_repeat(a) {
        lemma_first_index_none(len, |n: int| claimed_before(a, n), 0);
        assert(a[n] == (Window { exposure: a[n].exposure, ..b[n] }));
    }
}

/// Whether every field of a window is one its place in a descriptor holds
pub open spec fn fits_descriptor(w: Window) -> bool {
    &&& w.multiple_reading < 16
    &&& w.color_ordering < 16
    &&& w.setup_mode < 8
    &&& w.flags == Flags::known(w.flags.bits)
    &&& w.scanning_kind == ScanKind::known(w.scanning_kind.bits)
    &&& w.scanning_mode == ScanMode::known(w.scanning_mode.bits)
    &&& w.color_interleaving == ColorInterleaving::known(w.color_interleaving.bits)
    &&& w.composition == Composition::of(w.composition.code_of())
}

/// Whether a descriptor leaves what is reserved at zero
pub open spec fn reserved_clear(d: Seq<u8>) -> bool {
    &&& d[1] < 2
    &&& d[34] == 0 && d[35] == 0 && d[36] == 0 && d[37] == 0 && d[38] == 0 && d[39] == 0
    &&& d[41] & 0x10 == 0
    &&& d[42] == d[42] & ScanKind::NAMED
    &&& d[43] == d[43] & ScanMode::NAMED
    &&& d[44] == d[44] & ColorInterleaving::NAMED
}

/// The setup mode and the flags share a byte without touching
proof fn lemma_flags_byte(bits: u8, setup: u8)
    requires
        bits & 0xE1 == bits,
        setup < 8,
    ensures
        (bits | (setup * 2) as u8) & 0xE1 == bits,
        (bits | (setup * 2) as u8) / 2 % 8 == setup,
{
    assert((bits | (setup * 2) as u8) & 0xE1 == bits && (bits | (setup * 2) as u8) / 2 % 8 == setup)
        by (bit_vector)
        requires
            bits & 0xE1 == bits,
            setup < 8,
    ;
}

/// A flags byte is its flags and its setup mode again
proof fn lemma_flags_parts(b: u8)
    requires
        b & 0x10 == 0,
    ensures
        (b & 0xE1) | ((b / 2 % 8) * 2) as u8 == b,
{
    assert((b & 0xE1) | ((b / 2 % 8) * 2) as u8 == b) by (bit_vector)
        requires
            b & 0x10 == 0,
    ;
}

/// Where the parts of a descriptor sit
proof fn lemma_parts(head: Seq<u8>, place: Seq<u8>, pixel: Seq<u8>, gap: Seq<u8>, scan: Seq<u8>)
    requires
        head.len() == 6,
        place.len() == 16,
        pixel.len() == 12,
        gap.len() == 6,
        scan.len() == 10,
    ensures
        ({
            let d = head + place + pixel + gap + scan;
            &&& d.len() == 50
            &&& d.subrange(0, 6) == head
            &&& d.subrange(6, 22) == place
            &&& d.subrange(22, 34) == pixel
            &&& d.subrange(40, 50) == scan
        }),
{
    let d = head + place + pixel + gap + scan;
    assert(d.subrange(0, 6) =~= head);
    assert(d.subrange(6, 22) =~= place);
    assert(d.subrange(22, 34) =~= pixel);
    assert(d.subrange(40, 50) =~= scan);
}

/// Where four numbers sit behind one another
proof fn lemma_four(a: Seq<u8>, b: Seq<u8>, c: Seq<u8>, e: Seq<u8>)
    requires
        a.len() == 4 && b.len() == 4 && c.len() == 4 && e.len() == 4,
    ensures
        ({
            let s = a + b + c + e;
            &&& s.len() == 16
            &&& s.subrange(0, 4) == a
            &&& s.subrange(4, 8) == b
            &&& s.subrange(8, 12) == c
            &&& s.subrange(12, 16) == e
        }),
{
    let s = a + b + c + e;
    assert(s.subrange(0, 4) =~= a);
    assert(s.subrange(4, 8) =~= b);
    assert(s.subrange(8, 12) =~= c);
    assert(s.subrange(12, 16) =~= e);
}

/// The head of a descriptor reads back
proof fn lemma_head_round(w: Window, d: Seq<u8>)
    requires
        d.len() == 50,
        d.subrange(0, 6) == w.wire_head(),
    ensures
        d[0] == w.id,
        (d[1] % 2 != 0) == w.auto,
        be16_at(d, 2) == w.resolution.0,
        be16_at(d, 4) == w.resolution.1,
{
    reveal(Window::wire_head);
    let head = w.wire_head();
    assert(d[0] == head[0] && d[1] == head[1]);
    assert(head.subrange(2, 4) =~= be16_bytes(w.resolution.0));
    assert(head.subrange(4, 6) =~= be16_bytes(w.resolution.1));
    assert(d.subrange(2, 4) =~= d.subrange(0, 6).subrange(2, 4));
    assert(d.subrange(4, 6) =~= d.subrange(0, 6).subrange(4, 6));
    lemma_be16_at(d, 2, w.resolution.0);
    lemma_be16_at(d, 4, w.resolution.1);
}

/// The geometry of a descriptor reads back
proof fn lemma_place_round(w: Window, d: Seq<u8>)
    requires
        d.len() == 50,
        d.subrange(6, 22) == w.wire_place(),
    ensures
        be32_at(d, 6) == w.origin.0,
        be32_at(d, 10) == w.origin.1,
        be32_at(d, 14) == w.size.0,
        be32_at(d, 18) == w.size.1,
{
    reveal(Window::wire_place);
    lemma_four(
        be32_bytes(w.origin.0),
        be32_bytes(w.origin.1),
        be32_bytes(w.size.0),
        be32_bytes(w.size.1),
    );
    let place = d.subrange(6, 22);
    assert(d.subrange(6, 10) =~= place.subrange(0, 4));
    assert(d.subrange(10, 14) =~= place.subrange(4, 8));
    assert(d.subrange(14, 18) =~= place.subrange(8, 12));
    assert(d.subrange(18, 22) =~= place.subrange(12, 16));
    lemma_be32_at(d, 6, w.origin.0);
    lemma_be32_at(d, 10, w.origin.1);
    lemma_be32_at(d, 14, w.size.0);
    lemma_be32_at(d, 18, w.size.1);
}

/// How a pixel is made up reads back
proof fn lemma_pixel_round(w: Window, d: Seq<u8>)
    requires
        d.len() == 50,
        d.subrange(22, 34) == w.wire_pixel(),
    ensures
        d[22] == w.brightness,
        d[23] == w.threshold,
        d[24] == w.contrast,
        d[25] == w.composition.code_of(),
        d[26] == w.bpp,
        be16_at(d, 27) == w.halftone_pattern,
        d[29] == w.padding_type,
        be16_at(d, 30) == w.bit_ordering,
        d[32] == w.compression_type,
        d[33] == w.compression_argument,
{
    reveal(Window::wire_pixel);
    let pixel = w.wire_pixel();
    assert(forall|i: int| 0 <= i < 12 ==> d[22 + i] == #[trigger] d.subrange(22, 34)[i]);
    assert(pixel[0] == w.brightness && pixel[1] == w.threshold && pixel[2] == w.contrast);
    assert(pixel[3] == w.composition.code_of() && pixel[4] == w.bpp && pixel[7] == w.padding_type);
    assert(pixel[10] == w.compression_type && pixel[11] == w.compression_argument);
    assert(pixel.subrange(5, 7) =~= be16_bytes(w.halftone_pattern));
    assert(pixel.subrange(8, 10) =~= be16_bytes(w.bit_ordering));
    assert(d.subrange(27, 29) =~= d.subrange(22, 34).subrange(5, 7));
    assert(d.subrange(30, 32) =~= d.subrange(22, 34).subrange(8, 10));
    lemma_be16_at(d, 27, w.halftone_pattern);
    lemma_be16_at(d, 30, w.bit_ordering);
}

/// How a scan goes reads back
proof fn lemma_scan_round(w: Window, d: Seq<u8>)
    requires
        fits_descriptor(w),
        d.len() == 50,
        d.subrange(40, 50) == w.wire_scan(),
    ensures
        d[40] / 16 == w.multiple_reading,
        d[40] % 16 == w.color_ordering,
        d[41] & Flags::NAMED == w.flags.bits,
        d[41] / 2 % 8 == w.setup_mode,
        d[42] == w.scanning_kind.bits,
        d[43] == w.scanning_mode.bits,
        d[44] == w.color_interleaving.bits,
        d[45] == w.ae_value,
        be32_at(d, 46) == w.exposure,
{
    reveal(Window::wire_scan);
    let scan = w.wire_scan();
    assert(forall|i: int| 0 <= i < 10 ==> d[40 + i] == #[trigger] d.subrange(40, 50)[i]);
    assert(scan[0] == w.multiple_reading * 16 + w.color_ordering);
    assert(scan[1] == w.flags.bits | ((w.setup_mode * 2) as u8));
    assert(scan[2] == w.scanning_kind.bits && scan[3] == w.scanning_mode.bits);
    assert(scan[4] == w.color_interleaving.bits && scan[5] == w.ae_value);
    lemma_flags_byte(w.flags.bits, w.setup_mode);
    assert(scan.subrange(6, 10) =~= be32_bytes(w.exposure));
    assert(d.subrange(46, 50) =~= d.subrange(40, 50).subrange(6, 10));
    lemma_be32_at(d, 46, w.exposure);
}

/// How long the parts of a descriptor are
proof fn lemma_part_lengths(w: Window)
    ensures
        w.wire_head().len() == 6,
        w.wire_place().len() == 16,
        w.wire_pixel().len() == 12,
        w.wire_scan().len() == 10,
{
    reveal(Window::wire_head);
    reveal(Window::wire_place);
    reveal(Window::wire_pixel);
    reveal(Window::wire_scan);
}

/// Whatever is sent survives the trip: a window that fits its descriptor reads
/// back as itself
pub proof fn law_window_round_trip(w: Window)
    requires
        fits_descriptor(w),
    ensures
        w.wire().len() == LENGTH,
        Window::read(w.wire()) == w,
{
    let d = w.wire();
    lemma_part_lengths(w);
    lemma_parts(
        w.wire_head(),
        w.wire_place(),
        w.wire_pixel(),
        seq![0u8, 0, 0, 0, 0, 0],
        w.wire_scan(),
    );
    lemma_head_round(w, d);
    lemma_place_round(w, d);
    lemma_pixel_round(w, d);
    lemma_scan_round(w, d);
}

/// The head and the geometry of a descriptor are written again as they were
proof fn lemma_head_again(d: Seq<u8>)
    requires
        d.len() >= 50,
        d[1] < 2,
    ensures
        Window::read(d).wire_head() == d.subrange(0, 6),
        Window::read(d).wire_place() == d.subrange(6, 22),
{
    reveal(Window::wire_head);
    reveal(Window::wire_place);
    let w = Window::read(d);
    lemma_be16_again(d, 2);
    lemma_be16_again(d, 4);
    lemma_be32_again(d, 6);
    lemma_be32_again(d, 10);
    lemma_be32_again(d, 14);
    lemma_be32_again(d, 18);
    let first = seq![
        w.id,
        if w.auto {
            1u8
        } else {
            0u8
        },
    ];
    assert(first =~= d.subrange(0, 2));
    assert(d.subrange(0, 2) + d.subrange(2, 4) + d.subrange(4, 6) =~= d.subrange(0, 6));
    assert(d.subrange(6, 10) + d.subrange(10, 14) + d.subrange(14, 18) + d.subrange(18, 22)
        =~= d.subrange(6, 22));
}

/// How a pixel is made up is written again as it was
proof fn lemma_pixel_again(d: Seq<u8>)
    requires
        d.len() >= 50,
    ensures
        Window::read(d).wire_pixel() == d.subrange(22, 34),
{
    reveal(Window::wire_pixel);
    let w = Window::read(d);
    lemma_be16_again(d, 27);
    lemma_be16_again(d, 30);
    law_composition_code_round_trip(d[25]);
    assert(seq![w.brightness, w.threshold, w.contrast, w.composition.code_of(), w.bpp]
        =~= d.subrange(22, 27));
    assert(seq![w.padding_type] =~= d.subrange(29, 30));
    assert(seq![w.compression_type, w.compression_argument] =~= d.subrange(32, 34));
    assert(d.subrange(22, 27) + d.subrange(27, 29) + d.subrange(29, 30) + d.subrange(30, 32)
        + d.subrange(32, 34) =~= d.subrange(22, 34));
}

/// How a scan goes is written again as it was
proof fn lemma_scan_again(d: Seq<u8>)
    requires
        d.len() >= 50,
        reserved_clear(d),
    ensures
        Window::read(d).wire_scan() == d.subrange(40, 50),
{
    reveal(Window::wire_scan);
    let w = Window::read(d);
    lemma_be32_again(d, 46);
    lemma_flags_parts(d[41]);
    assert((w.multiple_reading % 16 * 16 + w.color_ordering % 16) as u8 == d[40]);
    assert(w.setup_mode % 8 == d[41] / 2 % 8);
    assert(w.flags.bits | ((w.setup_mode % 8 * 2) as u8) == d[41]);
    let first = seq![
        (w.multiple_reading % 16 * 16 + w.color_ordering % 16) as u8,
        w.flags.bits | ((w.setup_mode % 8 * 2) as u8),
        w.scanning_kind.bits,
        w.scanning_mode.bits,
        w.color_interleaving.bits,
        w.ae_value,
    ];
    assert(first =~= d.subrange(40, 46));
    assert(d.subrange(40, 46) + d.subrange(46, 50) =~= d.subrange(40, 50));
}

/// What a unit reported is what is sent back to it: a descriptor whose reserved
/// places are clear is written again byte for byte
pub proof fn law_descriptor_round_trip(d: Seq<u8>)
    requires
        d.len() >= LENGTH,
        reserved_clear(d),
    ensures
        Window::read(d).wire() == d.take(LENGTH as int),
{
    lemma_head_again(d);
    lemma_pixel_again(d);
    lemma_scan_again(d);
    assert(seq![0u8, 0, 0, 0, 0, 0] =~= d.subrange(34, 40));
    assert(d.subrange(0, 6) + d.subrange(6, 22) + d.subrange(22, 34) + d.subrange(34, 40)
        + d.subrange(40, 50) =~= d.take(50));
}

/// A selection within an offer of named flags is of named flags
proof fn lemma_chosen_is_named(chosen: u8, offered: u8, named: u8)
    requires
        chosen & !offered == 0,
        offered & named == offered,
    ensures
        chosen & named == chosen,
{
    assert(chosen & named == chosen) by (bit_vector)
        requires
            chosen & !offered == 0,
            offered & named == offered,
    ;
}

/// What a unit accepts survives the trip: a window that checks out against a
/// unit's pages reads back as itself once it is written
///
/// The flags of byte 41 are no unit's to offer, and a unit that claims more
/// setup modes than byte 41 has room for is no help either, so those two are
/// asked for apart.
pub proof fn law_accepted_windows_survive(w: Window, caps: &Capabilities)
    requires
        w.fault(caps) is None,
        w.flags == Flags::known(w.flags.bits),
        w.setup_mode < 8,
        caps.set_window.kind == ScanKind::known(caps.set_window.kind.bits),
        caps.set_window.mode == ScanMode::known(caps.set_window.mode.bits),
        caps.set_window.interleaving == ColorInterleaving::known(caps.set_window.interleaving.bits),
    ensures
        Window::read(w.wire()) == w,
{
    let f = caps.set_window;
    lemma_chosen_is_named(w.scanning_kind.bits, f.kind.bits, ScanKind::NAMED);
    lemma_chosen_is_named(w.scanning_mode.bits, f.mode.bits, ScanMode::NAMED);
    lemma_chosen_is_named(
        w.color_interleaving.bits,
        f.interleaving.bits,
        ColorInterleaving::NAMED,
    );
    assert(w.pixel_fault(caps) is None);
    assert(w.reading_fault(caps) is None && w.order_fault() is None);
    law_window_round_trip(w);
}

/// The channels a set reads, in order
pub open spec fn channels_of(windows: Seq<Window>) -> Seq<u8> {
    Seq::new(windows.len(), |n: int| windows[n].id)
}

/// A set and its channel list count the same colors
proof fn lemma_colors_agree(windows: Seq<Window>, n: nat)
    requires
        n <= windows.len(),
    ensures
        color_windows(windows, n) == colors_in(channels_of(windows), n as int),
    decreases n,
{
    if n > 0 {
        lemma_colors_agree(windows, (n - 1) as nat);
    }
}

/// An accepted set's composition carries as many planes as decoding its
/// channels makes
pub proof fn law_planes_are_what_is_decoded(windows: Seq<Window>)
    requires
        set_fault(windows) is None,
    ensures
        windows[0].composition.plane_count() matches Some(planes) && planes == colors_in(
            channels_of(windows),
            windows.len() as int,
        ),
{
    law_accepted_sets(windows);
    lemma_colors_agree(windows, windows.len());
}

/// Both headers are eight bytes, though they do not agree on what is in them
pub const HEADER: usize = 8;

/// Header tacked on to the front of an incoming GET WINDOW payload
#[derive(Debug, Clone, Copy, PartialEq, Eq, Structural)]
pub struct GetWindowHeader {
    /// Bytes 0,1. Counts what follows it, so the whole reply is two more
    pub data_length: u16,
    /// Bytes 6,7. A unit may report a stride longer than the fields it defines
    pub descriptor_length: u16,
}

impl GetWindowHeader {
    /// Read the header and return the rest of the slice
    pub fn from_bytes(bytes: &[u8]) -> (r: Result<(GetWindowHeader, &[u8]), TooShort>)
        ensures
            match r {
                Ok((header, rest)) => bytes@.len() >= HEADER && header == (GetWindowHeader {
                    data_length: be16_at(bytes@, 0),
                    descriptor_length: be16_at(bytes@, 6),
                }) && rest@ == bytes@.skip(HEADER as int),
                Err(e) => bytes@.len() < HEADER && e.got == bytes@.len(),
            },
    {
        if bytes.len() < HEADER {
            return Err(TooShort { got: bytes.len() });
        }
        let rest: &[u8] = &bytes[HEADER..bytes.len()];
        Ok(
            (
                GetWindowHeader {
                    data_length: read16(bytes, 0),
                    descriptor_length: read16(bytes, 6),
                },
                rest,
            ),
        )
    }
}

/// Header tacked on to the front of an outgoing SET WINDOW payload
#[derive(Debug, Clone, Copy, PartialEq, Eq, Structural)]
pub struct SetWindowHeader {
    /// Bytes 6,7. Sending 50 against a unit claiming more is fine: the rest is
    /// left unchanged
    pub descriptor_length: u16,
}

impl SetWindowHeader {
    /// Pack to bytes to send
    pub fn to_bytes(&self) -> (r: [u8; HEADER])
        ensures
            r@ == seq![0u8, 0, 0, 0, 0, 0] + be16_bytes(self.descriptor_length),
    {
        let r: [u8; HEADER] = [
            0,
            0,
            0,
            0,
            0,
            0,
            (self.descriptor_length / 256) as u8,
            (self.descriptor_length % 256) as u8,
        ];
        proof {
            assert(r@ =~= seq![0u8, 0, 0, 0, 0, 0] + be16_bytes(self.descriptor_length));
        }
        r
    }
}

/// A window that is accepted is warned of exactly where it reaches past the
/// adapter's opening, on either axis, and where its width splits a block
pub proof fn law_accepted_windows_are_warned_of(w: Window, caps: &Capabilities)
    requires
        w.fault(caps) is None,
    ensures
        forall|name: char, size: u32, opening: u32| #[trigger]
            w.warned(caps).contains(Warning::PastOpening { name, size, opening }) <==> {
                ||| name == 'X' && size == w.size.0 && opening == caps.address.x_axis.boundary
                    && size > opening
                ||| name == 'Y' && size == w.size.1 && opening == caps.address.y_axis.boundary
                    && size > opening
            },
        forall|width: u32, block: u32| #[trigger]
            w.warned(caps).contains(Warning::SplitBlock { width, block }) <==> {
                &&& width == w.size.0 && block == caps.address.line_gap && block != 0
                &&& w.color_interleaving.has(ColorInterleaving::MULTILINE_SIMULTANEOUS)
                &&& width as int % block as int != 0
            },
{
    let x = Window::axis_warning(caps.address.x_axis, 'X', w.origin.0, w.size.0);
    let y = Window::axis_warning(caps.address.y_axis, 'Y', w.origin.1, w.size.1);
    let b = w.block_warning(caps);
    let all = w.warned(caps);
    assert(all == x + (y + b));
    assert forall|v: Warning| all.contains(v) <==> x.contains(v) || y.contains(v) || b.contains(
        v,
    ) by {
        if x.contains(v) {
            let i = choose|i: int| 0 <= i < x.len() && x[i] == v;
            assert(all[i] == v);
        }
        if y.contains(v) {
            let i = choose|i: int| 0 <= i < y.len() && y[i] == v;
            assert(all[x.len() + i] == v);
        }
        if b.contains(v) {
            let i = choose|i: int| 0 <= i < b.len() && b[i] == v;
            assert(all[x.len() + y.len() + i] == v);
        }
    }
    assert(x.len() > 0 ==> x.contains(x[0]));
    assert(y.len() > 0 ==> y.contains(y[0]));
    assert(b.len() > 0 ==> b.contains(b[0]));
}

/// The codes of the channels, and of the compositions
pub proof fn law_what_the_codes_name(code: u8)
    ensures
        ({
            let channel = Channel::of(code);
            &&& channel == Channel::Default <==> code == 0
            &&& channel == Channel::Red <==> code == 1
            &&& channel == Channel::Green <==> code == 2
            &&& channel == Channel::Blue <==> code == 3
            &&& channel == Channel::NeutralGray <==> code == 4
            &&& channel == Channel::Infrared <==> code == 9
            &&& channel.carries_color() <==> code != 9
        }),
        ({
            let composition = Composition::of(code);
            &&& composition == Composition::BilevelBW <==> code == 0
            &&& composition == Composition::DitheredBW <==> code == 1
            &&& composition == Composition::MultilevelBW <==> code == 2
            &&& composition == Composition::BilevelRGB <==> code == 3
            &&& composition == Composition::DitheredRGB <==> code == 4
            &&& composition == Composition::MultilevelRGB <==> code == 5
            &&& composition.plane_count() == if code == 2 {
                Some(1usize)
            } else if code == 5 {
                Some(3usize)
            } else {
                None
            }
        }),
{
}

/// The depths there are, and the flag of each
pub proof fn law_what_the_depths_are(bits: u8)
    ensures
        bits == 1 || bits == 8 || bits == 10 || bits == 12 || bits == 14 || bits == 16
            <==> depth_flag(bits) is Some,
        depth_flag(1) == Some(0x01u8) && depth_flag(8) == Some(0x02u8) && depth_flag(10) == Some(
            0x04u8,
        ) && depth_flag(12) == Some(0x08u8) && depth_flag(14) == Some(0x10u8) && depth_flag(16)
            == Some(0x20u8),
{
}

/// A window is accepted exactly where every field of it is one the unit takes:
///
/// - it reads a channel that is scanned;
/// - its resolution is on the ladder of what it scans, the one for thumbnails or
///   the one for images;
/// - it starts on the medium, is not empty, and where an axis cannot be cropped
///   is exactly as long as it;
/// - it ends on the sensor;
/// - it asks for some of the kinds, modes and interleavings on offer, and for
///   none that are not;
/// - its depth is on offer, and its composition one of the two multi-level ones;
/// - a setup mode is asked for only where setup scanning 2 is on offer, and is
///   one of as many as there are;
/// - lines are read more than once only where that is on offer and asked for,
///   and up to sixteen times, whatever else the scanning mode asks for;
/// - its read position is one of three, or left to the unit;
/// - its exposure is in range, or left to the unit;
/// - and what is fixed at zero is zero.
pub proof fn law_which_windows_are_accepted(w: Window, caps: &Capabilities)
    ensures
        w.fault(caps) is None <==> {
            let (f, a) = (caps.set_window, caps.address);
            let (x, y) = (a.x_axis, a.y_axis);
            let dpi = w.resolution.0;
            &&& w.id <= 3 || w.id == 9
            &&& if w.scanning_kind.bits & 0x02 == 0x02 {
                a.thumbnail_resolution.start <= dpi <= a.thumbnail_resolution.last
            } else {
                x.dpi_range.start <= dpi <= x.dpi_range.last
            }
            &&& x.address_range.start <= w.origin.0 <= x.address_range.last
            &&& y.address_range.start <= w.origin.1 <= y.address_range.last
            &&& w.size.0 > 0 && w.size.1 > 0
            &&& x.address_range.start == x.address_range.last ==> w.size.0 == x.boundary
            &&& y.address_range.start == y.address_range.last ==> w.size.1 == y.boundary
            &&& w.origin.0 + w.size.0 <= a.ccd_pixels
            &&& w.scanning_kind.bits != 0 && w.scanning_kind.bits & !f.kind.bits == 0
            &&& w.scanning_mode.bits != 0 && w.scanning_mode.bits & !f.mode.bits == 0
            &&& w.color_interleaving.bits != 0 && w.color_interleaving.bits & !f.interleaving.bits
                == 0
            &&& {
                ||| w.bpp == 1 && f.depth.bits & 0x01 == 0x01
                ||| w.bpp == 8 && f.depth.bits & 0x02 == 0x02
                ||| w.bpp == 10 && f.depth.bits & 0x04 == 0x04
                ||| w.bpp == 12 && f.depth.bits & 0x08 == 0x08
                ||| w.bpp == 14 && f.depth.bits & 0x10 == 0x10
                ||| w.bpp == 16 && f.depth.bits & 0x20 == 0x20
            }
            &&& w.composition == Composition::MultilevelBW || w.composition
                == Composition::MultilevelRGB
            &&& w.setup_mode != 0 ==> f.kind.bits & 0x08 == 0x08 && w.setup_mode <= f.setup_modes
            &&& w.multiple_reading != 0 ==> w.multiple_reading <= 15 && f.mode.bits & 0x10 == 0x10
                && w.scanning_mode.bits & 0x10 == 0x10
            &&& w.color_ordering <= 3
            &&& w.exposure != 0 ==> f.exposure.start <= w.exposure <= f.exposure.last
            &&& w.padding_type == 0 && w.compression_type == 0 && w.compression_argument == 0
                && w.bit_ordering == 0
        },
{
}

/// Which field a refused window is refused for: the first one, going down the
/// descriptor, that the unit does not take
pub proof fn law_what_a_window_is_refused_for(w: Window, caps: &Capabilities)
    ensures
        ({
            let (f, a) = (caps.set_window, caps.address);
            let (x, y) = (a.x_axis, a.y_axis);
            let dpi = w.resolution.0;
            let off_ladder = if w.scanning_kind.bits & 0x02 == 0x02 {
                !(a.thumbnail_resolution.start <= dpi <= a.thumbnail_resolution.last)
            } else {
                !(x.dpi_range.start <= dpi <= x.dpi_range.last)
            };
            let x_fits = w.size.0 > 0 && (x.address_range.start == x.address_range.last ==> w.size.0
                == x.boundary);
            let y_fits = w.size.1 > 0 && (y.address_range.start == y.address_range.last ==> w.size.1
                == y.boundary);
            let deep = match w.bpp {
                1 => f.depth.bits & 0x01 == 0x01,
                8 => f.depth.bits & 0x02 == 0x02,
                10 => f.depth.bits & 0x04 == 0x04,
                12 => f.depth.bits & 0x08 == 0x08,
                14 => f.depth.bits & 0x10 == 0x10,
                16 => f.depth.bits & 0x20 == 0x20,
                _ => false,
            };
            w.fault(caps) matches Some(r) ==> r.op == if w.id > 3 && w.id != 9 {
                "window identifier"@
            } else if off_ladder {
                "resolution"@
            } else if !(x.address_range.start <= w.origin.0 <= x.address_range.last) {
                "window origin"@
            } else if !x_fits {
                "window size"@
            } else if !(y.address_range.start <= w.origin.1 <= y.address_range.last) {
                "window origin"@
            } else if !y_fits || w.origin.0 + w.size.0 > a.ccd_pixels {
                "window size"@
            } else if w.scanning_kind.bits == 0 || w.scanning_kind.bits & !f.kind.bits != 0 {
                "scanning kind"@
            } else if w.scanning_mode.bits == 0 || w.scanning_mode.bits & !f.mode.bits != 0 {
                "scanning mode"@
            } else if w.color_interleaving.bits == 0 || w.color_interleaving.bits
                & !f.interleaving.bits != 0 {
                "color interleaving"@
            } else if !deep {
                "pixel composition"@
            } else if w.composition != Composition::MultilevelBW && w.composition
                != Composition::MultilevelRGB {
                "image composition"@
            } else if w.setup_mode != 0 && !(f.kind.bits & 0x08 == 0x08 && w.setup_mode
                <= f.setup_modes) {
                "setup mode"@
            } else if w.multiple_reading != 0 && !(w.multiple_reading <= 15 && f.mode.bits & 0x10
                == 0x10 && w.scanning_mode.bits & 0x10 == 0x10) {
                "multiple reading"@
            } else if w.color_ordering > 3 {
                "color ordering"@
            } else if w.exposure != 0 && !(f.exposure.start <= w.exposure <= f.exposure.last) {
                "exposure"@
            } else if w.padding_type != 0 {
                "padding type"@
            } else if w.compression_type != 0 {
                "compression type"@
            } else if w.compression_argument != 0 {
                "compression argument"@
            } else {
                "bit ordering"@
            }
        }),
{
}

/// A set is accepted exactly where it is not empty; its windows agree on the X
/// resolution, the place, the depth, the composition, the interleaving, the kind,
/// the mode, the readings and the flags; none of several reads the default color;
/// the read positions are all 0, or all different and none of them 0; and there
/// are one or three windows but for infrared, as the composition says
pub proof fn law_which_sets_are_accepted(windows: Seq<Window>)
    ensures
        set_fault(windows) is None <==> {
            let first = windows[0];
            let visible = color_windows(windows, windows.len());
            &&& windows.len() > 0
            &&& windows.len() > 1 ==> forall|n: int|
                0 <= n < windows.len() ==> (#[trigger] windows[n]).id != 0
            &&& forall|n: int|
                0 <= n < windows.len() ==> {
                    let w = #[trigger] windows[n];
                    &&& w.resolution.0 == first.resolution.0
                    &&& w.size.0 == first.size.0 && w.size.1 == first.size.1
                    &&& w.origin.0 == first.origin.0 && w.origin.1 == first.origin.1
                    &&& w.bpp == first.bpp
                    &&& w.composition == first.composition
                    &&& w.color_interleaving.bits == first.color_interleaving.bits
                    &&& w.scanning_kind.bits == first.scanning_kind.bits
                    &&& w.scanning_mode.bits == first.scanning_mode.bits
                    &&& w.multiple_reading == first.multiple_reading
                    &&& w.flags.bits == first.flags.bits
                }
            &&& {
                ||| forall|n: int|
                    0 <= n < windows.len() ==> (#[trigger] windows[n]).color_ordering == 0
                ||| {
                    &&& forall|n: int|
                        0 <= n < windows.len() ==> (#[trigger] windows[n]).color_ordering != 0
                    &&& forall|k: int, n: int|
                        0 <= k < n < windows.len() ==> (#[trigger] windows[k]).color_ordering != (
                        #[trigger] windows[n]).color_ordering
                }
            }
            &&& {
                ||| first.composition == Composition::MultilevelBW && visible == 1
                ||| first.composition == Composition::MultilevelRGB && visible == 3
            }
        },
{
    law_accepted_sets(windows);
    if set_fault(windows) is None {
        assert forall|n: int| 0 <= n < windows.len() implies (#[trigger] windows[n]).agrees(
            windows[0],
        ) by {}
        if windows.len() > 1 {
            assert forall|n: int| 0 <= n < windows.len() implies (#[trigger] windows[n]).id != 0 by {
                assert(windows[n].reads() != Channel::Default);
            }
        }
    }
}

/// A window more is a color more, but for infrared
pub proof fn law_color_windows_are_counted_one_by_one(windows: Seq<Window>, n: nat)
    requires
        n < windows.len(),
    ensures
        color_windows(windows, 0) == 0,
        color_windows(windows, n + 1) == color_windows(windows, n) + if windows[n as int].id == 9 {
            0nat
        } else {
            1nat
        },
{
}

/// Where every field of a descriptor is read from, numbers most significant byte
/// first
pub proof fn law_where_a_descriptor_is_read_from(d: Seq<u8>)
    ensures
        ({
            let w = Window::read(d);
            &&& w.id == d[0]
            &&& w.auto <==> d[1] % 2 == 1
            &&& w.resolution.0 == 0x100 * d[2] + d[3]
            &&& w.resolution.1 == 0x100 * d[4] + d[5]
            &&& w.origin.0 == 0x100_0000 * d[6] + 0x1_0000 * d[7] + 0x100 * d[8] + d[9]
            &&& w.origin.1 == 0x100_0000 * d[10] + 0x1_0000 * d[11] + 0x100 * d[12] + d[13]
            &&& w.size.0 == 0x100_0000 * d[14] + 0x1_0000 * d[15] + 0x100 * d[16] + d[17]
            &&& w.size.1 == 0x100_0000 * d[18] + 0x1_0000 * d[19] + 0x100 * d[20] + d[21]
            &&& w.brightness == d[22] && w.threshold == d[23] && w.contrast == d[24]
            &&& w.composition == Composition::of(d[25])
            &&& w.bpp == d[26]
            &&& w.halftone_pattern == 0x100 * d[27] + d[28]
            &&& w.padding_type == d[29]
            &&& w.bit_ordering == 0x100 * d[30] + d[31]
            &&& w.compression_type == d[32] && w.compression_argument == d[33]
            &&& 16 * w.multiple_reading + w.color_ordering == d[40] && w.color_ordering < 16
            &&& w.flags.bits == d[41] & 0xE1
            &&& w.setup_mode == d[41] / 2 % 8
            &&& w.scanning_kind.bits == d[42] & 0x7F
            &&& w.scanning_mode.bits == d[43] & 0x57
            &&& w.color_interleaving.bits == d[44] & 0x77
            &&& w.ae_value == d[45]
            &&& w.exposure == 0x100_0000 * d[46] + 0x1_0000 * d[47] + 0x100 * d[48] + d[49]
        }),
{
}

/// Where every field of a descriptor is written to, numbers most significant byte
/// first
pub proof fn law_where_a_descriptor_is_written_to(w: Window)
    ensures
        ({
            let d = w.wire();
            &&& d.len() == 50
            &&& d[0] == w.id
            &&& d[1] == if w.auto { 1u8 } else { 0u8 }
            &&& 0x100 * d[2] + d[3] == w.resolution.0
            &&& 0x100 * d[4] + d[5] == w.resolution.1
            &&& 0x100_0000 * d[6] + 0x1_0000 * d[7] + 0x100 * d[8] + d[9] == w.origin.0
            &&& 0x100_0000 * d[10] + 0x1_0000 * d[11] + 0x100 * d[12] + d[13] == w.origin.1
            &&& 0x100_0000 * d[14] + 0x1_0000 * d[15] + 0x100 * d[16] + d[17] == w.size.0
            &&& 0x100_0000 * d[18] + 0x1_0000 * d[19] + 0x100 * d[20] + d[21] == w.size.1
            &&& d[22] == w.brightness && d[23] == w.threshold && d[24] == w.contrast
            &&& d[25] == w.composition.code_of()
            &&& d[26] == w.bpp
            &&& 0x100 * d[27] + d[28] == w.halftone_pattern
            &&& d[29] == w.padding_type
            &&& 0x100 * d[30] + d[31] == w.bit_ordering
            &&& d[32] == w.compression_type && d[33] == w.compression_argument
            &&& forall|i: int| 34 <= i < 40 ==> (#[trigger] d[i]) == 0
            &&& w.multiple_reading < 16 && w.color_ordering < 16 ==> d[40] == 16
                * w.multiple_reading + w.color_ordering
            &&& w.setup_mode < 8 ==> d[41] == w.flags.bits | (2 * w.setup_mode) as u8
            &&& d[42] == w.scanning_kind.bits
            &&& d[43] == w.scanning_mode.bits
            &&& d[44] == w.color_interleaving.bits
            &&& d[45] == w.ae_value
            &&& 0x100_0000 * d[46] + 0x1_0000 * d[47] + 0x100 * d[48] + d[49] == w.exposure
        }),
{
    reveal(Window::wire_head);
    reveal(Window::wire_place);
    reveal(Window::wire_pixel);
    reveal(Window::wire_scan);
    law_bytes_spell_the_number(w.resolution.0, w.origin.0);
    law_bytes_spell_the_number(w.resolution.1, w.origin.1);
    law_bytes_spell_the_number(w.halftone_pattern, w.size.0);
    law_bytes_spell_the_number(w.bit_ordering, w.size.1);
    law_bytes_spell_the_number(w.bit_ordering, w.exposure);
    let (head, place, pixel, scan) = (
        w.wire_head(),
        w.wire_place(),
        w.wire_pixel(),
        w.wire_scan(),
    );
    let d = w.wire();
    lemma_parts(head, place, pixel, seq![0u8, 0, 0, 0, 0, 0], scan);
    lemma_four(
        be32_bytes(w.origin.0),
        be32_bytes(w.origin.1),
        be32_bytes(w.size.0),
        be32_bytes(w.size.1),
    );
    assert forall|i: int| 0 <= i < 6 implies d[i] == head[i] by {
        assert(d.subrange(0, 6)[i] == d[i]);
    }
    assert forall|i: int| 6 <= i < 22 implies d[i] == place[i - 6] by {
        assert(d.subrange(6, 22)[i - 6] == d[i]);
    }
    assert forall|i: int| 22 <= i < 34 implies d[i] == pixel[i - 22] by {
        assert(d.subrange(22, 34)[i - 22] == d[i]);
    }
    assert forall|i: int| 40 <= i < 50 implies d[i] == scan[i - 40] by {
        assert(d.subrange(40, 50)[i - 40] == d[i]);
    }
}

/// The composition's code is the one it is read from
pub proof fn law_composition_round_trip(composition: Composition)
    requires
        !(composition is Unknown),
    ensures
        Composition::of(composition.code_of()) == composition,
{
}

/// What a refusal says of where a window is and how fine it is: the value, and
/// what the unit would have taken
pub proof fn law_what_a_misplaced_window_is_told(w: Window, caps: &Capabilities)
    ensures
        ({
            let a = caps.address;
            let thumbnail = w.scanning_kind.bits & 0x02 == 0x02;
            let (low, high) = if thumbnail {
                (a.thumbnail_resolution.start, a.thumbnail_resolution.last)
            } else {
                (a.x_axis.dpi_range.start, a.x_axis.dpi_range.last)
            };
            w.resolution_fault(caps) matches Some(r) ==> r.reason == decimal(w.resolution.0 as nat)
                + " dpi is outside the "@ + decimal(low as nat) + " to "@ + decimal(high as nat)
                + " this unit offers for "@ + if thumbnail {
                "thumbnails"@
            } else {
                "images"@
            }
        }),
        w.channel_fault() matches Some(r) ==> r.reason == decimal(w.id as nat)
            + " is not a scanning color: 2-10-4 defines 0 to 3, and 9 is infrared"@,
        w.sensor_fault(caps) matches Some(r) ==> r.reason == "X "@ + decimal(w.size.0 as nat)
            + " from "@ + decimal(w.origin.0 as nat) + " runs past the "@ + decimal(
            caps.address.ccd_pixels as nat,
        ) + " pixel sensor"@,
        ({
            let (x, y) = (caps.address.x_axis, caps.address.y_axis);
            w.geometry_fault(caps) matches Some(r) ==> r.reason == if !(x.address_range.start
                <= w.origin.0 <= x.address_range.last) {
                "X"@ + " "@ + decimal(w.origin.0 as nat) + " is outside "@ + decimal(
                    x.address_range.start as nat,
                ) + " to "@ + decimal(x.address_range.last as nat)
            } else if w.size.0 == 0 {
                "X"@ + " is empty"@
            } else if x.address_range.start == x.address_range.last && w.size.0 != x.boundary {
                "X"@ + " cannot be cropped, so it has to be exactly "@ + decimal(x.boundary as nat)
            } else if !(y.address_range.start <= w.origin.1 <= y.address_range.last) {
                "Y"@ + " "@ + decimal(w.origin.1 as nat) + " is outside "@ + decimal(
                    y.address_range.start as nat,
                ) + " to "@ + decimal(y.address_range.last as nat)
            } else if w.size.1 == 0 {
                "Y"@ + " is empty"@
            } else {
                "Y"@ + " cannot be cropped, so it has to be exactly "@ + decimal(y.boundary as nat)
            }
        }),
{
}

/// What a refusal says of a mode, a depth or a count that the unit does not
/// offer
pub proof fn law_what_an_unoffered_choice_is_told(
    w: Window,
    caps: &Capabilities,
    chosen: u8,
    offered: u8,
)
    ensures
        Window::mode_fault(chosen, offered, "scanning mode") matches Some(r) ==> r.reason
            == "asked for "@ + hex_value(chosen as nat) + " of the "@ + hex_value(offered as nat)
            + " this unit offers"@,
        w.setup_fault(caps) matches Some(r) ==> r.reason == if caps.set_window.kind.bits & 0x08
            != 0x08 {
            "this unit does not offer setup scanning 2, which is what makes byte 41 bits 3-1 mean anything"@
        } else {
            decimal(w.setup_mode as nat) + " is past the "@ + decimal(
                caps.set_window.setup_modes as nat,
            ) + " this unit offers"@
        },
        w.reading_fault(caps) matches Some(r) ==> r.reason == if w.multiple_reading >= 16 {
            decimal(w.multiple_reading as nat) + " does not fit the nibble byte 40 gives it"@
        } else if caps.set_window.mode.bits & 0x10 != 0x10 {
            "this unit reads each line once"@
        } else {
            decimal(w.multiple_reading as nat + 1) + " readings needs "@ + (ScanMode {
                bits: 0x10,
            }).wording() + " in the scanning mode, which is "@ + w.scanning_mode.wording()
        },
        w.order_fault() matches Some(r) ==> r.reason == decimal(w.color_ordering as nat)
            + " is not a read position"@,
        w.exposure_fault(caps) matches Some(r) ==> r.reason == decimal(w.exposure as nat)
            + " is outside the "@ + decimal(caps.set_window.exposure.start as nat) + " to "@
            + decimal(caps.set_window.exposure.last as nat)
            + " ten-nanosecond units this unit offers"@,
        w.fixed_fault() matches Some(r) ==> r.reason == "2-10 defines this as 0, not "@ + decimal(
            if w.padding_type != 0 {
                w.padding_type as nat
            } else if w.compression_type != 0 {
                w.compression_type as nat
            } else if w.compression_argument != 0 {
                w.compression_argument as nat
            } else {
                w.bit_ordering as nat
            },
        ),
{
}

/// Which rule a refused set breaks, the first that it does, and what is said of
/// it
pub proof fn law_what_a_set_is_refused_for(windows: Seq<Window>, n: int)
    requires
        0 <= n < windows.len(),
    ensures
        set_fault(Seq::empty()) matches Some(r) && r.op == "window set"@ && r.reason
            == "a scan needs at least one window"@,
        windows.len() > 1 && windows[n].id == 0 ==> (set_fault(windows) matches Some(r) && r.op
            == "window set"@ && r.reason
            == "the default color cannot be scanned alongside another"@),
        (windows.len() == 1 || forall|k: int|
            0 <= k < windows.len() ==> (#[trigger] windows[k]).id != 0) && n > 0
            && !windows[n].agrees(windows[0]) && (forall|k: int|
            0 <= k < n ==> (#[trigger] windows[k]).agrees(windows[0])) ==> (set_fault(
            windows,
        ) matches Some(r) && r.op == "window set"@ && r.reason == "window "@ + decimal(
            windows[n].id as nat,
        ) + " differs from window "@ + decimal(windows[0].id as nat)
            + " in a parameter common to the set"@),
{
    let default = |k: int| windows[k].reads() == Channel::Default;
    law_a_search_finds_the_first(windows.len() as int, default, 0);
    if windows[n].id == 0 {
        assert(default(n));
    }
    if let Some(k) = first_default(windows) {
        assert(default(k));
    }
    let odd = |k: int| !windows[k].agrees(windows[0]);
    law_a_search_finds_the_first(windows.len() as int, odd, 1);
    if n > 0 && !windows[n].agrees(windows[0]) {
        assert(odd(n));
        if let Some(k) = first_odd(windows) {
            assert(odd(k));
            if n < k {
                assert(!odd(n));
            }
        }
    }
}

/// What is said of a window on the way, whether or not it is taken: of X where
/// the identifier and the resolution are in order, of Y where X is too, and of
/// the width where the geometry is
pub proof fn law_what_is_said_on_the_way(w: Window, caps: &Capabilities)
    ensures
        ({
            let (x, y) = (caps.address.x_axis, caps.address.y_axis);
            let dpi = w.resolution.0;
            let on_ladder = if w.scanning_kind.bits & 0x02 == 0x02 {
                caps.address.thumbnail_resolution.start <= dpi
                    <= caps.address.thumbnail_resolution.last
            } else {
                x.dpi_range.start <= dpi <= x.dpi_range.last
            };
            let starts = (w.id <= 3 || w.id == 9) && on_ladder;
            let on_x = x.address_range.start <= w.origin.0 <= x.address_range.last;
            let x_fits = on_x && w.size.0 > 0 && (x.address_range.start == x.address_range.last
                ==> w.size.0 == x.boundary);
            let on_y = y.address_range.start <= w.origin.1 <= y.address_range.last;
            let y_fits = on_y && w.size.1 > 0 && (y.address_range.start == y.address_range.last
                ==> w.size.1 == y.boundary);
            let gap = caps.address.line_gap;
            let of_x = if starts && on_x && w.size.0 > x.boundary {
                seq![Warning::PastOpening { name: 'X', size: w.size.0, opening: x.boundary }]
            } else {
                Seq::<Warning>::empty()
            };
            let of_y = if starts && x_fits && on_y && w.size.1 > y.boundary {
                seq![Warning::PastOpening { name: 'Y', size: w.size.1, opening: y.boundary }]
            } else {
                Seq::<Warning>::empty()
            };
            let of_width = if starts && x_fits && y_fits && w.origin.0 + w.size.0
                <= caps.address.ccd_pixels && w.color_interleaving.bits & 0x40 == 0x40 && gap > 0
                && w.size.0 as int % gap as int != 0 {
                seq![Warning::SplitBlock { width: w.size.0, block: gap as u32 }]
            } else {
                Seq::<Warning>::empty()
            };
            w.warned(caps) == of_x + of_y + of_width
        }),
{
}

/// What each composition is called, and one without a name by its number
pub proof fn law_what_the_compositions_are_called(composition: Composition, code: u8)
    ensures
        composition is BilevelBW ==> composition.wording() == "BilevelBW"@,
        composition is DitheredBW ==> composition.wording() == "DitheredBW"@,
        composition is MultilevelBW ==> composition.wording() == "MultilevelBW"@,
        composition is BilevelRGB ==> composition.wording() == "BilevelRGB"@,
        composition is DitheredRGB ==> composition.wording() == "DitheredRGB"@,
        composition is MultilevelRGB ==> composition.wording() == "MultilevelRGB"@,
        composition == Composition::Unknown(code) ==> composition.wording() == "Unknown("@ + decimal(
            code as nat,
        ) + ")"@,
{
}

/// A window is taken exactly where nothing is wrong with it, and refused with the
/// first thing that is; and so is a set
pub proof fn law_what_validating_comes_to(
    w: &Window,
    caps: &Capabilities,
    one: Result<(), Error>,
    windows: &[Window],
    all: Result<(), Error>,
)
    requires
        call_ensures(Window::validate, (w, caps), one),
        call_ensures(validate_set, (windows,), all),
    ensures
        one is Ok <==> w.fault(caps) is None,
        w.fault(caps) matches Some(f) ==> (one matches Err(e) && e.is_unsupported(f.op, f.reason)),
        all is Ok <==> set_fault(windows@) is None,
        set_fault(windows@) matches Some(f) ==> (all matches Err(e) && e.is_unsupported(
            f.op,
            f.reason,
        )),
{
}

/// The deepest depth that is offered, going down from 16 bits
pub proof fn law_which_depth_is_deepest(offered: BitDepth, r: Option<u8>)
    requires
        call_ensures(deepest_depth, (offered,), r),
    ensures
        r == if offered.bits & 0x20 == 0x20 {
            Some(16u8)
        } else if offered.bits & 0x10 == 0x10 {
            Some(14u8)
        } else if offered.bits & 0x08 == 0x08 {
            Some(12u8)
        } else if offered.bits & 0x04 == 0x04 {
            Some(10u8)
        } else if offered.bits & 0x02 == 0x02 {
            Some(8u8)
        } else if offered.bits & 0x01 == 0x01 {
            Some(1u8)
        } else {
            None
        },
{
    assert(depth_flag(16) is Some && depth_flag(14) is Some && depth_flag(12) is Some && depth_flag(
        10,
    ) is Some && depth_flag(8) is Some && depth_flag(1) is Some);
}

/// Red, green and blue are the first, the second and the third of what is seen,
/// the default stands where green does, and nothing else is seen
pub proof fn law_what_is_seen(channel: Channel, r: Option<usize>)
    requires
        call_ensures(Channel::visible_index, (channel,), r),
    ensures
        r == Some(0usize) <==> channel is Red,
        r == Some(1usize) <==> channel is Green || channel is Default,
        r == Some(2usize) <==> channel is Blue,
        r is None <==> channel is NeutralGray || channel is Infrared || channel is Other,
{
}

/// Where the numbers of a reply's header are, and where its descriptors start
pub proof fn law_where_a_reply_starts(bytes: &[u8], r: Result<(GetWindowHeader, &[u8]), TooShort>)
    requires
        call_ensures(GetWindowHeader::from_bytes, (bytes,), r),
    ensures
        r is Ok <==> bytes@.len() >= 8,
        r matches Err(e) ==> e.got == bytes@.len(),
        r matches Ok((header, rest)) ==> header.data_length == 0x100 * bytes@[0] + bytes@[1]
            && header.descriptor_length == 0x100 * bytes@[6] + bytes@[7] && rest@.len() + 8
            == bytes@.len(),
        r matches Ok((header, rest)) ==> forall|i: int|
            0 <= i < rest@.len() ==> #[trigger] rest@[i] == bytes@[8 + i],
{
}

} // verus!
