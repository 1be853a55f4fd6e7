//! What things are called to a caller who goes by names

use crate::batch::FilmType;
use crate::protocol::caps::set_window::{ColorInterleaving, ScanKind, ScanMode};
use crate::protocol::caps::Capabilities;
use crate::protocol::data::Op;
use crate::protocol::window::Channel;
use crate::text::{
    decimal, eq_ignore_ascii_case, lemma_decimal_digits, push_decimal, same_but_case, same_text,
};
use vstd::prelude::*;

verus! {

/// Most readings of one line a pass may ask for: a nibble holds one less
pub const MAX_SAMPLES: u8 = 16;

/// What a channel is called
pub open spec fn channel_wording(channel: Channel) -> Seq<char> {
    match channel {
        Channel::Default => "default"@,
        Channel::Red => "red"@,
        Channel::Green => "green"@,
        Channel::Blue => "blue"@,
        Channel::NeutralGray => "neutralgray"@,
        Channel::Infrared => "infrared"@,
        Channel::Other(id) => "other("@ + decimal(id as nat) + ")"@,
    }
}

/// What the channel with this identifier is called
pub fn channel_name(id: u8) -> (r: String)
    ensures
        r@ == channel_wording(Channel::of(id)),
{
    match Channel::from(id) {
        Channel::Default => String::from_str("default"),
        Channel::Red => String::from_str("red"),
        Channel::Green => String::from_str("green"),
        Channel::Blue => String::from_str("blue"),
        Channel::NeutralGray => String::from_str("neutralgray"),
        Channel::Infrared => String::from_str("infrared"),
        Channel::Other(id) => {
            let mut s = String::from_str("other(");
            push_decimal(&mut s, id as u64);
            s.append(")");
            s
        },
    }
}

/// The channel a name refers to, whatever its case. Any other name is the
/// default's
pub open spec fn channel_named(name: Seq<char>) -> Channel {
    if same_but_case(name, "red"@) {
        Channel::Red
    } else if same_but_case(name, "green"@) {
        Channel::Green
    } else if same_but_case(name, "blue"@) {
        Channel::Blue
    } else if same_but_case(name, "infrared"@) {
        Channel::Infrared
    } else if same_but_case(name, "neutralgray"@) {
        Channel::NeutralGray
    } else {
        Channel::Default
    }
}

/// The channel a name refers to, whatever its case
pub fn channel_from_name(name: &str) -> (r: Channel)
    ensures
        r == channel_named(name@),
{
    if eq_ignore_ascii_case(name, "red") {
        Channel::Red
    } else if eq_ignore_ascii_case(name, "green") {
        Channel::Green
    } else if eq_ignore_ascii_case(name, "blue") {
        Channel::Blue
    } else if eq_ignore_ascii_case(name, "infrared") {
        Channel::Infrared
    } else if eq_ignore_ascii_case(name, "neutralgray") {
        Channel::NeutralGray
    } else {
        Channel::Default
    }
}

/// What a channel is called refers to that channel, but for a channel without a
/// name of its own, which is taken for the default
pub proof fn law_channel_name_round_trip(channel: Channel)
    requires
        !(channel is Other),
    ensures
        channel_named(channel_wording(channel)) == channel,
{
    reveal_strlit("default");
    reveal_strlit("red");
    reveal_strlit("green");
    reveal_strlit("blue");
    reveal_strlit("neutralgray");
    reveal_strlit("infrared");
    assert("default"@.len() == 7 && "red"@.len() == 3 && "green"@.len() == 5 && "blue"@.len() == 4
        && "neutralgray"@.len() == 11 && "infrared"@.len() == 8);
    assert(same_but_case(channel_wording(channel), channel_wording(channel)));
}

/// No two channels are called the same
pub proof fn law_channel_names_are_apart(a: Channel, b: Channel)
    requires
        a != b,
    ensures
        channel_wording(a) != channel_wording(b),
{
    reveal_strlit("default");
    reveal_strlit("red");
    reveal_strlit("green");
    reveal_strlit("blue");
    reveal_strlit("neutralgray");
    reveal_strlit("infrared");
    reveal_strlit("other(");
    reveal_strlit(")");
    assert("default"@[0] == 'd' && "red"@[0] == 'r' && "green"@[0] == 'g' && "blue"@[0] == 'b'
        && "neutralgray"@[0] == 'n' && "infrared"@[0] == 'i' && "other("@[0] == 'o');
    if let (Channel::Other(x), Channel::Other(y)) = (a, b) {
        let (dx, dy) = (decimal(x as nat), decimal(y as nat));
        lemma_decimal_digits(x as nat);
        lemma_decimal_digits(y as nat);
        if channel_wording(a) == channel_wording(b) {
            assert(channel_wording(a).subrange(6, channel_wording(a).len() - 1) =~= dx);
            assert(channel_wording(b).subrange(6, channel_wording(b).len() - 1) =~= dy);
        }
    } else {
        assert(channel_wording(a)[0] != channel_wording(b)[0]);
    }
}

/// The film a name refers to, where it refers to one
pub open spec fn film_named(name: Seq<char>) -> Option<FilmType> {
    if name == "positive"@ || name == "slide"@ {
        Some(FilmType::Positive)
    } else if name == "negative"@ {
        Some(FilmType::Negative)
    } else if name == "kodachrome"@ {
        Some(FilmType::Kodachrome)
    } else if name == "mono"@ {
        Some(FilmType::Mono)
    } else {
        None
    }
}

/// The film a name refers to, where it refers to one
pub fn film_from_name(name: &str) -> (r: Option<FilmType>)
    ensures
        r == film_named(name@),
{
    if same_text(name, "positive") || same_text(name, "slide") {
        Some(FilmType::Positive)
    } else if same_text(name, "negative") {
        Some(FilmType::Negative)
    } else if same_text(name, "kodachrome") {
        Some(FilmType::Kodachrome)
    } else if same_text(name, "mono") {
        Some(FilmType::Mono)
    } else {
        None
    }
}

/// What came of focusing
#[derive(Debug, Clone, Copy, PartialEq, Eq, Structural)]
pub enum Focused {
    Yes,
    NotReached,
    Skipped,
}

/// What a focus result is called
pub fn focused_name(focused: Focused) -> (r: &'static str)
    ensures
        r@ == match focused {
            Focused::Yes => "focused"@,
            Focused::NotReached => "not_reached"@,
            Focused::Skipped => "skipped"@,
        },
{
    match focused {
        Focused::Yes => "focused",
        Focused::NotReached => "not_reached",
        Focused::Skipped => "skipped",
    }
}

/// How a unit finds its frames
#[derive(Debug, Clone, Copy, PartialEq, Eq, Structural)]
pub enum Framing {
    Published,
    Thumbnail,
    Perforation,
    Address,
}

impl Framing {
    /// What it is called
    pub open spec fn wording(self) -> Seq<char> {
        match self {
            Framing::Published => "published"@,
            Framing::Thumbnail => "thumbnail"@,
            Framing::Perforation => "perforation"@,
            Framing::Address => "address"@,
        }
    }

    /// What it is called
    pub fn name(self) -> (r: &'static str)
        ensures
            r@ == self.wording(),
    {
        match self {
            Framing::Published => "published",
            Framing::Thumbnail => "thumbnail",
            Framing::Perforation => "perforation",
            Framing::Address => "address",
        }
    }

    /// Whether it takes a thumbnail pass
    pub open spec fn has_thumbnail(self) -> bool {
        self is Thumbnail || self is Perforation
    }

    /// Whether it takes a thumbnail pass
    pub fn takes_thumbnail(self) -> (r: bool)
        ensures
            r == self.has_thumbnail(),
    {
        match self {
            Framing::Thumbnail | Framing::Perforation => true,
            _ => false,
        }
    }
}

/// What a scanner says it can do, projected down to what a caller needs to
/// place a scan
#[derive(Debug, PartialEq, Eq)]
pub struct Summary {
    pub vendor: String,
    pub product: String,
    pub revision: String,
    pub model: Option<String>,
    pub x_dpi_range: (u16, u16),
    pub y_dpi_range: (u16, u16),
    pub optical_dpi: u16,
    pub max_frames: u8,
    /// The thumbnail pass's resolution range
    pub thumbnail_dpi: (u16, u16),
    /// Focus positions the unit accepts
    pub focus_range: (u16, u16),
    /// Most readings of one line a pass may ask for. 1 where the unit reads a
    /// line one time, so a multi-sample control can be hidden
    pub max_samples: u8,
    /// How this unit finds frames
    pub framing: &'static str,
    /// Whether a thumbnail pass happens at all, and so whether a caller can
    /// offer to keep it
    pub thumbnail: bool,
    /// Whether the CCD can read its lines at once
    pub multi_line: bool,
    /// Whether the unit can give the medium back on its own
    pub eject: bool,
    /// Whether the unit focuses itself
    pub autofocus: bool,
    /// Whether the unit runs an AE pass itself
    pub hardware_metering: bool,
    /// The reading modes this unit offers, by name
    pub interleavings: Vec<String>,
}

/// The reading modes there are, by flag, in order
pub open spec fn interleaving_table() -> Seq<(u8, Seq<char>)> {
    seq![
        (ColorInterleaving::PIXEL_WITHOUT_DISTANCE, "pixel_without_distance"@),
        (ColorInterleaving::LINE_WITHOUT_DISTANCE, "line_without_distance"@),
        (ColorInterleaving::PLANE, "plane"@),
        (ColorInterleaving::PIXEL_WITH_DISTANCE, "pixel_with_distance"@),
        (ColorInterleaving::LINE_WITH_DISTANCE, "line_with_distance"@),
        (ColorInterleaving::MULTILINE_SIMULTANEOUS, "multiline_simultaneous"@),
    ]
}

/// The names of the first `n` modes of the table that are offered
pub open spec fn offered_names(offered: ColorInterleaving, n: int) -> Seq<Seq<char>>
    decreases n,
{
    if n <= 0 {
        Seq::empty()
    } else {
        let before = offered_names(offered, n - 1);
        let (flag, name) = interleaving_table()[n - 1];
        if offered.has(flag) {
            before.push(name)
        } else {
            before
        }
    }
}

/// Whether a list of texts says what is meant
pub open spec fn says_each(a: Seq<String>, b: Seq<Seq<char>>) -> bool {
    a.len() == b.len() && forall|i: int| 0 <= i < b.len() ==> (#[trigger] a[i])@ == b[i]
}

/// The reading modes a unit offers, by name
pub fn interleaving_names(offered: ColorInterleaving) -> (r: Vec<String>)
    ensures
        says_each(r@, offered_names(offered, 6)),
{
    let table: [(u8, &'static str); 6] = [
        (ColorInterleaving::PIXEL_WITHOUT_DISTANCE, "pixel_without_distance"),
        (ColorInterleaving::LINE_WITHOUT_DISTANCE, "line_without_distance"),
        (ColorInterleaving::PLANE, "plane"),
        (ColorInterleaving::PIXEL_WITH_DISTANCE, "pixel_with_distance"),
        (ColorInterleaving::LINE_WITH_DISTANCE, "line_with_distance"),
        (ColorInterleaving::MULTILINE_SIMULTANEOUS, "multiline_simultaneous"),
    ];
    let mut names: Vec<String> = Vec::new();
    let mut n: usize = 0;
    while n < 6
        invariant
            n <= 6,
            forall|i: int|
                0 <= i < 6 ==> (#[trigger] table@[i]).0 == interleaving_table()[i].0
                    && table@[i].1@ == interleaving_table()[i].1,
            says_each(names@, offered_names(offered, n as int)),
        decreases 6 - n,
    {
        let (flag, name) = table[n];
        if offered.contains(flag) {
            names.push(String::from_str(name));
        }
        n += 1;
    }
    names
}

impl Summary {
    /// Whether this is what a scanner's pages say
    pub open spec fn says(&self, caps: &Capabilities, framing: Framing, multi_line: bool) -> bool {
        &&& self.vendor@ == caps.identity.vendor@
        &&& self.product@ == caps.identity.product@
        &&& self.revision@ == caps.identity.revision@
        &&& match crate::protocol::model::Model::of_product(caps.identity.product@) {
            Some(model) => self.model matches Some(name) && name@ == model.product(),
            None => self.model is None,
        }
        &&& self.x_dpi_range == (
            caps.address.x_axis.dpi_range.start,
            caps.address.x_axis.dpi_range.last,
        )
        &&& self.y_dpi_range == (
            caps.address.y_axis.dpi_range.start,
            caps.address.y_axis.dpi_range.last,
        )
        &&& self.optical_dpi == caps.address.x_axis.optical_dpi
        &&& self.max_frames == caps.address.max_frames
        &&& self.thumbnail_dpi == (
            caps.address.thumbnail_resolution.start,
            caps.address.thumbnail_resolution.last,
        )
        &&& self.focus_range == (caps.address.focus_range.start, caps.address.focus_range.last)
        &&& self.max_samples == if caps.set_window.mode.has(ScanMode::MULTI_READING) {
            MAX_SAMPLES
        } else {
            1
        }
        &&& self.framing@ == framing.wording()
        &&& self.thumbnail == framing.has_thumbnail()
        &&& self.multi_line == multi_line
        &&& self.eject == caps.features.execute.has(Op::Unload.code_of())
        &&& self.autofocus == caps.features.execute.has(Op::AutoFocus.code_of())
        &&& self.hardware_metering == (caps.set_window.kind.bits & (ScanKind::AE | ScanKind::AE_WB)
            != 0)
        &&& says_each(self.interleavings@, offered_names(caps.set_window.interleaving, 6))
    }

    /// What a scanner's pages say, and how it finds its frames and reads its CCD
    pub fn new(caps: &Capabilities, framing: Framing, multi_line: bool) -> (r: Summary)
        ensures
            r.says(caps, framing, multi_line),
    {
        Summary {
            vendor: caps.identity.vendor.as_str().to_owned(),
            product: caps.identity.product.as_str().to_owned(),
            revision: caps.identity.revision.as_str().to_owned(),
            model: match caps.identity.model() {
                Some(model) => Some(String::from_str(model.name())),
                None => None,
            },
            x_dpi_range: (
                caps.address.x_axis.dpi_range.start,
                caps.address.x_axis.dpi_range.last,
            ),
            y_dpi_range: (
                caps.address.y_axis.dpi_range.start,
                caps.address.y_axis.dpi_range.last,
            ),
            optical_dpi: caps.address.x_axis.optical_dpi,
            max_frames: caps.address.max_frames,
            thumbnail_dpi: (
                caps.address.thumbnail_resolution.start,
                caps.address.thumbnail_resolution.last,
            ),
            focus_range: (caps.address.focus_range.start, caps.address.focus_range.last),
            // A unit that does not offer the mode reads a line once, and
            // refuses a window that asks for more
            max_samples: if caps.set_window.mode.contains(ScanMode::MULTI_READING) {
                MAX_SAMPLES
            } else {
                1
            },
            framing: framing.name(),
            thumbnail: framing.takes_thumbnail(),
            multi_line,
            eject: caps.features.execute.supports(Op::Unload),
            autofocus: caps.features.execute.supports(Op::AutoFocus),
            hardware_metering: caps.set_window.kind.bits & (ScanKind::AE | ScanKind::AE_WB) != 0,
            interleavings: interleaving_names(caps.set_window.interleaving),
        }
    }
}

/// What the channel of each identifier is called
pub proof fn law_what_the_identifiers_are_called(id: u8)
    ensures
        id == 0 ==> channel_wording(Channel::of(id)) == "default"@,
        id == 1 ==> channel_wording(Channel::of(id)) == "red"@,
        id == 2 ==> channel_wording(Channel::of(id)) == "green"@,
        id == 3 ==> channel_wording(Channel::of(id)) == "blue"@,
        id == 4 ==> channel_wording(Channel::of(id)) == "neutralgray"@,
        id == 9 ==> channel_wording(Channel::of(id)) == "infrared"@,
        5 <= id <= 8 || 10 <= id ==> channel_wording(Channel::of(id)) == "other("@ + decimal(
            id as nat,
        ) + ")"@,
{
}

/// A name refers to a channel whatever the case of its letters, and every name
/// that is none of the five is taken for the default
pub proof fn law_what_a_channel_name_refers_to(name: Seq<char>)
    ensures
        channel_named(name) is Red <==> same_but_case(name, "red"@),
        channel_named(name) is Green <==> same_but_case(name, "green"@),
        channel_named(name) is Blue <==> same_but_case(name, "blue"@),
        channel_named(name) is Infrared <==> same_but_case(name, "infrared"@),
        channel_named(name) is NeutralGray <==> same_but_case(name, "neutralgray"@),
        !(channel_named(name) is Other),
{
    reveal_strlit("red");
    reveal_strlit("green");
    reveal_strlit("blue");
    reveal_strlit("neutralgray");
    reveal_strlit("infrared");
    assert("red"@.len() == 3 && "green"@.len() == 5 && "blue"@.len() == 4 && "neutralgray"@.len()
        == 11 && "infrared"@.len() == 8);
}

/// A name refers to a film in the very letters it is written in, and slide film
/// has two names
pub proof fn law_what_a_film_name_refers_to(name: Seq<char>)
    ensures
        film_named(name) == Some(FilmType::Positive) <==> name == "positive"@ || name == "slide"@,
        film_named(name) == Some(FilmType::Negative) <==> name == "negative"@,
        film_named(name) == Some(FilmType::Kodachrome) <==> name == "kodachrome"@,
        film_named(name) == Some(FilmType::Mono) <==> name == "mono"@,
        film_named(name) is None <==> name != "positive"@ && name != "slide"@ && name != "negative"@
            && name != "kodachrome"@ && name != "mono"@,
{
    reveal_strlit("positive");
    reveal_strlit("slide");
    reveal_strlit("negative");
    reveal_strlit("kodachrome");
    reveal_strlit("mono");
    assert("positive"@.len() == 8 && "slide"@.len() == 5 && "negative"@.len() == 8
        && "kodachrome"@.len() == 10 && "mono"@.len() == 4);
    assert("positive"@[0] == 'p' && "negative"@[0] == 'n');
}

/// The reading modes are listed from the lowest flag up: one that is offered
/// comes behind those before it, and one that is not is passed over
pub proof fn law_which_modes_are_listed(offered: ColorInterleaving)
    ensures
        ({
            let bits = offered.bits;
            let listed = |set: bool, name: Seq<char>, before: Seq<Seq<char>>|
                if set {
                    before.push(name)
                } else {
                    before
                };
            let a = listed(bits & 0x01 == 0x01, "pixel_without_distance"@, Seq::empty());
            let b = listed(bits & 0x02 == 0x02, "line_without_distance"@, a);
            let c = listed(bits & 0x04 == 0x04, "plane"@, b);
            let d = listed(bits & 0x10 == 0x10, "pixel_with_distance"@, c);
            let e = listed(bits & 0x20 == 0x20, "line_with_distance"@, d);
            offered_names(offered, 6) == listed(
                bits & 0x40 == 0x40,
                "multiline_simultaneous"@,
                e,
            )
        }),
{
    reveal_with_fuel(offered_names, 7);
}

/// What a summary says of the flags of the pages, by their bits
pub proof fn law_what_a_summary_says(
    s: Summary,
    caps: &Capabilities,
    framing: Framing,
    multi_line: bool,
)
    requires
        s.says(caps, framing, multi_line),
    ensures
        caps.set_window.mode.bits & 0x10 == 0x10 ==> s.max_samples == 16,
        caps.set_window.mode.bits & 0x10 != 0x10 ==> s.max_samples == 1,
        s.thumbnail <==> framing is Thumbnail || framing is Perforation,
        s.multi_line == multi_line,
        s.eject <==> caps.features.execute.has(0xD0),
        s.autofocus <==> caps.features.execute.has(0xA0),
        s.hardware_metering <==> caps.set_window.kind.bits & 0x20 == 0x20
            || caps.set_window.kind.bits & 0x40 == 0x40,
        s.optical_dpi == caps.address.x_axis.optical_dpi,
        s.max_frames == caps.address.max_frames,
        s.x_dpi_range.0 == caps.address.x_axis.dpi_range.start,
        s.x_dpi_range.1 == caps.address.x_axis.dpi_range.last,
        s.y_dpi_range.0 == caps.address.y_axis.dpi_range.start,
        s.y_dpi_range.1 == caps.address.y_axis.dpi_range.last,
        s.thumbnail_dpi.0 == caps.address.thumbnail_resolution.start,
        s.thumbnail_dpi.1 == caps.address.thumbnail_resolution.last,
        s.focus_range.0 == caps.address.focus_range.start,
        s.focus_range.1 == caps.address.focus_range.last,
        s.vendor@ == caps.identity.vendor@,
        s.product@ == caps.identity.product@,
        s.revision@ == caps.identity.revision@,
        framing is Published ==> s.framing@ == "published"@,
        framing is Thumbnail ==> s.framing@ == "thumbnail"@,
        framing is Perforation ==> s.framing@ == "perforation"@,
        framing is Address ==> s.framing@ == "address"@,
        s.interleavings@.len() == offered_names(caps.set_window.interleaving, 6).len(),
{
    let bits = caps.set_window.kind.bits;
    assert(bits & (0x20u8 | 0x40u8) != 0 <==> bits & 0x20 == 0x20 || bits & 0x40 == 0x40) by (
    bit_vector);
}

/// What a focus result is called
pub proof fn law_what_a_focus_result_is_called(focused: Focused, r: &'static str)
    requires
        call_ensures(focused_name, (focused,), r),
    ensures
        focused is Yes ==> r@ == "focused"@,
        focused is NotReached ==> r@ == "not_reached"@,
        focused is Skipped ==> r@ == "skipped"@,
{
}

} // verus!
