//! Film formats and their frame heights
//!
//! The frame height (film format) is the one piece of information the scanner
//! cannot derive from a thumbnail. It is not a property of the scanner or the
//! holder, since the same 6x9 holder accepts 6x6, 6x7, 6x8 and 6x9 film, so the
//! holder ID narrows the choices but does not fix the answer.
//!
//! The holder ID does fix it for the FH-869GR, which has a mask that selects
//! the format physically. For everything else the operator supplies it.

use super::Capabilities;
use crate::error::Error;
use crate::text::{
    decimal, decimal_text, digits_value, is_digit, law_decimal_round_trip, lemma_decimal_digits,
    parse_u32, parsed_u32, same_text,
};
use vstd::prelude::*;

verus! {

/// A film format, keyed by its frame height in millimeters
///
/// The names are nominal and the gates are not: 6x4.5 exposes 41.5 mm of film
/// and 6x8 exposes 76. These carry what is exposed.
#[derive(Debug, Clone, Copy, PartialEq, Eq, Structural)]
pub enum FilmFormat {
    /// APS (IX240), 30.2 x 16.7 mm recorded. C and P are crops of that same
    /// recorded frame, so all three scan at its length
    IX240,
    /// 135 film (35mm), 24 x 36 mm
    F135,
    /// 135 film shot half frame, 18 x 24 mm: two frames in the space of one
    F135Half,
    /// 16mm film, 16 x 20 mm (FH-816)
    F16,
    /// 120 film, 6 x 4.5 cm, which exposes 41.5 mm
    F645,
    /// 120 film, 6 x 6 cm
    F66,
    /// 120 film, 6 x 7 cm, which exposes 69.5 mm
    F67,
    /// 120 film, 6 x 8 cm, which exposes 76 mm
    F68,
    /// 120 film, 6 x 9 cm
    F69,
    /// Operator-supplied height in millimeters
    Custom(u32),
}

/// The formats' names with commas between
pub open spec fn names_wording(formats: Seq<FilmFormat>, n: nat) -> Seq<char>
    decreases n,
{
    if n == 0 {
        Seq::empty()
    } else if n == 1 {
        formats[0].wording()
    } else {
        names_wording(formats, (n - 1) as nat) + ", "@ + formats[n - 1].wording()
    }
}

impl FilmFormat {
    /// Frame height along the feed, in tenths of a millimeter
    pub open spec fn tenths(self) -> int {
        match self {
            FilmFormat::IX240 => 302,
            FilmFormat::F135 => 360,
            FilmFormat::F135Half => 180,
            FilmFormat::F16 => 200,
            FilmFormat::F645 => 415,
            FilmFormat::F66 => 560,
            FilmFormat::F67 => 695,
            FilmFormat::F68 => 760,
            FilmFormat::F69 => 840,
            FilmFormat::Custom(mm) => mm * 10,
        }
    }

    /// Whether a height in tenths is one a 32-bit number holds, which any film
    /// there is has
    pub open spec fn sane(self) -> bool {
        self.tenths() + 5 <= u32::MAX
    }

    /// What the format is called
    pub open spec fn wording(self) -> Seq<char> {
        match self {
            FilmFormat::IX240 => "IX240"@,
            FilmFormat::F135 => "135"@,
            FilmFormat::F135Half => "half"@,
            FilmFormat::F16 => "16"@,
            FilmFormat::F645 => "645"@,
            FilmFormat::F66 => "66"@,
            FilmFormat::F67 => "67"@,
            FilmFormat::F68 => "68"@,
            FilmFormat::F69 => "69"@,
            FilmFormat::Custom(mm) => decimal(mm as nat),
        }
    }

    /// The format a text names: one of the names, or a height in millimeters
    pub open spec fn named(s: Seq<char>) -> Option<FilmFormat> {
        if s == "IX240"@ || s == "aps"@ || s == "APS"@ {
            Some(FilmFormat::IX240)
        } else if s == "135"@ {
            Some(FilmFormat::F135)
        } else if s == "half"@ || s == "135half"@ {
            Some(FilmFormat::F135Half)
        } else if s == "16"@ {
            Some(FilmFormat::F16)
        } else if s == "645"@ {
            Some(FilmFormat::F645)
        } else if s == "66"@ {
            Some(FilmFormat::F66)
        } else if s == "67"@ {
            Some(FilmFormat::F67)
        } else if s == "68"@ {
            Some(FilmFormat::F68)
        } else if s == "69"@ {
            Some(FilmFormat::F69)
        } else {
            match parsed_u32(s) {
                Some(mm) => Some(FilmFormat::Custom(mm)),
                None => None,
            }
        }
    }

    /// The format a holder ID fixes
    pub open spec fn of_holder(holder_id: u8) -> Option<FilmFormat> {
        match holder_id {
            0x12 => Some(FilmFormat::F16),
            0x19 => Some(FilmFormat::F645),
            0x1A => Some(FilmFormat::F66),
            0x1B => Some(FilmFormat::F67),
            0x1C => Some(FilmFormat::F68),
            0x1D => Some(FilmFormat::F69),
            _ => None,
        }
    }

    /// The formats a holder ID leaves open
    pub open spec fn choices_of(holder_id: u8) -> Option<Seq<FilmFormat>> {
        if 0x14 <= holder_id <= 0x15 {
            Some(seq![FilmFormat::F66, FilmFormat::F67, FilmFormat::F69])
        } else if 0x16 <= holder_id <= 0x18 {
            Some(seq![FilmFormat::F66, FilmFormat::F67, FilmFormat::F68, FilmFormat::F69])
        } else {
            None
        }
    }

    /// The format an adapter ID fixes
    pub open spec fn of_adapter(adapter_id: u8) -> Option<FilmFormat> {
        match adapter_id {
            0x31 => Some(FilmFormat::F135),
            0x32 => Some(FilmFormat::F135),
            0x35 => Some(FilmFormat::IX240),
            _ => None,
        }
    }

    /// The ID that says what is loaded: a medium format unit goes by its
    /// holder, and another by its adapter where it has one in
    pub open spec fn loaded_id(caps: &Capabilities) -> Option<u8> {
        if !caps.identity.medium_format() && (caps.address.adapter_id matches Some(id) && id > 0) {
            caps.address.connected_adapter
        } else {
            caps.address.holder_id
        }
    }

    /// What is said of a holder that leaves the format open
    pub open spec fn open_wording(id: u8) -> Seq<char> {
        "this holder does not fix it"@ + match FilmFormat::choices_of(id) {
            Some(choices) => " (try: "@ + names_wording(choices, choices.len()) + ")"@,
            None => Seq::empty(),
        }
    }

    /// Frame height along the feed, in tenths of a millimeter
    ///
    /// Tenths because half of these are not whole millimeters
    pub fn height_tenths(self) -> (r: u32)
        requires
            self.tenths() <= u32::MAX,
        ensures
            r == self.tenths(),
    {
        match self {
            FilmFormat::IX240 => 302,
            FilmFormat::F135 => 360,
            FilmFormat::F135Half => 180,
            FilmFormat::F16 => 200,
            FilmFormat::F645 => 415,
            FilmFormat::F66 => 560,
            FilmFormat::F67 => 695,
            FilmFormat::F68 => 760,
            FilmFormat::F69 => 840,
            FilmFormat::Custom(mm) => mm * 10,
        }
    }

    /// Frame height along the feed, in mm, rounded to the nearest
    pub fn height_mm(self) -> (r: u32)
        requires
            self.sane(),
        ensures
            r == (self.tenths() + 5) / 10,
    {
        (self.height_tenths() + 5) / 10
    }

    /// Frame height in scanner address units (dots at optical DPI)
    ///
    /// Tenths of a mm times dpi over 25.4, rounded to nearest, as far as 32
    /// bits hold it.
    pub fn height_dots(self, dpi: u16) -> (r: u32)
        requires
            self.tenths() <= u32::MAX,
        ensures
            r == (self.tenths() * dpi + 127) / 254 % 0x1_0000_0000,
    {
        let tenths: u64 = self.height_tenths() as u64;
        assert(tenths * dpi <= 0xFFFF_FFFF * 0xFFFF) by (nonlinear_arith)
            requires
                tenths <= 0xFFFF_FFFF,
                dpi <= 0xFFFF,
        ;
        let num: u64 = tenths * dpi as u64;
        ((num + 127) / 254 % 0x1_0000_0000) as u32
    }

    /// The format a holder ID implies, where the holder fixes it
    ///
    /// Returns `None` where the holder accepts more than one format, or where
    /// the holder is unknown. The FH-869GR is the only holder that physically
    /// selects the format via its mask
    pub fn from_holder(holder_id: u8) -> (r: Option<FilmFormat>)
        ensures
            r == FilmFormat::of_holder(holder_id),
    {
        match holder_id {
            0x12 => Some(FilmFormat::F16),  // FH-816
            0x19 => Some(FilmFormat::F645),  // FH-869GR 6x4.5
            0x1A => Some(FilmFormat::F66),  // FH-869GR 6x6
            0x1B => Some(FilmFormat::F67),  // FH-869GR 6x7
            0x1C => Some(FilmFormat::F68),  // FH-869GR 6x8
            0x1D => Some(FilmFormat::F69),  // FH-869GR 6x9
            _ => None,
        }
    }

    /// The formats a holder ID accepts, where it accepts more than one
    ///
    /// Returns `None` where the holder fixes the format (see [`Self::from_holder`])
    /// or is unknown. Used to offer the operator a choice
    pub fn choices_for_holder(holder_id: u8) -> (r: Option<&'static [FilmFormat]>)
        ensures
            match FilmFormat::choices_of(holder_id) {
                Some(choices) => r matches Some(c) && c@ == choices,
                None => r is None,
            },
    {
        match holder_id {
            // FH-835M and FH-835S
            0x14 | 0x15 => Some(&[FilmFormat::F66, FilmFormat::F67, FilmFormat::F69]),
            // FH-869M, FH-869S and FH-869G, the 6x9 holders
            0x16 | 0x17 | 0x18 => Some(
                &[FilmFormat::F66, FilmFormat::F67, FilmFormat::F68, FilmFormat::F69],
            ),
            _ => None,
        }
    }

    /// Same as holder ID, but for LS-4x and LS-5x adapters
    pub fn from_adapter(adapter_id: u8) -> (r: Option<FilmFormat>)
        ensures
            r == FilmFormat::of_adapter(adapter_id),
    {
        match adapter_id {
            0x31 => Some(FilmFormat::F135),  // SA-21/SA-30
            0x35 => Some(FilmFormat::IX240),  // IA-20
            0x32 => Some(FilmFormat::F135),  // SF-210
            _ => None,
        }
    }

    /// The format for whatever is loaded: `explicit` wins, and otherwise the
    /// holder or adapter ID fixes or narrows it
    ///
    /// `caps.identity.is_mf_scanner()` is what picks holder ID over adapter ID
    pub fn resolve(explicit: Option<FilmFormat>, caps: &Capabilities) -> (r: Result<
        FilmFormat,
        Error,
    >)
        ensures
            match (explicit, FilmFormat::loaded_id(caps)) {
                (Some(format), _) => r == Ok::<FilmFormat, Error>(format),
                (None, None) => r matches Err(e) && e.is_unsupported(
                    "film format"@,
                    "no holder loaded; supply a format"@,
                ),
                (None, Some(id)) => match (FilmFormat::of_holder(id), FilmFormat::of_adapter(id)) {
                    (Some(format), _) => r == Ok::<FilmFormat, Error>(format),
                    (None, Some(format)) => r == Ok::<FilmFormat, Error>(format),
                    (None, None) => r matches Err(e) && e.is_unsupported(
                        "film format"@,
                        FilmFormat::open_wording(id),
                    ),
                },
            },
    {
        if let Some(format) = explicit {
            return Ok(format);
        }
        let uses_adapter = !caps.identity.is_mf_scanner() && match caps.address.adapter_id {
            Some(id) => id > 0,
            None => false,
        };
        let loaded = if uses_adapter {
            caps.address.connected_adapter
        } else {
            caps.address.holder_id
        };
        let id: u8 = match loaded {
            Some(id) => id,
            None => {
                return Err(
                    Error::Unsupported {
                        op: "film format",
                        reason: String::from_str("no holder loaded; supply a format"),
                    },
                );
            },
        };
        if let Some(format) = FilmFormat::from_holder(id) {
            return Ok(format);
        }
        if let Some(format) = FilmFormat::from_adapter(id) {
            return Ok(format);
        }
        let mut reason = String::from_str("this holder does not fix it");
        if let Some(choices) = FilmFormat::choices_for_holder(id) {
            let names = FilmFormat::names(choices);
            let mut offer = String::from_str(" (try: ");
            offer.append(names.as_str());
            offer.append(")");
            reason.append(offer.as_str());
        } else {
            proof {
                assert("this holder does not fix it"@ + Seq::<char>::empty()
                    =~= "this holder does not fix it"@);
            }
        }
        Err(Error::Unsupported { op: "film format", reason })
    }

    /// The formats' names with commas between
    fn names(formats: &[FilmFormat]) -> (r: String)
        ensures
            r@ == names_wording(formats@, formats@.len()),
    {
        let mut s = String::new();
        let mut n: usize = 0;
        while n < formats.len()
            invariant
                n <= formats@.len(),
                s@ == names_wording(formats@, n as nat),
            decreases formats@.len() - n,
        {
            let name = formats[n].to_string();
            if n == 0 {
                s = name;
            } else {
                s.append(", ");
                s.append(name.as_str());
            }
            n += 1;
        }
        s
    }

    /// The named ones are what the holders take; anything else is a height,
    /// which is what a format nobody named still needs
    pub fn from_str(s: &str) -> (r: Result<FilmFormat, String>)
        ensures
            match FilmFormat::named(s@) {
                Some(format) => r == Ok::<FilmFormat, String>(format),
                None => r matches Err(e) && e@ == "'"@ + s@
                    + "' is neither a film format nor a height in mm"@,
            },
    {
        if same_text(s, "IX240") || same_text(s, "aps") || same_text(s, "APS") {
            Ok(FilmFormat::IX240)
        } else if same_text(s, "135") {
            Ok(FilmFormat::F135)
        } else if same_text(s, "half") || same_text(s, "135half") {
            Ok(FilmFormat::F135Half)
        } else if same_text(s, "16") {
            Ok(FilmFormat::F16)
        } else if same_text(s, "645") {
            Ok(FilmFormat::F645)
        } else if same_text(s, "66") {
            Ok(FilmFormat::F66)
        } else if same_text(s, "67") {
            Ok(FilmFormat::F67)
        } else if same_text(s, "68") {
            Ok(FilmFormat::F68)
        } else if same_text(s, "69") {
            Ok(FilmFormat::F69)
        } else {
            match parse_u32(s) {
                Some(mm) => Ok(FilmFormat::Custom(mm)),
                None => {
                    let mut e = String::from_str("'");
                    e.append(s);
                    e.append("' is neither a film format nor a height in mm");
                    Err(e)
                },
            }
        }
    }

    /// What [`from_str`](Self::from_str) would take back for this format, for
    /// saying what is on offer
    pub fn to_string(&self) -> (r: String)
        ensures
            r@ == self.wording(),
    {
        match self {
            FilmFormat::IX240 => String::from_str("IX240"),
            FilmFormat::F135 => String::from_str("135"),
            FilmFormat::F135Half => String::from_str("half"),
            FilmFormat::F16 => String::from_str("16"),
            FilmFormat::F645 => String::from_str("645"),
            FilmFormat::F66 => String::from_str("66"),
            FilmFormat::F67 => String::from_str("67"),
            FilmFormat::F68 => String::from_str("68"),
            FilmFormat::F69 => String::from_str("69"),
            FilmFormat::Custom(mm) => decimal_text(*mm as u64),
        }
    }
}

/// A film format flag, by name or as a frame height in millimeters
pub fn parse_format(flag: &str) -> (r: Result<FilmFormat, String>)
    ensures
        match FilmFormat::named(flag@) {
            Some(format) => r == Ok::<FilmFormat, String>(format),
            None => r matches Err(e) && e@ == "'"@ + flag@
                + "' is neither a film format nor a height in mm"@,
        },
{
    FilmFormat::from_str(flag)
}

/// What [`parse_format`] would take for this format, for saying what is on offer
pub fn format_name(format: &FilmFormat) -> (r: String)
    ensures
        r@ == format.wording(),
{
    format.to_string()
}

/// Two digits spell what they say
proof fn lemma_two_digits(s: Seq<char>)
    requires
        s.len() == 2,
        is_digit(s[0]) && is_digit(s[1]),
    ensures
        digits_value(s) == (s[0] as u32 - 48) * 10 + (s[1] as u32 - 48),
{
    reveal_with_fuel(digits_value, 3);
    assert(s.drop_last().drop_last() =~= Seq::<char>::empty());
    assert(s.drop_last().last() == s[0]);
}

/// Three digits spell what they say
proof fn lemma_three_digits(s: Seq<char>)
    requires
        s.len() == 3,
        is_digit(s[0]) && is_digit(s[1]) && is_digit(s[2]),
    ensures
        digits_value(s) == (s[0] as u32 - 48) * 100 + (s[1] as u32 - 48) * 10 + (s[2] as u32 - 48),
{
    lemma_two_digits(s.drop_last());
    reveal_with_fuel(digits_value, 2);
}

/// The heights that are also the names of formats
pub open spec fn is_named_height(mm: u32) -> bool {
    mm == 135 || mm == 16 || mm == 645 || mm == 66 || mm == 67 || mm == 68 || mm == 69
}

/// A height that is no format's name, written in decimal, is no format's name
proof fn lemma_height_is_no_name(mm: u32)
    requires
        !is_named_height(mm),
    ensures
        FilmFormat::named(decimal(mm as nat)) == Some(FilmFormat::Custom(mm)),
{
    let s = decimal(mm as nat);
    lemma_decimal_digits(mm as nat);
    law_decimal_round_trip(mm);
    reveal_strlit("IX240");
    reveal_strlit("aps");
    reveal_strlit("APS");
    reveal_strlit("135");
    reveal_strlit("half");
    reveal_strlit("135half");
    reveal_strlit("16");
    reveal_strlit("645");
    reveal_strlit("66");
    reveal_strlit("67");
    reveal_strlit("68");
    reveal_strlit("69");
    assert(is_digit(s[0]));
    assert("IX240"@[0] == 'I' && "aps"@[0] == 'a' && "APS"@[0] == 'A' && "half"@[0] == 'h');
    assert("135half"@[3] == 'h' && "135half"@.len() == 7);
    if s == "135half"@ {
        assert(is_digit(s[3]));
    }
    lemma_three_digits("135"@);
    lemma_three_digits("645"@);
    lemma_two_digits("16"@);
    lemma_two_digits("66"@);
    lemma_two_digits("67"@);
    lemma_two_digits("68"@);
    lemma_two_digits("69"@);
}

/// What a format is called is taken back as that format
///
/// A height that is also a format's name is the one exception: a custom 135 is
/// taken back as 135 film.
pub proof fn law_format_round_trip(format: FilmFormat)
    requires
        format matches FilmFormat::Custom(mm) ==> !is_named_height(mm),
    ensures
        FilmFormat::named(format.wording()) == Some(format),
{
    reveal_strlit("IX240");
    reveal_strlit("aps");
    reveal_strlit("APS");
    reveal_strlit("135");
    reveal_strlit("half");
    reveal_strlit("135half");
    reveal_strlit("16");
    reveal_strlit("645");
    reveal_strlit("66");
    reveal_strlit("67");
    reveal_strlit("68");
    reveal_strlit("69");
    assert("IX240"@.len() == 5 && "aps"@.len() == 3 && "APS"@.len() == 3 && "135"@.len() == 3
        && "half"@.len() == 4 && "135half"@.len() == 7 && "16"@.len() == 2 && "645"@.len() == 3
        && "66"@.len() == 2 && "67"@.len() == 2 && "68"@.len() == 2 && "69"@.len() == 2);
    assert("aps"@[0] == 'a' && "APS"@[0] == 'A' && "135"@[0] == '1' && "645"@[0] == '6');
    assert("16"@[0] == '1' && "66"@[0] == '6' && "67"@[0] == '6' && "68"@[0] == '6' && "69"@[0]
        == '6');
    assert("66"@[1] == '6' && "67"@[1] == '7' && "68"@[1] == '8' && "69"@[1] == '9');
    if let FilmFormat::Custom(mm) = format {
        lemma_height_is_no_name(mm);
    }
}

/// Half frame is two frames in the space one full frame takes
pub proof fn law_two_halves_are_one_frame()
    ensures
        FilmFormat::F135Half.tenths() * 2 == FilmFormat::F135.tenths(),
{
}

/// A holder that fixes the format offers no choice of one
pub proof fn law_a_fixed_format_is_no_choice(holder_id: u8)
    ensures
        !(FilmFormat::of_holder(holder_id) is Some && FilmFormat::choices_of(holder_id) is Some),
{
}

/// How much film each format exposes, in tenths of a millimeter
pub proof fn law_how_high_the_frames_are(format: FilmFormat, mm: u32)
    ensures
        format is IX240 ==> format.tenths() == 302,
        format is F135 ==> format.tenths() == 10 * 36,
        format is F135Half ==> format.tenths() == 10 * 18,
        format is F16 ==> format.tenths() == 10 * 20,
        format is F645 ==> format.tenths() == 415,
        format is F66 ==> format.tenths() == 10 * 56,
        format is F67 ==> format.tenths() == 695,
        format is F68 ==> format.tenths() == 10 * 76,
        format is F69 ==> format.tenths() == 10 * 84,
        format == FilmFormat::Custom(mm) ==> format.tenths() == 10 * mm,
        format.sane() <==> format.tenths() < u32::MAX - 4,
{
}

/// Which formats the holders and the adapters fix, and which a holder leaves
/// open
pub proof fn law_what_a_holder_or_adapter_takes(id: u8)
    ensures
        FilmFormat::of_holder(id) == Some(FilmFormat::F16) <==> id == 18,
        FilmFormat::of_holder(id) == Some(FilmFormat::F645) <==> id == 25,
        FilmFormat::of_holder(id) == Some(FilmFormat::F66) <==> id == 26,
        FilmFormat::of_holder(id) == Some(FilmFormat::F67) <==> id == 27,
        FilmFormat::of_holder(id) == Some(FilmFormat::F68) <==> id == 28,
        FilmFormat::of_holder(id) == Some(FilmFormat::F69) <==> id == 29,
        FilmFormat::of_holder(id) is Some <==> id == 18 || 25 <= id <= 29,
        FilmFormat::of_adapter(id) == Some(FilmFormat::F135) <==> id == 49 || id == 50,
        FilmFormat::of_adapter(id) == Some(FilmFormat::IX240) <==> id == 53,
        FilmFormat::of_adapter(id) is Some <==> id == 49 || id == 50 || id == 53,
        FilmFormat::choices_of(id) is Some <==> 20 <= id <= 24,
        FilmFormat::choices_of(id) matches Some(choices) ==> {
            &&& choices.first() == FilmFormat::F66 && choices[1] == FilmFormat::F67
            &&& choices.last() == FilmFormat::F69
            &&& id < 22 ==> choices.len() == 3
            &&& id >= 22 ==> choices.len() == 4 && choices[2] == FilmFormat::F68
        },
{
}

/// What is loaded: the holder on a medium format unit and wherever no adapter
/// is in, and the connected adapter otherwise
pub proof fn law_what_says_what_is_loaded(caps: &Capabilities)
    ensures
        caps.identity.medium_format() ==> FilmFormat::loaded_id(caps) == caps.address.holder_id,
        caps.address.adapter_id is None || caps.address.adapter_id == Some(0u8)
            ==> FilmFormat::loaded_id(caps) == caps.address.holder_id,
        !caps.identity.medium_format() && (caps.address.adapter_id matches Some(id) && id != 0)
            ==> FilmFormat::loaded_id(caps) == caps.address.connected_adapter,
{
}

/// Apart from what a format is called, APS and half frame have other names, and
/// what is neither is a height in millimeters or nothing
pub proof fn law_what_else_names_a_format(s: Seq<char>)
    ensures
        s == "aps"@ || s == "APS"@ || s == "IX240"@ <==> FilmFormat::named(s) == Some(
            FilmFormat::IX240,
        ),
        s == "half"@ || s == "135half"@ <==> FilmFormat::named(s) == Some(FilmFormat::F135Half),
        FilmFormat::named(s) is None ==> parsed_u32(s) is None,
        FilmFormat::named(s) matches Some(FilmFormat::Custom(mm)) ==> parsed_u32(s) == Some(mm),
{
    reveal_strlit("IX240");
    reveal_strlit("aps");
    reveal_strlit("APS");
    reveal_strlit("135");
    reveal_strlit("half");
    reveal_strlit("135half");
    assert("IX240"@.len() == 5 && "aps"@.len() == 3 && "APS"@.len() == 3 && "135"@.len() == 3
        && "half"@.len() == 4 && "135half"@.len() == 7);
    assert("aps"@[0] == 'a' && "APS"@[0] == 'A' && "135"@[0] == '1');
}

/// Names are listed in their order, with a comma and a space between two
pub proof fn law_names_are_joined_by_commas(formats: Seq<FilmFormat>, n: nat)
    requires
        1 <= n < formats.len(),
    ensures
        names_wording(formats, 1) == formats[0].wording(),
        names_wording(formats, n + 1) == names_wording(formats, n) + seq![',', ' ']
            + formats[n as int].wording(),
{
    reveal_strlit(", ");
    assert(", "@ =~= seq![',', ' ']);
}

/// What is said where a holder leaves the format open: what it takes, where that
/// is known
pub proof fn law_what_an_open_holder_is_told(id: u8)
    ensures
        20 <= id <= 24 ==> FilmFormat::open_wording(id) == "this holder does not fix it"@
            + (" (try: "@ + names_wording(
            FilmFormat::choices_of(id)->0,
            FilmFormat::choices_of(id)->0.len(),
        ) + ")"@),
        id < 20 || id > 24 ==> FilmFormat::open_wording(id) == "this holder does not fix it"@,
{
    assert("this holder does not fix it"@ + Seq::<char>::empty()
        =~= "this holder does not fix it"@);
}

/// A height in millimeters is the nearest to that in tenths, and one in dots the
/// nearest to that at so many dots an inch, as far as 32 bits hold it
pub proof fn law_heights_are_rounded(format: FilmFormat, dpi: u16, mm: u32, dots: u32)
    requires
        format.tenths() <= 0x1_0000,
        call_ensures(FilmFormat::height_mm, (format,), mm),
        call_ensures(FilmFormat::height_dots, (format, dpi), dots),
    ensures
        -5 < 10 * mm - format.tenths() <= 5,
        -127 < 254 * dots - format.tenths() * dpi <= 127,
{
    let tenths = format.tenths();
    assert(0 <= tenths * dpi <= 0x1_0000 * 0xFFFF) by (nonlinear_arith)
        requires
            0 <= tenths <= 0x1_0000,
            dpi <= 0xFFFF,
    ;
}

/// A format that is asked for wins; without one the holder's decides, then the
/// adapter's, and where neither does the operator is asked
pub proof fn law_which_format_is_taken(
    explicit: Option<FilmFormat>,
    caps: &Capabilities,
    r: Result<FilmFormat, Error>,
)
    requires
        call_ensures(FilmFormat::resolve, (explicit, caps), r),
    ensures
        explicit matches Some(format) ==> r == Ok::<FilmFormat, Error>(format),
        explicit is None ==> (r is Ok <==> (FilmFormat::loaded_id(caps) matches Some(id) && (id == 18
            || 25 <= id <= 29 || id == 49 || id == 50 || id == 53))),
        explicit is None && FilmFormat::loaded_id(caps) == Some(18u8) ==> r == Ok::<
            FilmFormat,
            Error,
        >(FilmFormat::F16),
        explicit is None && FilmFormat::loaded_id(caps) == Some(26u8) ==> r == Ok::<
            FilmFormat,
            Error,
        >(FilmFormat::F66),
        explicit is None && FilmFormat::loaded_id(caps) == Some(53u8) ==> r == Ok::<
            FilmFormat,
            Error,
        >(FilmFormat::IX240),
{
}

} // verus!
