//! What a unit's pages refuse in a window, and why

use nkscan::error::Error;
use nkscan::protocol::caps::address::Address;
use nkscan::protocol::caps::identity::Identity;
use nkscan::protocol::caps::other::Features;
use nkscan::protocol::caps::set_window::{
    BitDepth, ColorInterleaving, ScanKind, ScanMode, SetWindowFunction,
};
use nkscan::protocol::caps::{Capabilities, Page};
use nkscan::protocol::image::Layout;
use nkscan::protocol::decode::Decoder;
use nkscan::protocol::window::{
    deepest_depth, validate_set, Channel, Composition, Flags, GetWindowHeader, SetWindowHeader,
    TooShort, Warning, Window, LENGTH,
};

fn put16(p: &mut [u8], i: usize, v: u16) {
    p[i..i + 2].copy_from_slice(&v.to_be_bytes());
}

fn put32(p: &mut [u8], i: usize, v: u32) {
    p[i..i + 4].copy_from_slice(&v.to_be_bytes());
}

/// A unit with a 10000 pixel sensor and 16 bits, whose X runs to 8963
fn caps() -> Capabilities {
    let mut p = vec![0u8; 91];
    p[1] = Address::PAGE_CODE;
    p[3] = 87;
    p[16] = 0x42;
    put16(&mut p, 18, 4000);
    put16(&mut p, 20, 4000);
    put16(&mut p, 22, 666);
    put32(&mut p, 24, 8963);
    put32(&mut p, 36, 8964);
    put32(&mut p, 46, 34644);
    put32(&mut p, 58, 13176);
    put16(&mut p, 70, 83);
    put16(&mut p, 72, 83);
    put16(&mut p, 83, 10000);
    p[85] = 12;
    p[86] = 3;
    caps_with(p, 0x16)
}

fn caps_with(address: Vec<u8>, mode: u8) -> Capabilities {
    let mut d = vec![0u8; 28];
    d[1] = SetWindowFunction::PAGE_CODE;
    d[3] = 24;
    d[4] = 0x1B;
    d[5] = mode;
    d[6] = 0x42;
    d[10] = 0x20;
    d[11] = 2;
    d[14] = 0x40;
    d[15] = 9;
    d[16] = 4;
    put32(&mut d, 17, 100);
    put32(&mut d, 21, 5000);
    let mut e = vec![0u8; 39];
    e[1] = Features::PAGE_CODE;
    Capabilities {
        identity: Identity::parse(&[0u8; 36]).unwrap(),
        address: Address::try_from(&Page::new(Address::PAGE_CODE, address).unwrap()).unwrap(),
        features: Features::try_from(&Page::new(Features::PAGE_CODE, e).unwrap()).unwrap(),
        set_window: SetWindowFunction::try_from(
            &Page::new(SetWindowFunction::PAGE_CODE, d).unwrap(),
        )
        .unwrap(),
        ccd: None,
        frames: None,
    }
}

/// A window the unit accepts
fn good() -> Window {
    let mut w = Window::try_from(&[0u8; LENGTH][..]).unwrap();
    w.id = 1;
    w.resolution = (4000, 4000);
    w.size = (1000, 1000);
    w.composition = Composition::MultilevelBW;
    w.bpp = 16;
    w.scanning_kind = ScanKind::from_bits_truncate(ScanKind::IMAGE);
    w.scanning_mode = ScanMode::from_bits_truncate(ScanMode::NORMAL_QUALITY);
    w.color_interleaving =
        ColorInterleaving::from_bits_truncate(ColorInterleaving::LINE_WITHOUT_DISTANCE);
    w
}

fn why(outcome: Result<(), Error>) -> (&'static str, String) {
    match outcome {
        Err(Error::Unsupported { op, reason }) => (op, reason),
        other => panic!("not a refusal: {other:?}"),
    }
}

/// What changing one thing about a good window is refused with
fn refused(change: fn(&mut Window)) -> (&'static str, String) {
    let mut w = good();
    change(&mut w);
    why(w.validate(&caps()))
}

#[test]
fn an_accepted_window_survives_the_trip() {
    let w = good();
    assert!(w.validate(&caps()).is_ok());
    assert_eq!(Window::try_from(&w.to_bytes()[..]), Ok(w));
}

#[test]
fn each_field_is_refused_in_its_own_words() {
    assert_eq!(
        refused(|w| w.id = 4),
        (
            "window identifier",
            "4 is not a scanning color: 2-10-4 defines 0 to 3, and 9 is infrared".into()
        )
    );
    assert_eq!(refused(|w| w.id = 77).0, "window identifier");
    assert_eq!(
        refused(|w| w.resolution.0 = 500),
        (
            "resolution",
            "500 dpi is outside the 666 to 4000 this unit offers for images".into()
        )
    );
    assert_eq!(
        refused(|w| w.scanning_kind = ScanKind::from_bits_truncate(ScanKind::THUMBNAIL)),
        (
            "resolution",
            "4000 dpi is outside the 83 to 83 this unit offers for thumbnails".into()
        )
    );
    assert_eq!(
        refused(|w| w.origin.0 = 8964),
        ("window origin", "X 8964 is outside 0 to 8963".into())
    );
    assert_eq!(
        refused(|w| w.origin.1 = 40000),
        ("window origin", "Y 40000 is outside 0 to 34644".into())
    );
    assert_eq!(refused(|w| w.size.0 = 0), ("window size", "X is empty".into()));
    assert_eq!(refused(|w| w.size.1 = 0), ("window size", "Y is empty".into()));
    assert_eq!(
        refused(|w| {
            w.origin.0 = 100;
            w.size.0 = 9901
        }),
        (
            "window size",
            "X 9901 from 100 runs past the 10000 pixel sensor".into()
        )
    );
    assert_eq!(
        refused(|w| w.size.0 = u32::MAX).1,
        "X 4294967295 from 0 runs past the 10000 pixel sensor"
    );
    assert_eq!(
        refused(|w| w.scanning_kind = ScanKind::from_bits_truncate(0)),
        (
            "scanning kind",
            "asked for 0x00 of the 0x1b this unit offers".into()
        )
    );
    assert_eq!(
        refused(|w| w.scanning_mode = ScanMode::from_bits_truncate(ScanMode::REVERSE_DIRECTION)),
        (
            "scanning mode",
            "asked for 0x40 of the 0x16 this unit offers".into()
        )
    );
    assert_eq!(
        refused(|w| w.color_interleaving =
            ColorInterleaving::from_bits_truncate(ColorInterleaving::PLANE)),
        (
            "color interleaving",
            "asked for 0x04 of the 0x42 this unit offers".into()
        )
    );
    assert_eq!(
        refused(|w| w.bpp = 9),
        (
            "pixel composition",
            "9 bits is not a depth 2-2-2-4 defines".into()
        )
    );
    assert_eq!(
        refused(|w| w.bpp = 14),
        ("pixel composition", "this unit does not offer 14 bits".into())
    );
    assert_eq!(
        refused(|w| w.composition = Composition::Unknown(7)),
        (
            "image composition",
            "2-10-6 supports neither Unknown(7) nor anything else it lists past the two multi-level codes"
                .into()
        )
    );
    assert_eq!(
        refused(|w| w.setup_mode = 3),
        ("setup mode", "3 is past the 2 this unit offers".into())
    );
    assert_eq!(
        refused(|w| w.multiple_reading = 16),
        (
            "multiple reading",
            "16 does not fit the nibble byte 40 gives it".into()
        )
    );
    assert_eq!(
        refused(|w| w.multiple_reading = 3),
        (
            "multiple reading",
            "4 readings needs ScanMode(MULTI_READING) in the scanning mode, which is ScanMode(NORMAL_QUALITY)"
                .into()
        )
    );
    assert_eq!(
        refused(|w| w.color_ordering = 4),
        ("color ordering", "4 is not a read position".into())
    );
    assert_eq!(
        refused(|w| w.exposure = 99),
        (
            "exposure",
            "99 is outside the 100 to 5000 ten-nanosecond units this unit offers".into()
        )
    );
    assert_eq!(
        refused(|w| w.padding_type = 1),
        ("padding type", "2-10 defines this as 0, not 1".into())
    );
    assert_eq!(refused(|w| w.compression_type = 2).0, "compression type");
    assert_eq!(
        refused(|w| w.compression_argument = 2).0,
        "compression argument"
    );
    assert_eq!(
        refused(|w| w.bit_ordering = 300),
        ("bit ordering", "2-10 defines this as 0, not 300".into())
    );
}

#[test]
fn what_a_unit_does_not_have_is_refused() {
    let mut page = vec![0u8; 91];
    page[1] = Address::PAGE_CODE;
    page[3] = 87;
    put16(&mut page, 20, 4000);
    put16(&mut page, 42, 4000);
    put32(&mut page, 36, 500);
    put32(&mut page, 46, 100);
    put16(&mut page, 83, 10000);
    let plain = caps_with(page, 0x02);
    let mut w = good();
    // Equal ends on X: it has to be read whole
    assert_eq!(
        why(w.validate(&plain)),
        (
            "window size",
            "X cannot be cropped, so it has to be exactly 500".into()
        )
    );
    w.size.0 = 500;
    assert!(w.validate(&plain).is_ok());
    w.multiple_reading = 1;
    assert_eq!(
        why(w.validate(&plain)),
        ("multiple reading", "this unit reads each line once".into())
    );
    assert!(!plain.address.x_axis.croppable());
    assert!(plain.address.y_axis.croppable());
}

#[test]
fn a_setup_mode_needs_setup_scanning() {
    let mut c = caps();
    c.set_window.kind = ScanKind::from_bits_truncate(ScanKind::IMAGE);
    let mut w = good();
    w.setup_mode = 1;
    assert_eq!(
        why(w.validate(&c)),
        (
            "setup mode",
            "this unit does not offer setup scanning 2, which is what makes byte 41 bits 3-1 mean anything"
                .into()
        )
    );
}

#[test]
fn exposure_zero_is_the_units_choice() {
    let mut w = good();
    for exposure in [0, 100, 5000] {
        w.exposure = exposure;
        assert!(w.validate(&caps()).is_ok(), "{exposure}");
    }
}

fn set(ids: &[u8], composition: Composition) -> Vec<Window> {
    ids.iter()
        .map(|&id| {
            let mut w = good();
            w.id = id;
            w.composition = composition;
            w
        })
        .collect()
}

#[test]
fn a_set_is_refused_in_words() {
    assert_eq!(
        why(validate_set(&[])),
        ("window set", "a scan needs at least one window".into())
    );
    assert_eq!(
        why(validate_set(&set(&[0, 1], Composition::MultilevelRGB))).1,
        "the default color cannot be scanned alongside another"
    );
    let mut odd = set(&[1, 2, 3], Composition::MultilevelRGB);
    odd[1].bpp = 8;
    odd[2].bpp = 8;
    assert_eq!(
        why(validate_set(&odd)),
        (
            "window set",
            "window 2 differs from window 1 in a parameter common to the set".into()
        )
    );
    let mut gap = set(&[1, 2, 3], Composition::MultilevelRGB);
    gap[0].color_ordering = 1;
    gap[2].color_ordering = 2;
    assert_eq!(
        why(validate_set(&gap)),
        (
            "color ordering",
            "window 2 leaves the order to the unit while the rest of the set pins it".into()
        )
    );
    let mut twice = set(&[1, 2, 3], Composition::MultilevelRGB);
    for (w, o) in twice.iter_mut().zip([3, 1, 3]) {
        w.color_ordering = o;
    }
    assert_eq!(
        why(validate_set(&twice)),
        ("color ordering", "read position 3 is claimed twice".into())
    );
    assert_eq!(
        why(validate_set(&set(&[1], Composition::DitheredBW))),
        (
            "image composition",
            "DitheredBW puts no known number of planes in the stream".into()
        )
    );
    assert_eq!(
        why(validate_set(&set(&[9, 1, 2], Composition::MultilevelRGB))),
        (
            "image composition",
            "MultilevelRGB carries 3 plane(s) and this set scans 2 color channel(s)".into()
        )
    );
}

/// Whatever is not common to a set is each window's own
#[test]
fn a_set_is_judged_by_what_is_common() {
    let mut a = set(&[9, 1, 2, 3], Composition::MultilevelRGB);
    assert!(validate_set(&a).is_ok());
    for (n, w) in a.iter_mut().enumerate() {
        w.exposure = 1000 + n as u32;
        w.resolution.1 = n as u16;
        w.brightness = n as u8;
    }
    assert!(validate_set(&a).is_ok());
}

/// An accepted set's planes are what decoding its channels makes
#[test]
fn an_accepted_set_decodes_into_its_planes() {
    let windows = set(&[9, 1, 2, 3], Composition::MultilevelRGB);
    assert!(validate_set(&windows).is_ok());
    let l = Layout::single_line(2, 2, windows.iter().map(|w| w.id).collect());
    assert_eq!(Decoder::new(&l).unwrap().colors(), 3);
    assert_eq!(l.colors(), vec![1, 2, 3]);
    assert_eq!(l.readouts(), 4);
}

#[test]
fn the_deepest_depth_on_offer_is_found() {
    for (bits, deepest) in [
        (0x3F, Some(16)),
        (0x1F, Some(14)),
        (0x0F, Some(12)),
        (0x07, Some(10)),
        (0x03, Some(8)),
        (0x01, Some(1)),
        (0x12, Some(14)),
        (0x00, None),
    ] {
        assert_eq!(deepest_depth(BitDepth::from_bits_truncate(bits)), deepest);
    }
}

#[test]
fn channels_and_compositions_keep_their_codes() {
    for id in 0..=255u8 {
        assert_eq!(Channel::from(id).id(), id);
        assert_eq!(u8::from(Composition::from(id)), id);
    }
    assert!(!Channel::Infrared.is_color());
    assert!(Channel::Other(5).is_color());
    assert_eq!(Channel::Red.visible_index(), Some(0));
    assert_eq!(Channel::Default.visible_index(), Some(1));
    assert_eq!(Channel::Green.visible_index(), Some(1));
    assert_eq!(Channel::Blue.visible_index(), Some(2));
    assert_eq!(Channel::Infrared.visible_index(), None);
}

/// Every byte of a descriptor that is not reserved survives, both ways
#[test]
fn a_busy_descriptor_round_trips() {
    let mut d = [0u8; LENGTH];
    for (n, b) in d.iter_mut().enumerate() {
        *b = (n * 37 + 11) as u8;
    }
    d[1] = 1;
    d[34..40].fill(0);
    d[41] &= !0x10;
    d[42] &= 0x7F;
    d[43] &= 0x57;
    d[44] &= 0x77;
    let w = Window::try_from(&d[..]).unwrap();
    assert_eq!(w.to_bytes(), d);
    assert_eq!(Window::try_from(&w.to_bytes()[..]), Ok(w));
    assert!(w.auto);
    assert_eq!(w.setup_mode, d[41] >> 1 & 7);
    assert_eq!(w.flags.bits(), d[41] & (Flags::AVERAGING | Flags::MATRIX | Flags::FILTER | Flags::POSITIVE));
}

#[test]
fn headers_frame_descriptors() {
    let bytes = [0x00, 0x3A, 0, 0, 0, 0, 0x00, 0x32, 0xAA, 0xBB];
    let (header, rest) = GetWindowHeader::from_bytes(&bytes).unwrap();
    assert_eq!(
        header,
        GetWindowHeader {
            data_length: 58,
            descriptor_length: 50
        }
    );
    assert_eq!(rest, &[0xAA, 0xBB]);
    assert_eq!(
        GetWindowHeader::from_bytes(&bytes[..7]),
        Err(TooShort { got: 7 })
    );
    assert_eq!(
        SetWindowHeader {
            descriptor_length: 0x0132
        }
        .to_bytes(),
        [0, 0, 0, 0, 0, 0, 1, 0x32]
    );
    assert_eq!(
        TooShort { got: 49 }.message(),
        "window descriptor was 49 bytes, need 50"
    );
}

#[test]
fn flags_are_shown_by_name() {
    assert_eq!(ScanMode::from_bits_truncate(0).text(), "ScanMode(0x0)");
    assert_eq!(
        ScanMode::from_bits_truncate(0xFF).text(),
        "ScanMode(HIGH_QUALITY | NORMAL_QUALITY | HIGH_SPEED | MULTI_READING | REVERSE_DIRECTION)"
    );
    assert_eq!(
        ColorInterleaving { bits: 0x88 }.text(),
        "ColorInterleaving(0x88)"
    );
    assert_eq!(
        ColorInterleaving { bits: 0x84 }.text(),
        "ColorInterleaving(PLANE | 0x80)"
    );
}

/// What a window is warned of but not refused for
#[test]
fn a_window_past_the_opening_or_across_a_block_is_warned_of() {
    let caps = caps();
    let multi = ColorInterleaving::from_bits_truncate(ColorInterleaving::MULTILINE_SIMULTANEOUS);
    let single = ColorInterleaving::from_bits_truncate(ColorInterleaving::LINE_WITHOUT_DISTANCE);
    let mut w = good();
    w.origin = (0, 0);
    w.size = (8964, 13176);
    w.color_interleaving = multi;
    assert!(w.validate(&caps).is_ok());
    assert_eq!(w.warnings(&caps), vec![]);

    w.size = (8965, 13177);
    let x = Warning::PastOpening {
        name: 'X',
        size: 8965,
        opening: 8964,
    };
    let y = Warning::PastOpening {
        name: 'Y',
        size: 13177,
        opening: 13176,
    };
    let block = Warning::SplitBlock {
        width: 8965,
        block: 12,
    };
    assert!(w.validate(&caps).is_ok());
    assert_eq!(w.warnings(&caps), vec![x, y, block]);
    assert_eq!(x.message(), "window reaches past the adapter's opening");
    assert_eq!(block.message(), "width is not a whole number of line-gap blocks");

    // One row at a time has no blocks to split
    w.color_interleaving = single;
    assert_eq!(w.warnings(&caps), vec![x, y]);

    // Nothing is said past what is refused
    w.color_interleaving = multi;
    w.size.1 = 0;
    assert_eq!(w.warnings(&caps), vec![x]);
    w.size.1 = 13177;
    w.origin.0 = 5000;
    assert_eq!(w.warnings(&caps), vec![x, y]);
    w.id = 7;
    assert_eq!(w.warnings(&caps), vec![]);
}
