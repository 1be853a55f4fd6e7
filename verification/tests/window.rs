//! Window descriptors, and the sets of them a scan takes

use nkscan::protocol::caps::address::Address;
use nkscan::protocol::caps::identity::Identity;
use nkscan::protocol::caps::other::Features;
use nkscan::protocol::caps::set_window::{
    ColorInterleaving, ScanKind, ScanMode, SetWindowFunction,
};
use nkscan::protocol::caps::{Capabilities, Page};
use nkscan::protocol::window::{validate_set, Channel, Composition, Flags, Window, LENGTH};

/// The five descriptors an LS-9000 reports at power-on, header stripped.
/// Real bytes: full frame, 4000 dpi, per-channel exposures, and an
/// infrared window
const LS9000: &[u8] = &[
    // id 0, default color
    0x00, 0x00, 0x0F, 0xA0, 0x0F, 0xA0, 0x00, 0x00, 0x00, 0x00, 0x00, 0x00, 0x00, 0x00, 0x00,
    0x00, 0x27, 0x10, 0x00, 0x00, 0x36, 0x24, 0x00, 0x00, 0x00, 0x02, 0x10, 0x00, 0x00, 0x00,
    0x00, 0x00, 0x00, 0x00, 0x00, 0x00, 0x00, 0x00, 0x00, 0x00, 0x00, 0x01, 0x01, 0x02, 0x02,
    0xFF, 0x00, 0x00, 0xC6, 0x9A, // id 1, R
    0x01, 0x00, 0x0F, 0xA0, 0x0F, 0xA0, 0x00, 0x00, 0x00, 0x00, 0x00, 0x00, 0x00, 0x00, 0x00,
    0x00, 0x27, 0x10, 0x00, 0x00, 0x36, 0x24, 0x00, 0x00, 0x00, 0x02, 0x10, 0x00, 0x00, 0x00,
    0x00, 0x00, 0x00, 0x00, 0x00, 0x00, 0x00, 0x00, 0x00, 0x00, 0x00, 0x01, 0x01, 0x02, 0x02,
    0xFF, 0x00, 0x01, 0x15, 0xD5, // id 9, infrared
    0x09, 0x00, 0x0F, 0xA0, 0x0F, 0xA0, 0x00, 0x00, 0x00, 0x00, 0x00, 0x00, 0x00, 0x00, 0x00,
    0x00, 0x27, 0x10, 0x00, 0x00, 0x36, 0x24, 0x00, 0x00, 0x00, 0x02, 0x10, 0x00, 0x00, 0x00,
    0x00, 0x00, 0x00, 0x00, 0x00, 0x00, 0x00, 0x00, 0x00, 0x00, 0x00, 0x01, 0x01, 0x02, 0x02,
    0xFF, 0x00, 0x01, 0x6B, 0x4C,
];

fn nth(n: usize) -> Window {
    Window::try_from(&LS9000[n * LENGTH..]).expect("descriptor")
}

// Three descriptors as they are sent, with the 8-byte SET WINDOW header
// stripped. The first two are the same 4000 dpi scan in the two sensor modes;
// the third is a 16x prescan

/// Normal CCD mode
const MULTI_LINE: &[u8] = &[
    0x01, 0x00, 0x0F, 0xA0, 0x0F, 0xA0, 0x00, 0x00, 0x02, 0x06, 0x00, 0x00, 0x29, 0x10,
    0x00, 0x00, 0x23, 0x04, 0x00, 0x00, 0x1A, 0x28, 0x00, 0x00, 0x00, 0x05, 0x10, 0x00,
    0x00, 0x00, 0x00, 0x00, 0x00, 0x00, 0x00, 0x00, 0x00, 0x00, 0x00, 0x00, 0x00, 0x81,
    0x01, 0x02, 0x40, 0xFF, 0x00, 0x07, 0xAB, 0xDD,
];

/// The mode called Super Fine
const SINGLE_LINE: &[u8] = &[
    0x09, 0x00, 0x0F, 0xA0, 0x0F, 0xA0, 0x00, 0x00, 0x02, 0x06, 0x00, 0x00, 0x48, 0xF0,
    0x00, 0x00, 0x23, 0x04, 0x00, 0x00, 0x33, 0x78, 0x00, 0x00, 0x00, 0x05, 0x10, 0x00,
    0x00, 0x00, 0x00, 0x00, 0x00, 0x00, 0x00, 0x00, 0x00, 0x00, 0x00, 0x00, 0x00, 0x81,
    0x01, 0x02, 0x02, 0xFF, 0x00, 0x08, 0x39, 0xDE,
];

/// The 666 dpi pass before a scan read sixteen times
const PRESCAN_16X: &[u8] = &[
    0x01, 0x00, 0x02, 0x9A, 0x01, 0x4D, 0x00, 0x00, 0x02, 0x06, 0x00, 0x00, 0x0E, 0xA0,
    0x00, 0x00, 0x23, 0x04, 0x00, 0x00, 0x33, 0x78, 0x00, 0x00, 0x00, 0x05, 0x10, 0x00,
    0x00, 0x00, 0x00, 0x00, 0x00, 0x00, 0x00, 0x00, 0x00, 0x00, 0x00, 0x00, 0xF0, 0x01,
    0x01, 0x14, 0x40, 0xFF, 0x00, 0x07, 0x55, 0xAB,
];

/// The sensor mode is byte 44 and nothing else: two scans at the same
/// resolution, same quality, same averaging, differing in that one field
#[test]
fn the_two_sensor_modes_differ_only_in_the_interleaving() {
    let multi = Window::try_from(MULTI_LINE).expect("descriptor");
    let single = Window::try_from(SINGLE_LINE).expect("descriptor");

    for w in [&multi, &single] {
        assert_eq!(w.resolution, (4000, 4000));
        assert_eq!(w.flags.bits(), Flags::AVERAGING | Flags::POSITIVE);
        assert_eq!(w.scanning_kind.bits(), ScanKind::IMAGE);
        assert_eq!(w.scanning_mode.bits(), ScanMode::NORMAL_QUALITY);
        assert_eq!(w.multiple_reading, 0);
        // Every window is one color, yet Nikon Scan asks for the RGB code
        assert_eq!(w.composition, Composition::MultilevelRGB);
    }

    assert_eq!(
        multi.color_interleaving.bits(),
        ColorInterleaving::MULTILINE_SIMULTANEOUS
    );
    assert_eq!(
        single.color_interleaving.bits(),
        ColorInterleaving::LINE_WITHOUT_DISTANCE
    );
}

/// Multisampling is a count in byte 40 and a mode bit in byte 43, together
#[test]
fn sixteen_times_is_fifteen_extra_reads_and_a_mode_bit() {
    let w = Window::try_from(PRESCAN_16X).expect("descriptor");
    assert_eq!(w.multiple_reading, 15);
    assert_eq!(
        w.scanning_mode.bits(),
        ScanMode::HIGH_SPEED | ScanMode::MULTI_READING
    );
    // High speed is what unsets averaging, and it is the preview that asks
    // for high speed. Resolution never selects it on its own
    assert_eq!(w.flags.bits(), Flags::POSITIVE);
    // Y resolution is sent as something else entirely, and ignored
    assert_eq!(w.resolution, (666, 333));
}

#[test]
fn a_power_on_descriptor_reads_the_whole_frame_at_full_resolution() {
    let w = nth(0);
    assert_eq!(w.resolution, (4000, 4000));
    assert_eq!(w.origin, (0, 0));
    // 10000 x 13860 at 4000 dpi is the 6x9 frame, matching Address's y boundary
    assert_eq!(w.size, (10000, 13860));
    assert_eq!(w.bpp, 16);
    assert_eq!(w.composition, Composition::MultilevelBW);
    assert_eq!(w.ae_value, 255);
    // The same flags SetWindowFunction advertises, so a window can be
    // checked against it
    assert_eq!(w.scanning_kind.bits(), ScanKind::IMAGE);
    assert_eq!(w.scanning_mode.bits(), ScanMode::NORMAL_QUALITY);
    assert_eq!(
        w.color_interleaving.bits(),
        ColorInterleaving::LINE_WITHOUT_DISTANCE
    );
    // Byte 41 is 01h at power-on: positive film, no averaging
    assert!(w.flags.contains(Flags::POSITIVE));
    assert!(!w.flags.contains(Flags::AVERAGING));
}

/// Exposures are per channel, and infrared needs nearly twice green's
#[test]
fn each_window_carries_its_own_exposure() {
    assert_eq!((nth(0).id, nth(0).exposure), (0, 50842));
    assert_eq!((nth(1).id, nth(1).exposure), (1, 71125));
    assert_eq!((nth(2).id, nth(2).exposure), (9, 93004));
}

/// Whatever we send has to survive the trip, or SET WINDOW will not match
/// what GET WINDOW reported
#[test]
fn descriptors_round_trip_byte_for_byte() {
    for n in 0..3 {
        let bytes = &LS9000[n * LENGTH..(n + 1) * LENGTH];
        assert_eq!(nth(n).to_bytes(), bytes, "descriptor {n}");
    }
}

#[test]
fn a_short_descriptor_is_refused() {
    assert!(Window::try_from(&LS9000[..LENGTH - 1]).is_err());
}


/// Capabilities from an Address page, with the other pages left minimal
fn caps_from(page: Vec<u8>) -> Capabilities {
    let address = Address::try_from(&Page::new(Address::PAGE_CODE, page).unwrap()).unwrap();

    let mut d = vec![0u8; 28];
    d[1] = SetWindowFunction::PAGE_CODE;
    d[3] = 24;
    d[4] = 0x1B; // image, thumbnail, setup 2, histogram
    d[5] = 0x16; // normal quality, high speed, multi reading
    d[6] = 0x42; // line ordering and multi-line
    d[10] = 0x20; // 16 bit
    let set_window =
        SetWindowFunction::try_from(&Page::new(SetWindowFunction::PAGE_CODE, d).unwrap())
            .unwrap();

    let mut e = vec![0u8; 39];
    e[1] = Features::PAGE_CODE;
    e[3] = 35;
    let features = Features::try_from(&Page::new(Features::PAGE_CODE, e).unwrap()).unwrap();

    let mut i = vec![0u8; 36];
    i[4] = 31;

    Capabilities {
        identity: Identity::parse(&i).unwrap(),
        address,
        features,
        set_window,
        ccd: None,
        frames: None,
    }
}

fn set(ids: &[u8], composition: Composition) -> Vec<Window> {
    ids.iter()
        .map(|&id| {
            let mut w = Window::try_from(&[0u8; LENGTH][..]).unwrap();
            w.id = id;
            w.composition = composition;
            w
        })
        .collect()
}

/// What the hardware refused with common error 2: three channels declared
/// as a one-plane composition
#[test]
fn the_composition_has_to_carry_one_plane_per_channel() {
    assert!(validate_set(&set(&[1], Composition::MultilevelBW)).is_ok());
    assert!(validate_set(&set(&[1, 2, 3], Composition::MultilevelRGB)).is_ok());
    assert!(validate_set(&set(&[1, 2, 3], Composition::MultilevelBW)).is_err());
    assert!(validate_set(&set(&[1], Composition::MultilevelRGB)).is_err());
}

/// Infrared is not a color plane. Nikon Scan sends four windows against the
/// three-plane code whenever Digital ICE is on
#[test]
fn infrared_does_not_count_towards_the_planes() {
    assert!(
        validate_set(&set(
            &[Channel::Infrared.id(), 1, 2, 3],
            Composition::MultilevelRGB
        ))
        .is_ok()
    );
    assert!(
        validate_set(&set(
            &[Channel::Infrared.id(), 1],
            Composition::MultilevelBW
        ))
        .is_ok()
    );
    assert!(
        validate_set(&set(
            &[Channel::Infrared.id(), 1, 2],
            Composition::MultilevelRGB
        ))
        .is_err()
    );
}

/// Address publishes a separate resolution range for thumbnails, far below the
/// image ladder, and a thumbnail has to be checked against that one
#[test]
fn a_thumbnail_is_checked_against_the_thumbnail_ladder() {
    let mut p = vec![0u8; 91];
    p[1] = Address::PAGE_CODE;
    p[3] = 87;
    p[16] = 0x42;
    p[18..20].copy_from_slice(&4000u16.to_be_bytes());
    p[20..22].copy_from_slice(&4000u16.to_be_bytes());
    p[22..24].copy_from_slice(&666u16.to_be_bytes());
    p[24..28].copy_from_slice(&8963u32.to_be_bytes()); // X address max
    p[36..40].copy_from_slice(&8964u32.to_be_bytes()); // X boundary
    p[46..50].copy_from_slice(&34644u32.to_be_bytes()); // Y address max
    p[58..62].copy_from_slice(&13176u32.to_be_bytes()); // Y boundary
    p[70..72].copy_from_slice(&83u16.to_be_bytes());
    p[72..74].copy_from_slice(&83u16.to_be_bytes());
    p[83..85].copy_from_slice(&10000u16.to_be_bytes()); // CCD pixels
    p[85] = 12;
    p[86] = 3;
    let caps = caps_from(p);

    let mut w = Window::try_from(&[0u8; LENGTH][..]).unwrap();
    w.id = 1;
    w.composition = Composition::MultilevelBW;
    w.bpp = 16;
    w.size = (1000, 1000);
    w.scanning_mode = ScanMode::from_bits_truncate(ScanMode::NORMAL_QUALITY);
    w.color_interleaving =
        ColorInterleaving::from_bits_truncate(ColorInterleaving::LINE_WITHOUT_DISTANCE);

    // 83 dpi is off the image ladder but is the only thumbnail resolution
    w.scanning_kind = ScanKind::from_bits_truncate(ScanKind::IMAGE);
    w.resolution = (83, 83);
    assert!(w.validate(&caps).is_err());

    w.scanning_kind = ScanKind::from_bits_truncate(ScanKind::THUMBNAIL);
    assert!(w.validate(&caps).is_ok());

    // And an image resolution is not a thumbnail one
    w.resolution = (4000, 4000);
    assert!(w.validate(&caps).is_err());
}

/// "The default color is valid when only the default color is read"
#[test]
fn the_default_color_scans_alone_or_not_at_all() {
    assert!(validate_set(&set(&[Channel::Default.id()], Composition::MultilevelBW)).is_ok());
    assert!(
        validate_set(&set(
            &[Channel::Default.id(), 1, 3],
            Composition::MultilevelRGB
        ))
        .is_err()
    );
}

/// , which SCAN answers with 05h-2Ch-02h
#[test]
fn a_window_set_orders_every_color_or_none() {
    let ordered = |orders: &[u8]| {
        let mut windows = set(&[1, 2, 3], Composition::MultilevelRGB);
        for (w, &o) in windows.iter_mut().zip(orders) {
            w.color_ordering = o;
        }
        validate_set(&windows)
    };
    assert!(ordered(&[0, 0, 0]).is_ok());
    assert!(ordered(&[1, 2, 3]).is_ok());
    assert!(ordered(&[1, 0, 3]).is_err());
    assert!(ordered(&[1, 2, 2]).is_err());
}

/// calls a disagreement an invalid combination of windows, but the
/// per-channel exposure is exactly what a set is meant to differ in
#[test]
fn a_set_agrees_on_everything_but_its_exposures() {
    let mut windows = set(&[1, 2, 3], Composition::MultilevelRGB);
    windows[2].exposure = 71125;
    assert!(validate_set(&windows).is_ok());

    windows[2].size.0 = 9000;
    assert!(validate_set(&windows).is_err());
}

#[test]
fn an_empty_window_set_is_refused() {
    assert!(validate_set(&[]).is_err());
}
