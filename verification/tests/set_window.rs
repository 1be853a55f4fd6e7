//! What SET WINDOW can do

use nkscan::protocol::caps::set_window::{
    AnalogControl, BitDepth, Component, ScanKind, ScanMode, SetWindowFunction,
};
use nkscan::protocol::caps::Page;
use nkscan::range::RangeInclusive;

/// Read off a real LS-9000 ED
const LS9000: &[u8] = &[
    0x06, 0xD1, 0x00, 0x18, 0x1B, 0x16, 0x42, 0x06, 0x00, 0x00, 0x20, 0x00, 0x00, 0x00, 0x40,
    0x09, 0x04, 0x00, 0x00, 0x00, 0x01, 0x03, 0xFF, 0xFF, 0xFF, 0x00, 0x00, 0x00,
];

/// An LS-5000 with a strip adapter
fn ls5000() -> Vec<u8> {
    let mut p = LS9000.to_vec();
    p[4] = 0x03;
    p[5] = 0x52;
    p[8] = 0x20;
    p[9] = 0x43;
    p
}

fn parse(bytes: &[u8]) -> SetWindowFunction {
    let page = Page::new(SetWindowFunction::PAGE_CODE, bytes.to_vec()).expect("page");
    SetWindowFunction::try_from(&page).expect("set window")
}

/// One has high speed, the other reverse direction, neither has both.
/// The LS-9000's prose claims reverse direction; its bits disagree
#[test]
fn the_families_offer_different_scan_modes() {
    let nine = parse(LS9000).mode;
    let five = parse(&ls5000()).mode;

    assert!(nine.contains(ScanMode::HIGH_SPEED));
    assert!(!nine.contains(ScanMode::REVERSE_DIRECTION));
    assert!(five.contains(ScanMode::REVERSE_DIRECTION));
    assert!(!five.contains(ScanMode::HIGH_SPEED));
}

/// 0 in a nibble means "any color here". The LS-5000 pins three positions,
/// and its fourth is the only place there is a channel past blue. That is an
/// ordering code, not a window id
#[test]
fn color_ordering_is_free_on_one_and_constrained_on_the_other() {
    assert_eq!(parse(LS9000).order, [None; 4]);

    let five = parse(&ls5000());
    assert_eq!(
        five.order,
        [
            None,
            Some(Component::Green),
            Some(Component::Blue),
            Some(Component::Other(4)),
        ]
    );
    assert!(five.permits(0, Component::Red));
    assert!(!five.permits(1, Component::Red));
}

/// Bits 3 and 4 of byte 4 are set on hardware. Setup Scan 2 is corroborated by
/// byte 11, which is effective only when that bit is set
#[test]
fn hardware_sets_scan_kinds_its_own_spec_calls_reserved() {
    let real = parse(LS9000);
    assert!(real.kind.contains(ScanKind::SETUP_2 | ScanKind::HISTOGRAM));
    assert_eq!(real.setup_modes, 0);
}

/// Every field before the analog control is extendable, so a unit that
/// carries any of them on moves the whole tail
#[test]
fn an_extended_scanning_kind_moves_the_analog_side_along() {
    let mut p = LS9000.to_vec();
    p.insert(5, 0x00); // the byte the scanning kind extends into
    p[4] |= 0x80;
    p[3] += 1;

    let moved = parse(&p);
    let flat = parse(LS9000);
    assert_eq!(moved.kind, flat.kind);
    assert_eq!(moved.mode, flat.mode);
    assert_eq!(moved.depth, flat.depth);
    assert_eq!(moved.aic, flat.aic);
    assert_eq!(moved.exposure, flat.exposure);
}

/// A real LS-8000 ED, which reaches the same fields with a 14 bit depth
#[test]
fn the_walk_lands_on_a_second_unit() {
    const LS8000: &[u8] = &[
        0x06, 0xD1, 0x00, 0x17, 0x77, 0x16, 0x42, 0x46, 0x00, 0x00, 0x12, 0x00, 0x00, 0x00,
        0x40, 0x09, 0x04, 0x00, 0x00, 0x00, 0x01, 0x03, 0xFF, 0xFF, 0xFF, 0x00, 0x00, 0x00,
    ];
    let real = parse(LS8000);
    assert_eq!(real.aic.bits(), AnalogControl::EXPOSURE_VALUE);
    assert_eq!(real.aic_len, 9);
    assert_eq!(
        real.exposure,
        RangeInclusive {
            start: 1,
            last: 0x3FF_FFFF
        }
    );
    assert_eq!(real.depth.bits(), BitDepth::BIT_8 | BitDepth::BIT_14);
}

/// Both known units leave the digital control empty, so the analog side
/// happens to start at byte 14. A unit that carried some would push the
/// whole tail along by the length it declared
#[test]
fn digital_control_information_moves_the_analog_side_along() {
    let mut p = LS9000.to_vec();
    let tail = p.split_off(14);
    p.extend([0xAA, 0xBB]); // two bytes of digital control information
    p.extend(tail);
    p[3] += 2;
    p[13] = 2;

    let moved = parse(&p);
    assert_eq!(moved.aic, parse(LS9000).aic);
    assert_eq!(moved.exposure, parse(LS9000).exposure);
    assert_eq!(moved.halftone_support, parse(LS9000).halftone_support);
}

/// The width of the first control's minimum and maximum is a field of its
/// own, not the 4 bytes both units happen to use
#[test]
fn the_control_parameter_is_as_wide_as_the_unit_says() {
    let mut p = LS9000.to_vec();
    p[15] = 5; // a width, then a two byte minimum and maximum
    p[16] = 2;
    p[17..19].copy_from_slice(&64u16.to_be_bytes());
    p[19..21].copy_from_slice(&4096u16.to_be_bytes());
    p[21] = 0x11; // where filter, matrix and halftone now sit
    p[22] = 0x22;
    p[23] = 0x33;

    let narrow = parse(&p);
    assert_eq!(
        narrow.exposure,
        RangeInclusive {
            start: 64,
            last: 4096
        }
    );
    assert_eq!(
        (
            narrow.filter_support,
            narrow.matrix_support,
            narrow.halftone_support
        ),
        (0x11, 0x22, 0x33)
    );
}
