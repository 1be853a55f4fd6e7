//! What a unit's address page says

use nkscan::protocol::caps::address::{Address, CoordinateBase, PitchRule, Transfer};
use nkscan::protocol::caps::Page;

fn be16(p: &mut [u8], i: usize, v: u16) {
    p[i..i + 2].copy_from_slice(&v.to_be_bytes());
}

fn be32(p: &mut [u8], i: usize, v: u32) {
    p[i..i + 4].copy_from_slice(&v.to_be_bytes());
}

/// An LS-9000's page, with something plausible where it follows the holder
fn ls9000() -> Vec<u8> {
    let mut p = vec![0u8; 91];
    p[1] = Address::PAGE_CODE;
    p[3] = 87;
    p[4] = 0x01;
    be16(&mut p, 5, 58);
    p[16] = 0x42;
    p[17] = 0x12;
    be16(&mut p, 18, 4000);
    be16(&mut p, 40, 4000);
    be16(&mut p, 22, 666);
    be32(&mut p, 24, 9999);
    be32(&mut p, 36, 10000);
    be16(&mut p, 44, 333);
    be32(&mut p, 46, 9999);
    p[85] = 12;
    p[86] = 3;
    p
}

/// The same page on an LS-5000 with a strip adapter
fn ls5000() -> Vec<u8> {
    let mut p = ls9000();
    p[3] = 83;
    p[4] = 0x03;
    be16(&mut p, 5, 61);
    p[16] = 0x03;
    p[17] = 0x22;
    be16(&mut p, 22, 90);
    be32(&mut p, 24, 0); // equal to the minimum: no X cropping
    be32(&mut p, 62, 5959);
    p[85] = 1;
    p[86] = 2;
    p
}

fn parse(bytes: &[u8]) -> Address {
    let page = Page::new(Address::PAGE_CODE, bytes.to_vec()).expect("page");
    Address::try_from(&page).expect("address")
}

/// One parser, and every difference falls out of an advertised field
#[test]
fn the_families_differ_only_in_what_they_advertise() {
    let nine = parse(&ls9000());
    let five = parse(&ls5000());

    assert_eq!(nine.pitch_rule, PitchRule::DivisorsOf(12));
    assert_eq!(five.pitch_rule, PitchRule::OnePlusEven);
    assert_eq!((nine.lines, five.lines), (3, 2));

    // Only the LS-9000 publishes frame rectangles
    assert!(nine.coordinate_base.contains(CoordinateBase::FRAME_RECTS));
    assert!(!five.coordinate_base.contains(CoordinateBase::FRAME_RECTS));

    // Only the LS-5000 constrains READ to whole lines
    assert!(five.transfer.contains(Transfer::READ_LINE_COLS));
    assert!(!nine.transfer.contains(Transfer::READ_LINE_COLS));

    // Only strip adapters can travel past one window in Y
    assert_eq!(nine.y_outside, None);
    assert!(five.y_outside.is_some());
}

/// The gap is a count of optical lines, and the scanning pitch divides it.
/// The LS-5000 has a gap of one line. Only a pitch of 1 keeps it.
#[test]
fn the_line_gap_divides_by_the_scanning_pitch() {
    let nine = parse(&ls9000());
    assert_eq!(nine.registration_gap(4000), 12);
    assert_eq!(nine.registration_gap(2000), 6);
    assert_eq!(nine.registration_gap(1000), 3);

    let five = parse(&ls5000());
    assert_eq!(five.registration_gap(4000), 1);
    assert_eq!(five.registration_gap(2000), 0);
    assert_eq!(five.registration_gap(1000), 0);
}

/// A count of 0 stands for three lines
#[test]
fn a_zero_ccd_line_count_means_three() {
    let mut p = ls9000();
    p[86] = 0;
    assert_eq!(parse(&p).lines, 3);
}

/// The same clause covers "or no value is sent to this field", which is a
/// page that ends first. Read off the buffer regardless it is whatever the
/// transport padded with, and a 20h pad is a 32 line CCD.
///
/// These are a real LS-8000 ED's bytes, which stop at byte 85
#[test]
fn a_page_that_ends_before_the_line_count_still_means_three() {
    let mut ls8000: Vec<u8> = vec![
        0x06, 0xC1, 0x00, 0x52, 0x01, 0x00, 0x3A, 0x00, 0x0F, 0x00, 0x00, 0x01, 0x00, 0x01,
        0x01, 0x10, 0x42, 0x12, 0x0F, 0xA0, 0x0F, 0xA0, 0x02, 0x9A, 0x00, 0x00, 0x27, 0x0F,
        0x00, 0x00, 0x00, 0x00, 0x00, 0x00, 0x00, 0x00, 0x00, 0x00, 0x27, 0x10, 0x0F, 0xA0,
        0x0F, 0xA0, 0x01, 0x4D, 0x00, 0x00, 0x36, 0x23, 0x00, 0x00, 0x00, 0x00, 0x00, 0x00,
        0x00, 0x00, 0x00, 0x00, 0x36, 0x24, 0x00, 0x00, 0x00, 0x00, 0x00, 0x00, 0x00, 0x00,
        0x00, 0x53, 0x00, 0x53, 0x00, 0x00, 0x00, 0x00, 0x01, 0xC2, 0x00, 0x00, 0x0E, 0x27,
        0x10, 0x0C,
    ];
    assert_eq!(ls8000.len(), 4 + usize::from(ls8000[3]));

    let parsed = parse(&ls8000);
    assert_eq!(parsed.lines, 3);
    // The last field it does carry, and the two before it
    assert_eq!(parsed.line_gap, 12);
    assert_eq!(parsed.ccd_pixels, 10000);
    assert_eq!(parsed.bit_depth, 14);

    // The transport pads the rest of the allocation it was given, which is
    // where the 32 line CCD came from
    ls8000.resize(91, 0x20);
    assert_eq!(parse(&ls8000).lines, 3);
}

/// A page can stop before the line gap as well, and that byte gets the same
/// treatment: what the unit did not send is not a gap of 20h.
///
/// These are a real LS-40's bytes, which stop at byte 84. The gap decides
/// the block a window extent is rounded up to, so a padded one moved the
/// scan window: 32 pixels by the three lines byte 86 defaults to is a
/// 96 unit block
#[test]
fn a_page_that_ends_before_the_line_gap_has_no_gap() {
    let mut ls40: Vec<u8> = vec![
        0x06, 0xC1, 0x00, 0x51, 0x03, 0x00, 0x3A, 0x00, 0x0F, 0x00, 0x00, 0x00, 0x40, 0x01,
        0x01, 0x00, 0x01, 0x22, 0x0B, 0x54, 0x0B, 0x54, 0x00, 0x5A, 0x00, 0x00, 0x00, 0x00,
        0x00, 0x00, 0x00, 0x00, 0x00, 0x00, 0x00, 0x00, 0x00, 0x00, 0x0B, 0x36, 0x0B, 0x54,
        0x0B, 0x54, 0x00, 0x5A, 0x00, 0x00, 0x10, 0x6A, 0x00, 0x00, 0x00, 0x00, 0x00, 0x00,
        0x00, 0x00, 0x00, 0x00, 0x10, 0x6B, 0x00, 0x00, 0x00, 0x00, 0x00, 0x00, 0x00, 0x00,
        0x00, 0x00, 0x00, 0x00, 0x01, 0x01, 0x00, 0x00, 0x01, 0x43, 0x00, 0x00, 0x0C, 0x0B,
        0x36,
    ];
    assert_eq!(ls40.len(), 4 + usize::from(ls40[3]));

    let parsed = parse(&ls40);
    assert_eq!(parsed.line_gap, 0);
    // The last fields it does carry
    assert_eq!(parsed.bit_depth, 12);
    assert_eq!(parsed.ccd_pixels, 2870);
    // Byte 86 is missing too, so the default stands
    assert_eq!(parsed.lines, 3);
    // With no gap there is nothing to register, at any resolution
    assert_eq!(parsed.registration_gap(2900), 0);

    // What the unit sent stands whatever the transport padded after it
    ls40.resize(255, 0x20);
    let padded = parse(&ls40);
    assert_eq!(padded.line_gap, 0);
    assert_eq!(padded.lines, 3);
}

/// The gap and the line count are what the 5000's two-line CCD needs, and
/// it carries both, so reading only what a page carries leaves it alone
#[test]
fn a_page_that_carries_the_gap_keeps_it() {
    let five = parse(&ls5000());
    assert_eq!((five.line_gap, five.lines), (1, 2));

    let nine = parse(&ls9000());
    assert_eq!((nine.line_gap, nine.lines), (12, 3));
}

/// Byte 4 is extendable, so a unit that carries on into byte 5 moves every
/// field of the page along with it
#[test]
fn an_extended_function_support_moves_the_page_along() {
    let mut p = ls9000();
    p.insert(5, 0x00); // the byte it extends into
    p[4] |= 0x80;
    p[3] += 1;

    let moved = parse(&p);
    let flat = parse(&ls9000());
    assert_eq!(moved.window_descriptor_len, flat.window_descriptor_len);
    assert_eq!(moved.x_axis.optical_dpi, flat.x_axis.optical_dpi);
    assert_eq!(moved.y_axis.address_range, flat.y_axis.address_range);
    assert_eq!(moved.line_gap, flat.line_gap);
    assert_eq!(moved.lines, flat.lines);
}

/// Byte 16 varies with what is loaded, not with the model: the IA-20 flips
/// thumbnail order, and an FH3 inserted backwards flips both origins
#[test]
fn coordinate_base_tracks_the_loaded_adapter() {
    let mut p = ls5000();

    p[16] = 0x13;
    let ia20 = parse(&p).coordinate_base;
    assert!(ia20.contains(CoordinateBase::THUMBNAIL_REVERSED));

    p[16] = 0x0F;
    let reversed = parse(&p).coordinate_base;
    assert!(reversed.contains(CoordinateBase::X_ORIGIN_REVERSED));
    assert!(reversed.contains(CoordinateBase::Y_ORIGIN_REVERSED));
}
