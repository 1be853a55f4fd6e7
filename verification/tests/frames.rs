//! Where a holder's frames sit

use nkscan::protocol::caps::frames::{Frame, Frames};
use nkscan::protocol::caps::Page;

/// Read off a real LS-9000 with one 6x9 strip loaded
const LS9000: &[u8] = &[
    0x06, 0xC8, 0x00, 0x11, 0x01, 0x00, 0x00, 0x02, 0x06, 0x00, 0x00, 0x08, 0xBC, 0x00, 0x00,
    0x23, 0x04, 0x00, 0x00, 0x00, 0x00,
];

fn parse(bytes: &[u8]) -> Frames {
    let page = Page::new(Frames::PAGE_CODE, bytes.to_vec()).expect("page");
    Frames::try_from(&page).expect("frames")
}

/// The left edge is the X offset every captured SET WINDOW used
#[test]
fn one_strip_publishes_one_rectangle() {
    let frames = parse(LS9000);
    assert_eq!(frames.images.len(), 1);
    assert_eq!(
        frames.images[0],
        Frame {
            left: 518,
            top: 2236,
            width: 8964,
            length: None,
        }
    );
}

/// A measured length arrives as a real value rather than as the 0 that
/// means the unit has not looked yet
#[test]
fn a_measured_length_is_not_absent() {
    let mut p = LS9000.to_vec();
    p[17..21].copy_from_slice(&13176u32.to_be_bytes());
    assert_eq!(parse(&p).images[0].length, Some(13176));
}
