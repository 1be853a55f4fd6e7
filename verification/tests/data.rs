//! READ and SEND data records

use nkscan::protocol::data::{
    Boundary, CooperativeAction, Edges, Image, Position, Rect, Setup,
};
use nkscan::protocol::sense::Coop;

/// The multi-line record: 4000 dpi, three colors, and a gap of 12
#[test]
fn the_multi_line_record_reads_as_geometry() {
    let mut b = [0u8; CooperativeAction::LENGTH];
    b[0] = 0x04;
    b[1..5].copy_from_slice(&[0x09, 0x80, 0x04, 0x01]);
    b[5..7].copy_from_slice(&60000u16.to_be_bytes());
    b[7..9].copy_from_slice(&13860u16.to_be_bytes());
    b[9] = 16;
    b[13..15].copy_from_slice(&12u16.to_be_bytes());

    let CooperativeAction::Geometry(kind, g) = CooperativeAction::from_bytes(&b).unwrap()
    else {
        panic!("not a geometry record");
    };
    assert_eq!(kind, Coop::MultiLineRegistration);
    assert_eq!(g.bytes_per_line, 60000);
    assert_eq!(g.entire_lines, 13860);
    assert_eq!(g.bits_per_color, 16);
    assert_eq!(g.registration_gap, 12);
    // These stay zero, and averaging is the record that fills them
    assert_eq!((g.lines_per_image, g.readings_per_line), (0, 0));
}

/// Byte 12 is all averaging fills in
#[test]
fn the_averaging_record_carries_only_the_reading_count() {
    let mut b = [0u8; CooperativeAction::LENGTH];
    b[0] = 0x02;
    b[12] = 16;

    let CooperativeAction::Geometry(kind, g) = CooperativeAction::from_bytes(&b).unwrap()
    else {
        panic!("not a geometry record");
    };
    assert_eq!(kind, Coop::Averaging);
    assert_eq!(g.readings_per_line, 16);
}

/// Type 7 redefines bytes as one CCD measurement type per color, so
/// reading them as a byte count would be nonsense
#[test]
fn the_ccd_record_is_per_color_types_not_geometry() {
    let mut b = [0u8; CooperativeAction::LENGTH];
    b[0] = 0x07;
    b[5..13].copy_from_slice(&[1, 2, 3, 0, 0, 0, 0, 0]);

    assert_eq!(
        CooperativeAction::from_bytes(&b).unwrap(),
        CooperativeAction::CcdData([1, 2, 3, 0, 0, 0, 0, 0])
    );
}

/// Truncation runs to byte 26, past the 18 bytes the type is promised
#[test]
fn the_truncation_record_is_longer_than_the_others() {
    let mut b = [0u8; 27];
    b[0] = 0x06;
    b[5] = 0b0000_0011; // padding at both ends of each color's line
    b[7..9].copy_from_slice(&8u16.to_be_bytes());
    b[9..11].copy_from_slice(&4u16.to_be_bytes());
    b[19..21].copy_from_slice(&2u16.to_be_bytes());
    b[25..27].copy_from_slice(&6u16.to_be_bytes());

    let CooperativeAction::Truncate(t) = CooperativeAction::from_bytes(&b).unwrap() else {
        panic!("not a truncation record");
    };
    assert_eq!(t.position.bits(), Position::COLOR_FIRST | Position::COLOR_LAST);
    assert_eq!(t.per_color, Edges { first: 8, last: 4 });
    assert_eq!(t.lines, Edges { first: 2, last: 0 });
    assert_eq!(t.frame, Edges { first: 0, last: 6 });

    // 18 bytes is all that is promised, and it is not enough for this one
    assert!(matches!(
        CooperativeAction::from_bytes(&b[..CooperativeAction::LENGTH]),
        Some(CooperativeAction::Unknown(0x06, _))
    ));
}

/// The setup record an LS-9000 returned for one loaded image, payload only
#[test]
fn setup_information_decodes_a_retained_image() {
    let b = [
        0x00, 0x18, 0x00, 0x71, 0xF9, 0x00, 0x04, 0xFC, 0x62, 0x00, 0x04, 0xFC, 0x62, 0x01,
        0x01, 0x00, 0x04, 0xF0, 0x00, 0x00, 0x04, 0xF0, 0x00, 0x12, 0x34, 0x56, 0x78,
    ];
    let setup = Setup::from_bytes(&b).unwrap();

    assert_eq!(setup.format, 0);
    assert_eq!(setup.base_level, 29177);
    assert_eq!(setup.base_exposure, 326754);
    assert_eq!(setup.base_white_balance, 326754);
    assert_eq!(
        setup.images,
        vec![Image {
            index: 1,
            exposure: 0x0004F000,
            white_balance: 0x0004F000,
            min: 0x1234,
            max: 0x5678,
        }]
    );
}

/// The count in byte 13 is what says how much follows
#[test]
fn a_record_shorter_than_its_image_count_is_refused() {
    let mut b = vec![0u8; 27];
    b[13] = 2;
    assert!(Setup::from_bytes(&b).is_none());
}

/// The 20 bytes an LS-9000 returned with one frame loaded
#[test]
fn boundary_information_round_trips() {
    let b = Boundary {
        frames: vec![Rect {
            top: 0,
            left: 0,
            bottom: 13859,
            right: 9999,
        }],
    };
    let bytes = b.to_bytes().unwrap();
    assert_eq!(bytes.len(), 20);
    // What the unit itself returns: the whole length, then the frame count
    assert_eq!(&bytes[..4], &[0x00, 0x14, 0x01, 0x00]);
    assert_eq!(Boundary::from_bytes(&bytes), Some(b));
}

/// A job without a layout is reported rather than mis-parsed
#[test]
fn an_unknown_job_keeps_its_bytes() {
    let b = [0x0Au8; CooperativeAction::LENGTH];
    let action = CooperativeAction::from_bytes(&b).unwrap();
    assert_eq!(action.kind(), Coop::Unknown(0x0A));
    assert!(matches!(action, CooperativeAction::Unknown(0x0A, _)));
}
