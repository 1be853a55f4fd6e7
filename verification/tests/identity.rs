//! Standard INQUIRY data

use nkscan::protocol::caps::identity::Identity;

fn ls9000() -> Vec<u8> {
    let mut p = vec![b' '; 36];
    p[0] = 0x06;
    p[8..16].copy_from_slice(b"Nikon   ");
    p[16..32].copy_from_slice(b"LS-9000 ED      ");
    p
}

/// Both halves of byte 0 matter: a qualifier of 011b means
/// the unit is unsupported on this LUN whatever the device type says
#[test]
fn only_a_type_six_with_a_zero_qualifier_is_a_scanner() {
    assert!(Identity::parse(&ls9000()).unwrap().is_scanner());

    let mut p = ls9000();
    p[0] = 0b011_00110;
    assert!(!Identity::parse(&p).unwrap().is_scanner());

    p[0] = 0x00; // a disk
    assert!(!Identity::parse(&p).unwrap().is_scanner());
}

/// The identification fields are space-padded on the wire
#[test]
fn the_identification_fields_are_trimmed() {
    let id = Identity::parse(&ls9000()).unwrap();
    assert_eq!(id.vendor, "Nikon");
    assert_eq!(id.product, "LS-9000 ED");
}
