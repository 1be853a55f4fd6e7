//! What a unit leaves to the host, and what it will carry and carry out

use nkscan::protocol::caps::other::{DataTypes, Features, HostCooperation};
use nkscan::protocol::caps::Page;
use nkscan::protocol::data::Op;

/// Read off a real LS-9000 ED
const LS9000: &[u8] = &[
    0x06, 0xE1, 0x00, 0x23, 0x83, 0x0D, 0xA0, 0x80, 0xF0, 0xBA, 0x48, 0x00, 0x00, 0x00, 0x00,
    0x10, 0x00, 0x00, 0x10, 0x10, 0x03, 0x00, 0x06, 0x00, 0x01, 0x00, 0x09, 0x00, 0x02, 0x00,
    0x01, 0x00, 0x00, 0x00, 0x00, 0x00, 0x02, 0x04, 0x00,
];

/// An LS-5000 with a strip adapter
fn ls5000() -> Vec<u8> {
    let mut p = vec![0u8; 39];
    p[1] = Features::PAGE_CODE;
    p[3] = 35;
    p[4] = 0x83;
    p[5] = 0x0C;
    p[6] = 0x80;
    p[7] = 0xB0;
    p[8] = 0x90;
    p[9] = 0xDA;
    p[10] = 0x7B;
    p
}

fn parse(bytes: &[u8]) -> Features {
    let page = Page::new(Features::PAGE_CODE, bytes.to_vec()).expect("page");
    Features::try_from(&page).expect("features")
}

/// The cooperation bits are the five `09h-80h` handshakes, so this and
/// `sense::Coop` have to agree
#[test]
fn cooperation_matches_the_coop_handshakes() {
    let c = parse(LS9000).cooperation;
    assert_eq!(
        c.bits(),
        HostCooperation::THUMBNAIL      // ASCQ 01h
            | HostCooperation::AVERAGING  // 02h
            | HostCooperation::MULTI_LINE // 04h
            | HostCooperation::TRUNCATED  // 06h
            | HostCooperation::CCD_DATA // 07h
    );
}

/// Hardware says 0Dh and A0h in bytes 5 and 6: CCD-data cooperation is real, the
/// LUT is not transferable, and the max value is readable
#[test]
fn hardware_overrides_the_summary_bytes() {
    let f = parse(LS9000);
    assert!(f.cooperation.contains(HostCooperation::CCD_DATA));
    assert!(!f.data_types.contains(DataTypes::GAMMA_READ));
    assert!(f.data_types.contains(DataTypes::MAX_VALUE_READ));
    // Corroborated by the bit depth for the same datum, also given as 0
    assert_eq!(f.depths.max_value, 16);
}

/// Framing is advertised, not inferred: 135 seeks by perforation, 120 by
/// rectangle. Three CCD lines need host registration, two do not
#[test]
fn the_families_advertise_different_framing_and_registration() {
    let nine = parse(LS9000);
    let five = parse(&ls5000());

    assert!(five.data_types.contains(DataTypes::PERFORATION_READ));
    assert!(!nine.data_types.contains(DataTypes::PERFORATION_READ));
    assert!(nine.data_types.contains(DataTypes::BOUNDARY_READ));
    assert!(!five.data_types.contains(DataTypes::BOUNDARY_READ));

    assert!(nine.cooperation.contains(HostCooperation::MULTI_LINE));
    assert!(!five.cooperation.contains(HostCooperation::MULTI_LINE));
}

/// High nibble picks the word, low nibble the bit
#[test]
fn the_execute_registry_decodes_to_opcodes() {
    let e = parse(LS9000).execute;
    assert_eq!(
        e.iter().into_iter().map(Op::code).collect::<Vec<_>>(),
        [0x80, 0x81, 0x91, 0x92, 0xA0, 0xB0, 0xB3, 0xC1, 0xD0]
    );
    assert!(!e.supports(Op::Other(0x93)));
    // Nothing below 80h has a word
    assert!(!e.supports(Op::Other(0x7F)));
}
