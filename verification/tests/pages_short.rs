//! Pages that stop short, carry on, or are padded

use nkscan::protocol::caps::address::{Address, PitchRule};
use nkscan::protocol::caps::frames::Frames;
use nkscan::protocol::caps::identity::Identity;
use nkscan::protocol::caps::other::{Features, HostCooperation};
use nkscan::protocol::caps::set_window::{Component, SetWindowFunction};
use nkscan::protocol::caps::{Error, Page};
use nkscan::protocol::data::Op;
use nkscan::protocol::model::Model;
use nkscan::range::RangeInclusive;

fn need<T>(outcome: Result<T, Error>) -> usize {
    match outcome {
        Err(Error::Truncated { need, .. }) => need,
        Err(other) => panic!("{other:?}"),
        Ok(_) => panic!("not short"),
    }
}

fn page(code: u8, len: usize) -> Page {
    let mut b = vec![0u8; len];
    b[1] = code;
    Page::new(code, b).unwrap()
}

#[test]
fn an_address_page_names_the_first_field_it_misses() {
    let at = |len| need(Address::try_from(&page(0xC1, len)));
    assert_eq!(at(4), 5);
    assert_eq!(at(5), 7);
    assert_eq!(at(6), 7);
    assert_eq!(at(13), 14);
    assert_eq!(at(16), 17);
    assert_eq!(at(17), 18);
    assert_eq!(at(18), 20);
    // The minimum is read before the maximum
    assert_eq!(at(20), 24);
    assert_eq!(at(24), 32);
    assert_eq!(at(40), 42);
    assert_eq!(at(62), 66);
    assert_eq!(at(70), 74);
    assert_eq!(at(83), 85);
    assert!(Address::try_from(&page(0xC1, 85)).is_ok());
    // A field that carries on past the end
    let mut b = vec![0u8; 6];
    b[1] = 0xC1;
    b[4] = 0x80;
    b[5] = 0x80;
    assert_eq!(need(Address::try_from(&Page::new(0xC1, b).unwrap())), 7);
}

#[test]
fn a_features_page_names_the_first_field_it_misses() {
    let at = |len| need(Features::try_from(&page(0xE1, len)));
    assert_eq!(at(4), 5);
    assert_eq!(at(10), 11);
    assert_eq!(at(11), 21);
    assert_eq!(at(21), 22);
    assert_eq!(at(35), 36);
    assert_eq!(at(38), 39);
    assert!(Features::try_from(&page(0xE1, 39)).is_ok());
}

#[test]
fn a_frames_page_names_the_number_it_misses() {
    let at = |len: usize, count: u8| {
        let mut b = vec![0u8; len];
        b[1] = 0xC8;
        b[4] = count;
        need(Frames::try_from(&Page::new(0xC8, b).unwrap()))
    };
    assert_eq!(need(Frames::try_from(&page(0xC8, 4))), 5);
    assert_eq!(at(5, 1), 9);
    assert_eq!(at(20, 1), 21);
    assert_eq!(at(30, 2), 33);
    let empty = Frames::try_from(&page(0xC8, 5)).unwrap();
    assert!(!empty.measured());
}

#[test]
fn frames_are_measured_where_every_length_is_known() {
    let mut b = vec![0u8; 37];
    b[1] = 0xC8;
    b[4] = 2;
    b[20] = 1;
    let partly = Frames::try_from(&Page::new(0xC8, b.clone()).unwrap()).unwrap();
    assert!(!partly.measured());
    b[36] = 1;
    let fully = Frames::try_from(&Page::new(0xC8, b).unwrap()).unwrap();
    assert!(fully.measured());
}

#[test]
fn a_set_window_page_names_the_first_field_it_misses() {
    let at = |len| need(SetWindowFunction::try_from(&page(0xD1, len)));
    assert_eq!(at(4), 5);
    assert_eq!(at(7), 8);
    assert_eq!(at(10), 11);
    assert_eq!(at(11), 14);
    assert_eq!(at(14), 15);
    assert_eq!(at(15), 16);
    assert_eq!(at(16), 17);
    assert_eq!(at(18), 19);
    let f = SetWindowFunction::try_from(&page(0xD1, 19)).unwrap();
    // No analog control, so no exposure to set
    assert_eq!(f.exposure, RangeInclusive { start: 0, last: 0 });
    // A width wider than the page
    let mut b = vec![0u8; 30];
    b[1] = 0xD1;
    b[15] = 9;
    b[16] = 200;
    assert_eq!(need(SetWindowFunction::try_from(&Page::new(0xD1, b).unwrap())), 217);
}

#[test]
fn a_wide_number_keeps_its_low_32_bits() {
    let p = Page::new(0x10, vec![0, 0x10, 0, 0, 0xAA, 1, 2, 3, 4]).unwrap();
    assert_eq!(p.be(4, 5).unwrap(), 0x0102_0304);
    assert_eq!(p.be(5, 4).unwrap(), 0x0102_0304);
    assert_eq!(p.be(5, 0).unwrap(), 0);
    assert_eq!(need(p.be(6, 4)), 10);
    assert_eq!(need(p.be(usize::MAX, 4)), usize::MAX);
    assert_eq!(need(p.u8(usize::MAX)), usize::MAX);
    assert_eq!(p.be16(5).unwrap(), 0x0102);
    assert_eq!(p.opt_u8(2).unwrap(), None);
    assert_eq!(p.opt_u8(4).unwrap(), Some(0xAA));
    assert_eq!(p.opt_be16(2).unwrap(), None);
    assert_eq!(p.flags(4).unwrap(), (0xAA, 6));
    assert_eq!(need(Page::new(1, vec![0, 1, 0, 0, 0x80]).unwrap().flags(4)), 6);
    assert_eq!(need(p.flags(20)), 21);
    // Carried is what the declared length says, not what arrived
    assert_eq!(p.carried_u8(4), None);
    let p = Page::new(0x10, vec![0, 0x10, 0, 1, 7, 8]).unwrap();
    assert_eq!(p.carried_u8(4), Some(7));
    assert_eq!(p.carried_u8(5), None);
}

fn address_page() -> Vec<u8> {
    let mut b: Vec<u8> = (0..91).map(|n| (n * 7 % 128) as u8).collect();
    b[1] = 0xC1;
    b[3] = 87;
    b
}

fn shown(b: Vec<u8>) -> String {
    let a = Address::try_from(&Page::new(0xC1, b).unwrap()).unwrap();
    let mut text = format!("{a:?}");
    text.replace_range(..text.find(", transfer").unwrap(), "");
    text
}

/// Whatever a field carries on into, the page says the same
#[test]
fn an_extension_moves_every_field() {
    let flat = address_page();
    for next in [0x00u8, 0x55, 0x7F] {
        let mut moved = flat.clone();
        moved.insert(5, next);
        moved[4] |= 0x80;
        moved[3] += 1;
        assert_eq!(shown(moved), shown(flat.clone()));
    }
}

#[test]
fn padding_changes_no_field() {
    let flat = address_page();
    let mut padded = flat.clone();
    padded.resize(255, 0x20);
    assert_eq!(shown(padded), shown(flat));
}

#[test]
fn a_pitch_snaps_to_one_the_unit_has() {
    for pitch in 0..40u32 {
        let asked = pitch.max(1);
        assert_eq!(PitchRule::Continuous.snap(pitch), asked);
        assert_eq!(PitchRule::EachPitch.snap(pitch), asked);
        let divisor = PitchRule::DivisorsOf(12).snap(pitch);
        assert!(12 % divisor == 0 && divisor <= asked);
        assert!((divisor + 1..=asked).all(|p| 12 % p != 0));
        assert_eq!(PitchRule::DivisorsOf(12).snap(divisor), divisor);
        let even = PitchRule::OnePlusEven.snap(pitch);
        assert_eq!(even, if asked == 1 { 1 } else { asked / 2 * 2 });
    }
    assert_eq!(PitchRule::DivisorsOf(0).snap(7), 7);
    assert_eq!(PitchRule::DivisorsOf(12).snap(1000), 12);
}

#[test]
fn positions_past_the_page_take_every_component() {
    let mut b = vec![0u8; 28];
    b[1] = 0xD1;
    b[8] = 0x93;
    let f = SetWindowFunction::try_from(&Page::new(0xD1, b).unwrap()).unwrap();
    assert_eq!(f.order, [Some(Component::Blue), Some(Component::Other(9)), None, None]);
    assert!(f.permits(0, Component::Blue));
    assert!(!f.permits(0, Component::Red));
    assert!(f.permits(2, Component::Red));
    assert!(f.permits(4, Component::Red));
}

#[test]
fn operations_are_listed_by_name() {
    let mut b = vec![0u8; 39];
    b[1] = 0xE1;
    b[4] = 0x81;
    b[20] = 0x01;
    b[23] = 0x80;
    b[35] = 0x80;
    let f = Features::try_from(&Page::new(0xE1, b).unwrap()).unwrap();
    assert_eq!(f.execute.text(), "[Initialize (80h), Other(159) (9Fh), Other(255) (FFh)]");
    assert_eq!(f.execute.iter(), vec![Op::Initialize, Op::Other(0x9F), Op::Other(0xFF)]);
    assert!(f.cooperation.contains(HostCooperation::THUMBNAIL));
    assert_eq!(f.cooperation.bits(), 1);
    for code in 0x80..=0xFFu8 {
        let op = Op::from(code);
        assert_eq!(f.execute.iter().contains(&op), f.execute.supports(op));
    }
    let codes: Vec<u8> = f.execute.iter().into_iter().map(Op::code).collect();
    assert!(codes.windows(2).all(|w| w[0] < w[1]));
    let none = Features::try_from(&page(0xE1, 39)).unwrap();
    assert_eq!(none.execute.text(), "[]");
}

/// Bytes that are no UTF-8 come out as the replacement character
#[test]
fn an_identity_that_is_not_ascii_still_reads() {
    let mut b = vec![b' '; 36];
    b[0] = 0xE6;
    b[1] = 0x80;
    b[2] = 0x0A;
    b[8..12].copy_from_slice(&[b'N', 0xFF, b'n', b'\t']);
    b[16..20].copy_from_slice("\u{e9}\u{3b1}".as_bytes());
    b[32..36].copy_from_slice(b"1.00");
    let id = Identity::parse(&b).unwrap();
    assert_eq!(id.vendor, "N\u{fffd}n");
    assert_eq!(id.product, "\u{e9}\u{3b1}");
    assert_eq!(id.revision, "1.00");
    assert_eq!((id.qualifier, id.device_type, id.removable, id.ansi_version), (7, 6, true, 2));
    assert_eq!(id.model(), None);
    assert!(matches!(
        Identity::parse(&b[..35]),
        Err(Error::Truncated { page: 0, need: 36, got: 35 })
    ));
}

#[test]
fn models_are_told_by_their_names() {
    for m in [Model::Ls9000, Model::Ls8000, Model::Ls5000, Model::Ls4000, Model::Ls50, Model::Ls40] {
        assert_eq!(Model::from_product(m.name()), Some(m));
        assert_eq!(m.is_medium_format(), matches!(m, Model::Ls9000 | Model::Ls8000));
    }
    assert_eq!(Model::from_product("LS-30"), None);
}

#[test]
fn a_run_of_values_holds_its_ends() {
    let r = RangeInclusive { start: 3u16, last: 5 };
    assert!(r.contains(&3) && r.contains(&5) && !r.contains(&2) && !r.contains(&6));
    let none = RangeInclusive { start: 5u32, last: 3 };
    assert!(!none.contains(&4));
    assert_eq!(r.clone(), r);
}
