//! Which film format is loaded, and what it is called

use nkscan::error::Error;
use nkscan::protocol::caps::address::Address;
use nkscan::protocol::caps::film::{format_name, parse_format, FilmFormat};
use nkscan::protocol::caps::identity::Identity;
use nkscan::protocol::caps::other::Features;
use nkscan::protocol::caps::set_window::SetWindowFunction;
use nkscan::protocol::caps::{Capabilities, Page};

const NAMED: [FilmFormat; 9] = [
    FilmFormat::IX240,
    FilmFormat::F135,
    FilmFormat::F135Half,
    FilmFormat::F16,
    FilmFormat::F645,
    FilmFormat::F66,
    FilmFormat::F67,
    FilmFormat::F68,
    FilmFormat::F69,
];

fn caps(product: &str, adapter: u8, holder: u8, connected: u8) -> Capabilities {
    let mut i = vec![b' '; 36];
    i[0] = 6;
    i[16..16 + product.len()].copy_from_slice(product.as_bytes());
    let mut a = vec![0u8; 91];
    a[1] = Address::PAGE_CODE;
    a[14] = adapter;
    a[15] = holder;
    a[17] = connected;
    let mut d = vec![0u8; 28];
    d[1] = SetWindowFunction::PAGE_CODE;
    let mut e = vec![0u8; 39];
    e[1] = Features::PAGE_CODE;
    Capabilities {
        identity: Identity::parse(&i).unwrap(),
        address: Address::try_from(&Page::new(Address::PAGE_CODE, a).unwrap()).unwrap(),
        features: Features::try_from(&Page::new(Features::PAGE_CODE, e).unwrap()).unwrap(),
        set_window: SetWindowFunction::try_from(
            &Page::new(SetWindowFunction::PAGE_CODE, d).unwrap(),
        )
        .unwrap(),
        ccd: None,
        frames: None,
    }
}

fn why(outcome: Result<FilmFormat, Error>) -> String {
    match outcome {
        Err(Error::Unsupported { op, reason }) => {
            assert_eq!(op, "film format");
            reason
        }
        other => panic!("{other:?}"),
    }
}

#[test]
fn what_is_asked_for_wins() {
    let c = caps("LS-9000 ED", 0, 0x1A, 0);
    assert_eq!(
        FilmFormat::resolve(Some(FilmFormat::Custom(42)), &c).unwrap(),
        FilmFormat::Custom(42)
    );
    assert_eq!(FilmFormat::resolve(None, &c).unwrap(), FilmFormat::F66);
}

#[test]
fn a_medium_format_unit_goes_by_its_holder() {
    // The adapter a smaller unit would go by is not asked
    for product in ["LS-9000 ED", "LS-8000 ED"] {
        let c = caps(product, 1, 0x1D, 0x35);
        assert_eq!(FilmFormat::resolve(None, &c).unwrap(), FilmFormat::F69);
    }
    let c = caps("LS-50 ED", 1, 0x1D, 0x35);
    assert_eq!(FilmFormat::resolve(None, &c).unwrap(), FilmFormat::IX240);
    let c = caps("LS-5000 ED", 1, 0, 0x32);
    assert_eq!(FilmFormat::resolve(None, &c).unwrap(), FilmFormat::F135);
    // No adapter in: back to the holder
    let c = caps("LS-5000 ED", 0, 0x12, 0x32);
    assert_eq!(FilmFormat::resolve(None, &c).unwrap(), FilmFormat::F16);
}

#[test]
fn what_is_not_fixed_is_asked_for() {
    assert_eq!(
        why(FilmFormat::resolve(None, &caps("LS-9000 ED", 1, 0, 0x31))),
        "no holder loaded; supply a format"
    );
    assert_eq!(
        why(FilmFormat::resolve(None, &caps("LS-9000 ED", 0, 0x17, 0))),
        "this holder does not fix it (try: 66, 67, 68, 69)"
    );
    assert_eq!(
        why(FilmFormat::resolve(None, &caps("LS-9000 ED", 0, 0x50, 0))),
        "this holder does not fix it"
    );
}

/// What a format is called is taken back as that format
#[test]
fn names_are_taken_back() {
    for f in NAMED {
        assert_eq!(FilmFormat::from_str(&f.to_string()), Ok(f));
        assert_eq!(parse_format(&format_name(&f)), Ok(f));
    }
    for mm in [0u32, 1, 15, 17, 56, 100, 1350, u32::MAX] {
        let f = FilmFormat::Custom(mm);
        assert_eq!(FilmFormat::from_str(&f.to_string()), Ok(f));
    }
    // A height that is a name is taken for the name
    assert_eq!(
        FilmFormat::from_str(&FilmFormat::Custom(135).to_string()),
        Ok(FilmFormat::F135)
    );
    assert_eq!(FilmFormat::from_str("aps"), Ok(FilmFormat::IX240));
    assert_eq!(FilmFormat::from_str("APS"), Ok(FilmFormat::IX240));
    assert_eq!(FilmFormat::from_str("135half"), Ok(FilmFormat::F135Half));
    for bad in ["", "Aps", "ix240", "6x6", "-5", "56mm"] {
        assert_eq!(
            FilmFormat::from_str(bad),
            Err(format!("'{bad}' is neither a film format nor a height in mm"))
        );
    }
}

#[test]
fn heights_in_every_unit() {
    assert_eq!(FilmFormat::IX240.height_mm(), 30);
    assert_eq!(FilmFormat::F645.height_mm(), 42);
    assert_eq!(FilmFormat::F67.height_mm(), 70);
    assert_eq!(FilmFormat::Custom(7).height_tenths(), 70);
    assert_eq!(FilmFormat::F135.height_dots(2900), 4110);
    assert_eq!(FilmFormat::Custom(0).height_dots(4000), 0);
}

/// A holder fixes a format or offers some, or neither, and never both
#[test]
fn a_holder_fixes_or_offers() {
    for id in 0..=255u8 {
        let fixed = FilmFormat::from_holder(id).is_some();
        let offered = FilmFormat::choices_for_holder(id).is_some();
        assert!(!(fixed && offered));
        assert_eq!(offered, (0x14..=0x18).contains(&id));
    }
    assert_eq!(
        FilmFormat::choices_for_holder(0x16).unwrap(),
        [
            FilmFormat::F66,
            FilmFormat::F67,
            FilmFormat::F68,
            FilmFormat::F69
        ]
    );
    assert_eq!(
        FilmFormat::choices_for_holder(0x15).unwrap(),
        [FilmFormat::F66, FilmFormat::F67, FilmFormat::F69]
    );
    assert_eq!(FilmFormat::from_adapter(0x31), Some(FilmFormat::F135));
    assert_eq!(FilmFormat::from_adapter(0x36), None);
}
