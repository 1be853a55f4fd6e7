//! What things are called

use nkscan::batch::FilmType;
use nkscan::names::{
    channel_from_name, channel_name, film_from_name, focused_name, interleaving_names, Focused,
    Framing, Summary, MAX_SAMPLES,
};
use nkscan::protocol::caps::address::Address;
use nkscan::protocol::caps::identity::Identity;
use nkscan::protocol::caps::other::Features;
use nkscan::protocol::caps::set_window::{ColorInterleaving, SetWindowFunction};
use nkscan::protocol::caps::{Capabilities, Page};
use nkscan::protocol::window::Channel;

#[test]
fn channels_are_named_and_found_again() {
    for id in [0u8, 1, 2, 3, 4, 9] {
        let name = channel_name(id);
        assert_eq!(channel_from_name(&name).id(), id);
        assert_eq!(channel_from_name(&name.to_uppercase()).id(), id);
        assert_eq!(name, format!("{:?}", Channel::from(id)).to_lowercase());
    }
    assert_eq!(channel_name(200), "other(200)");
    assert_eq!(channel_from_name("other(200)"), Channel::Default);
    assert_eq!(channel_from_name("magenta"), Channel::Default);
}

#[test]
fn focus_results_have_names() {
    assert_eq!(focused_name(Focused::Yes), "focused");
    assert_eq!(focused_name(Focused::NotReached), "not_reached");
    assert_eq!(focused_name(Focused::Skipped), "skipped");
}

#[test]
fn reading_modes_are_listed_by_name() {
    assert_eq!(
        interleaving_names(ColorInterleaving::from_bits_truncate(0x42)),
        ["line_without_distance", "multiline_simultaneous"]
    );
    assert_eq!(
        interleaving_names(ColorInterleaving::from_bits_truncate(0xFF)),
        [
            "pixel_without_distance",
            "line_without_distance",
            "plane",
            "pixel_with_distance",
            "line_with_distance",
            "multiline_simultaneous"
        ]
    );
}

#[test]
fn a_summary_projects_the_pages() {
    let mut i = vec![b' '; 36];
    i[8..13].copy_from_slice(b"Nikon");
    i[16..26].copy_from_slice(b"LS-9000 ED");
    i[32..36].copy_from_slice(b"1.02");
    let mut a = vec![0u8; 91];
    a[1] = 0xC1;
    a[19] = 100;
    a[21] = 90;
    a[23] = 10;
    a[43] = 80;
    a[45] = 20;
    a[71] = 5;
    a[73] = 3;
    a[74] = 4;
    a[77] = 1;
    a[79] = 250;
    let mut d = vec![0u8; 28];
    d[1] = 0xD1;
    d[4] = 0x20;
    d[5] = 0x10;
    d[6] = 0x02;
    let mut e = vec![0u8; 39];
    e[1] = 0xE1;
    e[30] = 0x01;
    let mut caps = Capabilities {
        identity: Identity::parse(&i).unwrap(),
        address: Address::try_from(&Page::new(0xC1, a).unwrap()).unwrap(),
        features: Features::try_from(&Page::new(0xE1, e).unwrap()).unwrap(),
        set_window: SetWindowFunction::try_from(&Page::new(0xD1, d).unwrap()).unwrap(),
        ccd: None,
        frames: None,
    };
    let s = Summary::new(&caps, Framing::Perforation, true);
    assert_eq!((s.vendor.as_str(), s.product.as_str(), s.revision.as_str()), ("Nikon", "LS-9000 ED", "1.02"));
    assert_eq!(s.model.as_deref(), Some("LS-9000 ED"));
    assert_eq!((s.x_dpi_range, s.y_dpi_range, s.optical_dpi), ((10, 90), (20, 80), 100));
    assert_eq!((s.max_frames, s.thumbnail_dpi, s.focus_range), (4, (3, 5), (1, 250)));
    assert_eq!((s.max_samples, s.framing, s.thumbnail), (MAX_SAMPLES, "perforation", true));
    assert!(s.multi_line && s.eject && !s.autofocus && s.hardware_metering);
    assert_eq!(s.interleavings, ["line_without_distance"]);

    caps.set_window.mode.bits = 0;
    caps.set_window.kind.bits = 0x1F;
    let s = Summary::new(&caps, Framing::Address, false);
    assert_eq!((s.max_samples, s.framing, s.thumbnail), (1, "address", false));
    assert!(!s.hardware_metering && !s.multi_line);
    assert_eq!(Framing::Published.name(), "published");
    assert!(Framing::Thumbnail.takes_thumbnail());
}

#[test]
fn films_go_by_names() {
    for (name, film) in [
        ("positive", Some(FilmType::Positive)),
        ("slide", Some(FilmType::Positive)),
        ("negative", Some(FilmType::Negative)),
        ("kodachrome", Some(FilmType::Kodachrome)),
        ("mono", Some(FilmType::Mono)),
        ("", None),
        ("slides", None),
    ] {
        assert_eq!(film_from_name(name), film);
    }
}
