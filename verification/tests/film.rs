//! Film formats

use nkscan::protocol::caps::film::FilmFormat;

#[test]
fn known_heights() {
    assert_eq!(FilmFormat::F135.height_mm(), 36);
    assert_eq!(FilmFormat::F16.height_mm(), 20);
    assert_eq!(FilmFormat::F66.height_mm(), 56);
    assert_eq!(FilmFormat::F69.height_mm(), 84);
    assert_eq!(FilmFormat::Custom(100).height_mm(), 100);
}

/// The names are nominal and the gates are not. Getting these wrong leaves
/// a frame with a strip of the next one along its edge
#[test]
fn a_format_is_its_gate_rather_than_its_name() {
    assert_eq!(FilmFormat::F645.height_tenths(), 415);
    assert_eq!(FilmFormat::F67.height_tenths(), 695);
    assert_eq!(FilmFormat::F68.height_tenths(), 760);
    // Half frame is two frames in the space one full frame takes
    assert_eq!(
        FilmFormat::F135Half.height_tenths() * 2,
        FilmFormat::F135.height_tenths()
    );
}

#[test]
fn dots_at_4000_dpi() {
    assert_eq!(FilmFormat::F66.height_dots(4000), 8819);
    assert_eq!(FilmFormat::F69.height_dots(4000), 13228);
    // 41.5 mm rather than the 45 the name says, which is 551 dots of film
    assert_eq!(FilmFormat::F645.height_dots(4000), 6535);
}

#[test]
fn gr_holder_fixes_format() {
    assert_eq!(FilmFormat::from_holder(0x1A), Some(FilmFormat::F66));
    assert_eq!(FilmFormat::from_holder(0x1D), Some(FilmFormat::F69));
    assert_eq!(FilmFormat::from_holder(0x17), None);
}

#[test]
fn strip_holder_offers_choices() {
    let choices = FilmFormat::choices_for_holder(0x17).unwrap();
    assert!(choices.contains(&FilmFormat::F66));
    assert!(choices.contains(&FilmFormat::F69));
    assert!(FilmFormat::choices_for_holder(0x1A).is_none());
}
