//! Remapping at and past the ends of a curve

use nkscan::protocol::caps::ccd::{CcdMeasurement, Channels};
use nkscan::protocol::caps::Page;
use nkscan::protocol::curves::Curves;

fn ccd(colors: u8, types: u8, points: u8) -> CcdMeasurement {
    let mut p = vec![0u8; 11 + 2 * points as usize];
    p[1] = CcdMeasurement::PAGE_CODE;
    p[4] = colors;
    p[6] = 0x0F;
    p[7] = 0xA0;
    p[8] = 2;
    p[9] = types;
    p[10] = points;
    CcdMeasurement::try_from(&Page::new(CcdMeasurement::PAGE_CODE, p).unwrap()).unwrap()
}

fn remap(from: [u16; 3], onto: [u16; 3]) -> Curves {
    let words: Vec<u16> = [from, onto, onto].concat();
    Curves::parse(&ccd(0x07, 1, 3), &words, 3, 0).unwrap()
}

/// Nothing was measured past the last point either
#[test]
fn samples_over_the_last_point_are_left_alone() {
    let c = remap([100, 20000, 50000], [100, 30000, 40000]);
    assert_eq!(c.correct(0, 50000), 40000);
    for v in [50001u16, 60000, 65535] {
        assert_eq!(c.correct(0, v), v);
    }
    assert_eq!(c.correct(0, 99), 99);
    assert_eq!(c.correct(0, 100), 100);
}

/// A curve that falls back still has its earlier segments: only past the end of
/// the one the walk stops in was nothing measured
#[test]
fn a_curve_that_falls_back_keeps_its_earlier_segments() {
    let c = remap([0, 60000, 30000], [0, 50000, 60000]);
    assert_eq!(c.correct(0, 40000), 33333);
    assert_eq!(c.correct(0, 30000), 25000);
    assert_eq!(c.correct(0, 59999), 49999);
    // From the top on the step falls, which says nothing
    for v in [60000u16, 65535] {
        assert_eq!(c.correct(0, v), v);
    }
    // A fall before the last segment: the walk goes past it
    let c = remap([100, 50, 20000], [100, 300, 40250]);
    assert_eq!(c.correct(0, 100), 400);
    assert_eq!(c.correct(0, 20000), 40250);
    assert_eq!(c.correct(0, 20001), 20001);
}

#[test]
fn a_segment_is_straight_and_cuts_its_fraction_off() {
    let c = remap([0, 3, 1000], [0, 10, 1000]);
    assert_eq!(c.correct(0, 1), 3);
    assert_eq!(c.correct(0, 2), 6);
    assert_eq!(c.correct(0, 3), 10);
    // Falling, the step is cut off toward where it started
    let c = remap([0, 3, 1000], [10, 0, 1000]);
    assert_eq!(c.correct(0, 1), 7);
    assert_eq!(c.correct(0, 2), 4);
}

#[test]
fn a_flat_step_is_left_alone() {
    let c = remap([0, 500, 500], [0, 700, 900]);
    assert_eq!(c.correct(0, 250), 350);
    assert_eq!(c.correct(0, 500), 500);
}

/// Measured points go to measured points, and the reference stays
#[test]
fn points_go_to_points() {
    let from = [90u16, 33000, 60000];
    let onto = [100u16, 30000, 61000];
    let c = remap(from, onto);
    for (a, b) in from.iter().zip(onto) {
        assert_eq!(c.correct(0, *a), b);
    }
    for v in (0..=65535u16).step_by(997) {
        assert_eq!(c.correct(1, v), v);
        assert_eq!(c.correct(2, v), v);
    }
}

#[test]
fn a_row_without_a_table_passes_through() {
    let c = remap([0, 1, 2], [5, 6, 7]);
    assert_eq!(c.rows(), 3);
    assert_eq!(c.correct(3, 1), 1);
    assert_eq!(c.correct(usize::MAX, 60000), 60000);
}

#[test]
fn curves_are_counted_by_channel_and_type() {
    let page = ccd(0xFF, 3, 2);
    assert_eq!(page.curves(), 24);
    assert_eq!(page.colors.bits(), 0xFF);
    assert!(page.colors.contains(Channels::BLACK | Channels::RED));
    assert_eq!((page.resolution, page.scans, page.types), (4000, 2, 3));
    assert_eq!(page.points, vec![0, 0]);
    assert_eq!(ccd(0x05, 1, 2).curves(), 2);
    assert_eq!(ccd(0x00, 9, 2).curves(), 0);
}

#[test]
fn a_table_needs_points_rows_and_its_words() {
    let words = [0u16; 24];
    assert!(Curves::parse(&ccd(7, 1, 1), &words, 3, 0).is_none());
    assert!(Curves::parse(&ccd(7, 1, 2), &words, 0, 0).is_none());
    assert!(Curves::parse(&ccd(7, 1, 2), &words[..5], 3, 0).is_none());
    assert!(Curves::parse(&ccd(7, 1, 2), &words, 4, 0).is_none());
    assert!(Curves::parse(&ccd(7, 0, 2), &words, 1, 0).is_none());
    assert!(Curves::parse(&ccd(7, 2, 2), &words, 3, 1).is_some());
    assert!(Curves::parse(&ccd(7, 1, 2), &words, usize::MAX, 0).is_none());
}

#[test]
fn a_ccd_page_that_stops_inside_a_point_is_short() {
    let mut p = vec![0u8; 14];
    p[1] = CcdMeasurement::PAGE_CODE;
    p[10] = 2;
    let e = CcdMeasurement::try_from(&Page::new(CcdMeasurement::PAGE_CODE, p).unwrap());
    assert_eq!(e.unwrap_err().message(), "page E3h truncated: need 15 bytes, got 14");
    let e = CcdMeasurement::try_from(&Page::new(0xE3, vec![0, 0xE3, 0, 0]).unwrap());
    assert_eq!(e.unwrap_err().message(), "page E3h truncated: need 11 bytes, got 4");
}
