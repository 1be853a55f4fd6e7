//! Bringing a CCD's rows onto each other

use nkscan::protocol::caps::ccd::CcdMeasurement;
use nkscan::protocol::caps::Page;
use nkscan::protocol::curves::Curves;

/// Three levels, so a curve is two straight segments
fn page(points: &[u16], types: u8) -> CcdMeasurement {
    let mut p = vec![0u8; 11 + points.len() * 2];
    p[1] = CcdMeasurement::PAGE_CODE;
    p[3] = (p.len() - 4) as u8;
    p[4] = 0x07;
    p[9] = types;
    p[10] = points.len() as u8;
    for (n, level) in points.iter().enumerate() {
        p[11 + n * 2..13 + n * 2].copy_from_slice(&level.to_be_bytes());
    }
    CcdMeasurement::try_from(&Page::new(CcdMeasurement::PAGE_CODE, p).unwrap()).unwrap()
}

/// `repeat * types + type`, so one type of three rows is every `types`th
fn words(rows: &[&[u16]], types: usize, kind: usize) -> Vec<u16> {
    let points = rows[0].len();
    let mut out = vec![0u16; 3 * types * points];
    for (r, curve) in rows.iter().enumerate() {
        let at = (r * types + kind) * points;
        out[at..at + points].copy_from_slice(curve);
    }
    out
}

/// Rows that already agree have nothing between them, so every sample comes
/// back as it went in
#[test]
fn matching_rows_leave_every_sample_alone() {
    let ccd = page(&[0, 30000, 60000], 1);
    let curve: &[u16] = &[0, 30000, 60000];
    let c = Curves::parse(&ccd, &words(&[curve, curve, curve], 1, 0), 3, 0).unwrap();
    for v in [0u16, 1, 15000, 30000, 45000, 60000, 65535] {
        for row in 0..3 {
            assert_eq!(c.correct(row, v), v, "row {row} sample {v}");
        }
    }
}

/// A row reading high is brought back onto the reference, and the reference
/// is left where it is
#[test]
fn a_row_that_reads_high_is_mapped_onto_the_reference() {
    let ccd = page(&[0, 30000, 60000], 1);
    let high: &[u16] = &[0, 33000, 60000];
    let middle: &[u16] = &[0, 30000, 60000];
    let c = Curves::parse(&ccd, &words(&[high, middle, middle], 1, 0), 3, 0).unwrap();

    // Row 1 is the reference of three, so it does not move
    assert_eq!(c.correct(1, 30000), 30000);
    // Row 0 reads 33000 where the reference reads 30000
    assert_eq!(c.correct(0, 33000), 30000);
    // The ends are common to both curves
    assert_eq!(c.correct(0, 0), 0);
    assert_eq!(c.correct(0, 60000), 60000);
    // Half way up the first segment of row 0 is half way up the reference's
    assert_eq!(c.correct(0, 16500), 15000);
}

/// The correction is not linear, which is why it has to precede an average
#[test]
fn the_remap_is_not_linear() {
    let ccd = page(&[0, 20000, 60000], 1);
    let bent: &[u16] = &[0, 30000, 60000];
    let straight: &[u16] = &[0, 20000, 60000];
    let c = Curves::parse(&ccd, &words(&[bent, straight, straight], 1, 0), 3, 0).unwrap();

    let (a, b) = (10000u16, 50000u16);
    let mean_then_correct = c.correct(0, (a + b) / 2);
    let correct_then_mean = (u32::from(c.correct(0, a)) + u32::from(c.correct(0, b))) / 2;
    assert_ne!(u32::from(mean_then_correct), correct_then_mean);
}

/// Every curve starts at the sensor's dark offset, and nothing below it was
/// measured. Mapping into the first segment would put the whole of the
/// bottom of the range onto that offset
#[test]
fn samples_under_the_first_point_are_left_alone() {
    let ccd = page(&[0, 30000, 60000], 1);
    let high: &[u16] = &[90, 33000, 60000];
    let middle: &[u16] = &[90, 30000, 60000];
    let c = Curves::parse(&ccd, &words(&[high, middle, middle], 1, 0), 3, 0).unwrap();

    for v in 0..90u16 {
        assert_eq!(c.correct(0, v), v, "sample {v} under the dark offset");
    }
    assert_eq!(c.correct(0, 90), 90);
}

/// A reply that does not match the page it came with is not a table
#[test]
fn a_reply_that_does_not_fit_is_refused() {
    let ccd = page(&[0, 30000, 60000], 1);
    let curve: &[u16] = &[0, 30000, 60000];
    let full = words(&[curve, curve, curve], 1, 0);
    assert!(Curves::parse(&ccd, &full[..full.len() - 1], 3, 0).is_none());
    // A type the page does not have
    assert!(Curves::parse(&ccd, &full, 3, 1).is_none());
}
