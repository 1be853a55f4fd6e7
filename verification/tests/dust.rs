//! The decisions of dust removal

use nkscan::dust::{
    and3_cols, and3_rows, clamped, clear_tiles, decide, dither_bits, is_clear, offset, pixels_of,
    switches, write_back, Level, Model, Quality, Switches,
};
use nkscan::protocol::model::Model as Unit;

#[test]
fn every_unit_has_constants() {
    assert_eq!(Model::from(Unit::Ls9000), Model::Ls9000);
    assert_eq!(Model::from(Unit::Ls8000), Model::Ls9000);
    assert_eq!(Model::from(Unit::Ls5000), Model::Ls5000);
    assert_eq!(Model::from(Unit::Ls4000), Model::Ls5000);
    assert_eq!(Model::from(Unit::Ls50), Model::Ls50);
    assert_eq!(Model::from(Unit::Ls40), Model::Ls50);
    assert_eq!(Model::default(), Model::Ls9000);
    assert_eq!(Quality::default(), Quality::Normal);
}

#[test]
fn switches_follow_quality_and_resolution() {
    assert_eq!(
        switches(Model::Ls9000, Quality::Normal, 950),
        Switches {
            clamp_l3: true,
            min3: true,
            cross_beta: false
        }
    );
    assert_eq!(
        switches(Model::Ls50, Quality::Fine, 2501),
        Switches {
            clamp_l3: false,
            min3: true,
            cross_beta: true
        }
    );
    assert!(!switches(Model::Ls5000, Quality::Fine, 550).min3);
    assert!(switches(Model::Ls5000, Quality::Fine, 1601).cross_beta);
}

#[test]
fn clear_film_is_past_a_level() {
    assert!(!is_clear(8847));
    assert!(is_clear(8848));
    // 17 x 25 is two tiles down and three across, with a rest
    let (rows, cols) = (17usize, 25usize);
    let mut ir = vec![60000u16; rows * cols];
    assert_eq!(
        clear_tiles(&ir, rows, cols),
        vec![(0, 0), (0, 8), (0, 16), (8, 0), (8, 8), (8, 16)]
    );
    ir[7 * cols + 15] = 100; // the last pixel of the second tile
    ir[16 * cols + 24] = 100; // in no tile at all
    assert_eq!(
        clear_tiles(&ir, rows, cols),
        vec![(0, 0), (0, 16), (8, 0), (8, 8), (8, 16)]
    );
    assert!(clear_tiles(&[0; 49], 7, 7).is_empty());
}

fn plane(rows: usize, cols: usize, dark: &[(usize, usize)]) -> Vec<bool> {
    let mut p = vec![false; rows * cols];
    for &(y, x) in dark {
        p[y * cols + x] = true;
    }
    p
}

#[test]
fn neighbors_are_clamped_at_the_edges() {
    // A row of five with its first two dark
    let src = [true, true, false, false, false];
    assert_eq!(and3_cols(&src, 1, 5, 1), [true, false, false, false, false]);
    let src = [false, false, true, true, true];
    assert_eq!(and3_cols(&src, 1, 5, 1), [false, false, false, true, true]);
    // The same down a column, by two
    let src = [true, true, true, false, false];
    assert_eq!(and3_rows(&src, 5, 1, 2), [true, false, false, false, false]);
    assert_eq!(and3_rows(&[true; 3], 3, 1, 9), [true; 3]);
    assert_eq!(and3_cols(&[true, false], 1, 2, 9), [false, false]);
}

/// A nine pixel run of dark keeps the pixels it is four away from
#[test]
fn what_is_large_is_not_dust() {
    let (rows, cols) = (20usize, 20usize);
    let run: Vec<_> = (4..13).map(|x| (10, x)).collect();
    let mask = decide(&plane(rows, cols, &run), &vec![false; 400], rows, cols, false);
    // Its middle is four below (14, 8) and four above (6, 8)
    assert!(!mask[14 * cols + 8]);
    assert!(!mask[6 * cols + 8]);
    assert!(mask[10 * cols + 8]);
    assert!(mask[14 * cols + 9]);
    // One shorter, and it is dust
    let short: Vec<_> = (4..12).map(|x| (10, x)).collect();
    let mask = decide(&plane(rows, cols, &short), &vec![false; 400], rows, cols, false);
    assert!(mask.iter().all(|&m| m));
    // Standing, it keeps the pixels to its sides
    let tall: Vec<_> = (4..13).map(|y| (y, 10)).collect();
    let mask = decide(&plane(rows, cols, &tall), &vec![false; 400], rows, cols, false);
    assert!(!mask[8 * cols + 6]);
    assert!(!mask[8 * cols + 14]);
}

#[test]
fn certain_film_is_left_alone_with_the_clamps_on() {
    let dark = vec![false; 9];
    let mut certain = vec![false; 9];
    certain[4] = true;
    let on = decide(&dark, &certain, 3, 3, true);
    assert_eq!(on.iter().filter(|&&m| m).count(), 8);
    assert!(!on[4]);
    assert!(decide(&dark, &certain, 3, 3, false).iter().all(|&m| m));
}

#[test]
fn offsets_fall_off_or_are_clamped() {
    assert_eq!(offset(3, -4, 10), None);
    assert_eq!(offset(3, -3, 10), Some(0));
    assert_eq!(offset(9, 1, 10), None);
    assert_eq!(offset(9, 0, 10), Some(9));
    assert_eq!(offset(0, 0, 0), None);
    assert_eq!(clamped(3, -4, 10), 0);
    assert_eq!(clamped(9, 4, 10), 9);
    assert_eq!(clamped(5, 2, 10), 7);
}

/// The runs of a box are its octagon, as far as it is in the plane
#[test]
fn spans_are_the_octagon() {
    let (rows, cols) = (12usize, 11usize);
    for (level, reach, slant, cells) in [(Level::Wide, 4i32, 6, 69u32), (Level::Near, 2, 3, 21)] {
        assert_eq!(level.cells(), cells);
        assert_eq!(level.radius(), reach);
        for y in 0..rows {
            for x in 0..cols {
                let mut got = Vec::new();
                for dy in -reach..=reach {
                    if let Some((lo, hi)) = level.span(y, x, dy, rows, cols) {
                        got.extend(lo..=hi);
                    }
                }
                let mut want = Vec::new();
                for ny in 0..rows as i32 {
                    for nx in 0..cols as i32 {
                        let (dy, dx) = ((ny - y as i32).abs(), (nx - x as i32).abs());
                        if dy <= reach && dx <= reach && dy + dx <= slant {
                            want.push(ny as usize * cols + nx as usize);
                        }
                    }
                }
                assert_eq!(got, want, "{y} {x}");
            }
        }
    }
    let whole: i32 = (-4..=4).map(|dy| 2 * Level::Wide.half_width(dy) + 1).sum();
    assert_eq!(whole, 69);
}

#[test]
fn the_dither_is_fixed_per_pixel_and_channel() {
    let mix = |pixel: u64, channel: u64| {
        let mut x = pixel << 2 | channel;
        x = (x ^ (x >> 30)).wrapping_mul(0xbf58_476d_1ce4_e5b9);
        x = (x ^ (x >> 27)).wrapping_mul(0x94d0_49bb_1331_11eb);
        ((x ^ (x >> 31)) & 0x00ff_ffff) as u32
    };
    for pixel in [0u64, 1, 12345, u64::MAX] {
        for channel in 0..3 {
            assert_eq!(dither_bits(pixel, channel), mix(pixel, channel));
            assert!(dither_bits(pixel, channel) < 1 << 24);
        }
    }
    assert_eq!(dither_bits(0, 0), 0);
    assert_ne!(dither_bits(7, 0), dither_bits(7, 1));
}

#[test]
fn rebuilt_pixels_only_fill_with_the_clamp_on() {
    assert_eq!(pixels_of(&[true, false, true, true]), vec![0, 2, 3]);
    let mut plane = vec![100u16, 200, 300, 400];
    write_back(&mut plane, &[0, 2, 3], &[50, 350, 400], true);
    assert_eq!(plane, vec![100, 200, 350, 400]);
    let mut plane = vec![100u16, 200, 300, 400];
    write_back(&mut plane, &[0, 2, 3], &[50, 350, 1], false);
    assert_eq!(plane, vec![50, 200, 350, 1]);
}
