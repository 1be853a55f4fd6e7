//! Unscrambling a stream

use nkscan::protocol::caps::set_window::ColorInterleaving;
use nkscan::protocol::decode::{Decoder, Samples};
use nkscan::protocol::image::Layout;

/// A 1494 x 1494 three-channel 16-bit stream, which is what a 666 dpi
/// single-line pass over a 6x6 frame produces
fn layout(pixels: u32, lines: u32, channels: Vec<u8>) -> Layout {
    Layout::single_line(pixels, lines, channels)
}

/// Channel `c` of pixel `x` on line `y` carries a value that says so
fn stream(pixels: usize, lines: usize, channels: usize) -> Vec<u8> {
    let mut out = Vec::new();
    for y in 0..lines {
        for c in 0..channels {
            for x in 0..pixels {
                let v = (y * 1000 + x * 10 + c) as u16;
                out.extend_from_slice(&v.to_be_bytes());
            }
        }
    }
    out
}

/// A ready-sized buffer pair and the decoder to fill it, for a layout with
/// no infrared
fn buffers(l: &Layout) -> (Decoder<'_>, Samples) {
    let d = Decoder::new(l).unwrap();
    let mut samples = Samples::default();
    samples.resize_for(&d);
    (d, samples)
}

/// The wire puts a whole channel down before the next; the output keeps
/// them apart the same way, one plane per channel, sensor pixels down
/// each plane with the bar read out backwards
#[test]
fn a_line_of_planes_lands_in_its_own_plane() {
    let l = layout(4, 3, vec![1, 2, 3]);
    let (mut d, mut samples) = buffers(&l);
    d.push(&stream(4, 3, 3), &mut samples).unwrap();

    assert!(d.complete());
    assert!(samples.ir.is_none());
    assert_eq!(d.shape(), (4, 3));
    for s in 0..4usize {
        for f in 0..3usize {
            for c in 0..3usize {
                let got = samples.colors[c][(4 - 1 - s) * 3 + f];
                assert_eq!(got, (f * 1000 + s * 10 + c) as u16, "{s},{f},{c}");
            }
        }
    }
}

/// A single-line pass is the three-line readout with one CCD row, so the
/// same wire bytes come out the same image whichever interleaving names them
#[test]
fn single_line_and_three_line_read_one_geometry() {
    let single = layout(4, 3, vec![1, 2, 3]);
    let mut three = single.clone();
    three.interleaving =
        ColorInterleaving::from_bits_truncate(ColorInterleaving::MULTILINE_SIMULTANEOUS);
    three.ccd_lines = 1;
    three.registration_gap = 0;

    let raw = stream(4, 3, 3);
    let (mut a, mut a_samples) = buffers(&single);
    let (mut b, mut b_samples) = buffers(&three);
    a.push(&raw, &mut a_samples).unwrap();
    b.push(&raw, &mut b_samples).unwrap();

    assert_eq!(a_samples.colors, b_samples.colors);
}

/// The transport splits where it likes, including mid-sample
#[test]
fn a_stream_split_anywhere_decodes_the_same() {
    let l = layout(4, 3, vec![1, 2, 3]);
    let whole = stream(4, 3, 3);

    let (mut d, mut want) = buffers(&l);
    d.push(&whole, &mut want).unwrap();

    for split in [1usize, 3, 7, 16, 23, 48] {
        let (mut d, mut got) = buffers(&l);
        for piece in whole.chunks(split) {
            d.push(piece, &mut got).unwrap();
        }
        assert!(d.complete(), "split {split} left {} lines", d.decoded());
        assert_eq!(got.colors, want.colors, "split {split}");
    }
}

/// A short read leaves what did not arrive where it was
#[test]
fn a_short_stream_writes_only_what_arrived() {
    let l = layout(4, 3, vec![1, 2, 3]);
    let (mut d, mut samples) = buffers(&l);
    let whole = stream(4, 3, 3);
    d.push(&whole[..whole.len() / 3], &mut samples).unwrap();

    assert!(!d.complete());
    assert_eq!(d.decoded(), 1);
    let cols = 3;
    // One block is one feed position read into the whole sensor bar, so
    // column 0 carries the first wire line and nothing else has moved
    for (y, s) in [(0usize, 3usize), (1, 2), (2, 1), (3, 0)] {
        for c in 0..3usize {
            assert_eq!(
                samples.colors[c][y * cols],
                (s * 10 + c) as u16,
                "row {y} ch {c}"
            );
        }
    }
    // The other feed positions have not arrived, so their columns are blank
    for y in 0..4usize {
        for x in 1..3usize {
            for c in 0..3usize {
                assert_eq!(samples.colors[c][y * cols + x], 0, "row {y} col {x} ch {c}");
            }
        }
    }
}

/// The unit pads rather than truncating, so anything past the last line
/// the layout promised is not ours to write
#[test]
fn padding_past_the_last_line_is_dropped() {
    let l = layout(4, 2, vec![1, 2, 3]);
    let (mut d, mut samples) = buffers(&l);
    d.push(&stream(4, 4, 3), &mut samples).unwrap();

    assert_eq!(d.decoded(), 2);
    assert!(d.complete());
}

#[test]
fn an_output_too_small_is_refused() {
    let l = layout(4, 3, vec![1, 2, 3]);
    let mut d = Decoder::new(&l).unwrap();
    let mut samples = Samples {
        colors: vec![vec![0u16; 4]; 3],
        ir: None,
    };
    assert!(d.push(&[], &mut samples).is_err());
}
