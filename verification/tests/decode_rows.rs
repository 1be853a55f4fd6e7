//! Unscrambling a stream that tiles stage positions against CCD rows

use nkscan::protocol::caps::set_window::ColorInterleaving;
use nkscan::protocol::decode::{Decoder, Samples};
use nkscan::protocol::image::Layout;

/// A three-line layout: `rows` sensor pixels by `stages` stage positions
fn layout(rows: u32, stages: u32, gap: u32, channels: Vec<u8>, readings: u8) -> Layout {
    Layout {
        pixels: rows,
        lines: stages * 3,
        pitch: 1,
        line_pitch: 1,
        dpi: 4000,
        bytes_per_sample: 2,
        bits_per_sample: 16,
        channels,
        interleaving: ColorInterleaving::from_bits_truncate(
            ColorInterleaving::MULTILINE_SIMULTANEOUS,
        ),
        readings_per_line: readings,
        ccd_lines: 3,
        registration_gap: gap,
        granule: 1,
        truncated_bytes_line: (0, 0),
        truncated_lines_frame: (0, 0),
        multiline_registered: false,
    }
}

/// A ready-sized buffer pair and the decoder to fill it
fn buffers(l: &Layout) -> (Decoder<'_>, Samples) {
    let d = Decoder::new(l).unwrap();
    let mut samples = Samples::default();
    samples.resize_for(&d);
    (d, samples)
}

/// Every sample says where it came from, so a misplaced one is legible
fn tag(stage: usize, slot: usize, pixel: usize, line: usize) -> u16 {
    (stage * 1000 + slot * 100 + pixel * 10 + line) as u16
}

/// The wire order: stage positions, each holding its readouts, each holding
/// the sensor bar with the CCD's rows interleaved per pixel
fn stream(stages: usize, readouts: usize, rows: usize, lines: usize) -> Vec<u8> {
    let mut out = Vec::new();
    for stage in 0..stages {
        for slot in 0..readouts {
            for pixel in 0..rows {
                for line in 0..lines {
                    out.extend_from_slice(&tag(stage, slot, pixel, line).to_be_bytes());
                }
            }
        }
    }
    out
}

/// One block of `gap` stage positions fills `gap * 3` columns as
/// `[row 0 x gap][row 1 x gap][row 2 x gap]`, and the bar reads out
/// backwards
#[test]
fn a_block_tiles_stage_positions_against_ccd_rows() {
    let (rows, stages, gap) = (4usize, 2usize, 2u32);
    let l = layout(rows as u32, stages as u32, gap, vec![1, 2, 3], 1);
    let (mut d, mut samples) = buffers(&l);
    assert_eq!(d.shape(), (rows, stages * 3));

    d.push(&stream(stages, 3, rows, 3), &mut samples).unwrap();
    assert!(d.complete());

    let (_, cols) = d.shape();
    for stage in 0..stages {
        for line in 0..3 {
            let x = line * gap as usize + stage;
            for pixel in 0..rows {
                let y = rows - 1 - pixel;
                for channel in 0..3 {
                    assert_eq!(
                        samples.colors[channel][y * cols + x],
                        tag(stage, channel, pixel, line),
                        "stage {stage} line {line} pixel {pixel} channel {channel}"
                    );
                }
            }
        }
    }
}

/// Infrared sits after the first color triple and is not repeated, so a
/// repeated color averages its readings and infrared lands in its own
/// buffer alone
#[test]
fn multi_sampling_averages_the_colors_and_leaves_infrared_apart() {
    let l = layout(2, 1, 1, vec![9, 1, 2, 3], 2);
    let (mut d, mut samples) = buffers(&l);
    // 3 colors x 2 readings + 1 infrared
    d.push(&stream(1, 7, 2, 3), &mut samples).unwrap();
    assert!(d.complete());

    let (_, cols) = d.shape();
    let ir = samples.ir.as_ref().unwrap();
    for line in 0..3 {
        for pixel in 0..2 {
            let (y, x) = (2 - 1 - pixel, line);
            let pixel_at = y * cols + x;
            // Infrared is read once, at wire slot 3, whatever the reading count
            assert_eq!(ir[pixel_at], tag(0, 3, pixel, line));
            for c in 0..3 {
                let first = tag(0, c, pixel, line);
                let second = tag(0, 4 + c, pixel, line);
                assert_eq!(samples.colors[c][pixel_at], (first + second) / 2);
            }
        }
    }
}

/// Columns have to divide into whole interleave blocks
#[test]
fn a_ragged_column_count_is_refused() {
    let mut l = layout(4, 2, 4, vec![1, 2, 3], 1);
    l.lines = 7;
    assert!(Decoder::new(&l).is_err());
}

/// A single-line layout: one CCD row, `gap` 1, a block of one feed line
fn single(rows: u32, stages: u32, channels: Vec<u8>, readings: u8) -> Layout {
    Layout {
        pixels: rows,
        lines: stages,
        pitch: 1,
        line_pitch: 1,
        dpi: 4000,
        bytes_per_sample: 2,
        bits_per_sample: 16,
        channels,
        interleaving: ColorInterleaving::from_bits_truncate(
            ColorInterleaving::LINE_WITHOUT_DISTANCE,
        ),
        readings_per_line: readings,
        ccd_lines: 1,
        registration_gap: 1,
        granule: 1,
        truncated_bytes_line: (0, 0),
        truncated_lines_frame: (0, 0),
        multiline_registered: false,
    }
}

/// Single-line multi-pass is format 1 read as many times as the window
/// asked: per feed position the color channels for each reading, with the
/// once-read infrared between the first reading and the rest
#[test]
fn a_single_line_averages_multi_pass_and_leaves_infrared_apart() {
    let (rows, stages, readings) = (2usize, 2usize, 4u8);
    let l = single(rows as u32, stages as u32, vec![9, 1, 2, 3], readings);
    // 3 colors x 4 readings + 1 infrared
    let readouts = 13usize;
    let (mut d, mut samples) = buffers(&l);
    d.push(&stream(stages, readouts, rows, 1), &mut samples)
        .unwrap();
    assert!(d.complete());

    let (_, cols) = d.shape();
    let ir = samples.ir.as_ref().unwrap();
    for stage in 0..stages {
        for pixel in 0..rows {
            let (y, x) = (rows - 1 - pixel, stage);
            let pixel_at = y * cols + x;
            assert_eq!(
                ir[pixel_at],
                tag(stage, 3, pixel, 0),
                "stage {stage} pixel {pixel} IR"
            );
            for c in 0..3 {
                let slots = [c, 4 + c, 7 + c, 10 + c];
                let reads: Vec<u16> = slots.iter().map(|&s| tag(stage, s, pixel, 0)).collect();
                let want = reads.iter().map(|&s| u32::from(s)).sum::<u32>() / 4;
                assert_eq!(
                    samples.colors[c][pixel_at], want as u16,
                    "stage {stage} pixel {pixel} color {c}"
                );
            }
        }
    }
}

/// A single-line pass of a channel multi-sampling does not repeat is one
/// exposure per feed position, however many readings the window asked for.
/// An infrared-only scan carries no color channel at all
#[test]
fn a_single_line_reads_once_read_channels_once() {
    let (rows, stages) = (2usize, 2usize);
    let l = single(rows as u32, stages as u32, vec![9], 4);
    let (mut d, mut samples) = buffers(&l);
    assert_eq!(d.shape(), (rows, stages));
    assert!(samples.colors.is_empty());
    d.push(&stream(stages, 1, rows, 1), &mut samples).unwrap();
    assert!(d.complete());

    let (_, cols) = d.shape();
    let ir = samples.ir.as_ref().unwrap();
    for stage in 0..stages {
        for pixel in 0..rows {
            let (y, x) = (rows - 1 - pixel, stage);
            assert_eq!(ir[y * cols + x], tag(stage, 0, pixel, 0));
        }
    }
}
