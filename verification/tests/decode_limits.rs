//! What a decoder refuses, and what it does at the edges

use nkscan::error::Error;
use nkscan::protocol::caps::ccd::CcdMeasurement;
use nkscan::protocol::caps::set_window::ColorInterleaving;
use nkscan::protocol::caps::Page;
use nkscan::protocol::curves::Curves;
use nkscan::protocol::decode::{Decoder, Image, Samples};
use nkscan::protocol::image::Layout;

fn why<T>(outcome: Result<T, Error>) -> String {
    match outcome {
        Err(Error::Unsupported { op, reason }) => {
            assert_eq!(op, "decode");
            reason
        }
        Err(other) => panic!("not a refusal: {other:?}"),
        Ok(_) => panic!("not refused"),
    }
}

/// `rows` by `stages * 3` with three CCD rows
fn three(rows: u32, stages: u32, gap: u32, channels: Vec<u8>) -> Layout {
    let mut l = Layout::single_line(rows, stages * 3, channels);
    l.interleaving =
        ColorInterleaving::from_bits_truncate(ColorInterleaving::MULTILINE_SIMULTANEOUS);
    l.ccd_lines = 3;
    l.registration_gap = gap;
    l
}

fn sized(l: &Layout) -> (Decoder<'_>, Samples) {
    let d = Decoder::new(l).unwrap();
    let mut s = Samples::default();
    s.resize_for(&d);
    (d, s)
}

#[test]
fn layouts_are_refused_in_words() {
    let mut l = Layout::single_line(4, 3, vec![1]);
    l.bytes_per_sample = 3;
    assert_eq!(
        why(Decoder::new(&l)),
        "3 bytes a sample is neither of the widths 2-11-3 defines"
    );
    let mut l = Layout::single_line(4, 3, vec![1]);
    l.interleaving = ColorInterleaving::from_bits_truncate(ColorInterleaving::PLANE);
    assert_eq!(
        why(Decoder::new(&l)),
        "ColorInterleaving(PLANE) is not an ordering this decodes yet"
    );
    let mut l = three(4, 2, 4, vec![1]);
    l.lines = 7;
    assert_eq!(
        why(Decoder::new(&l)),
        "7 columns is not a whole number of 12-column blocks"
    );
    let l = three(4, 2, 0, vec![1]);
    assert_eq!(
        why(Decoder::new(&l)),
        "6 columns is not a whole number of 0-column blocks"
    );
}

#[test]
fn outputs_are_refused_in_words_and_left_alone() {
    let l = Layout::single_line(2, 2, vec![9, 1]);
    let mut d = Decoder::new(&l).unwrap();
    let mut s = Samples {
        colors: vec![vec![7; 4], vec![7; 4]],
        ir: None,
    };
    assert_eq!(
        why(d.push(&[0; 64], &mut s)),
        "the output holds 2 color planes and this stream needs 1"
    );
    s.colors = vec![vec![7; 3]];
    assert_eq!(
        why(d.push(&[0; 64], &mut s)),
        "color plane 0 holds 3 samples and this stream needs 4"
    );
    s.colors = vec![vec![7; 4]];
    assert_eq!(
        why(d.push(&[0; 64], &mut s)),
        "the infrared output holds 0 samples and this stream needs 4"
    );
    s.ir = Some(vec![7; 3]);
    assert_eq!(
        why(d.push(&[0; 64], &mut s)),
        "the infrared output holds 3 samples and this stream needs 4"
    );
    assert_eq!(s.colors, vec![vec![7; 4]]);
    assert_eq!(s.ir, Some(vec![7; 3]));
    assert_eq!(d.decoded(), 0);
}

#[test]
fn one_byte_samples_are_their_bytes() {
    let mut l = Layout::single_line(3, 2, vec![2]);
    l.bytes_per_sample = 1;
    let (mut d, mut s) = sized(&l);
    d.push(&[1, 2, 3, 250, 251, 252], &mut s).unwrap();
    assert!(d.complete());
    // The bar reads out backwards
    assert_eq!(s.colors, vec![vec![3, 252, 2, 251, 1, 250]]);
}

#[test]
fn an_average_rounds_to_nearest() {
    let mut l = Layout::single_line(1, 1, vec![1]);
    l.readings_per_line = 3;
    let (mut d, mut s) = sized(&l);
    // 10 + 10 + 11 over 3 is 10.33, and 10 + 11 + 11 is 10.67
    d.push(&[0, 10, 0, 10, 0, 11], &mut s).unwrap();
    assert_eq!(s.colors[0][0], 10);
    let (mut d, mut s) = sized(&l);
    d.push(&[0, 10, 0, 11, 0, 11], &mut s).unwrap();
    assert_eq!(s.colors[0][0], 11);
    // No readings at all are one
    l.readings_per_line = 0;
    let (mut d, mut s) = sized(&l);
    d.push(&[0xFF, 0xFF], &mut s).unwrap();
    assert_eq!(s.colors[0][0], 65535);
}

#[test]
fn a_buffer_keeps_what_is_past_the_image() {
    let l = Layout::single_line(1, 2, vec![1]);
    let mut d = Decoder::new(&l).unwrap();
    let mut s = Samples {
        colors: vec![vec![9, 9, 9, 9]],
        ir: Some(vec![5]),
    };
    d.push(&[0, 1, 0, 2, 0, 3, 0, 4], &mut s).unwrap();
    assert_eq!(s.colors, vec![vec![1, 2, 9, 9]]);
    assert_eq!(s.ir, Some(vec![5]));
    // Padding goes on being dropped
    d.push(&[0, 5], &mut s).unwrap();
    assert_eq!(s.colors, vec![vec![1, 2, 9, 9]]);
    assert_eq!(d.decoded(), 2);
}

fn curves() -> Curves {
    let levels = [0u16, 30000, 60000];
    let mut p = vec![0u8; 17];
    p[1] = CcdMeasurement::PAGE_CODE;
    p[3] = 13;
    p[4] = 0x07;
    p[9] = 1;
    p[10] = 3;
    for (n, level) in levels.iter().enumerate() {
        p[11 + n * 2..13 + n * 2].copy_from_slice(&level.to_be_bytes());
    }
    let ccd =
        CcdMeasurement::try_from(&Page::new(CcdMeasurement::PAGE_CODE, p).unwrap()).unwrap();
    let words = [0, 33000, 60000, 0, 30000, 60000, 0, 30000, 60000];
    Curves::parse(&ccd, &words, 3, 0).unwrap()
}

#[test]
fn rows_are_corrected_as_they_are_unscrambled() {
    let c = curves();
    let l = three(1, 1, 1, vec![1]);
    let mut d = Decoder::new(&l).unwrap().correcting(&c);
    let mut s = Samples::default();
    s.resize_for(&d);
    let v = 33000u16.to_be_bytes();
    d.push(&[v[0], v[1], v[0], v[1], v[0], v[1]], &mut s).unwrap();
    assert_eq!(s.colors, vec![vec![30000, 33000, 33000]]);
}

/// A single line comes off one row, so there is nothing to correct
#[test]
fn a_single_line_is_not_corrected() {
    let c = curves();
    let l = Layout::single_line(1, 1, vec![1]);
    let mut d = Decoder::new(&l).unwrap().correcting(&c);
    let mut s = Samples::default();
    s.resize_for(&d);
    d.push(&33000u16.to_be_bytes(), &mut s).unwrap();
    assert_eq!(s.colors, vec![vec![33000]]);
}

#[test]
fn an_image_is_a_view_of_its_buffers() {
    let l = Layout::single_line(2, 3, vec![1, 9]);
    let s = Samples {
        colors: vec![vec![1, 2, 3, 4, 5, 6]],
        ir: Some(vec![9; 6]),
    };
    let image = Image::new(&l, &s).unwrap();
    assert_eq!((image.rows, image.cols, image.bits), (2, 3, 16));
    assert_eq!(image.colors, vec![&[1u16, 2, 3, 4, 5, 6][..]]);
    assert_eq!(image.ir, &[9u16; 6][..]);

    let none = Samples::default();
    assert_eq!(
        why(Image::new(&l, &none)),
        "0 color planes is not the 1 this layout describes"
    );
    let short = Samples {
        colors: vec![vec![0; 5]],
        ir: None,
    };
    assert_eq!(
        why(Image::new(&l, &short)),
        "color plane 0 is 5 samples, short of the 6 this layout describes"
    );
    let blind = Samples {
        colors: vec![vec![0; 6]],
        ir: None,
    };
    assert_eq!(
        why(Image::new(&l, &blind)),
        "0 infrared samples is short of the 6 this layout describes"
    );
    let plain = Layout::single_line(2, 3, vec![1]);
    assert!(Image::new(&plain, &blind).unwrap().ir.is_empty());
}

#[test]
fn buffers_are_sized_for_what_is_coming() {
    let l = three(4, 2, 2, vec![9, 1, 2, 3]);
    let (d, s) = sized(&l);
    assert_eq!(d.shape(), (4, 6));
    assert_eq!(d.colors(), 3);
    assert_eq!(d.ir_samples(), 24);
    assert_eq!(s.colors, vec![vec![0; 24]; 3]);
    assert_eq!(s.ir, Some(vec![0; 24]));
    // And again for something else
    let mut s = s;
    let l = Layout::single_line(1, 2, vec![2]);
    s.resize_for(&Decoder::new(&l).unwrap());
    assert_eq!(s.colors, vec![vec![0; 2]]);
    assert_eq!(s.ir, None);
}

/// Two channels read once share the one infrared buffer, and the last is left
/// in it
#[test]
fn the_last_infrared_channel_is_kept() {
    let l = Layout::single_line(1, 1, vec![9, 1, 9]);
    let (mut d, mut s) = sized(&l);
    assert_eq!(d.ir_samples(), 2);
    d.push(&[0, 1, 0, 2, 0, 3], &mut s).unwrap();
    assert_eq!(s.colors, vec![vec![1]]);
    assert_eq!(s.ir, Some(vec![3, 0]));
}

/// Buffers are looked at before blocks are, even where a block holds nothing
#[test]
fn faulty_buffers_are_refused_before_an_empty_block_is_read() {
    let l = Layout::single_line(0, 3, vec![1, 2, 3]);
    let mut d = Decoder::new(&l).unwrap();
    assert_eq!(
        why(d.push(&[1, 2, 3], &mut Samples::default())),
        "the output holds 0 color planes and this stream needs 3"
    );
    assert_eq!(d.decoded(), 0);
}
