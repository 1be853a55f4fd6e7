//! The data type table, and records at their edges

use nkscan::error::Error;
use nkscan::protocol::caps::other::DataTypes;
use nkscan::protocol::data::{
    width_code, Boundary, CooperativeAction, DataType, Header, Op, Operation, Position, Rect, Row,
    Scalar, Setup, Truncation, Values, HEADER,
};
use nkscan::protocol::sense::Coop;

const ALL: [DataType; 25] = [
    DataType::Image,
    DataType::HalftoneMask,
    DataType::Lut,
    DataType::Histogram,
    DataType::MaxValue,
    DataType::Matrix,
    DataType::Filter,
    DataType::Shading,
    DataType::DarkVoltage,
    DataType::Magnetic,
    DataType::Cooperation,
    DataType::Boundary,
    DataType::AnalogGamma,
    DataType::AnalogGain,
    DataType::DigitalGain,
    DataType::WhiteBalanceExposure,
    DataType::Setup,
    DataType::Perforation,
    DataType::Boundary2,
    DataType::ShipmentWhiteBalance,
    DataType::CcdData,
    DataType::DriverVersion,
    DataType::LeakVolume,
    DataType::RamBuffer,
    DataType::EepromBuffer,
];

#[test]
fn rows_of_the_table() {
    assert_eq!(
        DataType::Image.row(),
        Row {
            code: 0,
            width: None,
            count: None,
            header: false,
            read: None,
            write: None
        }
    );
    assert_eq!(
        DataType::Boundary.row(),
        Row {
            code: 0x88,
            width: Some(4),
            count: None,
            header: true,
            read: Some(DataTypes {
                bits: DataTypes::BOUNDARY_READ
            }),
            write: Some(DataTypes {
                bits: DataTypes::BOUNDARY_WRITE
            }),
        }
    );
    let shading = DataType::Shading.row();
    assert_eq!((shading.code, shading.width, shading.count), (0x84, Some(2), Some(47352)));
    let leak = DataType::LeakVolume.row();
    assert_eq!((leak.code, leak.width, leak.count), (0x93, Some(2), Some(3)));
    assert_eq!(leak.read.unwrap().bits(), 1 << 38);
    assert_eq!(leak.write, None);
    assert_eq!(DataType::Setup.row().width, Some(1));
    assert_eq!(DataType::Cooperation.row().count, None);
    assert_eq!(DataType::EepromBuffer.row().code, 0xE1);
}

/// The header is in front of every type but one, no two types share a code, and
/// a fixed width is one there is a code for
#[test]
fn the_table_as_a_whole() {
    for (n, t) in ALL.into_iter().enumerate() {
        let row = t.row();
        assert_eq!(row.header, t != DataType::Image);
        for other in &ALL[..n] {
            assert_ne!(row.code, other.row().code, "{t:?} {other:?}");
        }
        if let Some(width) = row.width {
            assert!(width_code(width).is_some());
        }
    }
    assert_eq!(HEADER, 6);
}

#[test]
fn elements_by_type() {
    assert_eq!(DataType::AnalogGain.scalar(), Scalar::F32);
    assert_eq!(DataType::Boundary.scalar(), Scalar::U32);
    assert_eq!(DataType::WhiteBalanceExposure.scalar(), Scalar::U32);
    assert_eq!(DataType::Setup.scalar(), Scalar::U8);
    assert_eq!(DataType::Image.scalar(), Scalar::U16);
    assert_eq!(DataType::CcdData.scalar(), Scalar::U16);
    let named: Vec<_> = ALL.into_iter().filter(|t| t.per_color()).collect();
    assert_eq!(
        named,
        [
            DataType::Lut,
            DataType::Histogram,
            DataType::MaxValue,
            DataType::Shading,
            DataType::DarkVoltage,
            DataType::WhiteBalanceExposure,
            DataType::Setup
        ]
    );
    assert_eq!(
        [0u8, 1, 2, 3, 4, 8].map(width_code),
        [None, Some(0), Some(1), None, Some(3), None]
    );
}

#[test]
fn elements_drop_a_short_tail() {
    let b = [0x3F, 0x80, 0x00, 0x00, 0x40];
    assert_eq!(Values::decode(Scalar::U8, &b), Values::Bytes(b.to_vec()));
    assert_eq!(Values::decode(Scalar::U16, &b), Values::Words(vec![0x3F80, 0]));
    assert_eq!(Values::decode(Scalar::U32, &b), Values::Longs(vec![0x3F80_0000]));
    let Values::Floats(bits) = Values::decode(Scalar::F32, &b) else {
        panic!("not floats");
    };
    assert_eq!(f32::from_bits(bits[0]), 1.0);
    assert_eq!(bits.len(), 1);
    assert_eq!(Values::decode(Scalar::U16, &[1]), Values::Words(Vec::new()));
}

fn rect(top: u32, left: u32, bottom: u32, right: u32) -> Rect {
    Rect {
        top,
        left,
        bottom,
        right,
    }
}

/// The lower right is the frame's own
#[test]
fn an_address_falls_in_the_first_frame_that_holds_it() {
    let a = rect(0, 0, 99, 49);
    let b = rect(90, 40, 199, 99);
    let table = Boundary { frames: vec![a, b] };
    assert_eq!(table.at(0, 0), Some(a));
    assert_eq!(table.at(49, 99), Some(a));
    assert_eq!(table.at(45, 95), Some(a));
    assert_eq!(table.at(50, 95), Some(b));
    assert_eq!(table.at(99, 199), Some(b));
    assert_eq!(table.at(100, 199), None);
    assert_eq!(Boundary::default().at(0, 0), None);
}

#[test]
fn a_rectangle_is_held_by_the_frame_it_is_inside() {
    let a = rect(0, 0, 99, 49);
    let b = rect(90, 40, 199, 99);
    let table = Boundary { frames: vec![a, b] };
    assert_eq!(table.holding(a), Some(a));
    assert_eq!(table.holding(rect(1, 1, 98, 48)), Some(a));
    assert_eq!(table.holding(rect(95, 45, 120, 60)), Some(b));
    assert_eq!(table.holding(rect(50, 0, 150, 10)), None);
    // What a frame holds of a rectangle, it holds of its addresses
    let inside = rect(95, 45, 120, 60);
    let frame = table.holding(inside).unwrap();
    let one = Boundary {
        frames: vec![frame],
    };
    assert_eq!(one.at(inside.right, inside.bottom), Some(frame));
}

#[test]
fn a_table_of_up_to_255_frames_round_trips() {
    for count in [0usize, 1, 2, 255] {
        let b = Boundary {
            frames: (0..count as u32)
                .map(|n| rect(n * 1000, 1, n * 1000 + 999, u32::MAX - n))
                .collect(),
        };
        let bytes = b.to_bytes().unwrap();
        assert_eq!(bytes.len(), 4 + 16 * count);
        assert_eq!(Boundary::from_bytes(&bytes), Some(b));
    }
    let many = Boundary {
        frames: vec![Rect::default(); 256],
    };
    match many.to_bytes() {
        Err(Error::Unsupported { op, reason }) => {
            assert_eq!(op, "boundary");
            assert_eq!(reason, "256 frames cannot fit the one-byte count field");
        }
        other => panic!("{other:?}"),
    }
    assert_eq!(Boundary::from_bytes(&[0, 20, 1]), None);
    assert_eq!(Boundary::from_bytes(&[0, 20, 1, 0, 0]), None);
    assert_eq!(Boundary::from_bytes(&[0, 4, 0, 0]), Some(Boundary::default()));
}

#[test]
fn an_operation_round_trips() {
    let op = Operation {
        color: 9,
        first: 0x0102_0304,
        second: 0xF0E0_D0C0,
    };
    assert_eq!(op.to_bytes(), [9, 1, 2, 3, 4, 0xF0, 0xE0, 0xD0, 0xC0]);
    assert_eq!(Operation::from_bytes(&op.to_bytes()), Some(op));
    assert_eq!(Operation::from_bytes(&op.to_bytes()[..8]), None);
    assert_eq!(Operation::default().to_bytes(), [0; 9]);
    let mut longer = op.to_bytes().to_vec();
    longer.extend_from_slice(&[0xFF, 0x11]);
    assert_eq!(Operation::from_bytes(&longer), Some(op));
}

#[test]
fn operations_keep_their_codes() {
    for code in 0..=255u8 {
        assert_eq!(Op::from(code).code(), code);
    }
    assert_eq!(Op::from(0xD0), Op::Unload);
    assert_eq!(Op::Unload.name(), "Unload");
    assert_eq!(Op::Other(147).name(), "Other(147)");
}

#[test]
fn a_header_leaves_the_rest() {
    let b = [0x81, 14, 0, 1, 0, 2, 0xAA];
    let (header, rest) = Header::from_bytes(&b).unwrap();
    assert_eq!(
        header,
        Header {
            code: 0x81,
            bits: 14,
            length: 0x10002
        }
    );
    assert_eq!(rest, &[0xAA]);
    assert!(Header::from_bytes(&b[..5]).is_none());
}

/// Every job too short for its own layout is kept whole
#[test]
fn a_short_job_keeps_its_bytes() {
    assert!(CooperativeAction::from_bytes(&[]).is_none());
    for code in [1u8, 2, 4, 6, 7] {
        let b = vec![code; 12];
        let action = CooperativeAction::from_bytes(&b).unwrap();
        assert_eq!(action.kind(), Coop::from(code));
        assert_eq!(action, CooperativeAction::Unknown(code, b));
    }
}

#[test]
fn a_setup_record_without_images() {
    let mut b = [0u8; 14];
    b[2] = 3;
    let setup = Setup::from_bytes(&b).unwrap();
    assert_eq!(setup.format, 3);
    assert!(setup.images.is_empty());
    assert!(Setup::from_bytes(&b[..13]).is_none());
}

#[test]
fn copies_of_records_are_the_records() {
    for scalar in [Scalar::U8, Scalar::U16, Scalar::U32, Scalar::F32] {
        let v = Values::decode(scalar, &[1, 2, 3, 4, 5, 6, 7, 8]);
        assert_eq!(v.clone(), v);
    }
    let b = Boundary {
        frames: vec![rect(1, 2, 3, 4)],
    };
    assert_eq!(b.clone(), b);
    for code in [1u8, 6, 7, 9] {
        for len in [1usize, 40] {
            let action = CooperativeAction::from_bytes(&vec![code; len]).unwrap();
            assert_eq!(action.clone(), action);
        }
    }
}

#[test]
fn no_padding_is_the_default() {
    assert_eq!(Position::default().bits(), 0);
    let none = Truncation::default();
    assert_eq!(none.position, Position::default());
    assert_eq!((none.frame.first, none.frame.last), (0, 0));
}
