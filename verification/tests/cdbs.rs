//! Command descriptor blocks, byte for byte

use nkscan::protocol::cdbs::{
    Abort, Execute, GetParameter, GetWindow, Inquiry, ModeSelect, ModeSense, PageControl, Read,
    ReleaseUnit, ReserveUnit, Scan, Send, SendDiagnostic, SetParameter, SetWindow, TestUnitReady,
};
use nkscan::protocol::mode::{divisor, set_divisor, MEASUREMENT_UNITS};

#[test]
fn commands_without_a_field() {
    assert_eq!(TestUnitReady.cdb(), [0; 6]);
    assert_eq!(ReserveUnit.cdb(), [0x16, 0, 0, 0, 0, 0]);
    assert_eq!(ReleaseUnit.cdb(), [0x17, 0, 0, 0, 0, 0]);
    assert_eq!(SendDiagnostic.cdb(), [0x1D, 0x04, 0, 0, 0, 0]);
    assert_eq!(Abort.cdb(), [0xC0, 0, 0, 0, 0, 0]);
    assert_eq!(Execute.cdb(), [0xC1, 0, 0, 0, 0, 0]);
}

#[test]
fn an_inquiry_names_its_page_or_none() {
    let standard = Inquiry::standard();
    assert_eq!(standard.cdb(), [0x12, 0, 0, 0, 36, 0]);
    assert_eq!(standard.allocation_length(), 36);
    let page = Inquiry::vpd(0xC1);
    assert_eq!(page.cdb(), [0x12, 1, 0xC1, 0, 255, 0x80]);
    assert_eq!(page.allocation_length(), 255);
}

#[test]
fn mode_commands() {
    let sense = ModeSense::new(MEASUREMENT_UNITS, PageControl::Default);
    assert_eq!(sense.cdb(), [0x1A, 0x10, 0x83, 0, 20, 0]);
    assert_eq!(sense.allocation_length(), 20);
    assert_eq!(
        ModeSense::new(0x3F, PageControl::Variable).cdb(),
        [0x1A, 0x10, 0x7F, 0, 20, 0]
    );
    assert_eq!(
        ModeSense::new(3, PageControl::Current).cdb(),
        [0x1A, 0x10, 3, 0, 20, 0]
    );
    assert_eq!(ModeSelect::new(12).cdb(), [0x15, 0x10, 0, 0, 12, 0]);
}

#[test]
fn window_and_scan_commands() {
    let all = GetWindow::all(0x123456);
    assert_eq!(all.cdb(), [0x25, 0, 0, 0, 0, 0, 0x12, 0x34, 0x56, 0x80]);
    assert_eq!(all.allocation_length(), 0x123456);
    assert_eq!(
        GetWindow::single(9, 58).cdb(),
        [0x25, 1, 0, 0, 0, 9, 0, 0, 58, 0x80]
    );
    assert_eq!(
        SetWindow::new(0xFF_FFFF).cdb(),
        [0x24, 0, 0, 0, 0, 0, 0xFF, 0xFF, 0xFF, 0x80]
    );
    assert_eq!(Scan::new(4).cdb(), [0x1B, 0, 0, 0, 4, 0]);
}

#[test]
fn data_commands() {
    let read = Read::new(0x88, 0x09, 0x03, 70);
    assert_eq!(read.cdb(), [0x28, 0, 0x88, 0, 0x09, 0x03, 0, 0, 70, 0x80]);
    assert_eq!(read.allocation_length(), 70);
    assert_eq!(
        Send::new(0x88, 0, 0x03, 300).cdb(),
        [0x2A, 0, 0x88, 0, 0, 0x03, 0, 1, 44, 0]
    );
    assert_eq!(
        SetParameter::new(0xA0, 9).cdb(),
        [0xE0, 0, 0xA0, 0, 0, 0, 0, 0, 9, 0]
    );
    let get = GetParameter::new(0xC1, 9);
    assert_eq!(get.cdb(), [0xE1, 0, 0xC1, 0, 0, 0, 0, 0, 9, 0]);
    assert_eq!(get.allocation_length(), 9);
}

#[test]
fn a_divisor_round_trips_through_the_page() {
    assert_eq!(
        set_divisor(4000),
        [0, 0, 0, 0, 3, 6, 0, 0, 0x0F, 0xA0, 0, 0]
    );
    for d in [0u16, 1, 1200, 4000, u16::MAX] {
        assert_eq!(divisor(&set_divisor(d)), Some(d));
    }
}

#[test]
fn a_reply_is_read_behind_its_block_descriptor() {
    let mut reply = vec![0u8; 20];
    reply[3] = 8;
    reply[12] = 0x80 | 3; // PS does not count
    reply[16] = 0x04;
    reply[17] = 0xB0;
    assert_eq!(divisor(&reply), Some(1200));
    // Another page, and replies that stop short of it
    let mut other = reply.clone();
    other[12] = 4;
    assert_eq!(divisor(&other), None);
    assert_eq!(divisor(&reply[..17]), None);
    assert_eq!(divisor(&reply[..12]), None);
    assert_eq!(divisor(&reply[..3]), None);
    assert_eq!(divisor(&[]), None);
}
