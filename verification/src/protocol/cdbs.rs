//! Command descriptor blocks
//!
//! Payloads live elsewhere: the SET WINDOW descriptor in `window.rs`, READ and
//! SEND data records and the SET PARAMETER block both in `data.rs`

use crate::bytes::{be32_bytes, byte_of, law_bytes_spell_the_number};
use vstd::prelude::*;

verus! {

/// The control byte, where it is not 0
///
/// Bit 7 is vendor specific in SCSI. It goes with INQUIRY with EVPD, SET WINDOW,
/// GET WINDOW and READ, and with nothing else. It is not decoration: a SET
/// WINDOW for the infrared window is refused with `05h-24h`, invalid field in
/// CDB, until it is set.
pub const VENDOR: u8 = 0x80;

/// The most a 24-bit length says
pub const LENGTH_MAX: u32 = 0xFF_FFFF;

/// A length as the three bytes a command has for it
pub open spec fn length24(length: u32) -> Seq<u8> {
    be32_bytes(length).skip(1)
}

/// INQUIRY
///
/// EVPD 0 asks for the standard INQUIRY data.
/// EVPD 1 asks for the VPD page named in byte 2.
/// Returns CHECK CONDITION only when the unit cannot produce what was asked for
#[derive(Debug, Clone, Copy, PartialEq, Eq)]
pub struct Inquiry {
    /// None for the standard data, Some(code) for a VPD page
    page: Option<u8>,
    /// How many bytes to make room for
    allocation_length: u8,
}

impl Inquiry {
    /// The VPD page asked for, or none for the standard data
    pub closed spec fn page(&self) -> Option<u8> {
        self.page
    }

    /// How many bytes there is room for
    pub closed spec fn room(&self) -> u8 {
        self.allocation_length
    }

    /// The standard INQUIRY data. 36 is the recommended allocation
    pub fn standard() -> (r: Inquiry)
        ensures
            r.page() is None,
            r.room() == 36,
    {
        Inquiry { page: None, allocation_length: 36 }
    }

    /// A Vital Product Data page
    pub fn vpd(page: u8) -> (r: Inquiry)
        ensures
            r.page() == Some(page),
            r.room() == 255,
    {
        Inquiry { page: Some(page), allocation_length: 255 }
    }

    /// How large a buffer the data phase needs
    pub fn allocation_length(&self) -> (r: usize)
        ensures
            r == self.room(),
    {
        self.allocation_length as usize
    }

    pub fn cdb(&self) -> (r: [u8; 6])
        ensures
            r@ == match self.page() {
                // Byte 1: LUN and reserved are zero, bit 0 is EVPD
                Some(page) => seq![0x12u8, 1, page, 0, self.room(), VENDOR],
                None => seq![0x12u8, 0, 0, 0, self.room(), 0],
            },
    {
        let r: [u8; 6] = match self.page {
            Some(page) => [0x12, 1, page, 0, self.allocation_length, VENDOR],
            None => [0x12, 0, 0, 0, self.allocation_length, 0],
        };
        proof {
            match self.page {
                Some(page) => assert(r@ =~= seq![0x12u8, 1, page, 0, self.room(), VENDOR]),
                None => assert(r@ =~= seq![0x12u8, 0, 0, 0, self.room(), 0]),
            }
        }
        r
    }
}

/// TEST UNIT READY
///
/// No fields: both units are single-LUN, and a nonzero LUN is answered with
/// 05h-25h LOGICAL UNIT NOT SUPPORTED
#[derive(Debug, Clone, Copy, PartialEq, Eq)]
pub struct TestUnitReady;

impl TestUnitReady {
    pub fn cdb(&self) -> (r: [u8; 6])
        ensures
            r@ == seq![0x00u8, 0, 0, 0, 0, 0],
    {
        let r: [u8; 6] = [0, 0, 0, 0, 0, 0];
        proof {
            assert(r@ =~= seq![0x00u8, 0, 0, 0, 0, 0]);
        }
        r
    }
}

/// RESERVE UNIT
///
/// Gain exclusive control until we ReleaseUnit
#[derive(Debug, Clone, Copy, PartialEq, Eq)]
pub struct ReserveUnit;

impl ReserveUnit {
    pub fn cdb(&self) -> (r: [u8; 6])
        ensures
            r@ == seq![0x16u8, 0, 0, 0, 0, 0],
    {
        let r: [u8; 6] = [0x16, 0, 0, 0, 0, 0];
        proof {
            assert(r@ =~= seq![0x16u8, 0, 0, 0, 0, 0]);
        }
        r
    }
}

/// RELEASE UNIT
///
/// Only the initiator holding the reservation can release it
#[derive(Debug, Clone, Copy, PartialEq, Eq)]
pub struct ReleaseUnit;

impl ReleaseUnit {
    pub fn cdb(&self) -> (r: [u8; 6])
        ensures
            r@ == seq![0x17u8, 0, 0, 0, 0, 0],
    {
        let r: [u8; 6] = [0x17, 0, 0, 0, 0, 0];
        proof {
            assert(r@ =~= seq![0x17u8, 0, 0, 0, 0, 0]);
        }
        r
    }
}

/// Which copy of a mode page to report
///
/// Saved values (3) are refused with SAVING PARAMETERS NOT SUPPORTED, so there is no variant for them
#[derive(Debug, Clone, Copy, PartialEq, Eq, Structural)]
pub enum PageControl {
    /// Current mode, 0
    Current,
    /// Masks the variables you're allowed to change, 1
    Variable,
    /// What a power-on restores, 2
    Default,
}

impl PageControl {
    /// The code of a copy
    pub open spec fn code_of(self) -> u8 {
        match self {
            PageControl::Current => 0,
            PageControl::Variable => 1,
            PageControl::Default => 2,
        }
    }

    /// The code of a copy
    fn code(self) -> (r: u8)
        ensures
            r == self.code_of(),
    {
        match self {
            PageControl::Current => 0,
            PageControl::Variable => 1,
            PageControl::Default => 2,
        }
    }
}

/// MODE SENSE (6)
///
/// Measurement Units (03h) is the only page either unit implements, so 3Fh "all pages" returns the same thing
#[derive(Debug, Clone, Copy, PartialEq, Eq)]
pub struct ModeSense {
    page: u8,
    control: PageControl,
}

impl ModeSense {
    /// The page asked for
    pub closed spec fn page(&self) -> u8 {
        self.page
    }

    /// The copy of it asked for
    pub closed spec fn control(&self) -> PageControl {
        self.control
    }

    pub fn new(page: u8, control: PageControl) -> (r: ModeSense)
        ensures
            r.page() == page,
            r.control() == control,
    {
        ModeSense { page, control }
    }

    /// Header, block descriptor and page come to 20 bytes at most
    pub fn allocation_length(&self) -> (r: usize)
        ensures
            r == 20,
    {
        20
    }

    pub fn cdb(&self) -> (r: [u8; 6])
        ensures
            r@ == seq![0x1Au8, 0x10, (self.control().code_of() * 64) as u8 | self.page(), 0, 20, 0],
    {
        let r: [u8; 6] = [
            0x1A,
            // PF is bit 4 and must be set. DBD is bit 3, left unset so the
            // reply carries the block descriptor, eight fixed bytes, and
            // the parser skips whatever length is reported anyway
            0x10,
            (self.control.code() * 64) | self.page,
            0,
            20,
            0,
        ];
        proof {
            assert(r@ =~= seq![
                0x1Au8,
                0x10,
                (self.control().code_of() * 64) as u8 | self.page(),
                0,
                20,
                0,
            ]);
        }
        r
    }
}

/// MODE SELECT (6)
#[derive(Debug, Clone, Copy, PartialEq, Eq)]
pub struct ModeSelect {
    parameter_list_length: u8,
}

impl ModeSelect {
    /// How long the parameter list is
    pub closed spec fn list_length(&self) -> u8 {
        self.parameter_list_length
    }

    pub fn new(parameter_list_length: u8) -> (r: ModeSelect)
        ensures
            r.list_length() == parameter_list_length,
    {
        ModeSelect { parameter_list_length }
    }

    pub fn cdb(&self) -> (r: [u8; 6])
        ensures
            r@ == seq![0x15u8, 0x10, 0, 0, self.list_length(), 0],
    {
        // PF (bit 4) must be set, SP (bit 0) must be unset: neither unit can
        // save pages, and asking is refused
        let r: [u8; 6] = [0x15, 0x10, 0, 0, self.parameter_list_length, 0];
        proof {
            assert(r@ =~= seq![0x15u8, 0x10, 0, 0, self.list_length(), 0]);
        }
        r
    }
}

/// GET WINDOW
#[derive(Debug, Clone, Copy, PartialEq, Eq)]
pub struct GetWindow {
    /// `None` asks for every window the unit has defined or defaulted;
    /// `Some(id)` asks for one. Ids are 0 default, 1 R, 2 G, 3 B, 4 neutral gray
    window: Option<u8>,
    transfer_length: u32,
}

impl GetWindow {
    /// The one window asked for, or none for every one
    pub closed spec fn window(&self) -> Option<u8> {
        self.window
    }

    /// How much to transfer
    pub closed spec fn length(&self) -> u32 {
        self.transfer_length
    }

    /// Every window the unit has defined or defaulted
    pub fn all(transfer_length: u32) -> (r: GetWindow)
        ensures
            r.window() is None,
            r.length() == transfer_length,
    {
        GetWindow { window: None, transfer_length }
    }

    /// One window by identifier
    pub fn single(window: u8, transfer_length: u32) -> (r: GetWindow)
        ensures
            r.window() == Some(window),
            r.length() == transfer_length,
    {
        GetWindow { window: Some(window), transfer_length }
    }

    pub fn allocation_length(&self) -> (r: usize)
        ensures
            r == self.length(),
    {
        self.transfer_length as usize
    }

    pub fn cdb(&self) -> (r: [u8; 10])
        requires
            self.length() <= LENGTH_MAX,
        ensures
            r@ == match self.window() {
                Some(id) => seq![0x25u8, 1, 0, 0, 0, id],
                None => seq![0x25u8, 0, 0, 0, 0, 0],
            } + length24(self.length()) + seq![VENDOR],
    {
        let (one, id): (u8, u8) = match self.window {
            Some(id) => (1, id),
            None => (0, 0),
        };
        let r: [u8; 10] = [
            0x25,
            one,
            0,
            0,
            0,
            id,
            byte_of(self.transfer_length, 1),
            byte_of(self.transfer_length, 2),
            byte_of(self.transfer_length, 3),
            VENDOR,
        ];
        proof {
            assert(r@ =~= seq![0x25u8, one, 0, 0, 0, id] + length24(self.length()) + seq![VENDOR]);
        }
        r
    }
}

/// SCAN
///
/// Trigger a scan. The data out is the window identifier list, one byte each
#[derive(Debug, Clone, Copy, PartialEq, Eq)]
pub struct Scan {
    windows: u8,
}

impl Scan {
    /// How many windows the list names
    pub closed spec fn windows(&self) -> u8 {
        self.windows
    }

    pub fn new(windows: u8) -> (r: Scan)
        ensures
            r.windows() == windows,
    {
        Scan { windows }
    }

    pub fn cdb(&self) -> (r: [u8; 6])
        ensures
            r@ == seq![0x1Bu8, 0, 0, 0, self.windows(), 0],
    {
        let r: [u8; 6] = [0x1B, 0, 0, 0, self.windows, 0];
        proof {
            assert(r@ =~= seq![0x1Bu8, 0, 0, 0, self.windows(), 0]);
        }
        r
    }
}

/// READ transfers data from the unit to us
#[derive(Debug, Clone, Copy, PartialEq, Eq)]
pub struct Read {
    /// "Data type code"
    dtc: u8,
    /// "Data type qualifier", upper byte: color element
    color: u8,
    /// "Data type qualifier", lower byte: element width
    width_code: u8,
    /// Blocks, and a block is a byte here
    transfer_length: u32,
}

impl Read {
    /// The data type's code
    pub closed spec fn code(&self) -> u8 {
        self.dtc
    }

    /// The qualifier's color element
    pub closed spec fn color(&self) -> u8 {
        self.color
    }

    /// The qualifier's element width
    pub closed spec fn width(&self) -> u8 {
        self.width_code
    }

    /// How much to transfer
    pub closed spec fn length(&self) -> u32 {
        self.transfer_length
    }

    pub fn new(dtc: u8, color: u8, width_code: u8, transfer_length: u32) -> (r: Read)
        ensures
            r.code() == dtc,
            r.color() == color,
            r.width() == width_code,
            r.length() == transfer_length,
    {
        Read { dtc, color, width_code, transfer_length }
    }

    pub fn allocation_length(&self) -> (r: usize)
        ensures
            r == self.length(),
    {
        self.transfer_length as usize
    }

    pub fn cdb(&self) -> (r: [u8; 10])
        requires
            self.length() <= LENGTH_MAX,
        ensures
            r@ == seq![0x28u8, 0, self.code(), 0, self.color(), self.width()] + length24(
                self.length(),
            ) + seq![VENDOR],
    {
        let r: [u8; 10] = [
            0x28,
            0,
            self.dtc,
            0,
            self.color,
            self.width_code,
            byte_of(self.transfer_length, 1),
            byte_of(self.transfer_length, 2),
            byte_of(self.transfer_length, 3),
            VENDOR,
        ];
        proof {
            assert(r@ =~= seq![0x28u8, 0, self.code(), 0, self.color(), self.width()] + length24(
                self.length(),
            ) + seq![VENDOR]);
        }
        r
    }
}

/// SEND transfers data from us to the unit
#[derive(Debug, Clone, Copy, PartialEq, Eq)]
pub struct Send {
    /// "Data type code"
    dtc: u8,
    /// "Data type qualifier", upper byte: color element
    color: u8,
    /// "Data type qualifier", lower byte: element width
    width_code: u8,
    /// Blocks, and a block is a byte here
    transfer_length: u32,
}

impl Send {
    /// The data type's code
    pub closed spec fn code(&self) -> u8 {
        self.dtc
    }

    /// The qualifier's color element
    pub closed spec fn color(&self) -> u8 {
        self.color
    }

    /// The qualifier's element width
    pub closed spec fn width(&self) -> u8 {
        self.width_code
    }

    /// How much to transfer
    pub closed spec fn length(&self) -> u32 {
        self.transfer_length
    }

    pub fn new(dtc: u8, color: u8, width_code: u8, transfer_length: u32) -> (r: Send)
        ensures
            r.code() == dtc,
            r.color() == color,
            r.width() == width_code,
            r.length() == transfer_length,
    {
        Send { dtc, color, width_code, transfer_length }
    }

    pub fn cdb(&self) -> (r: [u8; 10])
        requires
            self.length() <= LENGTH_MAX,
        ensures
            r@ == seq![0x2Au8, 0, self.code(), 0, self.color(), self.width()] + length24(
                self.length(),
            ) + seq![0u8],
    {
        let r: [u8; 10] = [
            0x2A,
            0,
            self.dtc,
            0,
            self.color,
            self.width_code,
            byte_of(self.transfer_length, 1),
            byte_of(self.transfer_length, 2),
            byte_of(self.transfer_length, 3),
            0,
        ];
        proof {
            assert(r@ =~= seq![0x2Au8, 0, self.code(), 0, self.color(), self.width()] + length24(
                self.length(),
            ) + seq![0u8]);
        }
        r
    }
}

/// SEND DIAGNOSTIC
///
/// The self-test with no parameter list, which is the only form either unit
/// supports. After an operation activation command has failed, this is what
/// reports the concrete fault behind a generic `02h-04h-02h`. Byte 1: PF unset,
/// SelfTest set. DevOfL and UnitOfL must both be unset
#[derive(Debug, Clone, Copy, PartialEq, Eq)]
pub struct SendDiagnostic;

impl SendDiagnostic {
    pub fn cdb(&self) -> (r: [u8; 6])
        ensures
            r@ == seq![0x1Du8, 0x04, 0, 0, 0, 0],
    {
        let r: [u8; 6] = [0x1D, 0x04, 0, 0, 0, 0];
        proof {
            assert(r@ =~= seq![0x1Du8, 0x04, 0, 0, 0, 0]);
        }
        r
    }
}

/// ABORT
///
/// Aborts a scanning operation started by SCAN
#[derive(Debug, Clone, Copy, PartialEq, Eq)]
pub struct Abort;

impl Abort {
    pub fn cdb(&self) -> (r: [u8; 6])
        ensures
            r@ == seq![0xC0u8, 0, 0, 0, 0, 0],
    {
        let r: [u8; 6] = [0xC0, 0, 0, 0, 0, 0];
        proof {
            assert(r@ =~= seq![0xC0u8, 0, 0, 0, 0, 0]);
        }
        r
    }
}

/// SET PARAMETER
///
/// Loads the parameters for the operation EXECUTE will then run. Byte 2 is the
/// operation, not the opcode
#[derive(Debug, Clone, Copy, PartialEq, Eq)]
pub struct SetParameter {
    operation: u8,
    parameter_length: u32,
}

impl SetParameter {
    /// The operation
    pub closed spec fn operation(&self) -> u8 {
        self.operation
    }

    /// How long its parameters are
    pub closed spec fn length(&self) -> u32 {
        self.parameter_length
    }

    pub fn new(operation: u8, parameter_length: u32) -> (r: SetParameter)
        ensures
            r.operation() == operation,
            r.length() == parameter_length,
    {
        SetParameter { operation, parameter_length }
    }

    pub fn cdb(&self) -> (r: [u8; 10])
        requires
            self.length() <= LENGTH_MAX,
        ensures
            r@ == seq![0xE0u8, 0, self.operation(), 0, 0, 0] + length24(self.length()) + seq![0u8],
    {
        let r: [u8; 10] = [
            0xE0,
            0,
            self.operation,
            0,
            0,
            0,
            byte_of(self.parameter_length, 1),
            byte_of(self.parameter_length, 2),
            byte_of(self.parameter_length, 3),
            0,
        ];
        proof {
            assert(r@ =~= seq![0xE0u8, 0, self.operation(), 0, 0, 0] + length24(self.length())
                + seq![0u8]);
        }
        r
    }
}

/// GET PARAMETER
///
/// Reads back the current settings of an operation, in the same shape SET
/// PARAMETER writes them. Byte 2 is the operation, not the opcode
#[derive(Debug, Clone, Copy, PartialEq, Eq)]
pub struct GetParameter {
    operation: u8,
    parameter_length: u32,
}

impl GetParameter {
    /// The operation
    pub closed spec fn operation(&self) -> u8 {
        self.operation
    }

    /// How long its parameters are
    pub closed spec fn length(&self) -> u32 {
        self.parameter_length
    }

    pub fn new(operation: u8, parameter_length: u32) -> (r: GetParameter)
        ensures
            r.operation() == operation,
            r.length() == parameter_length,
    {
        GetParameter { operation, parameter_length }
    }

    pub fn allocation_length(&self) -> (r: usize)
        ensures
            r == self.length(),
    {
        self.parameter_length as usize
    }

    pub fn cdb(&self) -> (r: [u8; 10])
        requires
            self.length() <= LENGTH_MAX,
        ensures
            r@ == seq![0xE1u8, 0, self.operation(), 0, 0, 0] + length24(self.length()) + seq![0u8],
    {
        let r: [u8; 10] = [
            0xE1,
            0,
            self.operation,
            0,
            0,
            0,
            byte_of(self.parameter_length, 1),
            byte_of(self.parameter_length, 2),
            byte_of(self.parameter_length, 3),
            0,
        ];
        proof {
            assert(r@ =~= seq![0xE1u8, 0, self.operation(), 0, 0, 0] + length24(self.length())
                + seq![0u8]);
        }
        r
    }
}

/// EXECUTE
///
/// Perform the operation specified by SET PARAMETER
#[derive(Debug, Clone, Copy, PartialEq, Eq)]
pub struct Execute;

impl Execute {
    pub fn cdb(&self) -> (r: [u8; 6])
        ensures
            r@ == seq![0xC1u8, 0, 0, 0, 0, 0],
    {
        let r: [u8; 6] = [0xC1, 0, 0, 0, 0, 0];
        proof {
            assert(r@ =~= seq![0xC1u8, 0, 0, 0, 0, 0]);
        }
        r
    }
}

/// SET WINDOW
#[derive(Debug, Clone, Copy, PartialEq, Eq)]
pub struct SetWindow {
    transfer_length: u32,
}

impl SetWindow {
    /// How much to transfer
    pub closed spec fn length(&self) -> u32 {
        self.transfer_length
    }

    /// However many bytes of header plus descriptors are going out
    pub fn new(transfer_length: u32) -> (r: SetWindow)
        ensures
            r.length() == transfer_length,
    {
        SetWindow { transfer_length }
    }

    pub fn cdb(&self) -> (r: [u8; 10])
        requires
            self.length() <= LENGTH_MAX,
        ensures
            r@ == seq![0x24u8, 0, 0, 0, 0, 0] + length24(self.length()) + seq![VENDOR],
    {
        let r: [u8; 10] = [
            0x24,
            0,
            0,
            0,
            0,
            0,
            byte_of(self.transfer_length, 1),
            byte_of(self.transfer_length, 2),
            byte_of(self.transfer_length, 3),
            VENDOR,
        ];
        proof {
            assert(r@ =~= seq![0x24u8, 0, 0, 0, 0, 0] + length24(self.length()) + seq![VENDOR]);
        }
        r
    }
}

/// A length's three bytes spell it, most significant first, where it is one
/// they can hold
pub proof fn law_a_length_is_three_bytes(length: u32)
    requires
        length < 0x100_0000,
    ensures
        length24(length).len() == 3,
        0x1_0000 * length24(length)[0] + 0x100 * length24(length)[1] + length24(length)[2] == length,
{
    law_bytes_spell_the_number(0, length);
    assert(forall|i: int| 0 <= i < 3 ==> length24(length)[i] == be32_bytes(length)[i + 1]);
    assert(length24(length)[0] == be32_bytes(length)[1]);
    assert(length24(length)[1] == be32_bytes(length)[2]);
    assert(length24(length)[2] == be32_bytes(length)[3]);
}

/// A command takes every length that three bytes hold, and its vendor bit is
/// the top one
pub proof fn law_what_a_command_can_say(length: u32)
    ensures
        length <= LENGTH_MAX <==> length / 0x100_0000 == 0,
        VENDOR == 128,
{
}

/// The copy of a mode page goes above the six bits of its code, and the saved
/// values are never asked for
pub proof fn law_where_the_copy_is_asked_for(control: PageControl, page: u8)
    requires
        page < 0x40,
    ensures
        control is Current ==> (control.code_of() * 64) as u8 | page == page,
        control is Variable ==> (control.code_of() * 64) as u8 | page == 0x40 + page,
        control is Default ==> (control.code_of() * 64) as u8 | page == 0x80 + page,
{
    assert(page < 0x40 ==> 0u8 | page == page && 0x40u8 | page == 0x40 + page && 0x80u8 | page
        == 0x80 + page) by (bit_vector);
}

/// The bytes of a command for reading: its code, the type, the color, the width,
/// the length in three bytes, and the vendor's bit
pub proof fn law_what_a_read_asks(
    code: u8,
    color: u8,
    width: u8,
    length: u32,
    read: Read,
    r: [u8; 10],
)
    requires
        length < 0x100_0000,
        call_ensures(Read::new, (code, color, width, length), read),
        call_ensures(Read::cdb, (&read,), r),
    ensures
        r@[0] == 0x28 && r@[1] == 0 && r@[2] == code && r@[3] == 0 && r@[4] == color && r@[5]
            == width,
        0x1_0000 * r@[6] + 0x100 * r@[7] + r@[8] == length,
        r@[9] == 0x80,
{
    law_a_length_is_three_bytes(length);
}

/// The bytes of a command for sending, which are a read's but for its code and
/// the vendor's bit
pub proof fn law_what_a_send_asks(
    code: u8,
    color: u8,
    width: u8,
    length: u32,
    send: Send,
    r: [u8; 10],
)
    requires
        length < 0x100_0000,
        call_ensures(Send::new, (code, color, width, length), send),
        call_ensures(Send::cdb, (&send,), r),
    ensures
        r@[0] == 0x2A && r@[1] == 0 && r@[2] == code && r@[3] == 0 && r@[4] == color && r@[5]
            == width,
        0x1_0000 * r@[6] + 0x100 * r@[7] + r@[8] == length,
        r@[9] == 0,
{
    law_a_length_is_three_bytes(length);
}

/// The bytes of the commands for windows: one window is asked for by its
/// identifier and a flag, every one by neither, and setting and asking both take
/// the vendor's bit
pub proof fn law_what_window_commands_ask(
    id: u8,
    length: u32,
    one: GetWindow,
    all: GetWindow,
    set: SetWindow,
    a: [u8; 10],
    b: [u8; 10],
    c: [u8; 10],
)
    requires
        length < 0x100_0000,
        call_ensures(GetWindow::single, (id, length), one),
        call_ensures(GetWindow::all, (length,), all),
        call_ensures(SetWindow::new, (length,), set),
        call_ensures(GetWindow::cdb, (&one,), a),
        call_ensures(GetWindow::cdb, (&all,), b),
        call_ensures(SetWindow::cdb, (&set,), c),
    ensures
        a@[0] == 0x25 && a@[1] == 1 && a@[2] == 0 && a@[3] == 0 && a@[4] == 0 && a@[5] == id,
        b@[0] == 0x25 && b@[1] == 0 && b@[2] == 0 && b@[3] == 0 && b@[4] == 0 && b@[5] == 0,
        c@[0] == 0x24 && c@[1] == 0 && c@[2] == 0 && c@[3] == 0 && c@[4] == 0 && c@[5] == 0,
        0x1_0000 * a@[6] + 0x100 * a@[7] + a@[8] == length,
        0x1_0000 * b@[6] + 0x100 * b@[7] + b@[8] == length,
        0x1_0000 * c@[6] + 0x100 * c@[7] + c@[8] == length,
        a@[9] == 0x80 && b@[9] == 0x80 && c@[9] == 0x80,
{
    law_a_length_is_three_bytes(length);
}

/// The bytes of the commands for parameters, which differ in their code alone
pub proof fn law_what_parameter_commands_ask(
    operation: u8,
    length: u32,
    set: SetParameter,
    get: GetParameter,
    a: [u8; 10],
    b: [u8; 10],
)
    requires
        length < 0x100_0000,
        call_ensures(SetParameter::new, (operation, length), set),
        call_ensures(GetParameter::new, (operation, length), get),
        call_ensures(SetParameter::cdb, (&set,), a),
        call_ensures(GetParameter::cdb, (&get,), b),
    ensures
        a@[0] == 0xE0 && b@[0] == 0xE1,
        a@[2] == operation && b@[2] == operation,
        a@[1] == 0 && a@[3] == 0 && a@[4] == 0 && a@[5] == 0 && a@[9] == 0,
        b@[1] == 0 && b@[3] == 0 && b@[4] == 0 && b@[5] == 0 && b@[9] == 0,
        0x1_0000 * a@[6] + 0x100 * a@[7] + a@[8] == length,
        0x1_0000 * b@[6] + 0x100 * b@[7] + b@[8] == length,
{
    law_a_length_is_three_bytes(length);
}

/// The bytes of the commands for mode pages and for what a unit is: the standard
/// data in 36 bytes, a page by its code in up to 255 and with the vendor's bit
pub proof fn law_what_inquiries_ask(
    page: u8,
    control: PageControl,
    length: u8,
    standard: Inquiry,
    vpd: Inquiry,
    sense: ModeSense,
    select: ModeSelect,
    a: [u8; 6],
    b: [u8; 6],
    c: [u8; 6],
    d: [u8; 6],
)
    requires
        call_ensures(Inquiry::standard, (), standard),
        call_ensures(Inquiry::vpd, (page,), vpd),
        call_ensures(ModeSense::new, (page, control), sense),
        call_ensures(ModeSelect::new, (length,), select),
        call_ensures(Inquiry::cdb, (&standard,), a),
        call_ensures(Inquiry::cdb, (&vpd,), b),
        call_ensures(ModeSense::cdb, (&sense,), c),
        call_ensures(ModeSelect::cdb, (&select,), d),
    ensures
        a@ == seq![0x12u8, 0, 0, 0, 36, 0],
        b@ == seq![0x12u8, 1, page, 0, 255, 0x80],
        c@[0] == 0x1A && c@[1] == 0x10 && c@[3] == 0 && c@[4] == 20 && c@[5] == 0,
        page < 0x40 && control is Current ==> c@[2] == page,
        page < 0x40 && control is Variable ==> c@[2] == 0x40 + page,
        page < 0x40 && control is Default ==> c@[2] == 0x80 + page,
        d@ == seq![0x15u8, 0x10, 0, 0, length, 0],
{
    if page < 0x40 {
        law_where_the_copy_is_asked_for(control, page);
    }
}

/// The bytes of the commands that ask for nothing but themselves, and of a scan,
/// which says how many windows it names
pub proof fn law_what_plain_commands_ask(
    windows: u8,
    scan: Scan,
    ready: [u8; 6],
    reserve: [u8; 6],
    release: [u8; 6],
    diagnose: [u8; 6],
    abort: [u8; 6],
    execute: [u8; 6],
    s: [u8; 6],
)
    requires
        call_ensures(TestUnitReady::cdb, (&TestUnitReady,), ready),
        call_ensures(ReserveUnit::cdb, (&ReserveUnit,), reserve),
        call_ensures(ReleaseUnit::cdb, (&ReleaseUnit,), release),
        call_ensures(SendDiagnostic::cdb, (&SendDiagnostic,), diagnose),
        call_ensures(Abort::cdb, (&Abort,), abort),
        call_ensures(Execute::cdb, (&Execute,), execute),
        call_ensures(Scan::new, (windows,), scan),
        call_ensures(Scan::cdb, (&scan,), s),
    ensures
        ready@ == seq![0x00u8, 0, 0, 0, 0, 0],
        reserve@ == seq![0x16u8, 0, 0, 0, 0, 0],
        release@ == seq![0x17u8, 0, 0, 0, 0, 0],
        diagnose@ == seq![0x1Du8, 4, 0, 0, 0, 0],
        abort@ == seq![0xC0u8, 0, 0, 0, 0, 0],
        execute@ == seq![0xC1u8, 0, 0, 0, 0, 0],
        s@ == seq![0x1Bu8, 0, 0, 0, windows, 0],
{
}

} // verus!
