//! Sense data, read as what to do next rather than as an error
//!
//! CHECK CONDITION is the device's only out-of-band channel and carries
//! progress, rounding and host-cooperation as well as faults, hence [`Outcome`]
//! rather than a `Result`.

use crate::protocol::caps;
use crate::text::{hex_value, push_hex_value};
use crate::transport::{sense_text, sense_wording, Completion, Sense, Status};
use vstd::prelude::*;

verus! {

/// The device reported a fault of its own
#[derive(Debug, Clone, Copy, PartialEq, Eq, Structural)]
pub enum Failure {
    Mechanism, // 02h-04h-02h
    Aborted, // 0Bh-4Bh data phase, 0Bh-4Eh overlapped
    Hardware, // 04h
    Medium, // 03h
    UnexpectedStatus(u8),
    Unrecognized,
    /// Some units put it directly on the command's own completion; others report
    /// the generic `02h-04h-02h` and only reveal this through SEND DIAGNOSTIC
    /// afterward, which [`diagnosed`] reads
    OutOfFocus, // 01h-61h-02h
}

impl Failure {
    /// What this says to a person
    pub open spec fn wording(self) -> Seq<char> {
        match self {
            Failure::UnexpectedStatus(status) => "unexpected status "@ + hex_value(status as nat),
            Failure::Mechanism => "mechanical error"@,
            Failure::Aborted => "command aborted"@,
            Failure::Hardware => "hardware error"@,
            Failure::Medium => "medium error"@,
            Failure::Unrecognized => "unrecognized sense"@,
            Failure::OutOfFocus => "autofocus did not reach focus"@,
        }
    }

    /// Say this to a person
    pub fn message(&self) -> (r: String)
        ensures
            r@ == self.wording(),
    {
        match self {
            Failure::UnexpectedStatus(status) => {
                let mut s = String::from_str("unexpected status ");
                push_hex_value(&mut s, *status as u64);
                s
            },
            Failure::Mechanism => String::from_str("mechanical error"),
            Failure::Aborted => String::from_str("command aborted"),
            Failure::Hardware => String::from_str("hardware error"),
            Failure::Medium => String::from_str("medium error"),
            Failure::Unrecognized => String::from_str("unrecognized sense"),
            Failure::OutOfFocus => String::from_str("autofocus did not reach focus"),
        }
    }
}

/// The device refused a CDB it was sent, meaning a capability check was missed
#[derive(Debug, Clone, Copy, PartialEq, Eq, Structural)]
pub enum Refusal {
    BadCdbField, // 05h-24h
    BadParamField, // 05h-26h
    BadLength, // 05h-1Ah
    UnknownOpcode, // 05h-20h
    BadLun, // 05h-25h
    OutOfSequence, // 05h-2Ch-00h
    BadWindowCombo, // 05h-2Ch-02h
    /// Filed under Medium Not Present, but nobody has to touch the scanner: the
    /// caller asked for a frame the film does not have
    FrameOutOfRange, // 02h-3Ah-00h-04h
}

impl Refusal {
    /// What this says to a person
    pub open spec fn wording(self) -> Seq<char> {
        match self {
            Refusal::BadCdbField => "invalid field in CDB"@,
            Refusal::BadParamField => "invalid field in parameter list"@,
            Refusal::BadLength => "parameter list length error"@,
            Refusal::UnknownOpcode => "invalid operation code"@,
            Refusal::BadLun => "invalid logical unit"@,
            Refusal::OutOfSequence => "command sequence error"@,
            Refusal::BadWindowCombo => "invalid combination of windows"@,
            Refusal::FrameOutOfRange => "frame beyond the number of frames in the film"@,
        }
    }

    /// Say this to a person
    pub fn message(&self) -> (r: &'static str)
        ensures
            r@ == self.wording(),
    {
        match self {
            Refusal::BadCdbField => "invalid field in CDB",
            Refusal::BadParamField => "invalid field in parameter list",
            Refusal::BadLength => "parameter list length error",
            Refusal::UnknownOpcode => "invalid operation code",
            Refusal::BadLun => "invalid logical unit",
            Refusal::OutOfSequence => "command sequence error",
            Refusal::BadWindowCombo => "invalid combination of windows",
            Refusal::FrameOutOfRange => "frame beyond the number of frames in the film",
        }
    }
}

/// Something else has the scanner
///
/// Firewire-only
#[derive(Debug, Clone, Copy, PartialEq, Eq, Structural)]
pub enum Contention {
    Busy,
    Reserved,
}

impl Contention {
    /// What this says to a person
    pub open spec fn wording(self) -> Seq<char> {
        match self {
            Contention::Busy => "the scanner is busy"@,
            Contention::Reserved => "another initiator holds the scanner"@,
        }
    }

    /// Say this to a person
    pub fn message(&self) -> (r: &'static str)
        ensures
            r@ == self.wording(),
    {
        match self {
            Contention::Busy => "the scanner is busy",
            Contention::Reserved => "another initiator holds the scanner",
        }
    }
}

/// Something a person has to go and fix
///
/// TSC picks the variant, and SBP-2 has no slot for it, so a unit can leave us
/// with [`Unreported`](Self::Unreported)
#[derive(Debug, Clone, Copy, PartialEq, Eq, Structural)]
pub enum Intervention {
    AdapterEjected, // 02h-04h-03h-00h
    DoorNotOpen, // 02h-04h-03h-01h
    UnknownAdapter, // 02h-04h-03h-02h
    FilmGateClosed, // 02h-04h-03h-03h
    AdapterUnlocked, // 02h-04h-03h-04h
    MaskNotSet, // 02h-04h-03h-06h
    UnknownHolder, // 02h-04h-03h-07h
    NoMedium, // 02h-3Ah-00h
    FilmOutOfStandard, // 02h-3Ah-00h-03h
    Unreported,
}

impl Intervention {
    /// What this says to a person
    pub open spec fn wording(self) -> Seq<char> {
        match self {
            Intervention::AdapterEjected => "The adapter is ejected"@,
            Intervention::DoorNotOpen => "IA-20: The LL door is not completely opened"@,
            Intervention::UnknownAdapter => "Undefined adapter"@,
            Intervention::FilmGateClosed => "SA-30: The film of 6 frames or more is loaded when the film gate is closed"@,
            Intervention::AdapterUnlocked => "SA-21/SA-30: The adapter is pulled out a little in the locked status"@,
            Intervention::MaskNotSet => "FH-869GR: the mask is not set"@,
            Intervention::UnknownHolder => "Undefined holder"@,
            Intervention::NoMedium => "No film or holder is loaded"@,
            Intervention::FilmOutOfStandard => "SA-21/SA-30: a nonstandard film was inserted"@,
            Intervention::Unreported => "User intervention required with no additional details"@,
        }
    }

    /// Say this to a person
    pub fn message(&self) -> (r: &'static str)
        ensures
            r@ == self.wording(),
    {
        match self {
            Intervention::AdapterEjected => "The adapter is ejected",
            Intervention::DoorNotOpen => "IA-20: The LL door is not completely opened",
            Intervention::UnknownAdapter => "Undefined adapter",
            Intervention::FilmGateClosed => "SA-30: The film of 6 frames or more is loaded when the film gate is closed",
            Intervention::AdapterUnlocked => "SA-21/SA-30: The adapter is pulled out a little in the locked status",
            Intervention::MaskNotSet => "FH-869GR: the mask is not set",
            Intervention::UnknownHolder => "Undefined holder",
            Intervention::NoMedium => "No film or holder is loaded",
            Intervention::FilmOutOfStandard => "SA-21/SA-30: a nonstandard film was inserted",
            Intervention::Unreported => "User intervention required with no additional details",
        }
    }

    /// Manual Intervention Required, 02h-04h-03h-xx
    pub open spec fn of_manual(tsc: Option<u8>) -> Intervention {
        match tsc {
            Some(0x00) => Intervention::AdapterEjected,
            Some(0x01) => Intervention::DoorNotOpen,
            Some(0x02) => Intervention::UnknownAdapter,
            Some(0x03) => Intervention::FilmGateClosed,
            Some(0x04) => Intervention::AdapterUnlocked,
            Some(0x06) => Intervention::MaskNotSet,
            Some(0x07) => Intervention::UnknownHolder,
            _ => Intervention::Unreported,
        }
    }

    /// Manual Intervention Required, 02h-04h-03h-xx
    fn manual(tsc: Option<u8>) -> (r: Intervention)
        ensures
            r == Intervention::of_manual(tsc),
    {
        match tsc {
            Some(0x00) => Intervention::AdapterEjected,
            Some(0x01) => Intervention::DoorNotOpen,
            Some(0x02) => Intervention::UnknownAdapter,
            Some(0x03) => Intervention::FilmGateClosed,
            Some(0x04) => Intervention::AdapterUnlocked,
            Some(0x06) => Intervention::MaskNotSet,
            Some(0x07) => Intervention::UnknownHolder,
            _ => Intervention::Unreported,
        }
    }
}

/// The scanner is broken, or our model of it is
#[derive(Debug)]
pub enum Fault {
    /// The device reported a fault of its own
    ///
    /// The sense is absent when the status alone was the fault, which is the
    /// case for an unrecognized SCSI status
    Reported(Failure, Option<Sense>),
    /// It refused a CDB we built
    Rejected(Refusal, Option<Sense>),
    /// A VPD page did not parse
    Caps(caps::Error),
}

impl Fault {
    /// What this says to a person
    pub open spec fn wording(&self) -> Seq<char> {
        match self {
            Fault::Reported(failure, sense) => "scanner fault: "@ + failure.wording() + " ("@
                + sense_wording(*sense) + ")"@,
            Fault::Rejected(refusal, sense) => "scanner rejected the command: "@
                + refusal.wording() + " ("@ + sense_wording(*sense) + ")"@,
            Fault::Caps(e) => e.wording(),
        }
    }

    /// Say this to a person
    pub fn message(&self) -> (r: String)
        ensures
            r@ == self.wording(),
    {
        match self {
            Fault::Reported(failure, sense) => {
                let mut s = String::from_str("scanner fault: ");
                let what = failure.message();
                s.append(what.as_str());
                s.append(" (");
                let t = sense_text(sense);
                s.append(t.as_str());
                s.append(")");
                s
            },
            Fault::Rejected(refusal, sense) => {
                let mut s = String::from_str("scanner rejected the command: ");
                s.append(refusal.message());
                s.append(" (");
                let t = sense_text(sense);
                s.append(t.as_str());
                s.append(")");
                s
            },
            Fault::Caps(e) => e.message(),
        }
    }
}

/// What the mechanism is doing while it is not ready
///
/// 02h-04h-01h-xx, discriminated by TSC, plus the two states that arrive without one
#[derive(Debug, Clone, Copy, PartialEq, Eq, Structural)]
pub enum Activity {
    /// An operation activation command is being carried out
    ///
    /// Says nothing about what is moving: an autofocus reports this for its
    /// whole run while the stage travels. Which operations move the feed is a
    /// property of the operation, not of this
    ActivatingOperation, // 01h-00h
    /// The adapter is initializing, or the medium is being loaded or ejected
    MovingMechanism, // 01h-01h and 01h-03h
    /// Correction data is being measured
    MeasuringCorrection, // 01h-02h
    /// Automatic shading or white balance measurement
    AutoShadingOrWb, // 01h-04h
    /// Powered on but not finished initializing
    Initializing, // 02h-04h-00h and 02h-05h-00h
    /// Busy with something internal, which carries on regardless. SCSI status
    /// BUSY, or 0Bh-08h
    TargetBusy,
    /// Not ready, and the reason was not one we recognize
    Unreported,
}

impl Activity {
    /// In Process Of Becoming Ready, 02h-04h-01h-xx
    pub open spec fn of_becoming_ready(tsc: Option<u8>) -> Activity {
        match tsc {
            Some(0x00) => Activity::ActivatingOperation,
            Some(0x01) => Activity::MovingMechanism,
            Some(0x02) => Activity::MeasuringCorrection,
            Some(0x03) => Activity::MovingMechanism,
            Some(0x04) => Activity::AutoShadingOrWb,
            _ => Activity::Unreported,
        }
    }

    /// In Process Of Becoming Ready, 02h-04h-01h-xx
    fn becoming_ready(tsc: Option<u8>) -> (r: Activity)
        ensures
            r == Activity::of_becoming_ready(tsc),
    {
        match tsc {
            Some(0x00) => Activity::ActivatingOperation,
            Some(0x01) | Some(0x03) => Activity::MovingMechanism,
            Some(0x02) => Activity::MeasuringCorrection,
            Some(0x04) => Activity::AutoShadingOrWb,
            _ => Activity::Unreported,
        }
    }
}

/// Post-processing the host has to do before the command will proceed
///
/// 09h-80h is a handshake, not an error: read `DataType::Cooperation`, do the
/// work, and re-issue. The ASCQ is also byte 0 of that record, so dispatch on
/// the record and the 4th byte never matters
#[derive(Debug, Clone, Copy, PartialEq, Eq, Structural)]
pub enum Coop {
    /// The driver builds the thumbnail
    Thumbnail, // 01h
    /// The driver averages a multiple reading
    Averaging, // 02h
    /// The driver re-registers simultaneously-read CCD lines
    MultiLineRegistration, // 04h
    /// The driver truncates the data
    Truncate, // 06h
    /// The driver creates CCD data
    CcdData, // 07h
    /// An operation type we do not know
    Unknown(u8),
}

impl Coop {
    /// The handshake an ASCQ names
    pub open spec fn of(ascq: u8) -> Coop {
        match ascq {
            0x01 => Coop::Thumbnail,
            0x02 => Coop::Averaging,
            0x04 => Coop::MultiLineRegistration,
            0x06 => Coop::Truncate,
            0x07 => Coop::CcdData,
            x => Coop::Unknown(x),
        }
    }
}

impl From<u8> for Coop {
    fn from(ascq: u8) -> (r: Coop) {
        match ascq {
            0x01 => Coop::Thumbnail,
            0x02 => Coop::Averaging,
            0x04 => Coop::MultiLineRegistration,
            0x06 => Coop::Truncate,
            0x07 => Coop::CcdData,
            x => Coop::Unknown(x),
        }
    }
}

impl vstd::std_specs::convert::FromSpecImpl<u8> for Coop {
    open spec fn obeys_from_spec() -> bool {
        true
    }

    open spec fn from_spec(ascq: u8) -> Coop {
        Coop::of(ascq)
    }
}

/// Something the unit noted about a command that still completed
///
/// Sense key 01h is RECOVERED ERROR, so none of these mean the command failed
#[derive(Debug, Clone, Copy, PartialEq, Eq, Structural)]
pub enum Adjustment {
    /// Requested resolution was off the pitch ladder; GET WINDOW is
    /// authoritative for what it actually used
    ResolutionRounded, // 01h-37h-00h
    /// A recovered error we have no name for
    Unreported,
}

/// Why cached state is stale
///
/// Every one of these means the command did *not* run: drop what was cached and
/// re-issue. They are told apart only so a log says which happened, since the
/// unit changes underneath us with no other warning
#[derive(Debug, Clone, Copy, PartialEq, Eq, Structural)]
pub enum Change {
    /// A holder went in or came out
    MediumChanged, // 28h-00h
    /// Powered on, reset, or told to reset
    Reset, // 29h-xx
    /// Another initiator moved a mode parameter
    ModeParameters, // 2Ah-01h
    /// The VPD pages themselves now read differently, which is exactly the
    /// signal to re-probe. Raised on holder insertion, and standard SPC
    Capabilities, // 3Fh-03h
    /// Something attached below the unit. Seen once, on a cold start with no
    /// holder in
    Attached, // 3Fh-04h
    /// A unit attention we have no name for
    Unreported,
}

impl Change {
    /// What a unit attention's code says changed
    pub open spec fn of_code(asc: u8, ascq: u8) -> Change {
        if asc == 0x28 && ascq == 0x00 {
            Change::MediumChanged
        } else if asc == 0x29 {
            Change::Reset
        } else if asc == 0x2A && ascq == 0x01 {
            Change::ModeParameters
        } else if asc == 0x3F && ascq == 0x03 {
            Change::Capabilities
        } else if asc == 0x3F && ascq == 0x04 {
            Change::Attached
        } else {
            Change::Unreported
        }
    }

    /// What a unit attention's code says changed
    fn from_code(asc: u8, ascq: u8) -> (r: Change)
        ensures
            r == Change::of_code(asc, ascq),
    {
        match (asc, ascq) {
            (0x28, 0x00) => Change::MediumChanged,
            (0x29, _) => Change::Reset,
            (0x2A, 0x01) => Change::ModeParameters,
            (0x3F, 0x03) => Change::Capabilities,
            (0x3F, 0x04) => Change::Attached,
            _ => Change::Unreported,
        }
    }
}

/// What a completion means for what happens next
///
/// Constructed only by [`interpret`]. Nothing above this matches on sense keys
#[derive(Debug, Clone, Copy, PartialEq, Eq, Structural)]
pub enum Outcome {
    /// Done
    Complete,
    /// Done, but a parameter moved on the way
    CompleteWith(Adjustment),
    /// Not yet; wait and ask again
    Working(Activity),
    /// Do post-processing, then re-issue
    NeedsHost(Coop),
    /// Print this to a person
    NeedsOperator(Intervention),
    /// Throw away what we cached and re-issue
    StateChanged(Change),
    /// Something else holds the unit, and waiting will not clear it
    Contended(Contention),
    /// We built a bad command
    Refused(Refusal),
    /// The machine's problem
    Failed(Failure),
}

/// What "not ready" means, sense key 02h
pub open spec fn not_ready(asc: u8, ascq: u8, tsc: Option<u8>) -> Outcome {
    if asc == 0x04 && ascq == 0x00 || asc == 0x05 && ascq == 0x00 {
        Outcome::Working(Activity::Initializing)
    } else if asc == 0x04 && ascq == 0x01 {
        Outcome::Working(Activity::of_becoming_ready(tsc))
    } else if asc == 0x04 && ascq == 0x02 {
        Outcome::Failed(Failure::Mechanism)
    } else if asc == 0x04 && ascq == 0x03 {
        Outcome::NeedsOperator(Intervention::of_manual(tsc))
    } else if asc == 0x3A && ascq == 0x00 {
        if tsc == Some(0x03u8) {
            Outcome::NeedsOperator(Intervention::FilmOutOfStandard)
        } else if tsc == Some(0x04u8) {
            Outcome::Refused(Refusal::FrameOutOfRange)
        } else {
            Outcome::NeedsOperator(Intervention::NoMedium)
        }
    } else {
        Outcome::Failed(Failure::Unrecognized)
    }
}

/// What an illegal request means, sense key 05h
pub open spec fn illegal_request(asc: u8, ascq: u8) -> Outcome {
    if asc == 0x1A {
        Outcome::Refused(Refusal::BadLength)
    } else if asc == 0x20 {
        Outcome::Refused(Refusal::UnknownOpcode)
    } else if asc == 0x24 {
        Outcome::Refused(Refusal::BadCdbField)
    } else if asc == 0x25 {
        Outcome::Refused(Refusal::BadLun)
    } else if asc == 0x26 {
        Outcome::Refused(Refusal::BadParamField)
    } else if asc == 0x2C && ascq == 0x00 {
        Outcome::Refused(Refusal::OutOfSequence)
    } else if asc == 0x2C && ascq == 0x02 {
        Outcome::Refused(Refusal::BadWindowCombo)
    } else {
        Outcome::Failed(Failure::Unrecognized)
    }
}

/// What a sense code means, by its key
pub open spec fn sense_meaning(key: u8, asc: u8, ascq: u8, tsc: Option<u8>) -> Outcome {
    if key == 0x00 && asc == 0x00 && ascq == 0x00 {
        Outcome::Complete
    } else if key == 0x01 {
        if asc == 0x37 && ascq == 0x00 {
            Outcome::CompleteWith(Adjustment::ResolutionRounded)
        } else if asc == 0x61 && ascq == 0x02 {
            Outcome::Failed(Failure::OutOfFocus)
        } else {
            Outcome::CompleteWith(Adjustment::Unreported)
        }
    } else if key == 0x02 {
        not_ready(asc, ascq, tsc)
    } else if key == 0x03 {
        Outcome::Failed(Failure::Medium)
    } else if key == 0x04 {
        Outcome::Failed(Failure::Hardware)
    } else if key == 0x05 {
        illegal_request(asc, ascq)
    } else if key == 0x06 {
        Outcome::StateChanged(Change::of_code(asc, ascq))
    } else if key == 0x09 && asc == 0x80 {
        Outcome::NeedsHost(Coop::of(ascq))
    } else if key == 0x0B {
        if asc == 0x08 {
            Outcome::Working(Activity::TargetBusy)
        } else if asc == 0x3E {
            Outcome::Working(Activity::Initializing)
        } else {
            Outcome::Failed(Failure::Aborted)
        }
    } else {
        Outcome::Failed(Failure::Unrecognized)
    }
}

/// What a completion means: the status first, and the sense where there is one
pub open spec fn meaning(c: Completion) -> Outcome {
    match c.status {
        Status::Busy => Outcome::Working(Activity::TargetBusy),
        Status::ReservationConflict => Outcome::Contended(Contention::Reserved),
        Status::Other(x) => Outcome::Failed(Failure::UnexpectedStatus(x)),
        Status::Good | Status::CheckCondition => match c.sense {
            Some(s) => sense_meaning(s.key, s.asc, s.ascq, s.tsc),
            None => Outcome::Complete,
        },
    }
}

/// Classify a SEND DIAGNOSTIC sense, once a generic mechanical failure has
/// sent a caller looking for the real cause
///
/// The wrapper on the command itself only ever says `Failure::Mechanism`; this
/// is the one place that reads what SEND DIAGNOSTIC left behind
pub fn diagnosed(sense: &Sense) -> (r: Failure)
    ensures
        r == if sense.key == 0x01 && sense.asc == 0x61 && sense.ascq == 0x02 {
            Failure::OutOfFocus
        } else {
            Failure::Mechanism
        },
{
    match (sense.key, sense.asc, sense.ascq) {
        (0x01, 0x61, 0x02) => Failure::OutOfFocus,
        _ => Failure::Mechanism,
    }
}

/// Read a completion as what to do next
///
/// Status first: BUSY and RESERVATION CONFLICT arrive with no sense at all,
/// and the latter can pre-empt the documented responses
pub fn interpret(c: &Completion) -> (r: Outcome)
    ensures
        r == meaning(*c),
{
    match c.status {
        Status::Good | Status::CheckCondition => match &c.sense {
            Some(sense) => from_sense(sense),
            None => Outcome::Complete,
        },
        // Transient: the loop retries, and only gives up after its budget
        Status::Busy => Outcome::Working(Activity::TargetBusy),
        Status::ReservationConflict => Outcome::Contended(Contention::Reserved),
        Status::Other(x) => Outcome::Failed(Failure::UnexpectedStatus(x)),
    }
}

/// The tuple table
fn from_sense(s: &Sense) -> (r: Outcome)
    ensures
        r == sense_meaning(s.key, s.asc, s.ascq, s.tsc),
{
    match (s.key, s.asc, s.ascq) {
        (0x00, 0x00, 0x00) => Outcome::Complete,
        // Recovered: it worked, and the unit had a note about it
        (0x01, 0x37, 0x00) => Outcome::CompleteWith(Adjustment::ResolutionRounded),
        // Out of focus is the one recovered error that is not advisory: the
        // command's whole point was reaching focus, and it did not
        (0x01, 0x61, 0x02) => Outcome::Failed(Failure::OutOfFocus),
        (0x01, _, _) => Outcome::CompleteWith(Adjustment::Unreported),
        // Not ready
        (0x02, 0x04, 0x00) => Outcome::Working(Activity::Initializing),
        (0x02, 0x04, 0x01) => Outcome::Working(Activity::becoming_ready(s.tsc)),
        (0x02, 0x04, 0x02) => Outcome::Failed(Failure::Mechanism),
        (0x02, 0x04, 0x03) => Outcome::NeedsOperator(Intervention::manual(s.tsc)),
        (0x02, 0x05, 0x00) => Outcome::Working(Activity::Initializing),
        (0x02, 0x3A, 0x00) => match s.tsc {
            Some(0x03) => Outcome::NeedsOperator(Intervention::FilmOutOfStandard),
            Some(0x04) => Outcome::Refused(Refusal::FrameOutOfRange),
            _ => Outcome::NeedsOperator(Intervention::NoMedium),
        },
        // Medium and hardware
        (0x03, _, _) => Outcome::Failed(Failure::Medium),
        (0x04, _, _) => Outcome::Failed(Failure::Hardware),
        // Illegal request: our bug
        (0x05, 0x1A, _) => Outcome::Refused(Refusal::BadLength),
        (0x05, 0x20, _) => Outcome::Refused(Refusal::UnknownOpcode),
        (0x05, 0x24, _) => Outcome::Refused(Refusal::BadCdbField),
        (0x05, 0x25, _) => Outcome::Refused(Refusal::BadLun),
        (0x05, 0x26, _) => Outcome::Refused(Refusal::BadParamField),
        (0x05, 0x2C, 0x00) => Outcome::Refused(Refusal::OutOfSequence),
        (0x05, 0x2C, 0x02) => Outcome::Refused(Refusal::BadWindowCombo),
        // Unit attention: the command did not run
        (0x06, asc, ascq) => Outcome::StateChanged(Change::from_code(asc, ascq)),
        // The vendor cooperative channel, which is not an error
        (0x09, 0x80, q) => Outcome::NeedsHost(Coop::from(q)),
        // Aborted command, which SCSI lets us retry. 08h is an internal
        // operation that carries on regardless; 3Eh is still coming up after a
        // reset
        (0x0B, 0x08, _) => Outcome::Working(Activity::TargetBusy),
        (0x0B, 0x3E, _) => Outcome::Working(Activity::Initializing),
        (0x0B, _, _) => Outcome::Failed(Failure::Aborted),
        _ => Outcome::Failed(Failure::Unrecognized),
    }
}

/// Every recovered error but out-of-focus leaves the command completed
pub proof fn law_recovered_errors_complete(c: Completion)
    requires
        c.status == Status::Good || c.status == Status::CheckCondition,
        c.sense matches Some(s) && s.key == 0x01,
    ensures
        meaning(c) is CompleteWith || meaning(c) == Outcome::Failed(Failure::OutOfFocus),
        meaning(c) == Outcome::Failed(Failure::OutOfFocus) <==> c.sense->0.asc == 0x61
            && c.sense->0.ascq == 0x02,
{
}

/// A status that stands on its own is read the same whatever sense came with it
pub proof fn law_status_comes_first(a: Completion, b: Completion)
    requires
        a.status == b.status,
        a.status is Busy || a.status is ReservationConflict || a.status is Other,
    ensures
        meaning(a) == meaning(b),
{
}

/// The fourth byte refines what is said and moves nothing else: two codes that
/// differ in it alone are both progress, or both wait for someone, but for the
/// frame the film does not have
pub proof fn law_tsc_only_refines(key: u8, asc: u8, ascq: u8, t: Option<u8>, u: Option<u8>)
    requires
        !(key == 0x02 && asc == 0x3A && ascq == 0x00 && (t == Some(0x04u8) || u == Some(0x04u8))),
    ensures
        sense_meaning(key, asc, ascq, t) is Working <==> sense_meaning(key, asc, ascq, u)
            is Working,
        sense_meaning(key, asc, ascq, t) is NeedsOperator <==> sense_meaning(key, asc, ascq, u)
            is NeedsOperator,
        !(sense_meaning(key, asc, ascq, t) is Working) && !(sense_meaning(key, asc, ascq, t)
            is NeedsOperator) ==> sense_meaning(key, asc, ascq, t) == sense_meaning(
            key,
            asc,
            ascq,
            u,
        ),
{
}

/// Which codes leave a command done: no sense at all, and every recovered error
/// but being out of focus
pub proof fn law_what_is_done(key: u8, asc: u8, ascq: u8, tsc: Option<u8>)
    ensures
        ({
            let r = sense_meaning(key, asc, ascq, tsc);
            &&& r == Outcome::Complete <==> key == 0 && asc == 0 && ascq == 0
            &&& r == Outcome::CompleteWith(Adjustment::ResolutionRounded) <==> key == 1 && asc
                == 0x37 && ascq == 0
            &&& r is CompleteWith <==> key == 1 && !(asc == 0x61 && ascq == 0x02)
        }),
{
}

/// Which codes ask to wait, and for what
pub proof fn law_what_is_waited_for(key: u8, asc: u8, ascq: u8, tsc: Option<u8>)
    ensures
        ({
            let r = sense_meaning(key, asc, ascq, tsc);
            let becoming = key == 2 && asc == 4 && ascq == 1;
            &&& r == Outcome::Working(Activity::Initializing) <==> key == 2 && (asc == 4 || asc == 5)
                && ascq == 0 || key == 0x0B && asc == 0x3E
            &&& r == Outcome::Working(Activity::TargetBusy) <==> key == 0x0B && asc == 8
            &&& r == Outcome::Working(Activity::ActivatingOperation) <==> becoming && tsc == Some(
                0u8,
            )
            &&& r == Outcome::Working(Activity::MovingMechanism) <==> becoming && (tsc == Some(1u8)
                || tsc == Some(3u8))
            &&& r == Outcome::Working(Activity::MeasuringCorrection) <==> becoming && tsc == Some(
                2u8,
            )
            &&& r == Outcome::Working(Activity::AutoShadingOrWb) <==> becoming && tsc == Some(4u8)
            &&& becoming ==> r is Working
        }),
{
}

/// Which codes need someone to go and fix something, and what
pub proof fn law_what_needs_the_operator(key: u8, asc: u8, ascq: u8, tsc: Option<u8>)
    ensures
        ({
            let r = sense_meaning(key, asc, ascq, tsc);
            let manual = key == 2 && asc == 4 && ascq == 3;
            let film = key == 2 && asc == 0x3A && ascq == 0;
            &&& r == Outcome::NeedsOperator(Intervention::AdapterEjected) <==> manual && tsc
                == Some(0u8)
            &&& r == Outcome::NeedsOperator(Intervention::DoorNotOpen) <==> manual && tsc == Some(
                1u8,
            )
            &&& r == Outcome::NeedsOperator(Intervention::UnknownAdapter) <==> manual && tsc
                == Some(2u8)
            &&& r == Outcome::NeedsOperator(Intervention::FilmGateClosed) <==> manual && tsc
                == Some(3u8)
            &&& r == Outcome::NeedsOperator(Intervention::AdapterUnlocked) <==> manual && tsc
                == Some(4u8)
            &&& r == Outcome::NeedsOperator(Intervention::MaskNotSet) <==> manual && tsc == Some(
                6u8,
            )
            &&& r == Outcome::NeedsOperator(Intervention::UnknownHolder) <==> manual && tsc
                == Some(7u8)
            &&& manual ==> r is NeedsOperator
            &&& r == Outcome::NeedsOperator(Intervention::FilmOutOfStandard) <==> film && tsc
                == Some(3u8)
            &&& r == Outcome::NeedsOperator(Intervention::NoMedium) <==> film && tsc != Some(3u8)
                && tsc != Some(4u8)
            &&& r is NeedsOperator ==> manual || film
        }),
{
}

/// Which codes are our own mistake, and which one
pub proof fn law_what_is_refused(key: u8, asc: u8, ascq: u8, tsc: Option<u8>)
    ensures
        ({
            let r = sense_meaning(key, asc, ascq, tsc);
            &&& r == Outcome::Refused(Refusal::BadLength) <==> key == 5 && asc == 0x1A
            &&& r == Outcome::Refused(Refusal::UnknownOpcode) <==> key == 5 && asc == 0x20
            &&& r == Outcome::Refused(Refusal::BadCdbField) <==> key == 5 && asc == 0x24
            &&& r == Outcome::Refused(Refusal::BadLun) <==> key == 5 && asc == 0x25
            &&& r == Outcome::Refused(Refusal::BadParamField) <==> key == 5 && asc == 0x26
            &&& r == Outcome::Refused(Refusal::OutOfSequence) <==> key == 5 && asc == 0x2C && ascq
                == 0
            &&& r == Outcome::Refused(Refusal::BadWindowCombo) <==> key == 5 && asc == 0x2C && ascq
                == 2
            &&& r == Outcome::Refused(Refusal::FrameOutOfRange) <==> key == 2 && asc == 0x3A && ascq
                == 0 && tsc == Some(4u8)
        }),
{
}

/// Which codes say that what is known is stale, and which ask the host for work
pub proof fn law_what_changed_and_what_is_asked(key: u8, asc: u8, ascq: u8, tsc: Option<u8>)
    ensures
        ({
            let r = sense_meaning(key, asc, ascq, tsc);
            &&& r is StateChanged <==> key == 6
            &&& r == Outcome::StateChanged(Change::MediumChanged) <==> key == 6 && asc == 0x28
                && ascq == 0
            &&& r == Outcome::StateChanged(Change::Reset) <==> key == 6 && asc == 0x29
            &&& r == Outcome::StateChanged(Change::ModeParameters) <==> key == 6 && asc == 0x2A
                && ascq == 1
            &&& r == Outcome::StateChanged(Change::Capabilities) <==> key == 6 && asc == 0x3F
                && ascq == 3
            &&& r == Outcome::StateChanged(Change::Attached) <==> key == 6 && asc == 0x3F && ascq
                == 4
            &&& r is NeedsHost <==> key == 9 && asc == 0x80
            &&& r == Outcome::NeedsHost(Coop::Thumbnail) <==> key == 9 && asc == 0x80 && ascq == 1
            &&& r == Outcome::NeedsHost(Coop::Averaging) <==> key == 9 && asc == 0x80 && ascq == 2
            &&& r == Outcome::NeedsHost(Coop::MultiLineRegistration) <==> key == 9 && asc == 0x80
                && ascq == 4
            &&& r == Outcome::NeedsHost(Coop::Truncate) <==> key == 9 && asc == 0x80 && ascq == 6
            &&& r == Outcome::NeedsHost(Coop::CcdData) <==> key == 9 && asc == 0x80 && ascq == 7
            &&& r matches Outcome::NeedsHost(Coop::Unknown(x)) ==> x == ascq
        }),
{
}

/// Which codes are the machine's problem, and which problem. What is no code
/// there is a name for is one too
pub proof fn law_what_failed(key: u8, asc: u8, ascq: u8, tsc: Option<u8>)
    ensures
        ({
            let r = sense_meaning(key, asc, ascq, tsc);
            &&& r == Outcome::Failed(Failure::OutOfFocus) <==> key == 1 && asc == 0x61 && ascq == 2
            &&& r == Outcome::Failed(Failure::Mechanism) <==> key == 2 && asc == 4 && ascq == 2
            &&& r == Outcome::Failed(Failure::Medium) <==> key == 3
            &&& r == Outcome::Failed(Failure::Hardware) <==> key == 4
            &&& r == Outcome::Failed(Failure::Aborted) <==> key == 0x0B && asc != 8 && asc != 0x3E
            &&& r == Outcome::Failed(Failure::Unrecognized) <==> {
                ||| key == 0 && !(asc == 0 && ascq == 0)
                ||| key == 2 && !(asc == 4 && ascq <= 3 || asc == 5 && ascq == 0 || asc == 0x3A
                    && ascq == 0)
                ||| key == 5 && asc != 0x1A && asc != 0x20 && asc != 0x24 && asc != 0x25 && asc
                    != 0x26 && !(asc == 0x2C && (ascq == 0 || ascq == 2))
                ||| key == 7 || key == 8 || key == 0x0A || key > 0x0B
                ||| key == 9 && asc != 0x80
            }
        }),
{
}

/// What a status says on its own, and that the sense is read where it does not
pub proof fn law_what_a_status_says(c: Completion)
    ensures
        c.status == Status::Busy ==> meaning(c) == Outcome::Working(Activity::TargetBusy),
        c.status == Status::ReservationConflict ==> meaning(c) == Outcome::Contended(
            Contention::Reserved,
        ),
        c.status matches Status::Other(x) ==> meaning(c) == Outcome::Failed(
            Failure::UnexpectedStatus(x),
        ),
        c.status == Status::Good || c.status == Status::CheckCondition ==> meaning(c) == match c.sense {
            Some(s) => sense_meaning(s.key, s.asc, s.ascq, s.tsc),
            None => Outcome::Complete,
        },
{
}

/// What is said of each way a command fails, and of each refusal
pub proof fn law_what_a_failure_is_called(failure: Failure, refusal: Refusal, status: u8)
    ensures
        failure == Failure::UnexpectedStatus(status) ==> failure.wording() == "unexpected status "@
            + hex_value(status as nat),
        failure is Mechanism ==> failure.wording() == "mechanical error"@,
        failure is Aborted ==> failure.wording() == "command aborted"@,
        failure is Hardware ==> failure.wording() == "hardware error"@,
        failure is Medium ==> failure.wording() == "medium error"@,
        failure is Unrecognized ==> failure.wording() == "unrecognized sense"@,
        failure is OutOfFocus ==> failure.wording() == "autofocus did not reach focus"@,
        refusal is BadCdbField ==> refusal.wording() == "invalid field in CDB"@,
        refusal is BadParamField ==> refusal.wording() == "invalid field in parameter list"@,
        refusal is BadLength ==> refusal.wording() == "parameter list length error"@,
        refusal is UnknownOpcode ==> refusal.wording() == "invalid operation code"@,
        refusal is BadLun ==> refusal.wording() == "invalid logical unit"@,
        refusal is OutOfSequence ==> refusal.wording() == "command sequence error"@,
        refusal is BadWindowCombo ==> refusal.wording() == "invalid combination of windows"@,
        refusal is FrameOutOfRange ==> refusal.wording() == "frame beyond the number of frames in the film"@,
{
}

/// What is said of each thing that someone has to see to
pub proof fn law_what_an_intervention_is_called(intervention: Intervention, contention: Contention)
    ensures
        intervention is AdapterEjected ==> intervention.wording() == "The adapter is ejected"@,
        intervention is DoorNotOpen ==> intervention.wording() == "IA-20: The LL door is not completely opened"@,
        intervention is UnknownAdapter ==> intervention.wording() == "Undefined adapter"@,
        intervention is FilmGateClosed ==> intervention.wording() == "SA-30: The film of 6 frames or more is loaded when the film gate is closed"@,
        intervention is AdapterUnlocked ==> intervention.wording() == "SA-21/SA-30: The adapter is pulled out a little in the locked status"@,
        intervention is MaskNotSet ==> intervention.wording() == "FH-869GR: the mask is not set"@,
        intervention is UnknownHolder ==> intervention.wording() == "Undefined holder"@,
        intervention is NoMedium ==> intervention.wording() == "No film or holder is loaded"@,
        intervention is FilmOutOfStandard ==> intervention.wording() == "SA-21/SA-30: a nonstandard film was inserted"@,
        intervention is Unreported ==> intervention.wording() == "User intervention required with no additional details"@,
        contention is Busy ==> contention.wording() == "the scanner is busy"@,
        contention is Reserved ==> contention.wording() == "another initiator holds the scanner"@,
{
}

/// A fault says whether the unit reported it or rejected the command, which one
/// it is, and the record that came with it; a page that would not parse says
/// that alone
pub proof fn law_what_a_fault_says(fault: Fault)
    ensures
        fault matches Fault::Reported(failure, sense) ==> fault.wording() == "scanner fault: "@
            + failure.wording() + seq![' ', '('] + sense_wording(sense) + seq![')'],
        fault matches Fault::Rejected(refusal, sense) ==> fault.wording()
            == "scanner rejected the command: "@ + refusal.wording() + seq![' ', '(']
            + sense_wording(sense) + seq![')'],
        fault matches Fault::Caps(e) ==> fault.wording() == e.wording(),
{
    reveal_strlit(" (");
    reveal_strlit(")");
    assert(" ("@ =~= seq![' ', '(']);
    assert(")"@ =~= seq![')']);
}

/// What a diagnosis comes to: focus that was not reached, or the mechanism
pub proof fn law_what_is_diagnosed(sense: &Sense, r: Failure)
    requires
        call_ensures(diagnosed, (sense,), r),
    ensures
        r is OutOfFocus <==> sense.key == 1 && sense.asc == 97 && sense.ascq == 2,
        !(r is OutOfFocus) ==> r is Mechanism,
{
}

} // verus!
