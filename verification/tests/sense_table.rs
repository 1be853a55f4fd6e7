//! Every sense code there is a meaning for

use nkscan::protocol::sense::{
    diagnosed, interpret, Activity, Adjustment, Change, Contention, Coop, Failure, Intervention,
    Outcome, Refusal,
};
use nkscan::transport::{Completion, Sense, Status};

fn sense(key: u8, asc: u8, ascq: u8, tsc: Option<u8>) -> Sense {
    Sense {
        key,
        asc,
        ascq,
        tsc,
        ili: false,
        information: None,
        raw: Vec::new(),
    }
}

fn read(key: u8, asc: u8, ascq: u8, tsc: Option<u8>) -> Outcome {
    interpret(&Completion {
        status: Status::CheckCondition,
        sense: Some(sense(key, asc, ascq, tsc)),
        transferred: 0,
    })
}

fn bare(status: Status) -> Outcome {
    interpret(&Completion {
        status,
        sense: None,
        transferred: 0,
    })
}

#[test]
fn a_status_stands_on_its_own() {
    assert_eq!(bare(Status::Good), Outcome::Complete);
    assert_eq!(bare(Status::CheckCondition), Outcome::Complete);
    assert_eq!(bare(Status::Busy), Outcome::Working(Activity::TargetBusy));
    assert_eq!(
        bare(Status::ReservationConflict),
        Outcome::Contended(Contention::Reserved)
    );
    assert_eq!(
        bare(Status::Other(0x22)),
        Outcome::Failed(Failure::UnexpectedStatus(0x22))
    );
    // Whatever sense came with it
    let busy = Completion {
        status: Status::Busy,
        sense: Some(sense(0x05, 0x24, 0x00, None)),
        transferred: 0,
    };
    assert_eq!(interpret(&busy), Outcome::Working(Activity::TargetBusy));
}

#[test]
fn not_ready_is_progress_or_somebody_to_fetch() {
    assert_eq!(read(2, 4, 0, None), Outcome::Working(Activity::Initializing));
    assert_eq!(read(2, 5, 0, None), Outcome::Working(Activity::Initializing));
    for (tsc, activity) in [
        (Some(0), Activity::ActivatingOperation),
        (Some(1), Activity::MovingMechanism),
        (Some(2), Activity::MeasuringCorrection),
        (Some(3), Activity::MovingMechanism),
        (Some(4), Activity::AutoShadingOrWb),
        (Some(9), Activity::Unreported),
        (None, Activity::Unreported),
    ] {
        assert_eq!(read(2, 4, 1, tsc), Outcome::Working(activity), "{tsc:?}");
    }
    assert_eq!(read(2, 4, 2, None), Outcome::Failed(Failure::Mechanism));
    for (tsc, who) in [
        (Some(0), Intervention::AdapterEjected),
        (Some(1), Intervention::DoorNotOpen),
        (Some(2), Intervention::UnknownAdapter),
        (Some(3), Intervention::FilmGateClosed),
        (Some(4), Intervention::AdapterUnlocked),
        (Some(5), Intervention::Unreported),
        (Some(6), Intervention::MaskNotSet),
        (Some(7), Intervention::UnknownHolder),
        (None, Intervention::Unreported),
    ] {
        assert_eq!(read(2, 4, 3, tsc), Outcome::NeedsOperator(who), "{tsc:?}");
    }
    assert_eq!(read(2, 0x3A, 0, None), Outcome::NeedsOperator(Intervention::NoMedium));
    assert_eq!(read(2, 0x3A, 0, Some(0)), Outcome::NeedsOperator(Intervention::NoMedium));
    assert_eq!(
        read(2, 0x3A, 0, Some(3)),
        Outcome::NeedsOperator(Intervention::FilmOutOfStandard)
    );
    assert_eq!(read(2, 0x3A, 0, Some(4)), Outcome::Refused(Refusal::FrameOutOfRange));
    assert_eq!(read(2, 0x99, 0, None), Outcome::Failed(Failure::Unrecognized));
}

#[test]
fn the_rest_of_the_table() {
    assert_eq!(read(0, 0, 0, None), Outcome::Complete);
    assert_eq!(read(0, 0, 1, None), Outcome::Failed(Failure::Unrecognized));
    assert_eq!(
        read(1, 0x99, 0, None),
        Outcome::CompleteWith(Adjustment::Unreported)
    );
    assert_eq!(read(3, 1, 2, None), Outcome::Failed(Failure::Medium));
    assert_eq!(read(4, 1, 2, None), Outcome::Failed(Failure::Hardware));
    for (asc, ascq, refusal) in [
        (0x1A, 7, Refusal::BadLength),
        (0x20, 0, Refusal::UnknownOpcode),
        (0x24, 0, Refusal::BadCdbField),
        (0x25, 0, Refusal::BadLun),
        (0x26, 0, Refusal::BadParamField),
        (0x2C, 0, Refusal::OutOfSequence),
        (0x2C, 2, Refusal::BadWindowCombo),
    ] {
        assert_eq!(read(5, asc, ascq, None), Outcome::Refused(refusal));
    }
    assert_eq!(read(5, 0x2C, 1, None), Outcome::Failed(Failure::Unrecognized));
    for (asc, ascq, change) in [
        (0x28, 0, Change::MediumChanged),
        (0x28, 1, Change::Unreported),
        (0x29, 5, Change::Reset),
        (0x2A, 1, Change::ModeParameters),
        (0x3F, 3, Change::Capabilities),
        (0x3F, 4, Change::Attached),
        (0x3F, 5, Change::Unreported),
    ] {
        assert_eq!(read(6, asc, ascq, None), Outcome::StateChanged(change));
    }
    for (q, coop) in [
        (1, Coop::Thumbnail),
        (2, Coop::Averaging),
        (3, Coop::Unknown(3)),
        (4, Coop::MultiLineRegistration),
        (6, Coop::Truncate),
        (7, Coop::CcdData),
    ] {
        assert_eq!(read(9, 0x80, q, None), Outcome::NeedsHost(coop));
    }
    assert_eq!(read(9, 0x81, 1, None), Outcome::Failed(Failure::Unrecognized));
    assert_eq!(read(0x0B, 8, 0, None), Outcome::Working(Activity::TargetBusy));
    assert_eq!(
        read(0x0B, 0x3E, 0, None),
        Outcome::Working(Activity::Initializing)
    );
    assert_eq!(read(0x0B, 0x4B, 0, None), Outcome::Failed(Failure::Aborted));
    assert_eq!(read(0x0C, 0, 0, None), Outcome::Failed(Failure::Unrecognized));
}

#[test]
fn a_diagnostic_tells_focus_from_the_rest() {
    assert_eq!(diagnosed(&sense(1, 0x61, 2, None)), Failure::OutOfFocus);
    assert_eq!(diagnosed(&sense(1, 0x61, 1, None)), Failure::Mechanism);
    assert_eq!(diagnosed(&sense(4, 0, 0, None)), Failure::Mechanism);
}

#[test]
fn every_message_has_words() {
    assert_eq!(Failure::OutOfFocus.message(), "autofocus did not reach focus");
    assert_eq!(Refusal::BadLun.message(), "invalid logical unit");
    assert_eq!(Contention::Busy.message(), "the scanner is busy");
    assert_eq!(
        Intervention::Unreported.message(),
        "User intervention required with no additional details"
    );
}
