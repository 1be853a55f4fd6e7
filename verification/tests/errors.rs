//! What an error says, and where it comes from

use nkscan::error::Error;
use nkscan::protocol::caps;
use nkscan::protocol::sense::{
    interpret, Activity, Contention, Failure, Fault, Intervention, Outcome, Refusal,
};
use nkscan::transport::{self, Completion, Sense, Status};

fn sensed(key: u8, asc: u8, ascq: u8, tsc: Option<u8>) -> Completion {
    Completion {
        status: Status::CheckCondition,
        sense: Some(Sense {
            key,
            asc,
            ascq,
            tsc,
            ili: false,
            information: None,
            raw: vec![0x70, 0],
        }),
        transferred: 0,
    }
}

#[test]
fn terminal_outcomes_become_their_errors() {
    let c = sensed(0x02, 0x3A, 0x00, None);
    assert!(matches!(
        Error::from_outcome(interpret(&c), &c),
        Error::Media(Intervention::NoMedium)
    ));
    let c = sensed(0x05, 0x24, 0x00, None);
    let Error::Device(fault) = Error::from_outcome(interpret(&c), &c) else {
        panic!("not a device error");
    };
    let Fault::Rejected(Refusal::BadCdbField, Some(sense)) = *fault else {
        panic!("not a rejection");
    };
    assert_eq!(sense.raw, vec![0x70, 0]);
    assert!(matches!(
        Error::from_outcome(Outcome::Contended(Contention::Reserved), &c),
        Error::Busy(Contention::Reserved)
    ));
    assert!(matches!(
        Error::from_outcome(Outcome::Failed(Failure::Medium), &c),
        Error::Device(f) if matches!(*f, Fault::Reported(Failure::Medium, Some(_)))
    ));
}

/// What belongs to the retry loop falls through to a fault rather than a panic
#[test]
fn an_outcome_that_is_not_terminal_is_a_fault() {
    let c = Completion {
        status: Status::Busy,
        sense: None,
        transferred: 0,
    };
    assert!(matches!(
        Error::from_outcome(Outcome::Working(Activity::TargetBusy), &c),
        Error::Device(f) if matches!(*f, Fault::Reported(Failure::Unrecognized, None))
    ));
}

#[test]
fn errors_say_what_they_are() {
    assert_eq!(Error::NotFound.message(), "no such scanner");
    assert_eq!(Error::Cancelled.message(), "scan cancelled");
    assert_eq!(Error::Busy(Contention::Busy).message(), "the scanner is busy");
    assert_eq!(
        Error::Busy(Contention::Reserved).message(),
        "another initiator holds the scanner"
    );
    assert_eq!(
        Error::Media(Intervention::MaskNotSet).message(),
        "FH-869GR: the mask is not set"
    );
    assert_eq!(
        Error::Unsupported {
            op: "resolution",
            reason: "too fine".into()
        }
        .message(),
        "resolution is not supported: too fine"
    );
    assert_eq!(
        Error::from(transport::Error::Timeout(5000)).message(),
        "the scanner did not answer within 5000 ms"
    );
    assert_eq!(
        Error::Transport(transport::Error::Io).message(),
        "the link to the scanner failed"
    );
}

#[test]
fn a_fault_says_its_sense() {
    let c = sensed(0x05, 0x2C, 0x02, Some(3));
    assert_eq!(
        Error::from_outcome(interpret(&c), &c).message(),
        "scanner rejected the command: invalid combination of windows (Some(Sense { key: 5, asc: 44, ascq: 2, tsc: Some(3), ili: false, information: None, raw: [112, 0] }))"
    );
    let fault = Fault::Reported(Failure::UnexpectedStatus(0x08), None);
    assert_eq!(
        fault.message(),
        "scanner fault: unexpected status 0x08 (None)"
    );
    assert_eq!(
        Failure::UnexpectedStatus(0xAB).message(),
        "unexpected status 0xab"
    );
}

#[test]
fn a_page_that_does_not_parse_says_where() {
    let short = caps::Error::Truncated {
        page: 0xC1,
        need: 8,
        got: 4,
    };
    assert_eq!(short.message(), "page C1h truncated: need 8 bytes, got 4");
    let bad = caps::Error::BadField {
        page: 0x0C,
        byte: 1,
        what: "page code",
        value: 0xD1,
    };
    assert_eq!(bad.message(), "page 0Ch byte 1: page code = 0xd1");
    assert_eq!(
        Error::from(short).message(),
        "page C1h truncated: need 8 bytes, got 4"
    );
}

#[test]
fn a_sense_record_reads_as_its_fields() {
    let sense = Sense {
        key: 1,
        asc: 0x37,
        ascq: 0,
        tsc: None,
        ili: true,
        information: Some(42),
        raw: Vec::new(),
    };
    assert_eq!(
        sense.text(),
        "Sense { key: 1, asc: 55, ascq: 0, tsc: None, ili: true, information: Some(42), raw: [] }"
    );
    assert_eq!(sense.text(), format!("{sense:?}"));
    assert_eq!(sense.clone().text(), sense.text());
}
