//! Reading a completion as what to do next

use nkscan::protocol::sense::{interpret, Adjustment, Failure, Outcome};
use nkscan::transport::{Completion, Sense, Status};

fn sense(key: u8, asc: u8, ascq: u8) -> Sense {
    Sense {
        key,
        asc,
        ascq,
        tsc: None,
        ili: false,
        information: None,
        raw: Vec::new(),
    }
}

/// A unit that puts 01h-61h-02h on the autofocus command's own completion
/// has to fail it, not complete it with a note: unlike every other
/// recovered error, the command's whole point was reaching focus, and it
/// did not. This is the one place a caller (`scan::focus`) needs to see
/// [`Failure::OutOfFocus`] whichever of the two routes reported it
#[test]
fn out_of_focus_on_the_command_itself_fails_rather_than_completes() {
    let completion = Completion {
        status: Status::CheckCondition,
        sense: Some(sense(0x01, 0x61, 0x02)),
        transferred: 0,
    };
    assert!(matches!(
        interpret(&completion),
        Outcome::Failed(Failure::OutOfFocus)
    ));
}

/// Every other sense key 01h condition is genuinely advisory: the command
/// completed, and this is a footnote
#[test]
fn other_recovered_errors_still_complete() {
    let completion = Completion {
        status: Status::CheckCondition,
        sense: Some(sense(0x01, 0x37, 0x00)),
        transferred: 0,
    };
    assert!(matches!(
        interpret(&completion),
        Outcome::CompleteWith(Adjustment::ResolutionRounded)
    ));
}
