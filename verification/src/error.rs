//! High level errors containing protocol and transport errors

use crate::protocol::caps;
use crate::protocol::sense::{Contention, Failure, Fault, Intervention, Outcome};
use crate::transport::{self, Completion, Sense};
use vstd::prelude::*;

verus! {

/// Top crate-level scanner errors
#[derive(Debug)]
pub enum Error {
    Transport(transport::Error),
    Busy(Contention),
    Media(Intervention),
    NotFound,
    Unsupported { op: &'static str, reason: String },
    Cancelled,
    Device(Box<Fault>),
}

/// A page that would not parse is our model of the device being wrong, which
/// is the same class of problem as the device reporting a fault
impl From<caps::Error> for Error {
    fn from(e: caps::Error) -> (r: Error) {
        Error::Device(Box::new(Fault::Caps(e)))
    }
}

impl vstd::std_specs::convert::FromSpecImpl<caps::Error> for Error {
    open spec fn obeys_from_spec() -> bool {
        true
    }

    open spec fn from_spec(e: caps::Error) -> Error {
        Error::Device(Box::new(Fault::Caps(e)))
    }
}

/// The transport failing a command is reported as it stands
impl From<transport::Error> for Error {
    fn from(e: transport::Error) -> (r: Error) {
        Error::Transport(e)
    }
}

impl vstd::std_specs::convert::FromSpecImpl<transport::Error> for Error {
    open spec fn obeys_from_spec() -> bool {
        true
    }

    open spec fn from_spec(e: transport::Error) -> Error {
        Error::Transport(e)
    }
}

/// Whether one sense record is a copy of another
pub open spec fn copied_sense(a: Option<Sense>, b: Option<Sense>) -> bool {
    match (a, b) {
        (Some(x), Some(y)) => x.same(y),
        (None, None) => true,
        _ => false,
    }
}

impl Error {
    /// An operation that is refused, and why
    pub open spec fn is_unsupported(self, op: Seq<char>, reason: Seq<char>) -> bool {
        self matches Error::Unsupported { op: o, reason: r } && o@ == op && r@ == reason
    }

    /// What this says to a person
    pub open spec fn wording(&self) -> Seq<char> {
        match self {
            Error::Transport(e) => e.wording(),
            Error::Busy(c) => c.wording(),
            Error::Media(i) => i.wording(),
            Error::NotFound => "no such scanner"@,
            Error::Unsupported { op, reason } => op@ + " is not supported: "@ + reason@,
            Error::Cancelled => "scan cancelled"@,
            Error::Device(fault) => fault.wording(),
        }
    }

    /// Say this to a person
    pub fn message(&self) -> (r: String)
        ensures
            r@ == self.wording(),
    {
        match self {
            Error::Transport(e) => e.message(),
            Error::Busy(c) => String::from_str(c.message()),
            Error::Media(i) => String::from_str(i.message()),
            Error::NotFound => String::from_str("no such scanner"),
            Error::Unsupported { op, reason } => {
                let mut s = String::from_str(op);
                s.append(" is not supported: ");
                s.append(reason.as_str());
                s
            },
            Error::Cancelled => String::from_str("scan cancelled"),
            Error::Device(fault) => fault.message(),
        }
    }

    /// Turn a terminal [`Outcome`] into an error
    ///
    /// The completion comes along because the sense bytes belong to it, not to
    /// the outcome, and they are what makes a fault reportable.
    ///
    /// `Working`, `NeedsHost` and `StateChanged` are the retry loop's business
    /// and should never reach here. They are not unreachable, though, since a
    /// caller that skips the loop will produce one, so they fall through to a
    /// fault rather than a panic.
    pub fn from_outcome(outcome: Outcome, completion: &Completion) -> (r: Error)
        ensures
            match outcome {
                Outcome::NeedsOperator(i) => r == Error::Media(i),
                Outcome::Contended(c) => r == Error::Busy(c),
                Outcome::Refused(f) => r matches Error::Device(d) && *d matches Fault::Rejected(
                    g,
                    s,
                ) && g == f && copied_sense(s, completion.sense),
                Outcome::Failed(f) => r matches Error::Device(d) && *d matches Fault::Reported(
                    g,
                    s,
                ) && g == f && copied_sense(s, completion.sense),
                _ => r matches Error::Device(d) && *d matches Fault::Reported(g, s) && g
                    == Failure::Unrecognized && copied_sense(s, completion.sense),
            },
    {
        let sense: Option<Sense> = match &completion.sense {
            Some(s) => Some(s.clone()),
            None => None,
        };
        match outcome {
            Outcome::NeedsOperator(i) => Error::Media(i),
            Outcome::Contended(c) => Error::Busy(c),
            Outcome::Refused(f) => Error::Device(Box::new(Fault::Rejected(f, sense))),
            Outcome::Failed(f) => Error::Device(Box::new(Fault::Reported(f, sense))),
            _ => Error::Device(Box::new(Fault::Reported(Failure::Unrecognized, sense))),
        }
    }
}

/// What an error says: what is behind it says, or what was asked for and why it
/// cannot be had
pub proof fn law_what_an_error_says(error: Error)
    ensures
        error matches Error::Transport(e) ==> error.wording() == e.wording(),
        error matches Error::Busy(c) ==> error.wording() == c.wording(),
        error matches Error::Media(i) ==> error.wording() == i.wording(),
        error is NotFound ==> error.wording() == "no such scanner"@,
        error matches Error::Unsupported { op, reason } ==> error.wording() == op@
            + " is not supported: "@ + reason@,
        error is Cancelled ==> error.wording() == "scan cancelled"@,
        error matches Error::Device(fault) ==> error.wording() == fault.wording(),
{
}

/// A record is a copy of another where every one of its fields is the same, and
/// none is a copy of none alone
pub proof fn law_what_a_copied_record_is(a: Option<Sense>, b: Option<Sense>)
    ensures
        copied_sense(a, b) ==> (a is Some <==> b is Some),
        a is None && b is None ==> copied_sense(a, b),
        a is Some && b is Some ==> (copied_sense(a, b) <==> a->0.key == b->0.key && a->0.asc
            == b->0.asc && a->0.ascq == b->0.ascq && a->0.tsc == b->0.tsc && a->0.ili == b->0.ili
            && a->0.information == b->0.information && a->0.raw@ == b->0.raw@),
{
}

/// An operation is refused by its name and for its reason, and by nothing else
pub proof fn law_what_an_unsupported_operation_is(error: Error, op: Seq<char>, reason: Seq<char>)
    ensures
        error.is_unsupported(op, reason) ==> error is Unsupported && error->op@ == op
            && error->reason@ == reason,
        error is Unsupported ==> error.is_unsupported(error->op@, error->reason@),
{
}

/// What a command's outcome is raised as: what an operator can see to as that,
/// what someone else holds as busy, and everything else as a fault of the unit
pub proof fn law_what_an_outcome_is_raised_as(outcome: Outcome, completion: &Completion, r: Error)
    requires
        call_ensures(Error::from_outcome, (outcome, completion), r),
    ensures
        r is Media <==> outcome is NeedsOperator,
        r is Busy <==> outcome is Contended,
        r is Device <==> !(outcome is NeedsOperator) && !(outcome is Contended),
        outcome matches Outcome::NeedsOperator(i) ==> r == Error::Media(i),
        outcome matches Outcome::Contended(c) ==> r == Error::Busy(c),
        outcome is Refused <==> (r matches Error::Device(d) && *d is Rejected),
{
}

} // verus!
