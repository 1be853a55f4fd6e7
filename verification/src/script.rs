//! What a script asks a scanner for, and what it is handed back
//!
//! A script goes by names where the protocol goes by codes: what an error is
//! raised as, which channel an exposure belongs to, how to focus.

use crate::error::Error;
use crate::names::{channel_name, channel_wording};
use crate::protocol::data::Rect;
use crate::protocol::window::Channel;
use crate::text::{ascii_lower, eq_ignore_ascii_case, same_but_case};
use vstd::prelude::*;

verus! {

// ----- what an error is raised as

/// What a script can catch
#[derive(Debug, Clone, Copy, PartialEq, Eq, Structural)]
pub enum Exception {
    /// Base for every error
    Scanner,
    /// Worth retrying
    Transient,
    /// The link to the scanner failed
    Transport,
    /// Something else has the scanner
    Busy,
    /// No such scanner
    NotFound,
    /// Something a person has to go fix
    Media,
    /// This unit or adapter cannot do that
    Unsupported,
    /// A progress callback said to stop
    Cancelled,
}

impl Exception {
    /// What it is caught as besides itself, but for the base
    pub open spec fn parent(self) -> Option<Exception> {
        match self {
            Exception::Scanner => None,
            Exception::Transport | Exception::Busy => Some(Exception::Transient),
            _ => Some(Exception::Scanner),
        }
    }

    /// What it is caught as besides itself, but for the base
    pub fn base(self) -> (r: Option<Exception>)
        ensures
            r == self.parent(),
    {
        match self {
            Exception::Scanner => None,
            Exception::Transport | Exception::Busy => Some(Exception::Transient),
            _ => Some(Exception::Scanner),
        }
    }

    /// Whether catching `other` catches this
    pub open spec fn is_a(self, other: Exception) -> bool {
        ||| self == other
        ||| self.parent() == Some(other)
        ||| other is Scanner
    }

    /// What an error is raised as
    pub open spec fn of(error: &Error) -> Exception {
        match error {
            Error::Transport(_) => Exception::Transport,
            Error::Busy(_) => Exception::Busy,
            Error::Media(_) => Exception::Media,
            Error::NotFound => Exception::NotFound,
            Error::Unsupported { .. } => Exception::Unsupported,
            Error::Cancelled => Exception::Cancelled,
            Error::Device(_) => Exception::Scanner,
        }
    }
}

/// What an exception says of an error. It says what the error does, but for one
/// that is not supported, which is put as what was asked and why not
pub open spec fn exception_wording(error: &Error) -> Seq<char> {
    match error {
        Error::Unsupported { op, reason } => op@ + ": "@ + reason@,
        _ => error.wording(),
    }
}

/// What an error is raised as, and what that says
pub fn raised(error: &Error) -> (r: (Exception, String))
    ensures
        r.0 == Exception::of(error),
        r.1@ == exception_wording(error),
{
    match error {
        Error::Transport(_) => (Exception::Transport, error.message()),
        Error::Busy(_) => (Exception::Busy, error.message()),
        Error::Media(_) => (Exception::Media, error.message()),
        Error::NotFound => (Exception::NotFound, error.message()),
        Error::Unsupported { op, reason } => {
            let mut s = String::from_str(op);
            s.append(": ");
            s.append(reason.as_str());
            (Exception::Unsupported, s)
        },
        Error::Cancelled => (Exception::Cancelled, error.message()),
        Error::Device(_) => (Exception::Scanner, error.message()),
    }
}

/// Whoever catches the base catches every error
pub proof fn law_every_error_is_caught(error: Error)
    ensures
        Exception::of(&error).is_a(Exception::Scanner),
{
}

/// An error is raised as worth retrying where the link failed or something else
/// has the scanner, and nowhere else
pub proof fn law_what_is_worth_retrying(error: Error)
    ensures
        Exception::of(&error).is_a(Exception::Transient) <==> error is Transport || error is Busy,
{
}

// ----- arguments

/// How a script asks to focus. A point is whatever the caller goes by
#[derive(Debug)]
pub enum FocusArgument<P> {
    /// Nothing was asked
    Absent,
    Position(u16),
    Point(P),
    Word(String),
    /// Anything else, as it shows itself
    Other(String),
}

/// How to focus before a pass
#[derive(Debug, PartialEq, Eq)]
pub enum Focus<P> {
    /// The unit focuses, on the center of the frame where no point is given
    Auto(Option<P>),
    /// The lens moves to this position
    At(u16),
    /// The lens does not move
    Hold,
}

/// Why an argument says no way to focus
pub open spec fn focus_refusal(shown: Seq<char>) -> Seq<char> {
    "focus is \"auto\", \"hold\", a position, or an (x, y) point, not "@ + shown
}

/// How an argument asks to focus, where it does
pub open spec fn focus_asked<P>(argument: FocusArgument<P>) -> Option<Focus<P>> {
    match argument {
        FocusArgument::Absent => Some(Focus::Auto(None)),
        FocusArgument::Position(position) => Some(Focus::At(position)),
        FocusArgument::Point(at) => Some(Focus::Auto(Some(at))),
        FocusArgument::Word(word) => if same_but_case(word@, "auto"@) {
            Some(Focus::Auto(None))
        } else if same_but_case(word@, "hold"@) {
            Some(Focus::Hold)
        } else {
            None
        },
        FocusArgument::Other(_) => None,
    }
}

/// How an argument asks to focus, or why it does not
pub fn focus_from<P>(argument: FocusArgument<P>) -> (r: Result<Focus<P>, String>)
    ensures
        match r {
            Ok(focus) => focus_asked(argument) == Some(focus),
            Err(reason) => focus_asked(argument) is None && match argument {
                FocusArgument::Word(shown) | FocusArgument::Other(shown) => reason@
                    == focus_refusal(shown@),
                _ => false,
            },
        },
{
    let shown: String = match argument {
        FocusArgument::Absent => {
            return Ok(Focus::Auto(None));
        },
        FocusArgument::Position(position) => {
            return Ok(Focus::At(position));
        },
        FocusArgument::Point(at) => {
            return Ok(Focus::Auto(Some(at)));
        },
        FocusArgument::Word(word) => {
            if eq_ignore_ascii_case(word.as_str(), "auto") {
                return Ok(Focus::Auto(None));
            }
            if eq_ignore_ascii_case(word.as_str(), "hold") {
                return Ok(Focus::Hold);
            }
            word
        },
        FocusArgument::Other(shown) => shown,
    };
    let mut reason = String::from_str(
        "focus is \"auto\", \"hold\", a position, or an (x, y) point, not ",
    );
    reason.append(shown.as_str());
    Err(reason)
}

/// A frame, as a script hands it over: top, left, bottom, right
pub open spec fn frame_of(rect: Rect) -> (u32, u32, u32, u32) {
    (rect.top, rect.left, rect.bottom, rect.right)
}

/// The rectangle a script asks for
pub fn rect(frame: (u32, u32, u32, u32)) -> (r: Rect)
    ensures
        frame_of(r) == frame,
{
    let (top, left, bottom, right) = frame;
    Rect { top, left, bottom, right }
}

/// The frames a script is handed
pub fn frames(found: &[Rect]) -> (r: Vec<(u32, u32, u32, u32)>)
    ensures
        r@ == found@.map_values(|rect: Rect| frame_of(rect)),
{
    let mut out: Vec<(u32, u32, u32, u32)> = Vec::new();
    let mut i: usize = 0;
    while i < found.len()
        invariant
            i <= found@.len(),
            out@ == found@.take(i as int).map_values(|rect: Rect| frame_of(rect)),
        decreases found@.len() - i,
    {
        let rect = found[i];
        out.push((rect.top, rect.left, rect.bottom, rect.right));
        proof {
            assert(found@.take(i + 1) =~= found@.take(i as int).push(rect));
        }
        i += 1;
    }
    proof {
        assert(found@.take(i as int) =~= found@);
    }
    out
}

// ----- progress

/// What a script is told is going on
#[derive(Debug, Clone, Copy, PartialEq, Eq, Structural)]
pub enum Phase {
    Discover,
    /// Metering, and which pass of it
    Meter(usize),
    Scan,
}

impl Phase {
    /// What a script is told
    pub fn told(self) -> (r: (&'static str, usize))
        ensures
            r.0@ == match self {
                Phase::Discover => "discover"@,
                Phase::Meter(_) => "meter"@,
                Phase::Scan => "scan"@,
            },
            r.1 == match self {
                Phase::Meter(pass) => pass,
                _ => 0,
            },
    {
        match self {
            Phase::Discover => ("discover", 0),
            Phase::Meter(pass) => ("meter", pass),
            Phase::Scan => ("scan", 0),
        }
    }
}

/// Whether to go on after telling a script, which answers with a truth or
/// something else. Only a plain no stops a pass
pub fn goes_on(answer: Option<bool>) -> (r: bool)
    ensures
        r == (answer != Some(false)),
{
    match answer {
        Some(yes) => yes,
        None => true,
    }
}

// ----- planes

/// Whether planes are handed over under the names of their channels
pub open spec fn planes_named(
    named: Seq<(String, Vec<u16>)>,
    ids: Seq<u8>,
    planes: Seq<Vec<u16>>,
) -> bool {
    &&& named.len() == vstd::math::min(ids.len() as int, planes.len() as int)
    &&& forall|i: int|
        0 <= i < named.len() ==> (#[trigger] named[i]).0@ == channel_wording(Channel::of(ids[i]))
            && named[i].1 == planes[i]
}

/// The planes of a pass under the names of their channels, where `ids` are the
/// channels in the order of the planes
pub fn name_planes(ids: &[u8], planes: Vec<Vec<u16>>) -> (r: Vec<(String, Vec<u16>)>)
    ensures
        planes_named(r@, ids@, planes@),
{
    let ghost all = planes@;
    let mut left = planes;
    let mut named: Vec<(String, Vec<u16>)> = Vec::new();
    while named.len() < ids.len() && left.len() > 0
        invariant
            named@.len() <= ids@.len(),
            named@.len() + left@.len() == all.len(),
            left@ == all.skip(named@.len() as int),
            forall|i: int|
                0 <= i < named@.len() ==> (#[trigger] named@[i]).0@ == channel_wording(
                    Channel::of(ids@[i]),
                ) && named@[i].1 == all[i],
        decreases left@.len(),
    {
        let plane = left.remove(0);
        let name = channel_name(ids[named.len()]);
        named.push((name, plane));
        proof {
            assert(left@ =~= all.skip(named@.len() as int));
        }
    }
    named
}

/// What each error is raised as, and what else that is caught as
pub proof fn law_what_an_error_is_raised_as(error: &Error)
    ensures
        Exception::of(error) is Transport <==> error is Transport,
        Exception::of(error) is Busy <==> error is Busy,
        Exception::of(error) is Media <==> error is Media,
        Exception::of(error) is NotFound <==> error is NotFound,
        Exception::of(error) is Unsupported <==> error is Unsupported,
        Exception::of(error) is Cancelled <==> error is Cancelled,
        Exception::of(error) is Scanner <==> error is Device,
        !(error is Unsupported) ==> exception_wording(error) == error.wording(),
        error matches Error::Unsupported { op, reason } ==> exception_wording(error) == op@ + seq![
            ':',
            ' ',
        ] + reason@,
{
    reveal_strlit(": ");
    assert(": "@ =~= seq![':', ' ']);
}

/// Which exceptions catch which: the base every one, what is worth retrying the
/// two that are, and every other one only itself
pub proof fn law_what_catches_what(raised: Exception, caught: Exception)
    ensures
        caught is Scanner ==> raised.is_a(caught),
        caught is Transient ==> (raised.is_a(caught) <==> raised is Transient || raised is Transport
            || raised is Busy),
        !(caught is Scanner) && !(caught is Transient) ==> (raised.is_a(caught) <==> raised
            == caught),
        raised.parent() is None <==> raised is Scanner,
        raised.parent() == Some(Exception::Transient) <==> raised is Transport || raised is Busy,
        raised.parent() is Some && !(raised is Transport) && !(raised is Busy) ==> raised.parent()
            == Some(Exception::Scanner),
{
}

/// How each argument asks to focus: nothing at all and `auto` leave it to the
/// unit, a point does so there, a position and `hold` do not
pub proof fn law_what_a_focus_argument_asks(argument: FocusArgument<int>)
    ensures
        argument is Absent ==> focus_asked(argument) == Some(Focus::Auto(None::<int>)),
        argument matches FocusArgument::Position(n) ==> focus_asked(argument) == Some(
            Focus::<int>::At(n),
        ),
        argument matches FocusArgument::Point(at) ==> focus_asked(argument) == Some(
            Focus::Auto(Some(at)),
        ),
        argument matches FocusArgument::Word(word) ==> {
            &&& focus_asked(argument) == Some(Focus::Auto(None::<int>)) <==> same_but_case(
                word@,
                "auto"@,
            )
            &&& focus_asked(argument) == Some(Focus::<int>::Hold) <==> same_but_case(word@, "hold"@)
            &&& focus_asked(argument) is None <==> !same_but_case(word@, "auto"@) && !same_but_case(
                word@,
                "hold"@,
            )
        },
        argument is Other ==> focus_asked(argument) is None,
{
    reveal_strlit("auto");
    reveal_strlit("hold");
    if let FocusArgument::Word(word) = argument {
        if same_but_case(word@, "auto"@) {
            assert("auto"@[0] == 'a' && "hold"@[0] == 'h');
            assert(ascii_lower(word@[0]) == 'a');
        }
    }
}

/// A frame is its top, its left, its bottom and its right, in that order
pub proof fn law_the_order_of_a_frame(rect: Rect)
    ensures
        frame_of(rect).0 == rect.top,
        frame_of(rect).1 == rect.left,
        frame_of(rect).2 == rect.bottom,
        frame_of(rect).3 == rect.right,
{
}

/// As many planes are handed over as there are both names and planes for
pub proof fn law_how_many_planes_are_named(
    named: Seq<(String, Vec<u16>)>,
    ids: Seq<u8>,
    planes: Seq<Vec<u16>>,
    i: int,
)
    requires
        planes_named(named, ids, planes),
        0 <= i,
    ensures
        i < named.len() <==> i < ids.len() && i < planes.len(),
        i < named.len() ==> named[i].1@ == planes[i]@ && named[i].0@ == channel_wording(
            Channel::of(ids[i]),
        ),
{
}

/// Only a plain no stops a pass
pub proof fn law_what_stops_a_pass(answer: Option<bool>, r: bool)
    requires
        call_ensures(goes_on, (answer,), r),
    ensures
        !r <==> answer == Some(false),
{
}

/// A script is told what is going on, and which pass of metering it is
pub proof fn law_what_a_script_is_told(phase: Phase, pass: usize, r: (&'static str, usize))
    requires
        call_ensures(Phase::told, (phase,), r),
    ensures
        phase is Discover ==> r.0@ == "discover"@ && r.1 == 0,
        phase is Scan ==> r.0@ == "scan"@ && r.1 == 0,
        phase == Phase::Meter(pass) ==> r.0@ == "meter"@ && r.1 == pass,
{
}

} // verus!
