//! Getting film in front of the sensor, and giving it back
//!
//! Each step says what to ask the unit for, and takes the answer to the next.

use crate::error::Error;
use crate::protocol::sense::Intervention;
use vstd::prelude::*;

verus! {

/// A step of finding out whether there is film to scan
#[derive(Debug, Clone, Copy, PartialEq, Eq, Structural)]
pub enum Ready {
    /// Ask whether a medium is loaded
    AskLoaded,
    /// Tell the unit to take a medium in
    Load,
    /// Read the pages again: they now describe the medium that came in
    Refresh,
    /// Ask again whether a medium is loaded
    AskAgain,
    /// Whether there is film
    Film(bool),
}

impl Ready {
    /// What follows a step
    ///
    /// A feeder or a cartridge keeps its film inside, so nothing reads
    /// as loaded until the unit is told to take some in. `take_in` is whether it
    /// may: not once a medium has been scanned and ejected, where loading again
    /// would only bring the same film back.
    pub open spec fn following(self, take_in: bool, answer: bool) -> Ready {
        match self {
            Ready::AskLoaded => if answer {
                Ready::Film(true)
            } else if take_in {
                Ready::Load
            } else {
                Ready::Film(false)
            },
            Ready::Load => if answer {
                Ready::Refresh
            } else {
                Ready::Film(false)
            },
            Ready::Refresh => Ready::AskAgain,
            Ready::AskAgain => Ready::Film(answer),
            Ready::Film(film) => Ready::Film(film),
        }
    }

    /// What follows a step, from what the unit answered it
    pub fn next(self, take_in: bool, answer: bool) -> (r: Ready)
        ensures
            r == self.following(take_in, answer),
    {
        match self {
            Ready::AskLoaded => if answer {
                Ready::Film(true)
            } else if take_in {
                Ready::Load
            } else {
                Ready::Film(false)
            },
            Ready::Load => if answer {
                Ready::Refresh
            } else {
                Ready::Film(false)
            },
            Ready::Refresh => Ready::AskAgain,
            Ready::AskAgain => Ready::Film(answer),
            Ready::Film(film) => Ready::Film(film),
        }
    }
}

/// Film that is already loaded is taken as it is
pub proof fn law_loaded_film_is_ready(take_in: bool)
    ensures
        Ready::AskLoaded.following(take_in, true) == Ready::Film(true),
{
}

/// A unit that may not take film in is never told to
pub proof fn law_a_unit_that_may_not_load_does_not(step: Ready, answer: bool)
    requires
        step != Ready::Load,
    ensures
        step.following(false, answer) != Ready::Load,
{
}

/// However the unit answers, four answers settle it
pub proof fn law_readiness_settles(take_in: bool, a: bool, b: bool, c: bool, d: bool)
    ensures
        Ready::AskLoaded.following(take_in, a).following(take_in, b).following(take_in, c).following(
            take_in,
            d,
        ) is Film,
{
}

/// Whether an error only says to wait: anything the operator can put right is
/// "not yet", since an open door is what the prompt is for
///
/// The same goes for reading the pages again while nothing is loaded: a strip
/// feeder's sits empty between strips.
pub fn is_not_yet(e: &Error) -> (r: bool)
    ensures
        r == (e is Media),
{
    match e {
        Error::Media(_) => true,
        _ => false,
    }
}

/// What a step of giving the film back came to
#[derive(Debug, Clone, Copy, PartialEq, Eq, Structural)]
pub enum Reply {
    Yes,
    No,
    /// The unit did not answer at all
    Gone,
    /// It answered with some other error
    Refused,
}

/// A step of giving the medium back on the way out of a cancelled run
#[derive(Debug, Clone, Copy, PartialEq, Eq, Structural)]
pub enum GiveBack {
    /// Ask whether the unit is still there
    Probe,
    /// Ask whether a medium is loaded
    AskLoaded,
    /// Tell the unit to give it back
    Eject,
    /// The run is over
    Stop,
}

impl GiveBack {
    /// What follows a step
    ///
    /// An eject is a stage move and carries a stage move's timeout, so a unit
    /// that has already stopped answering is not asked for one. Every answer but
    /// that means it is still there: a cancelled run leaves a scan open, and
    /// being refused out of sequence is that saying so. A gate that is known to
    /// be empty has nothing to give back; one that cannot be told is tried.
    pub open spec fn following(self, reply: Reply) -> GiveBack {
        match self {
            GiveBack::Probe => if reply is Gone {
                GiveBack::Stop
            } else {
                GiveBack::AskLoaded
            },
            GiveBack::AskLoaded => if reply is No {
                GiveBack::Stop
            } else {
                GiveBack::Eject
            },
            GiveBack::Eject => GiveBack::Stop,
            GiveBack::Stop => GiveBack::Stop,
        }
    }

    /// What follows a step, from what the unit answered it
    pub fn next(self, reply: Reply) -> (r: GiveBack)
        ensures
            r == self.following(reply),
    {
        match (self, reply) {
            (GiveBack::Probe, Reply::Gone) => GiveBack::Stop,
            (GiveBack::Probe, _) => GiveBack::AskLoaded,
            (GiveBack::AskLoaded, Reply::No) => GiveBack::Stop,
            (GiveBack::AskLoaded, _) => GiveBack::Eject,
            (GiveBack::Eject, _) => GiveBack::Stop,
            (GiveBack::Stop, _) => GiveBack::Stop,
        }
    }
}

/// A unit that does not answer is never told to eject
pub proof fn law_a_unit_that_is_gone_is_left_alone()
    ensures
        GiveBack::Probe.following(Reply::Gone) == GiveBack::Stop,
        forall|reply: Reply| GiveBack::Stop.following(reply) == GiveBack::Stop,
{
}

/// What to tell the operator about an eject they asked for, where it did not
/// fail: nothing being loaded is as good as having been given back
pub fn eject_notice(outcome: &Result<bool, Error>) -> (r: Option<&'static str>)
    ensures
        match outcome {
            Ok(true) => r matches Some(s) && s@ == "Ejected"@,
            Ok(false) => r matches Some(s) && s@ == "Scanner does not support eject"@,
            Err(Error::Media(Intervention::NoMedium)) => r matches Some(s) && s@ == "Ejected"@,
            Err(_) => r is None,
        },
{
    match outcome {
        Ok(true) => Some("Ejected"),
        Ok(false) => Some("Scanner does not support eject"),
        Err(Error::Media(Intervention::NoMedium)) => Some("Ejected"),
        Err(_) => None,
    }
}

/// What finding film comes to: it is there where the first question says so, or
/// where the unit may take some in, does, and then has it
pub proof fn law_when_there_is_film(
    take_in: bool,
    loaded: bool,
    took: bool,
    read: bool,
    again: bool,
)
    ensures
        Ready::AskLoaded.following(take_in, loaded).following(take_in, took).following(
            take_in,
            read,
        ).following(take_in, again) == Ready::Film(loaded || take_in && took && again),
        loaded ==> Ready::AskLoaded.following(take_in, loaded) == Ready::Film(true),
        !loaded && !take_in ==> Ready::AskLoaded.following(take_in, loaded) == Ready::Film(false),
        !loaded && take_in ==> Ready::AskLoaded.following(take_in, loaded) == Ready::Load,
        took ==> Ready::Load.following(take_in, took) == Ready::Refresh,
        !took ==> Ready::Load.following(take_in, took) == Ready::Film(false),
        Ready::Refresh.following(take_in, read) == Ready::AskAgain,
{
}

/// When film is given back: wherever the unit answers at all and does not say
/// that nothing is loaded
pub proof fn law_when_film_is_given_back(there: Reply, loaded: Reply, given: Reply)
    ensures
        GiveBack::Probe.following(there).following(loaded) is Eject <==> !(there is Gone) && !(
        loaded is No),
        GiveBack::Probe.following(there) is AskLoaded <==> !(there is Gone),
        !(GiveBack::Probe.following(there) is Eject),
        GiveBack::Probe.following(there).following(loaded).following(given) is Stop,
{
}

/// Only what the operator can put right is waited for
pub proof fn law_what_is_not_yet(e: &Error, r: bool)
    requires
        call_ensures(is_not_yet, (e,), r),
    ensures
        r <==> e is Media,
{
}

/// An operator who asked for an eject hears of one that was made and of one that
/// cannot be, and that nothing was in is as good as an eject
pub proof fn law_what_an_eject_says(outcome: &Result<bool, Error>, r: Option<&'static str>)
    requires
        call_ensures(eject_notice, (outcome,), r),
    ensures
        *outcome == Ok::<bool, Error>(true) ==> (r matches Some(s) && s@ == "Ejected"@),
        *outcome == Ok::<bool, Error>(false) ==> (r matches Some(s) && s@
            == "Scanner does not support eject"@),
        *outcome matches Err(e) ==> (r is Some <==> e == Error::Media(Intervention::NoMedium)),
        *outcome matches Err(e) ==> (r matches Some(s) ==> s@ == "Ejected"@),
{
}

} // verus!
