//! Scanning every frame of every holder the operator feeds in
//!
//! The frames of a strip are found, and then taken one after another. What to do
//! between them and between strips is decided here, from what came of the last
//! step; doing it is the program's.

use crate::protocol::caps::set_window::ColorInterleaving;
use crate::protocol::caps::Capabilities;
use crate::protocol::data::Rect;
use crate::search::{first_index, law_a_search_finds_the_first};
use crate::text::{decimal, push_decimal};
use vstd::prelude::*;

verus! {

/// The film types there are, as the operator names them
#[derive(Debug, Clone, Copy, PartialEq, Eq, Structural)]
pub enum FilmType {
    /// Slide film
    Positive,
    /// Color negative
    Negative,
    /// Kodachrome, whose dyes need their own profile
    Kodachrome,
    /// Black and white negative
    Mono,
}

/// Which way a film reads against the unexposed film between two frames
#[derive(Debug, Clone, Copy, PartialEq, Eq, Structural)]
pub enum Polarity {
    Positive,
    Negative,
}

impl From<FilmType> for Polarity {
    fn from(film: FilmType) -> (r: Polarity) {
        match film {
            // Both are reversal films, whose unexposed film develops to maximum
            // density
            FilmType::Positive | FilmType::Kodachrome => Polarity::Positive,
            // Both develop to their base, which is the brightest film on a
            // strip whether or not it carries an orange mask
            FilmType::Negative | FilmType::Mono => Polarity::Negative,
        }
    }
}

impl vstd::std_specs::convert::FromSpecImpl<FilmType> for Polarity {
    open spec fn obeys_from_spec() -> bool {
        true
    }

    open spec fn from_spec(film: FilmType) -> Polarity {
        if film is Positive || film is Kodachrome {
            Polarity::Positive
        } else {
            Polarity::Negative
        }
    }
}

/// What every frame gets scanned with
#[derive(Debug, Clone, Copy, PartialEq, Eq, Structural)]
pub struct Plan {
    pub interleaving: ColorInterleaving,
    /// Cleaning reads the mask whether or not the operator wants it kept
    pub infrared: bool,
    /// Reading one row at a time was asked of a unit that does nothing else
    pub superfine_is_idle: bool,
    /// The rows would give one output line at this resolution, so one is read
    /// at a time and it takes longer
    pub slower: bool,
}

/// The reading mode: every CCD row at once, unless one at a time is asked for or
/// is all that makes sense at the resolution
pub open spec fn interleaving_for(superfine: bool, multiline_at_dpi: bool) -> u8 {
    if !superfine && multiline_at_dpi {
        ColorInterleaving::MULTILINE_SIMULTANEOUS
    } else {
        ColorInterleaving::LINE_WITHOUT_DISTANCE
    }
}

/// What every frame gets scanned with, or why the flags do not go together
///
/// Silver grains stop infrared as they stop light, so the mask a black and white
/// negative returns is the picture again rather than the dust on it.
pub fn plan(
    film: FilmType,
    ir: bool,
    clean: bool,
    superfine: bool,
    multiline_supported: bool,
    multiline_at_dpi: bool,
) -> (r: Result<Plan, &'static str>)
    ensures
        match r {
            Ok(plan) => !(film is Mono && (ir || clean)) && plan == (Plan {
                interleaving: (ColorInterleaving {
                    bits: interleaving_for(superfine, multiline_at_dpi),
                }),
                infrared: ir || clean,
                superfine_is_idle: superfine && !multiline_supported,
                slower: !superfine && multiline_supported && !multiline_at_dpi,
            }),
            Err(e) => film is Mono && (ir || clean) && e@
                == "--ir and --clean do not work on black and white negatives"@,
        },
{
    if film == FilmType::Mono && (ir || clean) {
        return Err("--ir and --clean do not work on black and white negatives");
    }
    let bits: u8 = if !superfine && multiline_at_dpi {
        ColorInterleaving::MULTILINE_SIMULTANEOUS
    } else {
        ColorInterleaving::LINE_WITHOUT_DISTANCE
    };
    Ok(
        Plan {
            interleaving: ColorInterleaving { bits },
            infrared: ir || clean,
            superfine_is_idle: superfine && !multiline_supported,
            slower: !superfine && multiline_supported && !multiline_at_dpi,
        },
    )
}

/// What is worth saying about a white balance that was asked for
#[derive(Debug, Clone, Copy, PartialEq, Eq, Structural)]
pub enum BalanceNote {
    /// Nothing was asked for
    Nothing,
    /// The flag changes nothing
    Idle,
    /// The flag goes against what the film is metered with
    Override,
}

/// Whether to meter the channels as one group, from what the film is otherwise
/// metered with and whatever the operator asked for, and what to say about it
///
/// The film type decides on its own, and each flag overrides it. An override
/// that contradicts the default is worth saying out loud: on a negative it is
/// the difference between the orange mask coming off before the ADC and being
/// quantised through, and there is nothing in the output that says which
/// happened.
pub fn hold_white_balance(default: bool, unlock: bool, lock: bool) -> (r: (bool, BalanceNote))
    ensures
        r.0 == if lock {
            true
        } else if unlock {
            false
        } else {
            default
        },
        r.1 == if !lock && !unlock {
            BalanceNote::Nothing
        } else if r.0 == default {
            BalanceNote::Idle
        } else {
            BalanceNote::Override
        },
{
    let asked: bool = if lock {
        true
    } else if unlock {
        false
    } else {
        return (default, BalanceNote::Nothing);
    };
    if asked == default {
        (asked, BalanceNote::Idle)
    } else {
        (asked, BalanceNote::Override)
    }
}

/// Whether the medium is a strip in an adapter rather than a holder. A unit for
/// medium format takes holders, whatever its adapter
pub open spec fn takes_strips(caps: &Capabilities) -> bool {
    !caps.identity.medium_format() && (caps.address.adapter_id matches Some(id) && id > 0)
}

/// What to ask the operator for before the first strip
pub fn first_prompt(caps: &Capabilities) -> (r: &'static str)
    ensures
        r@ == if takes_strips(caps) {
            "load a film strip"@
        } else {
            "load a film holder"@
        },
{
    let strip: bool = match caps.address.adapter_id {
        Some(id) => id > 0 && !caps.identity.is_mf_scanner(),
        None => false,
    };
    if strip {
        "load a film strip"
    } else {
        "load a film holder"
    }
}

/// The first of the wanted frames that was not detected. Frames are counted
/// from one
pub open spec fn first_missing(detected: int, wanted: Seq<usize>) -> Option<int> {
    first_index(
        wanted.len() as int,
        |n: int| wanted[n] < 1 || wanted[n] > detected,
        0,
    )
}

/// The frames to scan: all that were detected, or the ones that are named, in
/// the order they are named in
pub fn select(detected: &[Rect], wanted: &[usize]) -> (r: Result<Vec<Rect>, String>)
    ensures
        match r {
            Ok(frames) => if wanted@.len() == 0 {
                frames@ == detected@
            } else {
                &&& first_missing(detected@.len() as int, wanted@) is None
                &&& frames@ == Seq::new(wanted@.len(), |n: int| detected@[wanted@[n] - 1])
            },
            Err(e) => first_missing(detected@.len() as int, wanted@) matches Some(n) && e@
                == "Requested frame "@ + decimal(wanted@[n] as nat)
                + " not available. Frames detected: "@ + decimal(detected@.len()),
        },
{
    let mut frames: Vec<Rect> = Vec::new();
    let mut n: usize = 0;
    if wanted.len() == 0 {
        while n < detected.len()
            invariant
                n <= detected@.len(),
                frames@ == detected@.take(n as int),
            decreases detected@.len() - n,
        {
            frames.push(detected[n]);
            n += 1;
        }
        assert(detected@.take(n as int) =~= detected@);
        return Ok(frames);
    }
    let ghost count = detected@.len() as int;
    let ghost missing = |n: int| wanted@[n] < 1 || wanted@[n] > count;
    while n < wanted.len()
        invariant
            n <= wanted@.len(),
            count == detected@.len(),
            missing == (|n: int| wanted@[n] < 1 || wanted@[n] > count),
            first_missing(count, wanted@) == first_index(wanted@.len() as int, missing, n as int),
            frames@ == Seq::new(n as nat, |k: int| detected@[wanted@[k] - 1]),
        decreases wanted@.len() - n,
    {
        let frame: usize = wanted[n];
        if frame < 1 || frame > detected.len() {
            let mut e = String::from_str("Requested frame ");
            push_decimal(&mut e, frame as u64);
            e.append(" not available. Frames detected: ");
            push_decimal(&mut e, detected.len() as u64);
            return Err(e);
        }
        frames.push(detected[frame - 1]);
        n += 1;
    }
    Ok(frames)
}

/// Whether a pass is worth writing: what arrived is right for a short one and
/// wrong for an empty one, which would be a black frame
#[derive(Debug, Clone, Copy, PartialEq, Eq, Structural)]
pub enum Arrival {
    Whole,
    /// The unit gave less than the pass promised
    Short,
    /// The unit gave nothing
    Nothing,
}

/// What arrived of a pass
pub fn arrival(blocks: usize, complete: bool) -> (r: Arrival)
    ensures
        r == if blocks == 0 {
            Arrival::Nothing
        } else if complete {
            Arrival::Whole
        } else {
            Arrival::Short
        },
{
    if blocks == 0 {
        Arrival::Nothing
    } else if complete {
        Arrival::Whole
    } else {
        Arrival::Short
    }
}

/// What a run is asked for, as far as it decides what follows what
#[derive(Debug, Clone, Copy, PartialEq, Eq, Structural)]
pub struct Orders {
    /// The frames come from a file, which describes one strip
    pub from_file: bool,
    /// Frames are named, which mean nothing on the next holder
    pub named: bool,
    /// The film stays loaded
    pub no_eject: bool,
}

/// What to do next
#[derive(Debug, Clone, Copy, PartialEq, Eq, Structural)]
pub enum Step {
    /// Wait until film is in, taking some in where `first`
    WaitForFilm { first: bool },
    /// Find the frames of the strip
    Discover,
    /// Scan this one of the frames that were found, counted from 0
    ScanFrame { n: usize },
    /// Give the film back
    Eject,
    /// Have the unit take the next medium in itself
    Refill,
    /// Put the unit in a state to scan from
    Stage,
    /// Ask the operator to replace or advance the film
    AskOperator,
    /// The unit gave nothing for this frame, counted from 0
    Failed { n: usize },
    /// The operator asked to stop
    Cancelled,
    /// The run is over
    Done,
}

/// What came of a step
#[derive(Debug, Clone, Copy, PartialEq, Eq, Structural)]
pub enum Event {
    /// Film is in
    FilmIn,
    /// So many frames are to be scanned
    Found { frames: usize },
    /// A frame was scanned, and so much of it arrived
    Scanned(Arrival),
    /// The film was given back, or the unit cannot; and whether the unit has a
    /// supply of its own
    Ejected { gave_back: bool, self_feeding: bool },
    /// Whether the unit took another medium in
    Refilled(bool),
    /// The unit is in a state to scan from
    Staged,
    /// Whether anyone was there to answer
    Answered(bool),
}

/// How far a run has come
#[derive(Debug, Clone, Copy, PartialEq, Eq, Structural)]
pub struct Batch {
    pub orders: Orders,
    /// Frames of this strip
    pub frames: usize,
    pub step: Step,
}

impl Batch {
    /// Nothing can be framed before something is loaded
    pub fn new(orders: Orders) -> (r: Batch)
        ensures
            r == (Batch { orders, frames: 0, step: Step::WaitForFilm { first: true } }),
    {
        Batch { orders, frames: 0, step: Step::WaitForFilm { first: true } }
    }

    /// A strip begins, unless the operator asked to stop. Nothing is moving
    /// between strips, so this is always safe to act on
    pub open spec fn strip_start(self, cancelled: bool) -> Step {
        if cancelled {
            Step::Cancelled
        } else {
            Step::Discover
        }
    }

    /// Frame `n`, unless there are no more or the operator asked to stop, which
    /// nothing is moving between frames either to prevent
    pub open spec fn frame_or_end(self, n: int, frames: int, cancelled: bool) -> Step {
        if n >= frames {
            if self.orders.no_eject {
                Step::Done
            } else {
                Step::Eject
            }
        } else if cancelled {
            Step::Cancelled
        } else {
            Step::ScanFrame { n: n as usize }
        }
    }

    /// What follows an eject
    ///
    /// A file describes one strip, and naming frames is a targeted scan rather
    /// than a batch. A unit with a supply of its own takes the next medium
    /// in itself, and is also the only one that can say when it has run out. One
    /// that cannot give the medium back leaves what to do with it to the operator.
    pub open spec fn after_eject(self, gave_back: bool, self_feeding: bool) -> Step {
        if self.orders.from_file || self.orders.named {
            Step::Done
        } else if self_feeding {
            Step::Refill
        } else if !gave_back {
            Step::AskOperator
        } else {
            Step::WaitForFilm { first: false }
        }
    }

    /// Where a run goes from here. What did not come of the step it is at
    /// changes nothing
    pub open spec fn following(self, event: Event, cancelled: bool) -> Batch {
        match (self.step, event) {
            (Step::WaitForFilm { .. }, Event::FilmIn) => Batch {
                step: self.strip_start(cancelled),
                ..self
            },
            (Step::Discover, Event::Found { frames }) => Batch {
                frames,
                step: self.frame_or_end(0, frames as int, cancelled),
                ..self
            },
            (Step::ScanFrame { n }, Event::Scanned(arrival)) => Batch {
                step: if arrival is Nothing {
                    Step::Failed { n }
                } else {
                    self.frame_or_end(n + 1, self.frames as int, cancelled)
                },
                ..self
            },
            (Step::Eject, Event::Ejected { gave_back, self_feeding }) => Batch {
                step: self.after_eject(gave_back, self_feeding),
                ..self
            },
            (Step::Refill, Event::Refilled(took)) => Batch {
                step: if took {
                    Step::Stage
                } else {
                    Step::Done
                },
                ..self
            },
            (Step::Stage, Event::Staged) => Batch { step: self.strip_start(cancelled), ..self },
            (Step::AskOperator, Event::Answered(there)) => Batch {
                step: if there {
                    Step::WaitForFilm { first: false }
                } else {
                    Step::Done
                },
                ..self
            },
            _ => self,
        }
    }

    /// Whether a run is at a frame there is
    pub open spec fn wf(self) -> bool {
        self.step matches Step::ScanFrame { n } ==> n < self.frames
    }

    /// The first step of a strip
    fn begin_strip(cancelled: bool) -> (r: Step)
        ensures
            r == if cancelled {
                Step::Cancelled
            } else {
                Step::Discover
            },
    {
        if cancelled {
            Step::Cancelled
        } else {
            Step::Discover
        }
    }

    /// Frame `n`, or the end of the strip
    fn begin_frame(&self, n: usize, frames: usize, cancelled: bool) -> (r: Step)
        ensures
            r == self.frame_or_end(n as int, frames as int, cancelled),
    {
        if n >= frames {
            if self.orders.no_eject {
                Step::Done
            } else {
                Step::Eject
            }
        } else if cancelled {
            Step::Cancelled
        } else {
            Step::ScanFrame { n }
        }
    }

    /// Go on from what came of the step, and whether the operator asked to stop
    pub fn next(self, event: Event, cancelled: bool) -> (r: Batch)
        requires
            self.wf(),
        ensures
            r == self.following(event, cancelled),
            r.wf(),
    {
        match (self.step, event) {
            (Step::WaitForFilm { .. }, Event::FilmIn) => Batch {
                step: Batch::begin_strip(cancelled),
                ..self
            },
            (Step::Discover, Event::Found { frames }) => Batch {
                frames,
                step: self.begin_frame(0, frames, cancelled),
                ..self
            },
            (Step::ScanFrame { n }, Event::Scanned(arrival)) => Batch {
                step: match arrival {
                    Arrival::Nothing => Step::Failed { n },
                    _ => self.begin_frame(n + 1, self.frames, cancelled),
                },
                ..self
            },
            (Step::Eject, Event::Ejected { gave_back, self_feeding }) => Batch {
                step: if self.orders.from_file || self.orders.named {
                    Step::Done
                } else if self_feeding {
                    Step::Refill
                } else if !gave_back {
                    Step::AskOperator
                } else {
                    Step::WaitForFilm { first: false }
                },
                ..self
            },
            (Step::Refill, Event::Refilled(took)) => Batch {
                step: if took {
                    Step::Stage
                } else {
                    Step::Done
                },
                ..self
            },
            (Step::Stage, Event::Staged) => Batch { step: Batch::begin_strip(cancelled), ..self },
            (Step::AskOperator, Event::Answered(there)) => Batch {
                step: if there {
                    Step::WaitForFilm { first: false }
                } else {
                    Step::Done
                },
                ..self
            },
            _ => self,
        }
    }
}

/// A run told to leave the film loaded never gives it back
pub proof fn law_no_eject_never_ejects(batch: Batch, event: Event, cancelled: bool)
    requires
        batch.orders.no_eject,
        batch.step != Step::Eject,
    ensures
        batch.following(event, cancelled).step != Step::Eject,
{
}

/// Once the operator asked to stop, nothing more is found or scanned
pub proof fn law_a_cancel_starts_nothing(batch: Batch, event: Event)
    requires
        batch.following(event, true).step != batch.step,
    ensures
        !(batch.following(event, true).step is Discover),
        !(batch.following(event, true).step is ScanFrame),
{
}

/// A run from a file, or of named frames, takes one strip
pub proof fn law_a_targeted_run_takes_one_strip(batch: Batch, event: Event, cancelled: bool)
    requires
        batch.orders.from_file || batch.orders.named,
        batch.step == Step::Eject,
    ensures
        batch.following(event, cancelled).step == Step::Eject || batch.following(
            event,
            cancelled,
        ).step == Step::Done,
{
}

/// The frames of a strip are scanned in order, each one once: a frame that
/// arrived is followed by the next, and the last by the end of the strip
pub proof fn law_frames_in_order(batch: Batch, n: usize, arrival: Arrival)
    requires
        batch.step == (Step::ScanFrame { n }),
        n < batch.frames,
        !(arrival is Nothing),
    ensures
        ({
            let next = batch.following(Event::Scanned(arrival), false);
            &&& next.frames == batch.frames
            &&& n + 1 < batch.frames ==> next.step == (Step::ScanFrame { n: (n + 1) as usize })
            &&& n + 1 == batch.frames ==> next.step == Step::Eject || next.step == Step::Done
        }),
{
}

/// Whatever the orders, a strip with frames on it is scanned from its first one,
/// where nobody asked to stop; and one without is ended like any other
pub proof fn law_a_strip_starts_at_its_first_frame(batch: Batch, frames: usize, cancelled: bool)
    requires
        batch.step == Step::Discover,
    ensures
        ({
            let next = batch.following(Event::Found { frames }, cancelled);
            &&& next.frames == frames
            &&& next.orders == batch.orders
            &&& frames > 0 && !cancelled ==> next.step == (Step::ScanFrame { n: 0 })
            &&& frames > 0 && cancelled ==> next.step == Step::Cancelled
            &&& frames == 0 && batch.orders.no_eject ==> next.step == Step::Done
            &&& frames == 0 && !batch.orders.no_eject ==> next.step == Step::Eject
        }),
{
}

/// Where a run is once frame after frame has been scanned without a stop
pub open spec fn after_scans(batch: Batch, arrivals: Seq<Arrival>) -> Batch
    decreases arrivals.len(),
{
    if arrivals.len() == 0 {
        batch
    } else {
        after_scans(batch, arrivals.drop_last()).following(
            Event::Scanned(arrivals.last()),
            false,
        )
    }
}

/// Every frame of a strip is scanned, in order, once: after as many frames as
/// have arrived the next one is due, and after the last one the strip ends
pub proof fn law_every_frame_is_scanned_once(batch: Batch, frames: usize, arrivals: Seq<Arrival>)
    requires
        batch.step == Step::Discover,
        frames > 0,
        arrivals.len() <= frames,
        forall|k: int| 0 <= k < arrivals.len() ==> !(#[trigger] arrivals[k] is Nothing),
    ensures
        ({
            let found = batch.following(Event::Found { frames }, false);
            let now = after_scans(found, arrivals);
            &&& now.frames == frames
            &&& now.orders == batch.orders
            &&& arrivals.len() < frames ==> now.step == (Step::ScanFrame {
                n: arrivals.len() as usize,
            })
            &&& arrivals.len() == frames ==> now.step == if batch.orders.no_eject {
                Step::Done
            } else {
                Step::Eject
            }
        }),
    decreases arrivals.len(),
{
    if arrivals.len() > 0 {
        law_every_frame_is_scanned_once(batch, frames, arrivals.drop_last());
        assert(!(arrivals[arrivals.len() - 1] is Nothing));
    }
}

/// A frame of which nothing arrived is what the run fails with
pub proof fn law_an_empty_frame_fails(batch: Batch, n: usize, cancelled: bool)
    requires
        batch.step == (Step::ScanFrame { n }),
    ensures
        batch.following(Event::Scanned(Arrival::Nothing), cancelled).step == (Step::Failed { n }),
{
}

/// Between two frames a stop is heeded, and after the last one there is none to
/// heed
pub proof fn law_a_stop_between_frames(batch: Batch, n: usize, arrival: Arrival)
    requires
        batch.step == (Step::ScanFrame { n }),
        n < batch.frames,
        !(arrival is Nothing),
    ensures
        ({
            let next = batch.following(Event::Scanned(arrival), true).step;
            &&& n + 1 < batch.frames ==> next == Step::Cancelled
            &&& n + 1 == batch.frames ==> next == if batch.orders.no_eject {
                Step::Done
            } else {
                Step::Eject
            }
        }),
{
}

/// A strip is looked at once film is in or the unit is staged for more of it,
/// unless the operator asked to stop
pub proof fn law_film_starts_a_strip(batch: Batch, first: bool, cancelled: bool)
    ensures
        batch.step == (Step::WaitForFilm { first }) ==> batch.following(
            Event::FilmIn,
            cancelled,
        ).step == if cancelled {
            Step::Cancelled
        } else {
            Step::Discover
        },
        batch.step == Step::Stage ==> batch.following(Event::Staged, cancelled).step
            == if cancelled {
            Step::Cancelled
        } else {
            Step::Discover
        },
{
}

/// A batch that is neither targeted nor out of film goes on after an eject: by
/// the unit's own supply where it has one, with the next film where the last was
/// given back, and by asking the operator where it was not
pub proof fn law_a_batch_goes_on(batch: Batch, gave_back: bool, self_feeding: bool, cancelled: bool)
    requires
        batch.step == Step::Eject,
    ensures
        ({
            let next = batch.following(Event::Ejected { gave_back, self_feeding }, cancelled).step;
            let targeted = batch.orders.from_file || batch.orders.named;
            &&& targeted <==> next == Step::Done
            &&& !targeted && self_feeding <==> next == Step::Refill
            &&& !targeted && !self_feeding && gave_back <==> next == (Step::WaitForFilm {
                first: false,
            })
            &&& !targeted && !self_feeding && !gave_back <==> next == Step::AskOperator
        }),
{
}

/// A run that is asked whether to go on goes on where there is film or someone to
/// see to it, and is over where there is not
pub proof fn law_a_run_ends_where_nothing_is_left(batch: Batch, yes: bool, cancelled: bool)
    ensures
        batch.step == Step::Refill ==> batch.following(Event::Refilled(yes), cancelled).step
            == if yes {
            Step::Stage
        } else {
            Step::Done
        },
        batch.step == Step::AskOperator ==> batch.following(Event::Answered(yes), cancelled).step
            == if yes {
            Step::WaitForFilm { first: false }
        } else {
            Step::Done
        },
{
}

/// A run that is over stays over, and no event but the one a step is waiting for
/// moves it
pub proof fn law_only_what_is_waited_for_moves_a_run(batch: Batch, event: Event, cancelled: bool)
    ensures
        batch.step is Done || batch.step is Cancelled || batch.step is Failed
            ==> batch.following(event, cancelled) == batch,
        batch.following(event, cancelled) != batch ==> {
            ||| batch.step is WaitForFilm && event is FilmIn
            ||| batch.step is Discover && event is Found
            ||| batch.step is ScanFrame && event is Scanned
            ||| batch.step is Eject && event is Ejected
            ||| batch.step is Refill && event is Refilled
            ||| batch.step is Stage && event is Staged
            ||| batch.step is AskOperator && event is Answered
        },
        batch.following(event, cancelled).orders == batch.orders,
        !(batch.step is Discover) ==> batch.following(event, cancelled).frames == batch.frames,
{
}

/// Every row is read at once exactly where that makes sense at the resolution and
/// one at a time was not asked for
pub proof fn law_how_the_rows_are_read(superfine: bool, multiline_at_dpi: bool)
    ensures
        superfine ==> interleaving_for(superfine, multiline_at_dpi) == 0x02,
        !multiline_at_dpi ==> interleaving_for(superfine, multiline_at_dpi) == 0x02,
        !superfine && multiline_at_dpi ==> interleaving_for(superfine, multiline_at_dpi) == 0x40,
{
}

/// Reversal film reads one way, and film that develops to its base the other
pub proof fn law_polarity_of_a_film(film: FilmType)
    ensures
        <Polarity as vstd::std_specs::convert::FromSpec<FilmType>>::from_spec(film)
            == Polarity::Negative <==> film == FilmType::Negative || film == FilmType::Mono,
{
}

/// A named frame is missing exactly where its number is 0 or past the last frame
/// there is, and the first that is missing is the one that is reported
pub proof fn law_which_frame_is_missing(detected: int, wanted: Seq<usize>)
    ensures
        match first_missing(detected, wanted) {
            Some(n) => {
                &&& 0 <= n < wanted.len()
                &&& !(1 <= wanted[n] <= detected)
                &&& forall|k: int| 0 <= k < n ==> 1 <= #[trigger] wanted[k] <= detected
            },
            None => forall|k: int| 0 <= k < wanted.len() ==> 1 <= #[trigger] wanted[k] <= detected,
        },
{
    let pick = |n: int| wanted[n] < 1 || wanted[n] > detected;
    law_a_search_finds_the_first(wanted.len() as int, pick, 0);
    match first_missing(detected, wanted) {
        Some(n) => {
            assert forall|k: int| 0 <= k < n implies 1 <= #[trigger] wanted[k] <= detected by {
                assert(!pick(k));
            }
        },
        None => {
            assert forall|k: int| 0 <= k < wanted.len() implies 1 <= #[trigger] wanted[k]
                <= detected by {
                assert(!pick(k));
            }
        },
    }
}

/// A strip is asked for where an adapter is in and the unit is not one for medium
/// format, and a holder otherwise
pub proof fn law_what_is_asked_for_first(caps: &Capabilities)
    ensures
        caps.identity.medium_format() ==> !takes_strips(caps),
        caps.address.adapter_id is None || caps.address.adapter_id == Some(0u8) ==> !takes_strips(
            caps,
        ),
        !caps.identity.medium_format() && (caps.address.adapter_id matches Some(id) && id != 0)
            ==> takes_strips(caps),
{
}

/// A scan is planned unless the dust of a black and white negative is to be read:
/// its infrared is read where it is wanted for itself or for cleaning
pub proof fn law_what_is_planned(
    film: FilmType,
    ir: bool,
    clean: bool,
    superfine: bool,
    supported: bool,
    at_dpi: bool,
    r: Result<Plan, &'static str>,
)
    requires
        call_ensures(plan, (film, ir, clean, superfine, supported, at_dpi), r),
    ensures
        r is Err <==> film == FilmType::Mono && !(!ir && !clean),
        r matches Ok(p) ==> {
            &&& p.infrared <==> !(!ir && !clean)
            &&& p.interleaving.bits == 0x40 <==> at_dpi && !superfine
            &&& p.interleaving.bits == 0x02 <==> !at_dpi || superfine
            &&& p.superfine_is_idle <==> superfine && !supported
            &&& p.slower <==> supported && !superfine && !at_dpi
        },
{
}

/// Locking wins over unlocking and either over the film; a word is said where
/// one of them was asked for, and a warning where that changes anything
pub proof fn law_what_balance_is_held(
    default: bool,
    unlock: bool,
    lock: bool,
    r: (bool, BalanceNote),
)
    requires
        call_ensures(hold_white_balance, (default, unlock, lock), r),
    ensures
        r.0 <==> lock || !unlock && default,
        r.1 is Nothing <==> !(lock || unlock),
        r.1 is Override <==> lock && !default || !lock && unlock && default,
{
}

/// Named frames are handed over in the order they are named in, each as often as
/// it is named, and none where one of them is not there; without a name all are
pub proof fn law_which_frames_are_selected(
    detected: &[Rect],
    wanted: &[usize],
    r: Result<Vec<Rect>, String>,
)
    requires
        call_ensures(select, (detected, wanted), r),
    ensures
        wanted@.len() == 0 ==> (r matches Ok(frames) && frames@ == detected@),
        wanted@.len() > 0 ==> (r is Ok <==> forall|k: int|
            0 <= k < wanted@.len() ==> 1 <= #[trigger] wanted@[k] <= detected@.len()),
        wanted@.len() > 0 ==> (r matches Ok(frames) ==> frames@.len() == wanted@.len() && forall|
            k: int,
        |
            0 <= k < wanted@.len() ==> #[trigger] frames@[k] == detected@[wanted@[k] - 1]),
{
    law_which_frame_is_missing(detected@.len() as int, wanted@);
}

/// Nothing arrived where no block did, whatever was promised; a pass with blocks
/// in it is whole where it is complete
pub proof fn law_what_arrived(blocks: usize, complete: bool, r: Arrival)
    requires
        call_ensures(arrival, (blocks, complete), r),
    ensures
        r is Nothing <==> blocks == 0,
        r is Whole <==> blocks > 0 && complete,
        r is Short <==> blocks > 0 && !complete,
{
}

/// A run begins with nothing found, waiting for the first film
pub proof fn law_where_a_run_begins(orders: Orders, r: Batch)
    requires
        call_ensures(Batch::new, (orders,), r),
    ensures
        r.orders == orders,
        r.frames == 0,
        r.step == (Step::WaitForFilm { first: true }),
        r.wf(),
{
}

} // verus!
